//! What is put in front of somebody before it is done.

use crate::mutation::{mutation_confirmation, mutation_destructive, Mutation, MutationModel};
use crate::objects::ClusterId;
use crate::sessions::{exec_confirmation, ExecTarget, ExecTargetModel};
use crate::value::Value;
use std::sync::Arc;
use vstd::prelude::*;

verus! {

/// Something that waits for somebody to agree to it.
#[derive(Clone, Debug, PartialEq, Eq)]
pub enum Proposal {
    /// A change to an object.
    Mutation {
        /// The cluster the sentence names.
        cluster: ClusterId,
        /// The change.
        mutation: Arc<Mutation>,
    },
    /// A command to run in a container.
    Command {
        /// The cluster the sentence names.
        cluster: ClusterId,
        /// The command and where it runs.
        target: Arc<ExecTarget>,
    },
}

/// What a [`Proposal`] holds.
pub enum ProposalModel {
    /// A change to an object.
    Mutation {
        /// The cluster the sentence names.
        cluster: Seq<char>,
        /// The change.
        mutation: MutationModel,
    },
    /// A command to run in a container.
    Command {
        /// The cluster the sentence names.
        cluster: Seq<char>,
        /// The command and where it runs.
        target: ExecTargetModel,
    },
}

impl DeepView for Proposal {
    type V = ProposalModel;

    open spec fn deep_view(&self) -> ProposalModel {
        match self {
            Proposal::Mutation { cluster, mutation } => ProposalModel::Mutation {
                cluster: cluster.deep_view(),
                mutation: mutation.deep_view(),
            },
            Proposal::Command { cluster, target } => ProposalModel::Command {
                cluster: cluster.deep_view(),
                target: target.deep_view(),
            },
        }
    }
}

impl Value for Proposal {
    fn dup(&self) -> (copy: Self) {
        match self {
            Proposal::Mutation { cluster, mutation } => Proposal::Mutation {
                cluster: cluster.dup(),
                mutation: mutation.dup(),
            },
            Proposal::Command { cluster, target } => Proposal::Command {
                cluster: cluster.dup(),
                target: target.dup(),
            },
        }
    }

    fn same(&self, other: &Self) -> (equal: bool) {
        match (self, other) {
            (Proposal::Mutation { cluster, mutation }, Proposal::Mutation { cluster: cluster_too, mutation: mutation_too }) => {
                cluster.same(cluster_too)
                    && mutation.same(mutation_too)
            },
            (Proposal::Command { cluster, target }, Proposal::Command { cluster: cluster_too, target: target_too }) => {
                cluster.same(cluster_too)
                    && target.same(target_too)
            },
            _ => false,
        }
    }
}

/// The cluster something was proposed for.
pub open spec fn proposal_cluster(proposal: ProposalModel) -> Seq<char> {
    match proposal {
        ProposalModel::Mutation { cluster, .. } => cluster,
        ProposalModel::Command { cluster, .. } => cluster,
    }
}

/// The sentence somebody agrees to.
pub open spec fn proposal_sentence(proposal: ProposalModel) -> Seq<char> {
    match proposal {
        ProposalModel::Mutation { cluster, mutation } => mutation_confirmation(mutation, cluster),
        ProposalModel::Command { cluster, target } => exec_confirmation(target, cluster),
    }
}

/// Whether something could be lost. A command can do anything.
pub open spec fn proposal_destructive(proposal: ProposalModel) -> bool {
    match proposal {
        ProposalModel::Mutation { mutation, .. } => mutation_destructive(mutation),
        ProposalModel::Command { .. } => true,
    }
}

/// What there is to say beyond the sentence.
pub open spec fn proposal_warning(proposal: ProposalModel) -> Option<Seq<char>> {
    match proposal {
        ProposalModel::Mutation { mutation, .. } => if mutation_destructive(mutation) {
            Some("This cannot be undone."@)
        } else {
            None
        },
        ProposalModel::Command { .. } => Some(
            "Periscope cannot tell what a command does before it runs it."@,
        ),
    }
}

/// What the button that agrees says.
pub open spec fn proposal_verb(proposal: ProposalModel) -> Seq<char> {
    match proposal {
        ProposalModel::Mutation { mutation, .. } => match mutation {
            MutationModel::Delete { .. } => "Delete"@,
            MutationModel::Scale { .. } => "Scale"@,
            MutationModel::Restart { .. } => "Restart"@,
            MutationModel::Cordon { cordon, .. } => if cordon {
                "Cordon"@
            } else {
                "Uncordon"@
            },
            MutationModel::Drain { .. } => "Drain"@,
            MutationModel::Apply { dry_run, .. } => if dry_run {
                "Dry run"@
            } else {
                "Apply"@
            },
        },
        ProposalModel::Command { .. } => "Run"@,
    }
}

impl Proposal {
    /// The cluster this was proposed for.
    ///
    /// It is part of the proposal: whatever is looked at by the time somebody
    /// agrees, what is sent goes where the sentence said.
    pub fn cluster(&self) -> (cluster: &ClusterId)
        ensures
            cluster.deep_view() == proposal_cluster(self.deep_view()),
    {
        match self {
            Proposal::Mutation { cluster, .. } => cluster,
            Proposal::Command { cluster, .. } => cluster,
        }
    }

    /// The sentence somebody agrees to.
    pub fn confirmation(&self) -> (sentence: String)
        ensures
            sentence@ == proposal_sentence(self.deep_view()),
    {
        match self {
            Proposal::Mutation { cluster, mutation } => mutation.confirmation(cluster),
            Proposal::Command { cluster, target } => target.confirmation(cluster),
        }
    }

    /// Whether something could be lost.
    pub fn is_destructive(&self) -> (destructive: bool)
        ensures
            destructive == proposal_destructive(self.deep_view()),
    {
        match self {
            Proposal::Mutation { mutation, .. } => mutation.is_destructive(),
            Proposal::Command { .. } => true,
        }
    }

    /// What there is to say beyond the sentence.
    pub fn warning(&self) -> (warning: Option<&'static str>)
        ensures
            warning.deep_view() == proposal_warning(self.deep_view()),
    {
        match self {
            Proposal::Mutation { mutation, .. } => if mutation.is_destructive() {
                Some("This cannot be undone.")
            } else {
                None
            },
            Proposal::Command { .. } => Some("Periscope cannot tell what a command does before it runs it."),
        }
    }

    /// What the button that agrees says.
    pub fn verb(&self) -> (verb: &'static str)
        ensures
            verb@ == proposal_verb(self.deep_view()),
    {
        match self {
            Proposal::Mutation { mutation, .. } => match &**mutation {
                Mutation::Delete { .. } => "Delete",
                Mutation::Scale { .. } => "Scale",
                Mutation::Restart { .. } => "Restart",
                Mutation::Cordon { cordon, .. } => if *cordon {
                    "Cordon"
                } else {
                    "Uncordon"
                },
                Mutation::Drain { .. } => "Drain",
                Mutation::Apply { dry_run, .. } => if *dry_run {
                    "Dry run"
                } else {
                    "Apply"
                },
            },
            Proposal::Command { .. } => "Run",
        }
    }
}

/// Something can be lost by a command, and by taking an object or a node's pods
/// away; only then, and always then, there is more to say than the question.
pub proof fn what_can_be_lost_is_warned_of(proposal: ProposalModel)
    ensures
        proposal is Command ==> proposal_destructive(proposal),
        proposal matches ProposalModel::Mutation { mutation, .. } ==> (proposal_destructive(proposal)
            <==> mutation is Delete || mutation is Drain),
        proposal_warning(proposal) is Some <==> proposal_destructive(proposal),
{
}

} // verus!

//! Changes to a cluster, and what came of them.

use crate::objects::{kind_label, ClusterId, KeyModel, KindId, KindModel, ResourceKey};
use crate::text::{decimal, joined, to_decimal};
use crate::value::Value;
use vstd::prelude::*;

verus! {

/// One change to one object.
#[derive(Clone, Debug, PartialEq, Eq)]
pub enum Mutation {
    /// Delete it.
    Delete {
        /// The kind of the object.
        kind: KindId,
        /// Which object.
        key: ResourceKey,
        /// Seconds it is given to stop; its own if none.
        grace_period: Option<u32>,
    },
    /// Run a number of replicas of it.
    Scale {
        /// The kind of the object.
        kind: KindId,
        /// Which object.
        key: ResourceKey,
        /// How many.
        replicas: u32,
        /// How many there are, if that is known.
        current: Option<u32>,
    },
    /// Replace its pods one after the other.
    Restart {
        /// The kind of the object.
        kind: KindId,
        /// Which object.
        key: ResourceKey,
    },
    /// Keep new pods off a node, or let them on again.
    Cordon {
        /// The node.
        node: String,
        /// Whether to keep them off.
        cordon: bool,
    },
    /// Move everything off a node.
    Drain {
        /// The node.
        node: String,
        /// Seconds the pods are given to stop.
        grace_period: Option<u32>,
    },
    /// Replace it with an edited version.
    Apply {
        /// The kind of the object.
        kind: KindId,
        /// Which object.
        key: ResourceKey,
        /// The edited version.
        yaml: String,
        /// Whether to only ask what would happen.
        dry_run: bool,
    },
}

/// What a [`Mutation`] holds.
pub enum MutationModel {
    /// Delete it.
    Delete {
        /// The kind of the object.
        kind: KindModel,
        /// Which object.
        key: KeyModel,
        /// Seconds it is given to stop; its own if none.
        grace_period: Option<u32>,
    },
    /// Run a number of replicas of it.
    Scale {
        /// The kind of the object.
        kind: KindModel,
        /// Which object.
        key: KeyModel,
        /// How many.
        replicas: u32,
        /// How many there are, if that is known.
        current: Option<u32>,
    },
    /// Replace its pods one after the other.
    Restart {
        /// The kind of the object.
        kind: KindModel,
        /// Which object.
        key: KeyModel,
    },
    /// Keep new pods off a node, or let them on again.
    Cordon {
        /// The node.
        node: Seq<char>,
        /// Whether to keep them off.
        cordon: bool,
    },
    /// Move everything off a node.
    Drain {
        /// The node.
        node: Seq<char>,
        /// Seconds the pods are given to stop.
        grace_period: Option<u32>,
    },
    /// Replace it with an edited version.
    Apply {
        /// The kind of the object.
        kind: KindModel,
        /// Which object.
        key: KeyModel,
        /// The edited version.
        yaml: Seq<char>,
        /// Whether to only ask what would happen.
        dry_run: bool,
    },
}

impl DeepView for Mutation {
    type V = MutationModel;

    open spec fn deep_view(&self) -> MutationModel {
        match self {
            Mutation::Delete { kind, key, grace_period } => MutationModel::Delete {
                kind: kind.deep_view(),
                key: key.deep_view(),
                grace_period: grace_period.deep_view(),
            },
            Mutation::Scale { kind, key, replicas, current } => MutationModel::Scale {
                kind: kind.deep_view(),
                key: key.deep_view(),
                replicas: replicas.deep_view(),
                current: current.deep_view(),
            },
            Mutation::Restart { kind, key } => MutationModel::Restart {
                kind: kind.deep_view(),
                key: key.deep_view(),
            },
            Mutation::Cordon { node, cordon } => MutationModel::Cordon {
                node: node.deep_view(),
                cordon: cordon.deep_view(),
            },
            Mutation::Drain { node, grace_period } => MutationModel::Drain {
                node: node.deep_view(),
                grace_period: grace_period.deep_view(),
            },
            Mutation::Apply { kind, key, yaml, dry_run } => MutationModel::Apply {
                kind: kind.deep_view(),
                key: key.deep_view(),
                yaml: yaml.deep_view(),
                dry_run: dry_run.deep_view(),
            },
        }
    }
}

impl Value for Mutation {
    fn dup(&self) -> (copy: Self) {
        match self {
            Mutation::Delete { kind, key, grace_period } => Mutation::Delete {
                kind: kind.dup(),
                key: key.dup(),
                grace_period: grace_period.dup(),
            },
            Mutation::Scale { kind, key, replicas, current } => Mutation::Scale {
                kind: kind.dup(),
                key: key.dup(),
                replicas: replicas.dup(),
                current: current.dup(),
            },
            Mutation::Restart { kind, key } => Mutation::Restart {
                kind: kind.dup(),
                key: key.dup(),
            },
            Mutation::Cordon { node, cordon } => Mutation::Cordon {
                node: node.dup(),
                cordon: cordon.dup(),
            },
            Mutation::Drain { node, grace_period } => Mutation::Drain {
                node: node.dup(),
                grace_period: grace_period.dup(),
            },
            Mutation::Apply { kind, key, yaml, dry_run } => Mutation::Apply {
                kind: kind.dup(),
                key: key.dup(),
                yaml: yaml.dup(),
                dry_run: dry_run.dup(),
            },
        }
    }

    fn same(&self, other: &Self) -> (equal: bool) {
        match (self, other) {
            (Mutation::Delete { kind, key, grace_period }, Mutation::Delete { kind: kind_too, key: key_too, grace_period: grace_period_too }) => {
                kind.same(kind_too)
                    && key.same(key_too)
                    && grace_period.same(grace_period_too)
            },
            (Mutation::Scale { kind, key, replicas, current }, Mutation::Scale { kind: kind_too, key: key_too, replicas: replicas_too, current: current_too }) => {
                kind.same(kind_too)
                    && key.same(key_too)
                    && replicas.same(replicas_too)
                    && current.same(current_too)
            },
            (Mutation::Restart { kind, key }, Mutation::Restart { kind: kind_too, key: key_too }) => {
                kind.same(kind_too)
                    && key.same(key_too)
            },
            (Mutation::Cordon { node, cordon }, Mutation::Cordon { node: node_too, cordon: cordon_too }) => {
                node.same(node_too)
                    && cordon.same(cordon_too)
            },
            (Mutation::Drain { node, grace_period }, Mutation::Drain { node: node_too, grace_period: grace_period_too }) => {
                node.same(node_too)
                    && grace_period.same(grace_period_too)
            },
            (Mutation::Apply { kind, key, yaml, dry_run }, Mutation::Apply { kind: kind_too, key: key_too, yaml: yaml_too, dry_run: dry_run_too }) => {
                kind.same(kind_too)
                    && key.same(key_too)
                    && yaml.same(yaml_too)
                    && dry_run.same(dry_run_too)
            },
            _ => false,
        }
    }
}

/// The kind that nodes are.
pub open spec fn node_kind() -> KindModel {
    KindModel { group: ""@, version: "v1"@, kind: "Node"@, plural: "nodes"@ }
}

/// The word for a change.
pub open spec fn mutation_verb(mutation: MutationModel) -> Seq<char> {
    match mutation {
        MutationModel::Delete { .. } => "delete"@,
        MutationModel::Scale { .. } => "scale"@,
        MutationModel::Restart { .. } => "restart"@,
        MutationModel::Cordon { cordon, .. } => if cordon {
            "cordon"@
        } else {
            "uncordon"@
        },
        MutationModel::Drain { .. } => "drain"@,
        MutationModel::Apply { dry_run, .. } => if dry_run {
            "dry-run"@
        } else {
            "apply"@
        },
    }
}

/// Which object a change is to.
pub open spec fn mutation_key(mutation: MutationModel) -> KeyModel {
    match mutation {
        MutationModel::Delete { key, .. } => key,
        MutationModel::Scale { key, .. } => key,
        MutationModel::Restart { key, .. } => key,
        MutationModel::Cordon { node, .. } => KeyModel { namespace: ""@, name: node },
        MutationModel::Drain { node, .. } => KeyModel { namespace: ""@, name: node },
        MutationModel::Apply { key, .. } => key,
    }
}

/// The kind of that object.
pub open spec fn mutation_kind(mutation: MutationModel) -> KindModel {
    match mutation {
        MutationModel::Delete { kind, .. } => kind,
        MutationModel::Scale { kind, .. } => kind,
        MutationModel::Restart { kind, .. } => kind,
        MutationModel::Cordon { .. } => node_kind(),
        MutationModel::Drain { .. } => node_kind(),
        MutationModel::Apply { kind, .. } => kind,
    }
}

/// Whether a change takes something away that does not come back.
pub open spec fn mutation_destructive(mutation: MutationModel) -> bool {
    mutation is Delete || mutation is Drain
}

/// What a change says beyond its verb and its object.
pub open spec fn mutation_detail(mutation: MutationModel) -> Seq<char> {
    match mutation {
        MutationModel::Scale { replicas, current, .. } => scale_text(replicas, current),
        _ => ""@,
    }
}

/// From how many replicas to how many.
pub open spec fn scale_text(replicas: u32, current: Option<u32>) -> Seq<char> {
    match current {
        Some(current) => "from "@ + decimal(current as nat) + " to "@ + decimal(replicas as nat),
        None => "to "@ + decimal(replicas as nat),
    }
}

/// The object of a sentence: its kind, its name, and its namespace if it is in
/// one.
pub open spec fn object_text(mutation: MutationModel) -> Seq<char> {
    let key = mutation_key(mutation);
    let object = kind_label(mutation_kind(mutation)) + " "@ + key.name;
    if key.namespace.len() > 0 {
        object + " in namespace "@ + key.namespace
    } else {
        object
    }
}

/// The sentence that asks whether to make a change.
pub open spec fn mutation_confirmation(mutation: MutationModel, cluster: Seq<char>) -> Seq<char> {
    let ask = match mutation {
        MutationModel::Delete { .. } => "Delete "@,
        MutationModel::Scale { .. } => "Scale "@,
        MutationModel::Restart { .. } => "Restart "@,
        MutationModel::Cordon { cordon, .. } => if cordon {
            "Cordon "@
        } else {
            "Uncordon "@
        },
        MutationModel::Drain { .. } => "Drain "@,
        MutationModel::Apply { dry_run, .. } => if dry_run {
            "Try, without changing anything, the edited "@
        } else {
            "Apply the edited "@
        },
    };
    let named = ask + object_text(mutation) + " on cluster "@ + cluster;
    if mutation is Scale {
        named + " "@ + mutation_detail(mutation) + "?"@
    } else {
        named + "?"@
    }
}

impl Mutation {
    /// The word for this change.
    pub fn verb(&self) -> (verb: &'static str)
        ensures
            verb@ == mutation_verb(self.deep_view()),
    {
        match self {
            Mutation::Delete { .. } => "delete",
            Mutation::Scale { .. } => "scale",
            Mutation::Restart { .. } => "restart",
            Mutation::Cordon { cordon, .. } => if *cordon {
                "cordon"
            } else {
                "uncordon"
            },
            Mutation::Drain { .. } => "drain",
            Mutation::Apply { dry_run, .. } => if *dry_run {
                "dry-run"
            } else {
                "apply"
            },
        }
    }

    /// Which object it is to.
    pub fn key(&self) -> (key: ResourceKey)
        ensures
            key.deep_view() == mutation_key(self.deep_view()),
    {
        match self {
            Mutation::Delete { key, .. } => key.dup(),
            Mutation::Scale { key, .. } => key.dup(),
            Mutation::Restart { key, .. } => key.dup(),
            Mutation::Cordon { node, .. } => ResourceKey::new("", node.as_str()),
            Mutation::Drain { node, .. } => ResourceKey::new("", node.as_str()),
            Mutation::Apply { key, .. } => key.dup(),
        }
    }

    /// The kind of that object.
    pub fn kind(&self) -> (kind: KindId)
        ensures
            kind.deep_view() == mutation_kind(self.deep_view()),
    {
        match self {
            Mutation::Delete { kind, .. } => kind.dup(),
            Mutation::Scale { kind, .. } => kind.dup(),
            Mutation::Restart { kind, .. } => kind.dup(),
            Mutation::Cordon { .. } => KindId::new("", "v1", "Node", "nodes"),
            Mutation::Drain { .. } => KindId::new("", "v1", "Node", "nodes"),
            Mutation::Apply { kind, .. } => kind.dup(),
        }
    }

    /// Whether it takes something away that does not come back.
    pub fn is_destructive(&self) -> (destructive: bool)
        ensures
            destructive == mutation_destructive(self.deep_view()),
    {
        match self {
            Mutation::Delete { .. } => true,
            Mutation::Drain { .. } => true,
            _ => false,
        }
    }

    /// What it says beyond its verb and its object.
    pub fn detail(&self) -> (detail: String)
        ensures
            detail@ == mutation_detail(self.deep_view()),
    {
        match self {
            Mutation::Scale { replicas, current, .. } => {
                let to: String = to_decimal(*replicas as u64);
                match current {
                    Some(current) => {
                        let from: String = joined("from ".to_owned(), to_decimal(*current as u64).as_str());
                        joined(joined(from, " to "), to.as_str())
                    },
                    None => joined("to ".to_owned(), to.as_str()),
                }
            },
            _ => "".to_owned(),
        }
    }

    /// The sentence that asks whether to make this change on a cluster: it
    /// names the cluster, the object and what would happen to it.
    pub fn confirmation(&self, cluster: &ClusterId) -> (sentence: String)
        ensures
            sentence@ == mutation_confirmation(self.deep_view(), cluster.deep_view()),
    {
        let ask: &str = match self {
            Mutation::Delete { .. } => "Delete ",
            Mutation::Scale { .. } => "Scale ",
            Mutation::Restart { .. } => "Restart ",
            Mutation::Cordon { cordon, .. } => if *cordon {
                "Cordon "
            } else {
                "Uncordon "
            },
            Mutation::Drain { .. } => "Drain ",
            Mutation::Apply { dry_run, .. } => if *dry_run {
                "Try, without changing anything, the edited "
            } else {
                "Apply the edited "
            },
        };
        let key: ResourceKey = self.key();
        let object: String = joined(joined(self.kind().label(), " "), key.name.as_str());
        let placed: String = if key.is_namespaced() {
            joined(joined(object, " in namespace "), key.namespace.as_str())
        } else {
            object
        };
        let named: String = joined(
            joined(joined(ask.to_owned(), placed.as_str()), " on cluster "),
            cluster.as_str(),
        );
        match self {
            Mutation::Scale { .. } => joined(joined(joined(named, " "), self.detail().as_str()), "?"),
            _ => joined(named, "?"),
        }
    }
}

/// What came of a change.
#[derive(Clone, Debug, PartialEq, Eq)]
pub enum MutationOutcome {
    /// It was made.
    Applied {
        /// What the cluster said.
        detail: String,
    },
    /// It was not allowed.
    Refused {
        /// Why.
        reason: String,
    },
    /// It was tried and failed.
    Failed {
        /// Why.
        reason: String,
    },
}

/// What a [`MutationOutcome`] holds.
pub enum MutationOutcomeModel {
    /// It was made.
    Applied {
        /// What the cluster said.
        detail: Seq<char>,
    },
    /// It was not allowed.
    Refused {
        /// Why.
        reason: Seq<char>,
    },
    /// It was tried and failed.
    Failed {
        /// Why.
        reason: Seq<char>,
    },
}

impl DeepView for MutationOutcome {
    type V = MutationOutcomeModel;

    open spec fn deep_view(&self) -> MutationOutcomeModel {
        match self {
            MutationOutcome::Applied { detail } => MutationOutcomeModel::Applied {
                detail: detail.deep_view(),
            },
            MutationOutcome::Refused { reason } => MutationOutcomeModel::Refused {
                reason: reason.deep_view(),
            },
            MutationOutcome::Failed { reason } => MutationOutcomeModel::Failed {
                reason: reason.deep_view(),
            },
        }
    }
}

impl Value for MutationOutcome {
    fn dup(&self) -> (copy: Self) {
        match self {
            MutationOutcome::Applied { detail } => MutationOutcome::Applied {
                detail: detail.dup(),
            },
            MutationOutcome::Refused { reason } => MutationOutcome::Refused {
                reason: reason.dup(),
            },
            MutationOutcome::Failed { reason } => MutationOutcome::Failed {
                reason: reason.dup(),
            },
        }
    }

    fn same(&self, other: &Self) -> (equal: bool) {
        match (self, other) {
            (MutationOutcome::Applied { detail }, MutationOutcome::Applied { detail: detail_too }) => {
                detail.same(detail_too)
            },
            (MutationOutcome::Refused { reason }, MutationOutcome::Refused { reason: reason_too }) => {
                reason.same(reason_too)
            },
            (MutationOutcome::Failed { reason }, MutationOutcome::Failed { reason: reason_too }) => {
                reason.same(reason_too)
            },
            _ => false,
        }
    }
}

/// What there is to say about an outcome.
pub open spec fn outcome_message(outcome: MutationOutcomeModel) -> Seq<char> {
    match outcome {
        MutationOutcomeModel::Applied { detail } => detail,
        MutationOutcomeModel::Refused { reason } => reason,
        MutationOutcomeModel::Failed { reason } => reason,
    }
}

impl MutationOutcome {
    /// Whether the change was not made.
    pub fn is_problem(&self) -> (problem: bool)
        ensures
            problem == !(self.deep_view() is Applied),
    {
        match self {
            MutationOutcome::Applied { .. } => false,
            _ => true,
        }
    }

    /// What there is to say about it.
    pub fn message(&self) -> (message: String)
        ensures
            message@ == outcome_message(self.deep_view()),
    {
        match self {
            MutationOutcome::Applied { detail } => detail.clone(),
            MutationOutcome::Refused { reason } => reason.clone(),
            MutationOutcome::Failed { reason } => reason.clone(),
        }
    }
}

} // verus!

//! Which clusters may be changed, and the proof that something was allowed.

use crate::keyed::OrdSet;
use crate::mutation::{Mutation, MutationModel};
use crate::objects::ClusterId;
use crate::sessions::{ExecTarget, ExecTargetModel};
use crate::text::joined;
use crate::value::Value;
use std::sync::Arc;
use vstd::prelude::*;

verus! {

/// Why something was not allowed.
#[derive(Clone, Debug, PartialEq, Eq)]
pub enum Refusal {
    /// The cluster is read-only.
    ReadOnly {
        /// Which cluster.
        cluster: ClusterId,
    },
    /// There is no connection to the cluster.
    NotConnected {
        /// Which cluster.
        cluster: ClusterId,
    },
}

/// What a [`Refusal`] holds.
pub enum RefusalModel {
    /// The cluster is read-only.
    ReadOnly {
        /// Which cluster.
        cluster: Seq<char>,
    },
    /// There is no connection to the cluster.
    NotConnected {
        /// Which cluster.
        cluster: Seq<char>,
    },
}

impl DeepView for Refusal {
    type V = RefusalModel;

    open spec fn deep_view(&self) -> RefusalModel {
        match self {
            Refusal::ReadOnly { cluster } => RefusalModel::ReadOnly { cluster: cluster.deep_view() },
            Refusal::NotConnected { cluster } => RefusalModel::NotConnected { cluster: cluster.deep_view() },
        }
    }
}

/// What somebody who was refused is told.
pub open spec fn refusal_reason(refusal: RefusalModel) -> Seq<char> {
    match refusal {
        RefusalModel::ReadOnly { cluster } => cluster
            + " is read-only. Remove it from `read-only` in settings.toml to allow changes."@,
        RefusalModel::NotConnected { cluster } => "Not connected to "@ + cluster + "."@,
    }
}

impl Refusal {
    /// What somebody who was refused is told.
    pub fn reason(&self) -> (reason: String)
        ensures
            reason@ == refusal_reason(self.deep_view()),
    {
        match self {
            Refusal::ReadOnly { cluster } => joined(
                cluster.name.clone(),
                " is read-only. Remove it from `read-only` in settings.toml to allow changes.",
            ),
            Refusal::NotConnected { cluster } => joined(
                joined("Not connected to ".to_owned(), cluster.as_str()),
                ".",
            ),
        }
    }
}

/// What the settings say about changing clusters.
#[derive(Clone, Debug, PartialEq, Eq)]
pub struct Access {
    /// Clusters that must not be changed.
    pub read_only: Vec<String>,
    /// Whether a cluster nobody mentions must not be changed.
    pub read_only_by_default: bool,
    /// Clusters that may be changed although others may not.
    pub writable: Vec<String>,
}

impl Default for Access {
    fn default() -> (access: Self)
        ensures
            access.read_only.deep_view() == Seq::<Seq<char>>::empty(),
            !access.read_only_by_default,
            access.writable.deep_view() == Seq::<Seq<char>>::empty(),
    {
        let access: Access = Access {
            read_only: Vec::new(),
            read_only_by_default: false,
            writable: Vec::new(),
        };
        assert(access.read_only.deep_view() =~= Seq::empty());
        assert(access.writable.deep_view() =~= Seq::empty());
        access
    }
}

impl Access {
    /// Adds a cluster that must not be changed.
    pub fn deny(&mut self, cluster: &str)
        ensures
            final(self).read_only.deep_view() == old(self).read_only.deep_view().push(cluster@),
            final(self).read_only_by_default == old(self).read_only_by_default,
            final(self).writable == old(self).writable,
    {
        self.read_only.push(cluster.to_owned());
        assert(self.read_only.deep_view() =~= old(self).read_only.deep_view().push(cluster@));
    }
}

/// The policy: which clusters may be changed.
#[derive(Clone, Debug, PartialEq, Eq)]
pub struct Permissions {
    read_only: OrdSet<ClusterId>,
    read_only_by_default: bool,
    writable: OrdSet<ClusterId>,
}

/// What a [`Permissions`] holds.
pub struct PermissionsModel {
    /// Clusters that must not be changed.
    pub read_only: Set<Seq<char>>,
    /// Whether a cluster nobody mentions must not be changed.
    pub read_only_by_default: bool,
    /// Clusters that may be changed although others may not.
    pub writable: Set<Seq<char>>,
}

impl View for Permissions {
    type V = PermissionsModel;

    closed spec fn view(&self) -> PermissionsModel {
        PermissionsModel {
            read_only: self.read_only@,
            read_only_by_default: self.read_only_by_default,
            writable: self.writable@,
        }
    }
}

impl PermissionsModel {
    /// The policy that allows everything.
    pub open spec fn permissive() -> PermissionsModel {
        PermissionsModel {
            read_only: Set::empty(),
            read_only_by_default: false,
            writable: Set::empty(),
        }
    }

    /// Whether a cluster may be changed: it is not denied, and where clusters
    /// are read-only by default it is allowed by name.
    pub open spec fn may_mutate(self, cluster: Seq<char>) -> bool {
        !self.read_only.contains(cluster) && (self.read_only_by_default ==> self.writable.contains(cluster))
    }

    /// The policy with a cluster denied.
    pub open spec fn denied(self, cluster: Seq<char>) -> PermissionsModel {
        PermissionsModel {
            read_only: self.read_only.insert(cluster),
            read_only_by_default: self.read_only_by_default,
            writable: self.writable.remove(cluster),
        }
    }
}

/// A denied cluster may not be changed, whatever else allowed it, and denying
/// one cluster decides nothing about another.
pub proof fn denial_is_final(policy: PermissionsModel, cluster: Seq<char>, other: Seq<char>)
    ensures
        !policy.denied(cluster).may_mutate(cluster),
        other != cluster ==> policy.denied(cluster).may_mutate(other) == policy.may_mutate(other),
        policy.denied(cluster).may_mutate(other) ==> policy.may_mutate(other),
{
}

/// A cluster that is listed both as read-only and as writable is read-only.
pub proof fn read_only_beats_writable(policy: PermissionsModel, cluster: Seq<char>)
    requires
        policy.read_only.contains(cluster),
        policy.writable.contains(cluster),
    ensures
        !policy.may_mutate(cluster),
{
}

fn clusters_named(names: &Vec<String>) -> (clusters: Vec<ClusterId>)
    ensures
        clusters.deep_view() == names.deep_view(),
{
    let mut clusters: Vec<ClusterId> = Vec::new();
    let mut at: usize = 0;
    while at < names.len()
        invariant
            at <= names.len(),
            clusters.deep_view() == names.deep_view().take(at as int),
        decreases names.len() - at,
    {
        let ghost before = clusters.deep_view();
        clusters.push(ClusterId::new(names[at].as_str()));
        at += 1;
        assert(clusters.deep_view() =~= before.push(names.deep_view()[at - 1]));
        assert(names.deep_view().take(at as int) =~= before.push(names.deep_view()[at - 1]));
    }
    assert(names.deep_view().take(at as int) =~= names.deep_view());
    clusters
}

impl Default for Permissions {
    fn default() -> (policy: Self)
        ensures
            policy.wf(),
            policy@ == PermissionsModel::permissive(),
    {
        Permissions::permissive()
    }
}

impl Permissions {
    /// Whether the sets are in order.
    pub closed spec fn wf(&self) -> bool {
        self.read_only.wf() && self.writable.wf()
    }

    /// The policy that allows everything.
    pub fn permissive() -> (policy: Self)
        ensures
            policy.wf(),
            policy@ == PermissionsModel::permissive(),
    {
        Permissions {
            read_only: OrdSet::new(),
            read_only_by_default: false,
            writable: OrdSet::new(),
        }
    }

    /// The policy the settings describe.
    pub fn from_access(access: &Access) -> (policy: Self)
        ensures
            policy.wf(),
            policy@ == (PermissionsModel {
                read_only: access.read_only.deep_view().to_set(),
                read_only_by_default: access.read_only_by_default,
                writable: access.writable.deep_view().to_set(),
            }),
    {
        Permissions {
            read_only: OrdSet::of(&clusters_named(&access.read_only)),
            read_only_by_default: access.read_only_by_default,
            writable: OrdSet::of(&clusters_named(&access.writable)),
        }
    }

    /// The policy under which only the clusters named may be changed.
    pub fn read_only_except(writable: &Vec<ClusterId>) -> (policy: Self)
        ensures
            policy.wf(),
            policy@ == (PermissionsModel {
                read_only: Set::empty(),
                read_only_by_default: true,
                writable: writable.deep_view().to_set(),
            }),
    {
        Permissions {
            read_only: OrdSet::new(),
            read_only_by_default: true,
            writable: OrdSet::of(writable),
        }
    }

    /// Denies a cluster, whatever allowed it before.
    pub fn deny(&mut self, cluster: ClusterId)
        requires
            old(self).wf(),
        ensures
            final(self).wf(),
            final(self)@ == old(self)@.denied(cluster.deep_view()),
    {
        self.writable.remove(&cluster);
        let _ = self.read_only.insert(cluster);
    }

    /// Whether a cluster may be changed.
    pub fn may_mutate(&self, cluster: &ClusterId) -> (allowed: bool)
        requires
            self.wf(),
        ensures
            allowed == self@.may_mutate(cluster.deep_view()),
    {
        if self.read_only.contains(cluster) {
            return false;
        }
        if self.read_only_by_default {
            return self.writable.contains(cluster);
        }
        true
    }

    /// The clusters that are denied by name, in order.
    pub fn read_only_clusters(&self) -> (clusters: Vec<ClusterId>)
        requires
            self.wf(),
        ensures
            clusters.deep_view().to_set() == self@.read_only,
            forall|i: int, j: int|
                0 <= i < j < clusters.len() ==> crate::text::text_before(
                    (#[trigger] clusters.deep_view()[i]),
                    (#[trigger] clusters.deep_view()[j]),
                ),
    {
        self.read_only.members()
    }

    /// Whether a cluster nobody mentions must not be changed.
    pub fn is_read_only_by_default(&self) -> (by_default: bool)
        ensures
            by_default == self@.read_only_by_default,
    {
        self.read_only_by_default
    }
}

/// A change that was allowed, and where.
#[derive(Clone, Debug, PartialEq, Eq)]
pub struct Authorized {
    cluster: ClusterId,
    mutation: Arc<Mutation>,
}

impl View for Authorized {
    type V = (Seq<char>, MutationModel);

    closed spec fn view(&self) -> (Seq<char>, MutationModel) {
        (self.cluster.deep_view(), self.mutation.deep_view())
    }
}

impl Authorized {
    /// Records that a change was allowed.
    pub(crate) fn new(cluster: ClusterId, mutation: Arc<Mutation>) -> (authorized: Self)
        ensures
            authorized@ == (cluster.deep_view(), mutation.deep_view()),
    {
        Authorized { cluster, mutation }
    }

    /// The cluster it was allowed on.
    pub fn cluster(&self) -> (cluster: &ClusterId)
        ensures
            cluster.deep_view() == self@.0,
    {
        &self.cluster
    }

    /// The change.
    pub fn mutation(&self) -> (mutation: &Arc<Mutation>)
        ensures
            mutation.deep_view() == self@.1,
    {
        &self.mutation
    }

    /// The cluster and the change, to send.
    pub fn into_parts(self) -> (parts: (ClusterId, Arc<Mutation>))
        ensures
            parts.0.deep_view() == self@.0,
            parts.1.deep_view() == self@.1,
    {
        (self.cluster, self.mutation)
    }
}

/// A command that was allowed, and where.
#[derive(Clone, Debug, PartialEq, Eq)]
pub struct AuthorizedExec {
    cluster: ClusterId,
    target: Arc<ExecTarget>,
}

impl View for AuthorizedExec {
    type V = (Seq<char>, ExecTargetModel);

    closed spec fn view(&self) -> (Seq<char>, ExecTargetModel) {
        (self.cluster.deep_view(), self.target.deep_view())
    }
}

impl AuthorizedExec {
    /// Records that a command was allowed.
    pub(crate) fn new(cluster: ClusterId, target: Arc<ExecTarget>) -> (authorized: Self)
        ensures
            authorized@ == (cluster.deep_view(), target.deep_view()),
    {
        AuthorizedExec { cluster, target }
    }

    /// The cluster it was allowed on.
    pub fn cluster(&self) -> (cluster: &ClusterId)
        ensures
            cluster.deep_view() == self@.0,
    {
        &self.cluster
    }

    /// The command and where it runs.
    pub fn target(&self) -> (target: &Arc<ExecTarget>)
        ensures
            target.deep_view() == self@.1,
    {
        &self.target
    }

    /// The cluster and the command, to send.
    pub fn into_parts(self) -> (parts: (ClusterId, Arc<ExecTarget>))
        ensures
            parts.0.deep_view() == self@.0,
            parts.1.deep_view() == self@.1,
    {
        (self.cluster, self.target)
    }
}

} // verus!

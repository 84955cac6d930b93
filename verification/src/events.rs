//! What the cluster side reports, and what it can be asked to do.

use crate::clock::Duration;
use crate::mutation::{Mutation, MutationModel, MutationOutcome, MutationOutcomeModel};
use crate::objects::{
    ClusterId, ColumnModel, ColumnSpec, ContextInfo, ContextModel, KeyModel, KindId, KindInfo, KindInfoModel,
    KindModel, ObjectDetail, ObjectModel, ResourceKey, ResourceRow, RowModel,
};
use crate::sessions::{
    ConnectionState, ConnectionStateModel, ExecStatus, ExecStatusModel, ExecTarget, ExecTargetModel, ForwardId,
    ForwardInfo, ForwardInfoModel, ForwardTarget, ForwardTargetModel, LineModel, LogLine, LogSource, LogSourceState,
    LogSourceStateModel, LogTarget, LogTargetModel, SourceModel,
};
use crate::value::Value;
use std::sync::Arc;
use vstd::prelude::*;

verus! {

/// Something the cluster side reports.
#[derive(Clone, Debug, PartialEq, Eq)]
pub enum ClusterEvent {
    /// The kubeconfig was read.
    Contexts {
        /// Its contexts.
        contexts: Vec<ContextInfo>,
        /// The current one.
        current: Option<ClusterId>,
    },
    /// The kubeconfig could not be read.
    ConfigFailed {
        /// Why.
        reason: String,
    },
    /// Discovery finished.
    Kinds {
        /// The cluster.
        cluster: ClusterId,
        /// The kinds the cluster serves.
        kinds: Arc<Vec<KindInfo>>,
    },
    /// A kind was listed from scratch.
    ResourceReset {
        /// The cluster.
        cluster: ClusterId,
        /// The kind.
        kind: KindId,
        /// The columns of its rows.
        columns: Arc<Vec<ColumnSpec>>,
        /// Every row.
        rows: Vec<ResourceRow>,
    },
    /// A row is new or different.
    ResourceApplied {
        /// The cluster.
        cluster: ClusterId,
        /// The kind.
        kind: KindId,
        /// The row.
        row: Arc<ResourceRow>,
    },
    /// A row is gone.
    ResourceDeleted {
        /// The cluster.
        cluster: ClusterId,
        /// The kind.
        kind: KindId,
        /// Which one.
        key: ResourceKey,
    },
    /// An object was fetched.
    Object {
        /// The cluster.
        cluster: ClusterId,
        /// The kind.
        kind: KindId,
        /// The object.
        detail: Arc<ObjectDetail>,
    },
    /// A kind cannot be listed.
    KindFailed {
        /// The cluster.
        cluster: ClusterId,
        /// The kind.
        kind: KindId,
        /// Why.
        reason: String,
    },
    /// An object could not be fetched.
    ObjectFailed {
        /// The cluster.
        cluster: ClusterId,
        /// The kind.
        kind: KindId,
        /// Which one.
        key: ResourceKey,
        /// Why.
        reason: String,
    },
    /// Log lines arrived.
    LogBatch {
        /// The cluster.
        cluster: ClusterId,
        /// The lines.
        lines: Vec<LogLine>,
    },
    /// A source of log lines changed state.
    LogSourceChanged {
        /// The cluster.
        cluster: ClusterId,
        /// Which one.
        source: LogSource,
        /// What it does now.
        state: LogSourceState,
    },
    /// A tail broke off.
    LogsFailed {
        /// The cluster.
        cluster: ClusterId,
        /// Why.
        reason: String,
    },
    /// A change was answered.
    MutationDone {
        /// The cluster.
        cluster: ClusterId,
        /// The change.
        mutation: Arc<Mutation>,
        /// What came of it.
        outcome: MutationOutcome,
    },
    /// A forward changed state.
    ForwardChanged {
        /// The cluster.
        cluster: ClusterId,
        /// The forward.
        forward: Arc<ForwardInfo>,
    },
    /// A command printed something.
    ExecOutput {
        /// The cluster.
        cluster: ClusterId,
        /// The lines.
        lines: Vec<LogLine>,
    },
    /// A command ended.
    ExecFinished {
        /// The cluster.
        cluster: ClusterId,
        /// How.
        status: ExecStatus,
    },
    /// A connection changed state.
    Status {
        /// The cluster.
        cluster: ClusterId,
        /// Its state now.
        state: ConnectionState,
    },
    /// A cluster answered a ping.
    Pong {
        /// The cluster.
        cluster: ClusterId,
        /// Which ping.
        nonce: u64,
        /// How long it took.
        elapsed: Duration,
    },
    /// Events were dropped before they arrived.
    Stale {
        /// The cluster; all of them, if it is not known.
        cluster: Option<ClusterId>,
        /// How many.
        dropped: usize,
    },
}

/// What a [`ClusterEvent`] holds.
pub enum EventModel {
    /// The kubeconfig was read.
    Contexts {
        /// Its contexts.
        contexts: Seq<ContextModel>,
        /// The current one.
        current: Option<Seq<char>>,
    },
    /// The kubeconfig could not be read.
    ConfigFailed {
        /// Why.
        reason: Seq<char>,
    },
    /// Discovery finished.
    Kinds {
        /// The cluster.
        cluster: Seq<char>,
        /// The kinds the cluster serves.
        kinds: Seq<KindInfoModel>,
    },
    /// A kind was listed from scratch.
    ResourceReset {
        /// The cluster.
        cluster: Seq<char>,
        /// The kind.
        kind: KindModel,
        /// The columns of its rows.
        columns: Seq<ColumnModel>,
        /// Every row.
        rows: Seq<RowModel>,
    },
    /// A row is new or different.
    ResourceApplied {
        /// The cluster.
        cluster: Seq<char>,
        /// The kind.
        kind: KindModel,
        /// The row.
        row: RowModel,
    },
    /// A row is gone.
    ResourceDeleted {
        /// The cluster.
        cluster: Seq<char>,
        /// The kind.
        kind: KindModel,
        /// Which one.
        key: KeyModel,
    },
    /// An object was fetched.
    Object {
        /// The cluster.
        cluster: Seq<char>,
        /// The kind.
        kind: KindModel,
        /// The object.
        detail: ObjectModel,
    },
    /// A kind cannot be listed.
    KindFailed {
        /// The cluster.
        cluster: Seq<char>,
        /// The kind.
        kind: KindModel,
        /// Why.
        reason: Seq<char>,
    },
    /// An object could not be fetched.
    ObjectFailed {
        /// The cluster.
        cluster: Seq<char>,
        /// The kind.
        kind: KindModel,
        /// Which one.
        key: KeyModel,
        /// Why.
        reason: Seq<char>,
    },
    /// Log lines arrived.
    LogBatch {
        /// The cluster.
        cluster: Seq<char>,
        /// The lines.
        lines: Seq<LineModel>,
    },
    /// A source of log lines changed state.
    LogSourceChanged {
        /// The cluster.
        cluster: Seq<char>,
        /// Which one.
        source: SourceModel,
        /// What it does now.
        state: LogSourceStateModel,
    },
    /// A tail broke off.
    LogsFailed {
        /// The cluster.
        cluster: Seq<char>,
        /// Why.
        reason: Seq<char>,
    },
    /// A change was answered.
    MutationDone {
        /// The cluster.
        cluster: Seq<char>,
        /// The change.
        mutation: MutationModel,
        /// What came of it.
        outcome: MutationOutcomeModel,
    },
    /// A forward changed state.
    ForwardChanged {
        /// The cluster.
        cluster: Seq<char>,
        /// The forward.
        forward: ForwardInfoModel,
    },
    /// A command printed something.
    ExecOutput {
        /// The cluster.
        cluster: Seq<char>,
        /// The lines.
        lines: Seq<LineModel>,
    },
    /// A command ended.
    ExecFinished {
        /// The cluster.
        cluster: Seq<char>,
        /// How.
        status: ExecStatusModel,
    },
    /// A connection changed state.
    Status {
        /// The cluster.
        cluster: Seq<char>,
        /// Its state now.
        state: ConnectionStateModel,
    },
    /// A cluster answered a ping.
    Pong {
        /// The cluster.
        cluster: Seq<char>,
        /// Which ping.
        nonce: u64,
        /// How long it took.
        elapsed: Duration,
    },
    /// Events were dropped before they arrived.
    Stale {
        /// The cluster; all of them, if it is not known.
        cluster: Option<Seq<char>>,
        /// How many.
        dropped: usize,
    },
}

impl DeepView for ClusterEvent {
    type V = EventModel;

    open spec fn deep_view(&self) -> EventModel {
        match self {
            ClusterEvent::Contexts { contexts, current } => EventModel::Contexts {
                contexts: contexts.deep_view(),
                current: current.deep_view(),
            },
            ClusterEvent::ConfigFailed { reason } => EventModel::ConfigFailed {
                reason: reason.deep_view(),
            },
            ClusterEvent::Kinds { cluster, kinds } => EventModel::Kinds {
                cluster: cluster.deep_view(),
                kinds: kinds.deep_view(),
            },
            ClusterEvent::ResourceReset { cluster, kind, columns, rows } => EventModel::ResourceReset {
                cluster: cluster.deep_view(),
                kind: kind.deep_view(),
                columns: columns.deep_view(),
                rows: rows.deep_view(),
            },
            ClusterEvent::ResourceApplied { cluster, kind, row } => EventModel::ResourceApplied {
                cluster: cluster.deep_view(),
                kind: kind.deep_view(),
                row: row.deep_view(),
            },
            ClusterEvent::ResourceDeleted { cluster, kind, key } => EventModel::ResourceDeleted {
                cluster: cluster.deep_view(),
                kind: kind.deep_view(),
                key: key.deep_view(),
            },
            ClusterEvent::Object { cluster, kind, detail } => EventModel::Object {
                cluster: cluster.deep_view(),
                kind: kind.deep_view(),
                detail: detail.deep_view(),
            },
            ClusterEvent::KindFailed { cluster, kind, reason } => EventModel::KindFailed {
                cluster: cluster.deep_view(),
                kind: kind.deep_view(),
                reason: reason.deep_view(),
            },
            ClusterEvent::ObjectFailed { cluster, kind, key, reason } => EventModel::ObjectFailed {
                cluster: cluster.deep_view(),
                kind: kind.deep_view(),
                key: key.deep_view(),
                reason: reason.deep_view(),
            },
            ClusterEvent::LogBatch { cluster, lines } => EventModel::LogBatch {
                cluster: cluster.deep_view(),
                lines: lines.deep_view(),
            },
            ClusterEvent::LogSourceChanged { cluster, source, state } => EventModel::LogSourceChanged {
                cluster: cluster.deep_view(),
                source: source.deep_view(),
                state: state.deep_view(),
            },
            ClusterEvent::LogsFailed { cluster, reason } => EventModel::LogsFailed {
                cluster: cluster.deep_view(),
                reason: reason.deep_view(),
            },
            ClusterEvent::MutationDone { cluster, mutation, outcome } => EventModel::MutationDone {
                cluster: cluster.deep_view(),
                mutation: mutation.deep_view(),
                outcome: outcome.deep_view(),
            },
            ClusterEvent::ForwardChanged { cluster, forward } => EventModel::ForwardChanged {
                cluster: cluster.deep_view(),
                forward: forward.deep_view(),
            },
            ClusterEvent::ExecOutput { cluster, lines } => EventModel::ExecOutput {
                cluster: cluster.deep_view(),
                lines: lines.deep_view(),
            },
            ClusterEvent::ExecFinished { cluster, status } => EventModel::ExecFinished {
                cluster: cluster.deep_view(),
                status: status.deep_view(),
            },
            ClusterEvent::Status { cluster, state } => EventModel::Status {
                cluster: cluster.deep_view(),
                state: state.deep_view(),
            },
            ClusterEvent::Pong { cluster, nonce, elapsed } => EventModel::Pong {
                cluster: cluster.deep_view(),
                nonce: nonce.deep_view(),
                elapsed: elapsed.deep_view(),
            },
            ClusterEvent::Stale { cluster, dropped } => EventModel::Stale {
                cluster: cluster.deep_view(),
                dropped: dropped.deep_view(),
            },
        }
    }
}

/// The cluster an event is about, if it is about one.
pub open spec fn event_cluster(event: EventModel) -> Option<Seq<char>> {
    match event {
        EventModel::Contexts { .. } => None,
        EventModel::ConfigFailed { .. } => None,
        EventModel::Kinds { cluster, .. } => Some(cluster),
        EventModel::ResourceReset { cluster, .. } => Some(cluster),
        EventModel::ResourceApplied { cluster, .. } => Some(cluster),
        EventModel::ResourceDeleted { cluster, .. } => Some(cluster),
        EventModel::Object { cluster, .. } => Some(cluster),
        EventModel::KindFailed { cluster, .. } => Some(cluster),
        EventModel::ObjectFailed { cluster, .. } => Some(cluster),
        EventModel::LogBatch { cluster, .. } => Some(cluster),
        EventModel::LogSourceChanged { cluster, .. } => Some(cluster),
        EventModel::LogsFailed { cluster, .. } => Some(cluster),
        EventModel::MutationDone { cluster, .. } => Some(cluster),
        EventModel::ForwardChanged { cluster, .. } => Some(cluster),
        EventModel::ExecOutput { cluster, .. } => Some(cluster),
        EventModel::ExecFinished { cluster, .. } => Some(cluster),
        EventModel::Status { cluster, .. } => Some(cluster),
        EventModel::Pong { cluster, .. } => Some(cluster),
        EventModel::Stale { cluster, .. } => cluster,
    }
}

impl ClusterEvent {
    /// The cluster the event is about, if it is about one.
    pub fn cluster(&self) -> (cluster: Option<&ClusterId>)
        ensures
            cluster.deep_view() == event_cluster(self.deep_view()),
    {
        match self {
            ClusterEvent::Contexts { .. } => None,
            ClusterEvent::ConfigFailed { .. } => None,
            ClusterEvent::Kinds { cluster, .. } => Some(cluster),
            ClusterEvent::ResourceReset { cluster, .. } => Some(cluster),
            ClusterEvent::ResourceApplied { cluster, .. } => Some(cluster),
            ClusterEvent::ResourceDeleted { cluster, .. } => Some(cluster),
            ClusterEvent::Object { cluster, .. } => Some(cluster),
            ClusterEvent::KindFailed { cluster, .. } => Some(cluster),
            ClusterEvent::ObjectFailed { cluster, .. } => Some(cluster),
            ClusterEvent::LogBatch { cluster, .. } => Some(cluster),
            ClusterEvent::LogSourceChanged { cluster, .. } => Some(cluster),
            ClusterEvent::LogsFailed { cluster, .. } => Some(cluster),
            ClusterEvent::MutationDone { cluster, .. } => Some(cluster),
            ClusterEvent::ForwardChanged { cluster, .. } => Some(cluster),
            ClusterEvent::ExecOutput { cluster, .. } => Some(cluster),
            ClusterEvent::ExecFinished { cluster, .. } => Some(cluster),
            ClusterEvent::Status { cluster, .. } => Some(cluster),
            ClusterEvent::Pong { cluster, .. } => Some(cluster),
            ClusterEvent::Stale { cluster, .. } => cluster.as_ref(),
        }
    }
}

/// Something the cluster side can be asked to do.
#[derive(Clone, Debug, PartialEq, Eq)]
pub enum ClusterCommand {
    /// Read the kubeconfig.
    ListContexts,
    /// Connect to a cluster.
    Connect {
        /// The cluster.
        cluster: ClusterId,
    },
    /// List a kind and keep watching it.
    Watch {
        /// The cluster.
        cluster: ClusterId,
        /// The kind.
        kind: KindId,
        /// One namespace, or all of them.
        namespace: Option<String>,
        /// A label selector.
        selector: Option<String>,
    },
    /// Stop watching a kind.
    StopWatch {
        /// The cluster.
        cluster: ClusterId,
        /// The kind.
        kind: KindId,
    },
    /// Fetch one object in full.
    FetchObject {
        /// The cluster.
        cluster: ClusterId,
        /// The kind.
        kind: KindId,
        /// Which one.
        key: ResourceKey,
        /// Whether to show its hidden values.
        reveal: bool,
    },
    /// Make a change.
    Mutate {
        /// The cluster.
        cluster: ClusterId,
        /// The change.
        mutation: Arc<Mutation>,
    },
    /// Open a port forward.
    StartForward {
        /// The cluster.
        cluster: ClusterId,
        /// The id it gets.
        id: ForwardId,
        /// Where it leads.
        target: ForwardTarget,
    },
    /// Tear a port forward down.
    StopForward {
        /// The cluster.
        cluster: ClusterId,
        /// Which one.
        id: ForwardId,
    },
    /// Tail logs.
    StartLogs {
        /// The cluster.
        cluster: ClusterId,
        /// Which.
        target: Arc<LogTarget>,
    },
    /// Stop tailing.
    StopLogs {
        /// The cluster.
        cluster: ClusterId,
    },
    /// Run a command.
    Exec {
        /// The cluster.
        cluster: ClusterId,
        /// The command and where it runs.
        target: Arc<ExecTarget>,
    },
    /// Stop the command that runs.
    CancelExec {
        /// The cluster.
        cluster: ClusterId,
    },
}

/// What a [`ClusterCommand`] holds.
pub enum CommandModel {
    /// Read the kubeconfig.
    ListContexts,
    /// Connect to a cluster.
    Connect {
        /// The cluster.
        cluster: Seq<char>,
    },
    /// List a kind and keep watching it.
    Watch {
        /// The cluster.
        cluster: Seq<char>,
        /// The kind.
        kind: KindModel,
        /// One namespace, or all of them.
        namespace: Option<Seq<char>>,
        /// A label selector.
        selector: Option<Seq<char>>,
    },
    /// Stop watching a kind.
    StopWatch {
        /// The cluster.
        cluster: Seq<char>,
        /// The kind.
        kind: KindModel,
    },
    /// Fetch one object in full.
    FetchObject {
        /// The cluster.
        cluster: Seq<char>,
        /// The kind.
        kind: KindModel,
        /// Which one.
        key: KeyModel,
        /// Whether to show its hidden values.
        reveal: bool,
    },
    /// Make a change.
    Mutate {
        /// The cluster.
        cluster: Seq<char>,
        /// The change.
        mutation: MutationModel,
    },
    /// Open a port forward.
    StartForward {
        /// The cluster.
        cluster: Seq<char>,
        /// The id it gets.
        id: ForwardId,
        /// Where it leads.
        target: ForwardTargetModel,
    },
    /// Tear a port forward down.
    StopForward {
        /// The cluster.
        cluster: Seq<char>,
        /// Which one.
        id: ForwardId,
    },
    /// Tail logs.
    StartLogs {
        /// The cluster.
        cluster: Seq<char>,
        /// Which.
        target: LogTargetModel,
    },
    /// Stop tailing.
    StopLogs {
        /// The cluster.
        cluster: Seq<char>,
    },
    /// Run a command.
    Exec {
        /// The cluster.
        cluster: Seq<char>,
        /// The command and where it runs.
        target: ExecTargetModel,
    },
    /// Stop the command that runs.
    CancelExec {
        /// The cluster.
        cluster: Seq<char>,
    },
}

impl DeepView for ClusterCommand {
    type V = CommandModel;

    open spec fn deep_view(&self) -> CommandModel {
        match self {
            ClusterCommand::ListContexts => CommandModel::ListContexts,
            ClusterCommand::Connect { cluster } => CommandModel::Connect {
                cluster: cluster.deep_view(),
            },
            ClusterCommand::Watch { cluster, kind, namespace, selector } => CommandModel::Watch {
                cluster: cluster.deep_view(),
                kind: kind.deep_view(),
                namespace: namespace.deep_view(),
                selector: selector.deep_view(),
            },
            ClusterCommand::StopWatch { cluster, kind } => CommandModel::StopWatch {
                cluster: cluster.deep_view(),
                kind: kind.deep_view(),
            },
            ClusterCommand::FetchObject { cluster, kind, key, reveal } => CommandModel::FetchObject {
                cluster: cluster.deep_view(),
                kind: kind.deep_view(),
                key: key.deep_view(),
                reveal: reveal.deep_view(),
            },
            ClusterCommand::Mutate { cluster, mutation } => CommandModel::Mutate {
                cluster: cluster.deep_view(),
                mutation: mutation.deep_view(),
            },
            ClusterCommand::StartForward { cluster, id, target } => CommandModel::StartForward {
                cluster: cluster.deep_view(),
                id: id.deep_view(),
                target: target.deep_view(),
            },
            ClusterCommand::StopForward { cluster, id } => CommandModel::StopForward {
                cluster: cluster.deep_view(),
                id: id.deep_view(),
            },
            ClusterCommand::StartLogs { cluster, target } => CommandModel::StartLogs {
                cluster: cluster.deep_view(),
                target: target.deep_view(),
            },
            ClusterCommand::StopLogs { cluster } => CommandModel::StopLogs {
                cluster: cluster.deep_view(),
            },
            ClusterCommand::Exec { cluster, target } => CommandModel::Exec {
                cluster: cluster.deep_view(),
                target: target.deep_view(),
            },
            ClusterCommand::CancelExec { cluster } => CommandModel::CancelExec {
                cluster: cluster.deep_view(),
            },
        }
    }
}

impl Value for ClusterCommand {
    fn dup(&self) -> (copy: Self) {
        match self {
            ClusterCommand::ListContexts => ClusterCommand::ListContexts,
            ClusterCommand::Connect { cluster } => ClusterCommand::Connect {
                cluster: cluster.dup(),
            },
            ClusterCommand::Watch { cluster, kind, namespace, selector } => ClusterCommand::Watch {
                cluster: cluster.dup(),
                kind: kind.dup(),
                namespace: namespace.dup(),
                selector: selector.dup(),
            },
            ClusterCommand::StopWatch { cluster, kind } => ClusterCommand::StopWatch {
                cluster: cluster.dup(),
                kind: kind.dup(),
            },
            ClusterCommand::FetchObject { cluster, kind, key, reveal } => ClusterCommand::FetchObject {
                cluster: cluster.dup(),
                kind: kind.dup(),
                key: key.dup(),
                reveal: reveal.dup(),
            },
            ClusterCommand::Mutate { cluster, mutation } => ClusterCommand::Mutate {
                cluster: cluster.dup(),
                mutation: mutation.dup(),
            },
            ClusterCommand::StartForward { cluster, id, target } => ClusterCommand::StartForward {
                cluster: cluster.dup(),
                id: id.dup(),
                target: target.dup(),
            },
            ClusterCommand::StopForward { cluster, id } => ClusterCommand::StopForward {
                cluster: cluster.dup(),
                id: id.dup(),
            },
            ClusterCommand::StartLogs { cluster, target } => ClusterCommand::StartLogs {
                cluster: cluster.dup(),
                target: target.dup(),
            },
            ClusterCommand::StopLogs { cluster } => ClusterCommand::StopLogs {
                cluster: cluster.dup(),
            },
            ClusterCommand::Exec { cluster, target } => ClusterCommand::Exec {
                cluster: cluster.dup(),
                target: target.dup(),
            },
            ClusterCommand::CancelExec { cluster } => ClusterCommand::CancelExec {
                cluster: cluster.dup(),
            },
        }
    }

    fn same(&self, other: &Self) -> (equal: bool) {
        match (self, other) {
            (ClusterCommand::ListContexts, ClusterCommand::ListContexts) => true,
            (ClusterCommand::Connect { cluster }, ClusterCommand::Connect { cluster: cluster_too }) => {
                cluster.same(cluster_too)
            },
            (ClusterCommand::Watch { cluster, kind, namespace, selector }, ClusterCommand::Watch { cluster: cluster_too, kind: kind_too, namespace: namespace_too, selector: selector_too }) => {
                cluster.same(cluster_too)
                    && kind.same(kind_too)
                    && namespace.same(namespace_too)
                    && selector.same(selector_too)
            },
            (ClusterCommand::StopWatch { cluster, kind }, ClusterCommand::StopWatch { cluster: cluster_too, kind: kind_too }) => {
                cluster.same(cluster_too)
                    && kind.same(kind_too)
            },
            (ClusterCommand::FetchObject { cluster, kind, key, reveal }, ClusterCommand::FetchObject { cluster: cluster_too, kind: kind_too, key: key_too, reveal: reveal_too }) => {
                cluster.same(cluster_too)
                    && kind.same(kind_too)
                    && key.same(key_too)
                    && reveal.same(reveal_too)
            },
            (ClusterCommand::Mutate { cluster, mutation }, ClusterCommand::Mutate { cluster: cluster_too, mutation: mutation_too }) => {
                cluster.same(cluster_too)
                    && mutation.same(mutation_too)
            },
            (ClusterCommand::StartForward { cluster, id, target }, ClusterCommand::StartForward { cluster: cluster_too, id: id_too, target: target_too }) => {
                cluster.same(cluster_too)
                    && id.same(id_too)
                    && target.same(target_too)
            },
            (ClusterCommand::StopForward { cluster, id }, ClusterCommand::StopForward { cluster: cluster_too, id: id_too }) => {
                cluster.same(cluster_too)
                    && id.same(id_too)
            },
            (ClusterCommand::StartLogs { cluster, target }, ClusterCommand::StartLogs { cluster: cluster_too, target: target_too }) => {
                cluster.same(cluster_too)
                    && target.same(target_too)
            },
            (ClusterCommand::StopLogs { cluster }, ClusterCommand::StopLogs { cluster: cluster_too }) => {
                cluster.same(cluster_too)
            },
            (ClusterCommand::Exec { cluster, target }, ClusterCommand::Exec { cluster: cluster_too, target: target_too }) => {
                cluster.same(cluster_too)
                    && target.same(target_too)
            },
            (ClusterCommand::CancelExec { cluster }, ClusterCommand::CancelExec { cluster: cluster_too }) => {
                cluster.same(cluster_too)
            },
            _ => false,
        }
    }
}

/// Why a command was not accepted.
#[derive(Clone, Copy, Debug, PartialEq, Eq, Structural)]
pub enum CommandError {
    /// The cluster side has too much to do.
    Backpressure,
    /// The cluster side has stopped.
    Closed,
}

/// What one flush of the event queue did.
#[derive(Clone, Copy, Debug, PartialEq, Eq, Structural)]
pub struct FlushStats {
    /// Events that were handed over.
    pub applied: usize,
    /// Events that a later one made superfluous.
    pub collapsed: u64,
    /// Events that were dropped because the queue was full.
    pub dropped: usize,
}

} // verus!

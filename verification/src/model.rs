//! The state of a console as a mathematical value, and what every event and
//! every decision turns it into.

use crate::clock::{since, Duration, Instant};
use crate::connections::{connections_after, countable, freshened, is_news, mentioned, ConnectionModel, Connections};
use crate::events::EventModel;
use crate::keyed::{ascending, cut, is_key, lookup, put, values};
use crate::logs::LogModel;
use crate::mutation::{Mutation, MutationModel, MutationOutcome, MutationOutcomeModel};
use crate::objects::{
    ClusterId, ColumnModel, ContextModel, KeyModel, KindId, KindInfoModel, KindModel, ObjectDetail, ObjectModel,
    ResourceKey, RowModel,
};
use crate::permissions::{PermissionsModel, RefusalModel};
use crate::rows::{arranged, let_through, natural_sort, FiltersModel, Sort};
use crate::sessions::{connection_usable, ExecStatusModel, ExecTargetModel, ForwardId, ForwardInfoModel, LogTargetModel};
use crate::sorting::sorted;
use crate::table::TableModel;
use crate::value::Value;
use std::sync::Arc;
use vstd::prelude::*;

verus! {

// --- what is on screen ----------------------------------------------------------

/// What the detail pane shows. Every variant names the cluster as well as the
/// object: two clusters routinely hold objects of the same name.
#[derive(Clone, Debug, PartialEq, Eq)]
pub enum Detail {
    /// A fetch is under way.
    Loading {
        /// The cluster that was asked.
        cluster: ClusterId,
        /// The kind of the object.
        kind: KindId,
        /// Which object.
        key: ResourceKey,
    },
    /// The object, its events and its owners.
    Ready {
        /// The cluster it came from.
        cluster: ClusterId,
        /// The kind of the object.
        kind: KindId,
        /// The object.
        object: Arc<ObjectDetail>,
    },
    /// The fetch failed.
    Failed {
        /// The cluster that was asked.
        cluster: ClusterId,
        /// The kind of the object.
        kind: KindId,
        /// Which object.
        key: ResourceKey,
        /// Why, verbatim.
        reason: String,
    },
}

/// What a [`Detail`] holds.
pub enum DetailModel {
    /// A fetch is under way.
    Loading {
        /// The cluster that was asked.
        cluster: Seq<char>,
        /// The kind of the object.
        kind: KindModel,
        /// Which object.
        key: KeyModel,
    },
    /// The object, its events and its owners.
    Ready {
        /// The cluster it came from.
        cluster: Seq<char>,
        /// The kind of the object.
        kind: KindModel,
        /// The object.
        object: ObjectModel,
    },
    /// The fetch failed.
    Failed {
        /// The cluster that was asked.
        cluster: Seq<char>,
        /// The kind of the object.
        kind: KindModel,
        /// Which object.
        key: KeyModel,
        /// Why, verbatim.
        reason: Seq<char>,
    },
}

impl DeepView for Detail {
    type V = DetailModel;

    open spec fn deep_view(&self) -> DetailModel {
        match self {
            Detail::Loading { cluster, kind, key } => DetailModel::Loading {
                cluster: cluster.deep_view(),
                kind: kind.deep_view(),
                key: key.deep_view(),
            },
            Detail::Ready { cluster, kind, object } => DetailModel::Ready {
                cluster: cluster.deep_view(),
                kind: kind.deep_view(),
                object: object.deep_view(),
            },
            Detail::Failed { cluster, kind, key, reason } => DetailModel::Failed {
                cluster: cluster.deep_view(),
                kind: kind.deep_view(),
                key: key.deep_view(),
                reason: reason.deep_view(),
            },
        }
    }
}

impl Value for Detail {
    fn dup(&self) -> (copy: Self) {
        match self {
            Detail::Loading { cluster, kind, key } => Detail::Loading {
                cluster: cluster.dup(),
                kind: kind.dup(),
                key: key.dup(),
            },
            Detail::Ready { cluster, kind, object } => Detail::Ready {
                cluster: cluster.dup(),
                kind: kind.dup(),
                object: object.dup(),
            },
            Detail::Failed { cluster, kind, key, reason } => Detail::Failed {
                cluster: cluster.dup(),
                kind: kind.dup(),
                key: key.dup(),
                reason: reason.dup(),
            },
        }
    }

    fn same(&self, other: &Self) -> (equal: bool) {
        match (self, other) {
            (Detail::Loading { cluster, kind, key }, Detail::Loading { cluster: cluster_too, kind: kind_too, key: key_too }) => {
                cluster.same(cluster_too)
                    && kind.same(kind_too)
                    && key.same(key_too)
            },
            (Detail::Ready { cluster, kind, object }, Detail::Ready { cluster: cluster_too, kind: kind_too, object: object_too }) => {
                cluster.same(cluster_too)
                    && kind.same(kind_too)
                    && object.same(object_too)
            },
            (Detail::Failed { cluster, kind, key, reason }, Detail::Failed { cluster: cluster_too, kind: kind_too, key: key_too, reason: reason_too }) => {
                cluster.same(cluster_too)
                    && kind.same(kind_too)
                    && key.same(key_too)
                    && reason.same(reason_too)
            },
            _ => false,
        }
    }
}

/// The cluster a detail belongs to.
pub open spec fn detail_cluster(detail: DetailModel) -> Seq<char> {
    match detail {
        DetailModel::Loading { cluster, .. } => cluster,
        DetailModel::Ready { cluster, .. } => cluster,
        DetailModel::Failed { cluster, .. } => cluster,
    }
}

/// The kind of a detail's object.
pub open spec fn detail_kind(detail: DetailModel) -> KindModel {
    match detail {
        DetailModel::Loading { kind, .. } => kind,
        DetailModel::Ready { kind, .. } => kind,
        DetailModel::Failed { kind, .. } => kind,
    }
}

/// The object a detail is about.
pub open spec fn detail_key(detail: DetailModel) -> KeyModel {
    match detail {
        DetailModel::Loading { key, .. } => key,
        DetailModel::Ready { object, .. } => object.key,
        DetailModel::Failed { key, .. } => key,
    }
}

impl Detail {
    /// The object this is about.
    pub fn key(&self) -> (key: &ResourceKey)
        ensures
            key.deep_view() == detail_key(self.deep_view()),
    {
        match self {
            Detail::Loading { key, .. } => key,
            Detail::Ready { object, .. } => &object.key,
            Detail::Failed { key, .. } => key,
        }
    }

    /// The kind of that object.
    pub fn kind(&self) -> (kind: &KindId)
        ensures
            kind.deep_view() == detail_kind(self.deep_view()),
    {
        match self {
            Detail::Loading { kind, .. } => kind,
            Detail::Ready { kind, .. } => kind,
            Detail::Failed { kind, .. } => kind,
        }
    }

    /// The cluster it belongs to.
    pub fn cluster(&self) -> (cluster: &ClusterId)
        ensures
            cluster.deep_view() == detail_cluster(self.deep_view()),
    {
        match self {
            Detail::Loading { cluster, .. } => cluster,
            Detail::Ready { cluster, .. } => cluster,
            Detail::Failed { cluster, .. } => cluster,
        }
    }
}

/// One view onto one cluster.
pub struct PaneModel {
    /// The cluster it shows.
    pub cluster: Option<Seq<char>>,
    /// The kind it shows.
    pub kind: Option<KindModel>,
    /// The filters on it.
    pub filters: FiltersModel,
    /// The rows it shows.
    pub rows: Seq<RowModel>,
    /// The columns those rows carry cells for.
    pub columns: Seq<ColumnModel>,
    /// The row the keyboard is on.
    pub cursor: usize,
    /// What it is sorted by.
    pub sort: Sort,
    /// Why its kind cannot be listed, if it cannot.
    pub unavailable: Option<Seq<char>>,
}

/// The tables that are held, by cluster and kind.
pub type Tables = Seq<((Seq<char>, KindModel), TableModel)>;

/// The place nearest to a cursor that a list has; the first, if it has none.
pub open spec fn clamped(cursor: int, len: nat) -> usize {
    if len == 0 || cursor <= 0 {
        0
    } else if cursor >= len {
        (len - 1) as usize
    } else {
        cursor as usize
    }
}

impl PaneModel {
    /// A pane that shows nothing.
    pub open spec fn blank() -> PaneModel {
        PaneModel {
            cluster: None,
            kind: None,
            filters: FiltersModel::none(),
            rows: seq![],
            columns: seq![],
            cursor: 0,
            sort: natural_sort(),
            unavailable: None,
        }
    }

    /// Whether the pane shows a kind of a cluster.
    pub open spec fn shows(self, cluster: Seq<char>, kind: KindModel) -> bool {
        self.cluster == Some(cluster) && self.kind == Some(kind)
    }

    /// Whether the cursor is on a row, or at the top of an empty list.
    pub open spec fn cursor_fits(self) -> bool {
        self.cursor == 0 || self.cursor < self.rows.len()
    }

    /// The table behind the pane, if it is held.
    pub open spec fn table(self, tables: Tables) -> Option<TableModel> {
        match (self.cluster, self.kind) {
            (Some(cluster), Some(kind)) => lookup(tables, (cluster, kind)),
            _ => None,
        }
    }

    /// The pane with what its table holds now: the rows the filters let
    /// through, in the order asked for, and the cursor still on one of them.
    pub open spec fn refreshed(self, tables: Tables) -> PaneModel {
        match self.table(tables) {
            Some(table) => {
                let rows = arranged(values(table.rows).filter(let_through(self.filters)), self.sort);
                PaneModel {
                    rows,
                    columns: table.columns,
                    cursor: clamped(self.cursor as int, rows.len()),
                    unavailable: table.unavailable,
                    ..self
                }
            },
            None => PaneModel { rows: seq![], columns: seq![], cursor: 0, unavailable: None, ..self },
        }
    }
}

// --- what is going on -----------------------------------------------------------

/// A live log tail.
pub struct LogSessionModel {
    /// The cluster the lines come from.
    pub cluster: Seq<char>,
    /// What is tailed.
    pub target: LogTargetModel,
    /// The lines.
    pub buffer: LogModel,
    /// Whether the view sticks to the newest line.
    pub following: bool,
}

/// A command that runs in a container, or did.
pub struct ExecSessionModel {
    /// The cluster it runs in.
    pub cluster: Seq<char>,
    /// The command, and where it runs.
    pub target: ExecTargetModel,
    /// What it printed.
    pub buffer: LogModel,
    /// How it ended, once it has.
    pub status: Option<ExecStatusModel>,
}

/// One thing that was done to a cluster, or refused.
#[derive(Clone, Debug, PartialEq, Eq)]
pub struct Activity {
    /// Which cluster.
    pub cluster: ClusterId,
    /// What was asked for.
    pub mutation: Arc<Mutation>,
    /// What came of it.
    pub outcome: MutationOutcome,
    /// When it was recorded.
    pub at: Instant,
}

/// What a [`Activity`] holds.
pub struct ActivityModel {
    /// Which cluster.
    pub cluster: Seq<char>,
    /// What was asked for.
    pub mutation: MutationModel,
    /// What came of it.
    pub outcome: MutationOutcomeModel,
    /// When it was recorded.
    pub at: Instant,
}

impl DeepView for Activity {
    type V = ActivityModel;

    open spec fn deep_view(&self) -> ActivityModel {
        ActivityModel {
            cluster: self.cluster.deep_view(),
            mutation: self.mutation.deep_view(),
            outcome: self.outcome.deep_view(),
            at: self.at.deep_view(),
        }
    }
}

impl Value for Activity {
    fn dup(&self) -> (copy: Self) {
        Activity {
            cluster: self.cluster.dup(),
            mutation: self.mutation.dup(),
            outcome: self.outcome.dup(),
            at: self.at.dup(),
        }
    }

    fn same(&self, other: &Self) -> (equal: bool) {
        self.cluster.same(&other.cluster)
            && self.mutation.same(&other.mutation)
            && self.outcome.same(&other.outcome)
            && self.at.same(&other.at)
    }
}

/// How many recent actions are kept.
pub const ACTIVITY_LIMIT: usize = 50;

/// The recent actions with one more, newest first.
pub open spec fn logged(activity: Seq<ActivityModel>, latest: ActivityModel) -> Seq<ActivityModel> {
    let all = seq![latest] + activity;
    if all.len() > ACTIVITY_LIMIT {
        all.take(ACTIVITY_LIMIT as int)
    } else {
        all
    }
}

// --- the row budget -------------------------------------------------------------

/// How many rows a cluster holds, over all of its kinds.
pub open spec fn held_rows(tables: Tables, cluster: Seq<char>) -> nat
    decreases tables.len(),
{
    if tables.len() == 0 {
        0
    } else {
        let (key, table) = tables.last();
        held_rows(tables.drop_last(), cluster) + (if key.0 == cluster {
            table.rows.len()
        } else {
            0
        })
    }
}

/// How many rows are held for every cluster.
pub open spec fn all_held_rows(tables: Tables) -> nat
    decreases tables.len(),
{
    if tables.len() == 0 {
        0
    } else {
        all_held_rows(tables.drop_last()) + tables.last().1.rows.len()
    }
}

/// A count, as far as a machine word counts.
pub open spec fn counted(rows: nat) -> usize {
    if rows > usize::MAX {
        usize::MAX
    } else {
        rows as usize
    }
}

/// Whether a pane shows a kind of a cluster.
pub open spec fn in_view(panes: Seq<PaneModel>, cluster: Seq<char>, kind: KindModel) -> bool {
    exists|i: int| 0 <= i < panes.len() && (#[trigger] panes[i]).shows(cluster, kind)
}

/// Picks the tables of a cluster that no pane shows.
pub open spec fn unseen(
    panes: Seq<PaneModel>,
    cluster: Seq<char>,
) -> spec_fn(((Seq<char>, KindModel), TableModel)) -> bool {
    |entry: ((Seq<char>, KindModel), TableModel)|
        (entry.0).0 == cluster && !in_view(panes, cluster, (entry.0).1)
}

/// A table's kind and how many rows it holds.
pub open spec fn kind_size() -> spec_fn(((Seq<char>, KindModel), TableModel)) -> (KindModel, usize) {
    |entry: ((Seq<char>, KindModel), TableModel)| ((entry.0).1, entry.1.rows.len() as usize)
}

/// Larger tables first.
pub open spec fn larger() -> spec_fn((KindModel, usize), (KindModel, usize)) -> bool {
    |a: (KindModel, usize), b: (KindModel, usize)| a.1 > b.1
}

/// The kinds of a cluster that can be let go, the largest first.
pub open spec fn releasable(tables: Tables, panes: Seq<PaneModel>, cluster: Seq<char>) -> Seq<(KindModel, usize)> {
    sorted(tables.filter(unseen(panes, cluster)).map_values(kind_size()), larger())
}

/// The tables after letting kinds go one by one until the cluster is within its budget.
pub open spec fn let_go(
    tables: Tables,
    cluster: Seq<char>,
    kinds: Seq<(KindModel, usize)>,
    budget: usize,
) -> Tables
    decreases kinds.len(),
{
    if kinds.len() == 0 || counted(held_rows(tables, cluster)) <= budget {
        tables
    } else {
        let_go(cut(tables, (cluster, kinds[0].0)), cluster, kinds.drop_first(), budget)
    }
}

/// The tables with a cluster brought back within its budget, as far as that is
/// possible without letting go of what is on screen.
pub open spec fn budgeted(tables: Tables, panes: Seq<PaneModel>, cluster: Seq<char>, budget: usize) -> Tables {
    let_go(tables, cluster, releasable(tables, panes, cluster), budget)
}

// --- the whole state ------------------------------------------------------------

/// What a console knows and shows.
pub struct AppModel {
    /// The connections, by cluster.
    pub connections: Connections,
    /// The contexts of the kubeconfig.
    pub contexts: Seq<ContextModel>,
    /// The current context.
    pub current: Option<Seq<char>>,
    /// Why the kubeconfig could not be read, if it could not.
    pub config_error: Option<Seq<char>>,
    /// The kinds each cluster serves.
    pub kinds: Seq<(Seq<char>, Seq<KindInfoModel>)>,
    /// The tables that are held.
    pub tables: Tables,
    /// What the detail pane shows.
    pub detail: Option<DetailModel>,
    /// The log tail that is open.
    pub logs: Option<LogSessionModel>,
    /// The command that runs, or the last one that ran.
    pub exec_session: Option<ExecSessionModel>,
    /// One pane, or two side by side.
    pub panes: Seq<PaneModel>,
    /// The pane that commands apply to.
    pub focus: usize,
    /// When each cluster was last looked at.
    pub last_viewed: Seq<(Seq<char>, Instant)>,
    /// How many rows one cluster may hold.
    pub budget: usize,
    /// Which clusters may be changed.
    pub permissions: PermissionsModel,
    /// What was done recently, newest first.
    pub activity: Seq<ActivityModel>,
    /// The port forwards, in the order they were started.
    pub forwards: Seq<((ForwardId, Seq<char>), ForwardInfoModel)>,
    /// The id the next forward gets.
    pub next_forward: u64,
}

/// How many rows one cluster may hold, unless the settings say otherwise.
pub const DEFAULT_ROW_BUDGET: usize = 200_000;

/// The contexts' clusters among the connections.
pub open spec fn all_mentioned(connections: Connections, contexts: Seq<ContextModel>, now: Instant) -> Connections
    decreases contexts.len(),
{
    if contexts.len() == 0 {
        connections
    } else {
        mentioned(all_mentioned(connections, contexts.drop_last(), now), contexts.last().name, now)
    }
}

/// The first context of another cluster than the one given.
pub open spec fn other_context(contexts: Seq<ContextModel>, cluster: Option<Seq<char>>) -> Option<Seq<char>>
    decreases contexts.len(),
{
    if contexts.len() == 0 {
        None
    } else {
        match other_context(contexts.drop_last(), cluster) {
            Some(found) => Some(found),
            None => if cluster != Some(contexts.last().name) {
                Some(contexts.last().name)
            } else {
                None
            },
        }
    }
}

/// The clusters of panes, one that follows itself named once.
pub open spec fn clusters_of(panes: Seq<PaneModel>) -> Seq<Seq<char>>
    decreases panes.len(),
{
    if panes.len() == 0 {
        seq![]
    } else {
        let before = clusters_of(panes.drop_last());
        match panes.last().cluster {
            Some(cluster) => if before.len() > 0 && before.last() == cluster {
                before
            } else {
                before.push(cluster)
            },
            None => before,
        }
    }
}

/// What panes need watched: a cluster, a kind, and the filters.
pub open spec fn targets_of(panes: Seq<PaneModel>) -> Seq<(Seq<char>, KindModel, FiltersModel)>
    decreases panes.len(),
{
    if panes.len() == 0 {
        seq![]
    } else {
        let before = targets_of(panes.drop_last());
        match (panes.last().cluster, panes.last().kind) {
            (Some(cluster), Some(kind)) => before.push((cluster, kind, panes.last().filters)),
            _ => before,
        }
    }
}

/// Every row of tables, with its cluster and its kind.
pub open spec fn rows_of(tables: Tables) -> Seq<(Seq<char>, KindModel, RowModel)>
    decreases tables.len(),
{
    if tables.len() == 0 {
        seq![]
    } else {
        let (key, table) = tables.last();
        rows_of(tables.drop_last()) + values(table.rows).map_values(|row: RowModel| (key.0, key.1, row))
    }
}

/// When clusters were last in a pane, with one more of them in a pane just now.
pub open spec fn seen(
    last_viewed: Seq<(Seq<char>, Instant)>,
    cluster: Option<Seq<char>>,
    now: Instant,
) -> Seq<(Seq<char>, Instant)> {
    match cluster {
        Some(cluster) => put::<ClusterId, Instant>(last_viewed, cluster, now),
        None => last_viewed,
    }
}

/// Picks the clusters that have been out of view for longer than a while.
pub open spec fn neglected(
    panes: Seq<PaneModel>,
    now: Instant,
    timeout: Duration,
) -> spec_fn((Seq<char>, Instant)) -> bool {
    |entry: (Seq<char>, Instant)|
        !clusters_of(panes).contains(entry.0) && since(now, entry.1).nanos > timeout.nanos
}

/// The cluster of a visit.
pub open spec fn viewed_cluster() -> spec_fn((Seq<char>, Instant)) -> Seq<char> {
    |entry: (Seq<char>, Instant)| entry.0
}

/// Picks the tables of other clusters.
pub open spec fn of_other_clusters(
    cluster: Seq<char>,
) -> spec_fn(((Seq<char>, KindModel), TableModel)) -> bool {
    |entry: ((Seq<char>, KindModel), TableModel)| (entry.0).0 != cluster
}

impl AppModel {
    /// The state before anything happened.
    pub open spec fn fresh() -> AppModel {
        AppModel {
            connections: seq![],
            contexts: seq![],
            current: None,
            config_error: None,
            kinds: seq![],
            tables: seq![],
            detail: None,
            logs: None,
            exec_session: None,
            panes: seq![PaneModel::blank()],
            focus: 0,
            last_viewed: seq![],
            budget: DEFAULT_ROW_BUDGET,
            permissions: PermissionsModel::permissive(),
            activity: seq![],
            forwards: seq![],
            next_forward: 1,
        }
    }

    /// Whether what is on screen hangs together: one pane or two, the focus on
    /// one of them, every cursor on a row, and the lists within their bounds.
    pub open spec fn view_wf(self) -> bool {
        &&& 1 <= self.panes.len() <= 2
        &&& self.focus < self.panes.len()
        &&& forall|i: int| 0 <= i < self.panes.len() ==> (#[trigger] self.panes[i]).cursor_fits()
        &&& self.budget >= 1
        &&& self.activity.len() <= ACTIVITY_LIMIT
    }

    /// Whether everything that is held is well-formed, and what is on screen
    /// hangs together.
    pub open spec fn wf(self) -> bool {
        &&& self.view_wf()
        &&& ascending::<ClusterId, ConnectionModel>(self.connections)
        &&& ascending::<ClusterId, Seq<KindInfoModel>>(self.kinds)
        &&& ascending::<(ClusterId, KindId), TableModel>(self.tables)
        &&& forall|i: int| 0 <= i < self.tables.len() ==> (#[trigger] self.tables[i]).1.wf()
        &&& ascending::<ClusterId, Instant>(self.last_viewed)
        &&& ascending::<(ForwardId, ClusterId), ForwardInfoModel>(self.forwards)
        &&& self.logs matches Some(session) ==> session.buffer.wf()
        &&& self.exec_session matches Some(session) ==> session.buffer.wf()
    }

    /// The pane that commands apply to.
    pub open spec fn focused(self) -> PaneModel {
        self.panes[self.focus as int]
    }

    /// The state with the focused pane replaced.
    pub open spec fn with_focused(self, pane: PaneModel) -> AppModel {
        AppModel { panes: self.panes.update(self.focus as int, pane), ..self }
    }

    /// The state with the focused pane replaced by one that shows what its
    /// table holds.
    pub open spec fn refocused(self, pane: PaneModel) -> AppModel {
        self.with_focused(pane.refreshed(self.tables))
    }

    /// The state with a pane showing what its table holds.
    pub open spec fn refreshed(self, index: int) -> AppModel {
        AppModel { panes: self.panes.update(index, self.panes[index].refreshed(self.tables)), ..self }
    }

    /// A table, empty if none is held.
    pub open spec fn table(self, cluster: Seq<char>, kind: KindModel) -> TableModel {
        match lookup(self.tables, (cluster, kind)) {
            Some(table) => table,
            None => TableModel::empty(),
        }
    }

    /// The state with a table replaced.
    pub open spec fn with_table(self, cluster: Seq<char>, kind: KindModel, table: TableModel) -> AppModel {
        AppModel {
            tables: put::<(ClusterId, KindId), TableModel>(self.tables, (cluster, kind), table),
            ..self
        }
    }

    /// Whether a detail event answers the fetch that is under way, or already
    /// shown.
    pub open spec fn awaits(self, cluster: Seq<char>, kind: KindModel, key: KeyModel) -> bool {
        match self.detail {
            Some(detail) => detail_cluster(detail) == cluster && detail_kind(detail) == kind && detail_key(detail)
                == key,
            None => false,
        }
    }

    /// Whether the log tail is one of a cluster.
    pub open spec fn tails(self, cluster: Seq<char>) -> bool {
        match self.logs {
            Some(session) => session.cluster == cluster,
            None => false,
        }
    }

    /// Whether the command is one of a cluster.
    pub open spec fn runs(self, cluster: Seq<char>) -> bool {
        match self.exec_session {
            Some(session) => session.cluster == cluster,
            None => false,
        }
    }

    /// The state with the tail's lines replaced.
    pub open spec fn with_log_buffer(self, buffer: LogModel) -> AppModel {
        AppModel { logs: Some(LogSessionModel { buffer, ..self.logs->0 }), ..self }
    }

    /// The state with the command's output replaced.
    pub open spec fn with_exec_buffer(self, buffer: LogModel) -> AppModel {
        AppModel { exec_session: Some(ExecSessionModel { buffer, ..self.exec_session->0 }), ..self }
    }

    /// The state with one more action.
    pub open spec fn recording(self, latest: ActivityModel) -> AppModel {
        AppModel { activity: logged(self.activity, latest), ..self }
    }

    /// The state after reading the kubeconfig: the contexts are known, and the
    /// current one is opened unless something is open already.
    pub open spec fn with_contexts(
        self,
        contexts: Seq<ContextModel>,
        current: Option<Seq<char>>,
        now: Instant,
    ) -> AppModel {
        let known = AppModel {
            config_error: None,
            contexts,
            current,
            connections: all_mentioned(self.connections, contexts, now),
            ..self
        };
        if self.panes[0].cluster is None && current is Some {
            AppModel {
                last_viewed: put::<ClusterId, Instant>(self.last_viewed, current->0, now),
                panes: self.panes.update(0, PaneModel { cluster: current, ..self.panes[0] }),
                ..known
            }
        } else {
            known
        }
    }

    /// The state after a kind was listed from scratch: its table holds the
    /// listing, nothing of the cluster counts as lost, and the cluster is
    /// brought back within its budget.
    pub open spec fn with_listing(
        self,
        cluster: Seq<char>,
        kind: KindModel,
        columns: Seq<ColumnModel>,
        rows: Seq<RowModel>,
    ) -> AppModel {
        let listed = self.with_table(cluster, kind, self.table(cluster, kind).reset(columns, rows));
        AppModel {
            connections: freshened(self.connections, cluster),
            tables: budgeted(listed.tables, self.panes, cluster, self.budget),
            ..listed
        }
    }

    /// The state after an event, before the panes are brought up to date.
    pub open spec fn applied(self, event: EventModel, now: Instant) -> AppModel {
        let base = AppModel { connections: connections_after(self.connections, event, now), ..self };
        match event {
            EventModel::Contexts { contexts, current } => base.with_contexts(contexts, current, now),
            EventModel::ConfigFailed { reason } => AppModel { config_error: Some(reason), ..base },
            EventModel::Kinds { cluster, kinds } => AppModel {
                kinds: put::<ClusterId, Seq<KindInfoModel>>(base.kinds, cluster, kinds),
                ..base
            },
            EventModel::ResourceReset { cluster, kind, columns, rows } => base.with_listing(
                cluster,
                kind,
                columns,
                rows,
            ),
            EventModel::ResourceApplied { cluster, kind, row } => base.with_table(
                cluster,
                kind,
                base.table(cluster, kind).with_row(row, now),
            ),
            EventModel::ResourceDeleted { cluster, kind, key } => base.with_table(
                cluster,
                kind,
                base.table(cluster, kind).without(key),
            ),
            EventModel::Object { cluster, kind, detail } => if base.awaits(cluster, kind, detail.key) {
                AppModel { detail: Some(DetailModel::Ready { cluster, kind, object: detail }), ..base }
            } else {
                base
            },
            EventModel::KindFailed { cluster, kind, reason } => base.with_table(
                cluster,
                kind,
                base.table(cluster, kind).refused(reason),
            ),
            EventModel::ObjectFailed { cluster, kind, key, reason } => if base.awaits(cluster, kind, key) {
                AppModel { detail: Some(DetailModel::Failed { cluster, kind, key, reason }), ..base }
            } else {
                base
            },
            EventModel::LogBatch { cluster, lines } => if base.tails(cluster) {
                base.with_log_buffer((base.logs->0).buffer.extended(lines))
            } else {
                base
            },
            EventModel::LogSourceChanged { cluster, source, state } => if base.tails(cluster) {
                base.with_log_buffer((base.logs->0).buffer.with_source(source, state))
            } else {
                base
            },
            EventModel::LogsFailed { cluster, reason } => if base.tails(cluster) {
                base.with_log_buffer(LogModel { error: Some(reason), ..(base.logs->0).buffer })
            } else {
                base
            },
            EventModel::MutationDone { cluster, mutation, outcome } => base.recording(
                ActivityModel { cluster, mutation, outcome, at: now },
            ),
            EventModel::ForwardChanged { cluster, forward } => AppModel {
                forwards: if forward.state is Stopped {
                    cut(base.forwards, (forward.id, cluster))
                } else {
                    put::<(ForwardId, ClusterId), ForwardInfoModel>(
                        base.forwards,
                        (forward.id, cluster),
                        forward,
                    )
                },
                ..base
            },
            EventModel::ExecOutput { cluster, lines } => if base.runs(cluster) {
                base.with_exec_buffer((base.exec_session->0).buffer.extended(lines))
            } else {
                base
            },
            EventModel::ExecFinished { cluster, status } => if base.runs(cluster) {
                AppModel { exec_session: Some(ExecSessionModel { status: Some(status), ..base.exec_session->0 }), ..base }
            } else {
                base
            },
            _ => base,
        }
    }

    /// Whether an event changes anything that is shown.
    pub open spec fn repaints(self, event: EventModel) -> bool {
        is_news(self.connections, event) || (match event {
            EventModel::Contexts { .. } => true,
            EventModel::ConfigFailed { .. } => true,
            EventModel::Kinds { .. } => true,
            EventModel::ResourceReset { cluster, kind, columns, rows } => in_view(self.panes, cluster, kind) && (
            !self.table(cluster, kind).holds_already(columns, rows) || self.table(cluster, kind).unavailable is Some),
            EventModel::ResourceApplied { cluster, kind, row } => in_view(self.panes, cluster, kind) && !self.table(
                cluster,
                kind,
            ).has_row(row),
            EventModel::ResourceDeleted { cluster, kind, key } => in_view(self.panes, cluster, kind) && is_key(
                self.table(cluster, kind).rows,
                key,
            ),
            EventModel::Object { cluster, kind, detail } => self.awaits(cluster, kind, detail.key),
            EventModel::KindFailed { cluster, kind, reason } => in_view(self.panes, cluster, kind) && !self.table(
                cluster,
                kind,
            ).refused_already(reason),
            EventModel::ObjectFailed { cluster, kind, key, .. } => self.awaits(cluster, kind, key),
            EventModel::LogBatch { cluster, .. } => self.tails(cluster),
            EventModel::LogSourceChanged { cluster, .. } => self.tails(cluster),
            EventModel::LogsFailed { cluster, .. } => self.tails(cluster),
            EventModel::MutationDone { .. } => true,
            EventModel::ForwardChanged { .. } => true,
            EventModel::ExecOutput { cluster, .. } => self.runs(cluster),
            EventModel::ExecFinished { cluster, .. } => self.runs(cluster),
            _ => false,
        })
    }

    /// Whether what an event brings can still be counted and numbered.
    pub open spec fn takes(self, event: EventModel) -> bool {
        &&& countable(self.connections, event)
        &&& match event {
            EventModel::LogBatch { cluster, lines } => self.tails(cluster) ==> (self.logs->0).buffer.numberable(
                lines,
            ),
            EventModel::ExecOutput { cluster, lines } => self.runs(cluster) ==> (self.exec_session->0).buffer.numberable(
                lines,
            ),
            _ => true,
        }
    }

    /// The state after a batch of events, before the panes are brought up to date.
    pub open spec fn applied_all(self, events: Seq<EventModel>, now: Instant) -> AppModel
        decreases events.len(),
    {
        if events.len() == 0 {
            self
        } else {
            self.applied_all(events.drop_last(), now).applied(events.last(), now)
        }
    }

    /// Whether any event of a batch changes anything that is shown.
    pub open spec fn repaints_any(self, events: Seq<EventModel>, now: Instant) -> bool
        decreases events.len(),
    {
        events.len() > 0 && (self.repaints_any(events.drop_last(), now) || self.applied_all(
            events.drop_last(),
            now,
        ).repaints(events.last()))
    }

    /// Whether everything a batch brings can be counted and numbered.
    pub open spec fn takes_all(self, events: Seq<EventModel>, now: Instant) -> bool {
        forall|i: int|
            0 <= i < events.len() ==> #[trigger] self.applied_all(events.take(i), now).takes(events[i])
    }

    /// Whether an event changes the rows a pane shows.
    pub open spec fn affects(self, event: EventModel, index: int) -> bool {
        match event {
            EventModel::ResourceReset { cluster, kind, .. } => self.panes[index].shows(cluster, kind),
            EventModel::ResourceApplied { cluster, kind, .. } => self.panes[index].shows(cluster, kind),
            EventModel::ResourceDeleted { cluster, kind, .. } => self.panes[index].shows(cluster, kind),
            EventModel::KindFailed { cluster, kind, .. } => self.panes[index].shows(cluster, kind),
            _ => false,
        }
    }

    /// Whether any event of a batch changes the rows a pane shows.
    pub open spec fn affects_any(self, events: Seq<EventModel>, now: Instant, index: int) -> bool
        decreases events.len(),
    {
        events.len() > 0 && (self.affects_any(events.drop_last(), now, index) || self.applied_all(
            events,
            now,
        ).affects(events.last(), index))
    }

    /// The state after a batch: every event folded in, and the panes whose
    /// rows changed brought up to date, once.
    pub open spec fn batched(self, events: Seq<EventModel>, now: Instant) -> AppModel {
        let after = self.applied_all(events, now);
        AppModel {
            panes: Seq::new(
                after.panes.len(),
                |i: int|
                    if self.affects_any(events, now, i) {
                        after.panes[i].refreshed(after.tables)
                    } else {
                        after.panes[i]
                    },
            ),
            ..after
        }
    }

    /// Events neither open nor close panes, nor move the focus.
    pub proof fn applying_keeps_panes(self, event: EventModel, now: Instant)
        requires
            self.panes.len() > 0,
        ensures
            self.applied(event, now).panes.len() == self.panes.len(),
            self.applied(event, now).focus == self.focus,
    {
    }

    /// Replacing the focused pane by one whose cursor fits keeps every cursor
    /// on a row, and replacing it twice is replacing it once.
    pub proof fn pane_swap(self, pane: PaneModel)
        requires
            self.view_wf(),
            pane.cursor_fits(),
        ensures
            self.with_focused(pane).view_wf(),
            forall|other: PaneModel|
                self.panes.update(self.focus as int, pane).update(self.focus as int, other)
                    == #[trigger] self.panes.update(self.focus as int, other),
    {
        let swapped = self.with_focused(pane);
        assert forall|i: int| 0 <= i < swapped.panes.len() implies (#[trigger] swapped.panes[i]).cursor_fits() by {
            if i != self.focus {
                assert(self.panes[i].cursor_fits());
            }
        }
        assert forall|other: PaneModel|
            self.panes.update(self.focus as int, pane).update(self.focus as int, other)
                == #[trigger] self.panes.update(self.focus as int, other) by {
            assert(self.panes.update(self.focus as int, pane).update(self.focus as int, other)
                =~= self.panes.update(self.focus as int, other));
        }
    }

    // --- decisions --------------------------------------------------------------

    /// The state with the changes behind a pane that are too old dropped.
    pub open spec fn pruned(self, index: int, now: Instant, window: Duration) -> AppModel {
        if 0 <= index < self.panes.len() && self.panes[index].table(self.tables) is Some {
            let pane = self.panes[index];
            self.with_table(
                pane.cluster->0,
                pane.kind->0,
                (pane.table(self.tables)->0).pruned(now, window),
            )
        } else {
            self
        }
    }

    /// The changes behind a pane that are recent.
    pub open spec fn recent_changes(self, index: int, now: Instant, window: Duration) -> Seq<(KeyModel, Instant)> {
        if 0 <= index < self.panes.len() && self.panes[index].table(self.tables) is Some {
            (self.panes[index].table(self.tables)->0).pruned(now, window).changed
        } else {
            seq![]
        }
    }

    /// The clusters that have been out of view for longer than `timeout`.
    pub open spec fn idle_at(self, now: Instant, timeout: Duration) -> Seq<Seq<char>> {
        self.last_viewed.filter(neglected(self.panes, now, timeout)).map_values(viewed_cluster())
    }

    /// The state with the focused pane on another cluster. What belongs to the
    /// cluster that was there goes: the detail, the tail and the command. Until
    /// now that cluster was in view, and from now on the other one is.
    pub open spec fn with_cluster(self, cluster: Seq<char>, now: Instant) -> AppModel {
        if self.focused().cluster == Some(cluster) {
            self
        } else {
            (AppModel {
                last_viewed: seen(seen(self.last_viewed, self.focused().cluster, now), Some(cluster), now),
                detail: None,
                logs: None,
                exec_session: None,
                ..self
            }).refocused(PaneModel { cluster: Some(cluster), cursor: 0, ..self.focused() })
        }
    }

    /// The state with the focused pane on another kind.
    pub open spec fn with_kind(self, kind: KindModel) -> AppModel {
        if self.focused().kind == Some(kind) {
            self
        } else {
            (AppModel { detail: None, ..self }).refocused(
                PaneModel { kind: Some(kind), cursor: 0, ..self.focused() },
            )
        }
    }

    /// The state with other filters on the focused pane.
    pub open spec fn with_filters(self, filters: FiltersModel) -> AppModel {
        self.refocused(PaneModel { filters, ..self.focused() })
    }

    /// The state with another pane focused; a pane that is not there, or is
    /// focused already, changes nothing.
    pub open spec fn with_focus(self, index: usize, now: Instant) -> AppModel {
        if index < self.panes.len() && index != self.focus {
            AppModel {
                focus: index,
                detail: None,
                last_viewed: seen(self.last_viewed, self.panes[index as int].cluster, now),
                ..self
            }
        } else {
            self
        }
    }

    /// The second pane of a split: on another cluster, if there is one.
    pub open spec fn second_pane(self) -> PaneModel {
        let first = self.panes[0];
        PaneModel {
            cluster: match other_context(self.contexts, first.cluster) {
                Some(other) => Some(other),
                None => first.cluster,
            },
            kind: first.kind,
            ..PaneModel::blank()
        }
    }

    /// The state with a second pane, which gets the focus.
    pub open spec fn split(self, now: Instant) -> AppModel {
        if self.panes.len() > 1 {
            self
        } else {
            let pane = self.second_pane();
            AppModel {
                panes: self.panes.push(pane.refreshed(self.tables)),
                focus: 1,
                last_viewed: seen(self.last_viewed, pane.cluster, now),
                ..self
            }
        }
    }

    /// The state with the first pane alone. Until now the cluster of the other
    /// one was in view.
    pub open spec fn unsplit(self, now: Instant) -> AppModel {
        if self.panes.len() < 2 {
            self
        } else {
            AppModel {
                panes: self.panes.take(1),
                focus: 0,
                detail: None,
                last_viewed: seen(self.last_viewed, self.panes[1].cluster, now),
                ..self
            }
        }
    }

    /// The state with the cursor as near to a place as the rows allow.
    pub open spec fn with_cursor(self, cursor: int) -> AppModel {
        self.with_focused(
            PaneModel { cursor: clamped(cursor, self.focused().rows.len()), ..self.focused() },
        )
    }

    /// The state with everything a cluster holds let go, but for its connection.
    pub open spec fn released(self, cluster: Seq<char>) -> AppModel {
        let tables = self.tables.filter(of_other_clusters(cluster));
        AppModel {
            tables,
            last_viewed: cut(self.last_viewed, cluster),
            panes: Seq::new(
                self.panes.len(),
                |i: int|
                    if self.panes[i].cluster == Some(cluster) {
                        self.panes[i].refreshed(tables)
                    } else {
                        self.panes[i]
                    },
            ),
            ..self
        }
    }

    /// Whether requests can be sent to a cluster.
    pub open spec fn usable(self, cluster: Seq<char>) -> bool {
        match lookup(self.connections, cluster) {
            Some(connection) => connection_usable(connection.state),
            None => false,
        }
    }

    /// Why a change to a cluster is refused, if it is.
    pub open spec fn refusal(self, cluster: Seq<char>) -> Option<RefusalModel> {
        if !self.permissions.may_mutate(cluster) {
            Some(RefusalModel::ReadOnly { cluster })
        } else if !self.usable(cluster) {
            Some(RefusalModel::NotConnected { cluster })
        } else {
            None
        }
    }

    /// The kinds a cluster serves.
    pub open spec fn kinds_of(self, cluster: Option<Seq<char>>) -> Seq<KindInfoModel> {
        match cluster {
            Some(cluster) => match lookup(self.kinds, cluster) {
                Some(kinds) => kinds,
                None => seq![],
            },
            None => seq![],
        }
    }
}

/// A batch repaints exactly where one of its events changes something that is
/// shown at the time it is folded in.
pub proof fn a_batch_repaints_where_an_event_does(state: AppModel, events: Seq<EventModel>, now: Instant)
    ensures
        state.repaints_any(events, now) <==> exists|i: int|
            0 <= i < events.len() && (#[trigger] state.applied_all(events.take(i), now)).repaints(events[i]),
    decreases events.len(),
{
    if events.len() > 0 {
        let (last, before) = (events.len() - 1, events.drop_last());
        a_batch_repaints_where_an_event_does(state, before, now);
        assert(events.take(last) =~= before);
        if state.repaints_any(before, now) {
            let i = choose|i: int|
                0 <= i < before.len() && (#[trigger] state.applied_all(before.take(i), now)).repaints(before[i]);
            assert(events.take(i) =~= before.take(i));
            assert(state.applied_all(events.take(i), now).repaints(events[i]));
        }
        if exists|i: int|
            0 <= i < events.len() && (#[trigger] state.applied_all(events.take(i), now)).repaints(events[i]) {
            let i = choose|i: int|
                0 <= i < events.len() && (#[trigger] state.applied_all(events.take(i), now)).repaints(events[i]);
            if i < last {
                assert(events.take(i) =~= before.take(i));
                assert(state.applied_all(before.take(i), now).repaints(before[i]));
            }
        }
    }
}

/// A batch is folded in one event after the other, in the order they came.
pub proof fn a_batch_is_folded_in_order(state: AppModel, first: Seq<EventModel>, then: Seq<EventModel>, now: Instant)
    ensures
        state.applied_all(first + then, now) == state.applied_all(first, now).applied_all(then, now),
        state.applied_all(Seq::empty(), now) == state,
        then.len() == 1 ==> state.applied_all(then, now) == state.applied(then[0], now),
    decreases then.len(),
{
    if then.len() > 0 {
        assert((first + then).drop_last() =~= first + then.drop_last());
        a_batch_is_folded_in_order(state, first, then.drop_last(), now);
    } else {
        assert(first + then =~= first);
    }
    reveal_with_fuel(AppModel::applied_all, 2);
}

} // verus!

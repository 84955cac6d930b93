//! Everything a console renders, and the only place that decides what is true.
//!
//! The view holds one of these and asks it questions; it never infers state
//! from what happens to be in a table.

use crate::clock::{Duration, Instant};
use crate::connections::{Connection, ConnectionRegistry};
use crate::events::ClusterEvent;
use crate::filter::{compiles, FilterSpec};
use crate::keyed::{cut, is_key, lookup, put, put_after_cut, values, OrdMap};
use crate::logs::{LogBuffer, LogModel, LogOrder};
use crate::model::{
    all_held_rows, all_mentioned, budgeted, clusters_of, counted, held_rows, in_view, kind_size, larger, let_go,
    logged, neglected, of_other_clusters, other_context, releasable, rows_of, targets_of, unseen, viewed_cluster,
    Activity, ActivityModel, AppModel, Detail, DetailModel, ExecSessionModel, LogSessionModel, PaneModel,
    ACTIVITY_LIMIT, DEFAULT_ROW_BUDGET,
};
use crate::mutation::{Mutation, MutationOutcome, MutationOutcomeModel};
use crate::objects::{
    ClusterId, ColumnSpec, ContextInfo, ContextModel, KindId, KindInfo, KindInfoModel, KindModel, ResourceKey,
    ResourceRow, RowModel,
};
use crate::permissions::{refusal_reason, Authorized, AuthorizedExec, Permissions, Refusal};
use crate::rows::{clicked_sort, let_through, sort_rows, Filters, FiltersModel, Sort, SortKey};
use crate::seqs::{count, filter_push};
use crate::sessions::{
    exec_message, forward_problem, ExecStatus, ExecStatusModel, ExecTarget, ForwardId, ForwardInfo, ForwardInfoModel,
    ForwardState, LogLine, LogTarget,
};
use crate::sorting::{sort, Precedence};
use crate::table::{ResourceTable, TableModel};
use crate::value::Value;
use std::sync::Arc;
use vstd::prelude::*;

verus! {

/// How long a cluster nobody looks at stays warm, in nanoseconds.
pub const DEFAULT_IDLE_TIMEOUT: u128 = 300_000_000_000;

/// A live log tail.
#[derive(Debug)]
pub struct LogSession {
    /// Which cluster the lines come from.
    pub cluster: ClusterId,
    /// What is tailed.
    pub target: Arc<LogTarget>,
    /// The lines, bounded and filtered.
    pub buffer: LogBuffer,
    /// Whether the view sticks to the newest line.
    pub following: bool,
}

impl DeepView for LogSession {
    type V = LogSessionModel;

    open spec fn deep_view(&self) -> LogSessionModel {
        LogSessionModel {
            cluster: self.cluster.deep_view(),
            target: self.target.deep_view(),
            buffer: self.buffer@,
            following: self.following,
        }
    }
}

/// A command that runs in a container, and what it has said so far.
#[derive(Debug)]
pub struct ExecSession {
    /// Which cluster the command runs in.
    pub cluster: ClusterId,
    /// What is run, and where.
    pub target: Arc<ExecTarget>,
    /// The output, bounded and filtered.
    pub buffer: LogBuffer,
    /// How it ended, once it has.
    pub status: Option<ExecStatus>,
}

impl DeepView for ExecSession {
    type V = ExecSessionModel;

    open spec fn deep_view(&self) -> ExecSessionModel {
        ExecSessionModel {
            cluster: self.cluster.deep_view(),
            target: self.target.deep_view(),
            buffer: self.buffer@,
            status: self.status.deep_view(),
        }
    }
}

/// What is said about a command: how it ended, or that it runs.
pub open spec fn exec_summary(session: ExecSessionModel) -> Seq<char> {
    match session.status {
        Some(status) => exec_message(status),
        None => "running…"@,
    }
}

impl ExecSession {
    /// Whether the command still runs.
    pub fn is_running(&self) -> (running: bool)
        ensures
            running == (self.deep_view().status is None),
    {
        self.status.is_none()
    }

    /// The line under the output: what is happening, or how it ended.
    pub fn summary(&self) -> (summary: String)
        ensures
            summary@ == exec_summary(self.deep_view()),
    {
        match &self.status {
            Some(status) => status.message(),
            None => "running…".to_owned(),
        }
    }
}

// --- panes ----------------------------------------------------------------------

/// One view onto one cluster.
#[derive(Debug)]
pub struct Pane {
    cluster: Option<ClusterId>,
    kind: Option<KindId>,
    filters: Filters,
    rows: Arc<Vec<Arc<ResourceRow>>>,
    columns: Arc<Vec<ColumnSpec>>,
    cursor: usize,
    sort: Sort,
    unavailable: Option<String>,
}

impl DeepView for Pane {
    type V = PaneModel;

    closed spec fn deep_view(&self) -> PaneModel {
        PaneModel {
            cluster: self.cluster.deep_view(),
            kind: self.kind.deep_view(),
            filters: self.filters.deep_view(),
            rows: self.rows.deep_view(),
            columns: self.columns.deep_view(),
            cursor: self.cursor,
            sort: self.sort,
            unavailable: self.unavailable.deep_view(),
        }
    }
}

impl Default for Pane {
    fn default() -> (pane: Self)
        ensures
            pane.deep_view() == PaneModel::blank(),
    {
        Pane::blank()
    }
}

impl Pane {
    fn blank() -> (pane: Self)
        ensures
            pane.deep_view() == PaneModel::blank(),
    {
        let pane: Pane = Pane {
            cluster: None,
            kind: None,
            filters: Filters::none(),
            rows: Arc::new(Vec::new()),
            columns: Arc::new(Vec::new()),
            cursor: 0,
            sort: Sort::default(),
            unavailable: None,
        };
        assert(pane.rows.deep_view() =~= seq![]);
        assert(pane.columns.deep_view() =~= seq![]);
        pane
    }

    /// The cluster this pane shows.
    pub fn cluster(&self) -> (cluster: Option<&ClusterId>)
        ensures
            cluster.deep_view() == self.deep_view().cluster,
    {
        self.cluster.as_ref()
    }

    /// The kind this pane shows.
    pub fn kind(&self) -> (kind: Option<&KindId>)
        ensures
            kind.deep_view() == self.deep_view().kind,
    {
        self.kind.as_ref()
    }

    /// The filters on it.
    pub fn filters(&self) -> (filters: &Filters)
        ensures
            filters.deep_view() == self.deep_view().filters,
    {
        &self.filters
    }

    /// Which row the keyboard is on.
    pub fn cursor(&self) -> (cursor: usize)
        ensures
            cursor == self.deep_view().cursor,
    {
        self.cursor
    }

    /// What it is sorted by.
    pub fn sort(&self) -> (sort: Sort)
        ensures
            sort == self.deep_view().sort,
    {
        self.sort
    }

    /// The row the keyboard is on, if there is one.
    pub fn current_row(&self) -> (row: Option<&Arc<ResourceRow>>)
        ensures
            row.deep_view() == (if self.deep_view().cursor < self.deep_view().rows.len() {
                Some(self.deep_view().rows[self.deep_view().cursor as int])
            } else {
                None
            }),
    {
        if self.cursor < self.rows.len() {
            Some(&self.rows[self.cursor])
        } else {
            None
        }
    }

    /// The rows it shows.
    pub fn rows(&self) -> (rows: &Vec<Arc<ResourceRow>>)
        ensures
            rows.deep_view() == self.deep_view().rows,
    {
        &self.rows
    }

    /// The same rows, shared.
    pub fn rows_shared(&self) -> (rows: Arc<Vec<Arc<ResourceRow>>>)
        ensures
            rows.deep_view() == self.deep_view().rows,
    {
        Arc::clone(&self.rows)
    }

    /// The columns those rows carry cells for.
    pub fn columns(&self) -> (columns: &Vec<ColumnSpec>)
        ensures
            columns.deep_view() == self.deep_view().columns,
    {
        &self.columns
    }

    /// Why this kind cannot be listed here, if it cannot.
    pub fn unavailable(&self) -> (reason: Option<&String>)
        ensures
            reason.deep_view() == self.deep_view().unavailable,
    {
        self.unavailable.as_ref()
    }

    /// Whether this pane shows a kind of a cluster.
    pub fn shows(&self, cluster: &ClusterId, kind: &KindId) -> (shown: bool)
        ensures
            shown == self.deep_view().shows(cluster.deep_view(), kind.deep_view()),
    {
        match (&self.cluster, &self.kind) {
            (Some(shown_cluster), Some(shown_kind)) => shown_cluster.same(cluster) && shown_kind.same(kind),
            _ => false,
        }
    }

    /// Whether this pane is on a cluster.
    fn is_on(&self, cluster: &ClusterId) -> (on: bool)
        ensures
            on == (self.deep_view().cluster == Some(cluster.deep_view())),
    {
        match &self.cluster {
            Some(shown) => shown.same(cluster),
            None => false,
        }
    }
}

/// The rows of a table that filters let through.
fn shown_rows(table: &ResourceTable, filters: &Filters) -> (rows: Vec<Arc<ResourceRow>>)
    ensures
        rows.deep_view() == values(table@.rows).filter(let_through(filters.deep_view())),
{
    let ghost all = values(table@.rows);
    let ghost keep = let_through(filters.deep_view());
    let mut rows: Vec<Arc<ResourceRow>> = Vec::new();
    let mut at: usize = 0;
    assert(all.take(0) =~= seq![]);
    assert(rows.deep_view() =~= all.take(0).filter(keep)) by {
        reveal(Seq::filter);
    }
    while at < table.len()
        invariant
            at <= all.len(),
            all == values(table@.rows),
            keep == let_through(filters.deep_view()),
            rows.deep_view() == all.take(at as int).filter(keep),
        decreases all.len() - at,
    {
        let ghost before = rows.deep_view();
        let row: &Arc<ResourceRow> = table.row_at(at);
        assert(row.deep_view() == all[at as int]);
        proof {
            filter_push(all.take(at as int), all[at as int], keep);
            assert(all.take(at + 1) =~= all.take(at as int).push(all[at as int]));
        }
        if filters.passes(row) {
            rows.push(Arc::clone(row));
            assert(rows.deep_view() =~= before.push(all[at as int]));
        }
        at += 1;
    }
    assert(all.take(at as int) =~= all);
    rows
}

// --- the state ------------------------------------------------------------------

/// What a console knows and shows.
#[derive(Debug)]
pub struct AppState {
    connections: ConnectionRegistry,
    contexts: Vec<ContextInfo>,
    current: Option<ClusterId>,
    config_error: Option<String>,
    kinds: OrdMap<ClusterId, Arc<Vec<KindInfo>>>,
    tables: OrdMap<(ClusterId, KindId), ResourceTable>,
    detail: Option<Detail>,
    logs: Option<LogSession>,
    exec_session: Option<ExecSession>,
    panes: Vec<Pane>,
    focus: usize,
    last_viewed: OrdMap<ClusterId, Instant>,
    budget: usize,
    permissions: Permissions,
    activity: Vec<Activity>,
    forwards: OrdMap<(ForwardId, ClusterId), Arc<ForwardInfo>>,
    next_forward: u64,
}

impl View for AppState {
    type V = AppModel;

    closed spec fn view(&self) -> AppModel {
        AppModel {
            connections: self.connections@,
            contexts: self.contexts.deep_view(),
            current: self.current.deep_view(),
            config_error: self.config_error.deep_view(),
            kinds: self.kinds@,
            tables: self.tables@,
            detail: self.detail.deep_view(),
            logs: self.logs.deep_view(),
            exec_session: self.exec_session.deep_view(),
            panes: self.panes.deep_view(),
            focus: self.focus,
            last_viewed: self.last_viewed@,
            budget: self.budget,
            permissions: self.permissions@,
            activity: self.activity.deep_view(),
            forwards: self.forwards@,
            next_forward: self.next_forward,
        }
    }
}

spec fn sound_tables() -> spec_fn(ResourceTable) -> bool {
    |table: ResourceTable| table.wf()
}

struct Larger;

impl Precedence<(KindId, usize)> for Larger {
    open spec fn rel(&self) -> spec_fn((KindModel, usize), (KindModel, usize)) -> bool {
        larger()
    }

    fn before(&self, left: &(KindId, usize), right: &(KindId, usize)) -> (first: bool) {
        left.1 > right.1
    }
}

impl Default for AppState {
    fn default() -> (state: Self)
        ensures
            state.wf(),
            state@ == AppModel::fresh(),
    {
        AppState::new()
    }
}

impl AppState {
    /// Whether everything that is held is well-formed, and what is on screen
    /// hangs together.
    pub closed spec fn wf(&self) -> bool {
        &&& self.connections.wf()
        &&& self.kinds.wf()
        &&& self.tables.wf()
        &&& self.tables.all(sound_tables())
        &&& self.last_viewed.wf()
        &&& self.permissions.wf()
        &&& self.forwards.wf()
        &&& self.logs matches Some(session) ==> session.buffer.wf()
        &&& self.exec_session matches Some(session) ==> session.buffer.wf()
        &&& self@.view_wf()
    }

    /// A well-formed state is well-formed in what it holds: in particular, one
    /// pane or two are open, and every cursor is on a row.
    pub proof fn wf_model(&self)
        requires
            self.wf(),
        ensures
            self@.wf(),
    {
        self.connections.wf_is_ascending();
        let fine = |table: TableModel| table.wf();
        assert forall|table: ResourceTable| #[trigger] sound_tables()(table) implies fine(table.deep_view()) by {
            table.wf_model();
        }
        self.tables.all_models(sound_tables(), fine);
        assert forall|i: int| 0 <= i < self@.tables.len() implies (#[trigger] self@.tables[i]).1.wf() by {
            assert(fine(self.tables@[i].1));
        }
        if let Some(session) = self.logs {
            session.buffer.wf_model();
        }
        if let Some(session) = self.exec_session {
            session.buffer.wf_model();
        }
    }

    /// The state before the kubeconfig has been read.
    pub fn new() -> (state: Self)
        ensures
            state.wf(),
            state@ == AppModel::fresh(),
    {
        let mut panes: Vec<Pane> = Vec::new();
        panes.push(Pane::blank());
        let state: AppState = AppState {
            connections: ConnectionRegistry::new(),
            contexts: Vec::new(),
            current: None,
            config_error: None,
            kinds: OrdMap::new(),
            tables: OrdMap::new(),
            detail: None,
            logs: None,
            exec_session: None,
            panes,
            focus: 0,
            last_viewed: OrdMap::new(),
            budget: DEFAULT_ROW_BUDGET,
            permissions: Permissions::permissive(),
            activity: Vec::new(),
            forwards: OrdMap::new(),
            next_forward: 1,
        };
        assert(state@.contexts =~= seq![]);
        assert(state@.activity =~= seq![]);
        assert(state@.panes =~= seq![PaneModel::blank()]);
        state
    }

    // --- panes and their rows ---------------------------------------------------

    /// The table behind a pane, if it is held.
    fn pane_table(&self, index: usize) -> (table: Option<&ResourceTable>)
        requires
            self.wf(),
            index < self@.panes.len(),
        ensures
            table.deep_view() == self@.panes[index as int].table(self@.tables),
            table matches Some(table) ==> table.wf(),
    {
        let pane: &Pane = &self.panes[index];
        assert(self@.panes[index as int] == pane.deep_view());
        match (&pane.cluster, &pane.kind) {
            (Some(cluster), Some(kind)) => {
                let found: Option<&ResourceTable> = self.tables.get(&(cluster.dup(), kind.dup()));
                proof {
                    if let Some(table) = found {
                        assert(sound_tables()(*table));
                    }
                }
                found
            },
            _ => None,
        }
    }

    /// Brings a pane up to date with its table.
    fn refresh_pane(&mut self, index: usize)
        requires
            old(self).wf(),
            index < old(self)@.panes.len(),
        ensures
            final(self).wf(),
            final(self)@ == old(self)@.refreshed(index as int),
    {
        let ghost before = self@;
        let ghost pane = before.panes[index as int];
        let filters: Filters = self.panes[index].filters.dup();
        let by: Sort = self.panes[index].sort;
        assert(pane == self.panes[index as int].deep_view());
        match self.pane_table(index) {
            Some(table) => {
                let columns: Arc<Vec<ColumnSpec>> = Arc::clone(table.columns());
                let unavailable: Option<String> = match table.unavailable() {
                    Some(reason) => Some(reason.clone()),
                    None => None,
                };
                let mut rows: Vec<Arc<ResourceRow>> = shown_rows(table, &filters);
                sort_rows(&mut rows, by);
                let shown: usize = rows.len();
                let cursor: usize = self.panes[index].cursor;
                let clamped_cursor: usize = if shown == 0 {
                    0
                } else if cursor >= shown {
                    shown - 1
                } else {
                    cursor
                };
                self.panes[index].columns = columns;
                self.panes[index].unavailable = unavailable;
                self.panes[index].rows = Arc::new(rows);
                self.panes[index].cursor = clamped_cursor;
            },
            None => {
                let rows: Vec<Arc<ResourceRow>> = Vec::new();
                let columns: Vec<ColumnSpec> = Vec::new();
                assert(rows.deep_view() =~= seq![]);
                assert(columns.deep_view() =~= seq![]);
                self.panes[index].rows = Arc::new(rows);
                self.panes[index].columns = Arc::new(columns);
                self.panes[index].unavailable = None;
                self.panes[index].cursor = 0;
            },
        }
        proof {
            assert(self@.panes[index as int] == pane.refreshed(before.tables));
            assert(self@.panes =~= before.refreshed(index as int).panes);
            assert forall|i: int| 0 <= i < self@.panes.len() implies (#[trigger] self@.panes[i]).cursor_fits() by {
                if i != index {
                    assert(before.panes[i].cursor_fits());
                }
            }
        }
    }

    // --- tables -----------------------------------------------------------------

    /// A table, taken out; an empty one, if none is held.
    fn take_table(&mut self, cluster: &ClusterId, kind: &KindId) -> (table: ResourceTable)
        requires
            old(self).wf(),
        ensures
            final(self).wf(),
            table.wf(),
            table@ == old(self)@.table(cluster.deep_view(), kind.deep_view()),
            final(self)@ == (AppModel {
                tables: cut(old(self)@.tables, (cluster.deep_view(), kind.deep_view())),
                ..old(self)@
            }),
    {
        match self.tables.take(&(cluster.dup(), kind.dup())) {
            Some(table) => {
                assert(sound_tables()(table));
                table
            },
            None => ResourceTable::new(),
        }
    }

    /// Holds a table, in place of the one that was held.
    fn put_table(&mut self, cluster: &ClusterId, kind: &KindId, table: ResourceTable)
        requires
            old(self).wf(),
            table.wf(),
        ensures
            final(self).wf(),
            final(self)@ == old(self)@.with_table(cluster.deep_view(), kind.deep_view(), table@),
    {
        assert(sound_tables()(table));
        self.tables.put((cluster.dup(), kind.dup()), table);
    }

    /// Whether any pane shows a kind of a cluster.
    fn is_shown(&self, cluster: &ClusterId, kind: &KindId) -> (shown: bool)
        ensures
            shown == in_view(self@.panes, cluster.deep_view(), kind.deep_view()),
    {
        let mut at: usize = 0;
        while at < self.panes.len()
            invariant
                at <= self.panes.len(),
                forall|i: int|
                    0 <= i < at ==> !(#[trigger] self@.panes[i]).shows(cluster.deep_view(), kind.deep_view()),
            decreases self.panes.len() - at,
        {
            assert(self@.panes[at as int] == self.panes[at as int].deep_view());
            if self.panes[at].shows(cluster, kind) {
                return true;
            }
            at += 1;
        }
        false
    }

    /// Rows held for one cluster, over all of its kinds.
    pub fn cluster_rows(&self, cluster: &ClusterId) -> (rows: usize)
        ensures
            rows == counted(held_rows(self@.tables, cluster.deep_view())),
    {
        let ghost all = self.tables@;
        let mut rows: usize = 0;
        let mut at: usize = 0;
        while at < self.tables.len()
            invariant
                at <= all.len(),
                all == self.tables@,
                rows == counted(held_rows(all.take(at as int), cluster.deep_view())),
            decreases all.len() - at,
        {
            assert(all.take(at + 1).drop_last() =~= all.take(at as int));
            assert(all.take(at + 1).last() == all[at as int]);
            if self.tables.key_at(at).0.same(cluster) {
                rows = rows.saturating_add(self.tables.value_at(at).len());
            }
            at += 1;
        }
        assert(all.take(at as int) =~= all);
        rows
    }

    /// Rows held for every cluster.
    pub fn total_rows(&self) -> (rows: usize)
        ensures
            rows == counted(all_held_rows(self@.tables)),
    {
        let ghost all = self.tables@;
        let mut rows: usize = 0;
        let mut at: usize = 0;
        while at < self.tables.len()
            invariant
                at <= all.len(),
                all == self.tables@,
                rows == counted(all_held_rows(all.take(at as int))),
            decreases all.len() - at,
        {
            assert(all.take(at + 1).drop_last() =~= all.take(at as int));
            assert(all.take(at + 1).last() == all[at as int]);
            rows = rows.saturating_add(self.tables.value_at(at).len());
            at += 1;
        }
        assert(all.take(at as int) =~= all);
        rows
    }

    /// The kinds of a cluster that can be let go, the largest first.
    fn releasable(&self, cluster: &ClusterId) -> (kinds: Vec<(KindId, usize)>)
        requires
            self.wf(),
        ensures
            kinds.deep_view() == releasable(self@.tables, self@.panes, cluster.deep_view()),
    {
        let ghost all = self.tables@;
        let ghost keep = unseen(self@.panes, cluster.deep_view());
        let mut kinds: Vec<(KindId, usize)> = Vec::new();
        let mut at: usize = 0;
        assert(all.take(0) =~= seq![]);
        assert(kinds.deep_view() =~= all.take(0).filter(keep).map_values(kind_size())) by {
            reveal(Seq::filter);
        }
        while at < self.tables.len()
            invariant
                at <= all.len(),
                all == self.tables@,
                keep == unseen(self@.panes, cluster.deep_view()),
                kinds.deep_view() == all.take(at as int).filter(keep).map_values(kind_size()),
            decreases all.len() - at,
        {
            let ghost before = kinds.deep_view();
            let ghost entry = all[at as int];
            proof {
                filter_push(all.take(at as int), entry, keep);
                assert(all.take(at + 1) =~= all.take(at as int).push(entry));
            }
            let key: &(ClusterId, KindId) = self.tables.key_at(at);
            if key.0.same(cluster) && !self.is_shown(cluster, &key.1) {
                let rows: usize = self.tables.value_at(at).len();
                kinds.push((key.1.dup(), rows));
                assert(kinds.deep_view() =~= before.push(kind_size()(entry)));
                assert(all.take(at as int).filter(keep).push(entry).map_values(kind_size()) =~= before.push(
                    kind_size()(entry),
                ));
            }
            at += 1;
        }
        assert(all.take(at as int) =~= all);
        sort(&kinds, &Larger)
    }

    /// Lets a cluster's largest unseen tables go while it is over its budget.
    ///
    /// What a pane shows is never let go, so that a single enormous table can
    /// exceed the budget.
    fn enforce_budget(&mut self, cluster: &ClusterId)
        requires
            old(self).wf(),
        ensures
            final(self).wf(),
            final(self)@ == (AppModel {
                tables: budgeted(old(self)@.tables, old(self)@.panes, cluster.deep_view(), old(self)@.budget),
                ..old(self)@
            }),
    {
        let kinds: Vec<(KindId, usize)> = self.releasable(cluster);
        let ghost all = kinds.deep_view();
        let ghost goal = let_go(self@.tables, cluster.deep_view(), all, self@.budget);
        let mut at: usize = 0;
        assert(all.skip(0) =~= all);
        while at < kinds.len()
            invariant
                at <= kinds.len(),
                all == kinds.deep_view(),
                self.wf(),
                self@ == (AppModel { tables: self@.tables, ..old(self)@ }),
                goal == budgeted(old(self)@.tables, old(self)@.panes, cluster.deep_view(), old(self)@.budget),
                goal == let_go(self@.tables, cluster.deep_view(), all.skip(at as int), self@.budget),
            decreases kinds.len() - at,
        {
            if self.cluster_rows(cluster) <= self.budget {
                return;
            }
            assert(all.skip(at as int).drop_first() =~= all.skip(at + 1));
            let _ = self.tables.take(&(cluster.dup(), kinds[at].0.dup()));
            at += 1;
        }
    }

    // --- events -----------------------------------------------------------------

    /// Whether a detail event answers the fetch that is under way.
    fn awaiting(&self, cluster: &ClusterId, kind: &KindId, key: &ResourceKey) -> (awaited: bool)
        ensures
            awaited == self@.awaits(cluster.deep_view(), kind.deep_view(), key.deep_view()),
    {
        match &self.detail {
            Some(detail) => detail.cluster().same(cluster) && detail.kind().same(kind) && detail.key().same(key),
            None => false,
        }
    }

    /// Whether the tail is one of a cluster.
    fn is_tailing(&self, cluster: &ClusterId) -> (tailing: bool)
        ensures
            tailing == self@.tails(cluster.deep_view()),
    {
        match &self.logs {
            Some(session) => session.cluster.same(cluster),
            None => false,
        }
    }

    /// Whether the command is one of a cluster.
    fn is_executing(&self, cluster: &ClusterId) -> (executing: bool)
        ensures
            executing == self@.runs(cluster.deep_view()),
    {
        match &self.exec_session {
            Some(session) => session.cluster.same(cluster),
            None => false,
        }
    }

    fn record_activity(&mut self, activity: Activity)
        requires
            old(self).wf(),
        ensures
            final(self).wf(),
            final(self)@ == old(self)@.recording(activity.deep_view()),
    {
        let ghost before = self@.activity;
        let ghost latest = activity.deep_view();
        self.activity.insert(0, activity);
        assert(self.activity.deep_view() =~= seq![latest] + before);
        self.activity.truncate(ACTIVITY_LIMIT);
        assert(self.activity.deep_view() =~= logged(before, latest));
    }

    fn apply_contexts(&mut self, contexts: &Vec<ContextInfo>, current: &Option<ClusterId>, now: Instant)
        requires
            old(self).wf(),
        ensures
            final(self).wf(),
            final(self)@ == old(self)@.with_contexts(contexts.deep_view(), current.deep_view(), now),
    {
        let ghost before = self@;
        let ghost all = contexts.deep_view();
        self.config_error = None;
        self.contexts = contexts.dup();
        self.current = current.dup();
        let mut at: usize = 0;
        while at < contexts.len()
            invariant
                at <= contexts.len(),
                all == contexts.deep_view(),
                self.wf(),
                self@ == (AppModel {
                    config_error: None,
                    contexts: all,
                    current: current.deep_view(),
                    connections: all_mentioned(before.connections, all.take(at as int), now),
                    ..before
                }),
            decreases contexts.len() - at,
        {
            assert(all.take(at + 1).drop_last() =~= all.take(at as int));
            assert(all.take(at + 1).last() == all[at as int]);
            self.connections.track(ClusterId::new(contexts[at].name.as_str()), now);
            at += 1;
        }
        assert(all.take(at as int) =~= all);
        assert(self@.panes[0] == self.panes[0].deep_view());
        if self.panes[0].cluster.is_none() {
            if let Some(current) = current {
                self.last_viewed.put(current.dup(), now);
                self.panes[0].cluster = Some(current.dup());
                proof {
                    assert(self@.panes =~= before.panes.update(
                        0,
                        PaneModel { cluster: Some(current.deep_view()), ..before.panes[0] },
                    ));
                    assert forall|i: int| 0 <= i < self@.panes.len() implies (#[trigger] self@.panes[i]).cursor_fits() by {
                        assert(before.panes[i].cursor_fits());
                    }
                }
            }
        }
    }

    fn apply_listing(
        &mut self,
        cluster: &ClusterId,
        kind: &KindId,
        columns: &Arc<Vec<ColumnSpec>>,
        rows: &Vec<ResourceRow>,
    ) -> (changed: bool)
        requires
            old(self).wf(),
        ensures
            final(self).wf(),
            final(self)@ == old(self)@.with_listing(
                cluster.deep_view(),
                kind.deep_view(),
                columns.deep_view(),
                rows.deep_view(),
            ),
            changed == ({
                let table = old(self)@.table(cluster.deep_view(), kind.deep_view());
                in_view(old(self)@.panes, cluster.deep_view(), kind.deep_view()) && (!table.holds_already(
                    columns.deep_view(),
                    rows.deep_view(),
                ) || table.unavailable is Some)
            }),
    {
        let mut table: ResourceTable = self.take_table(cluster, kind);
        let touched: bool = table.reset(Arc::clone(columns), rows);
        proof {
            put_after_cut::<(ClusterId, KindId), TableModel>(
                old(self)@.tables,
                (cluster.deep_view(), kind.deep_view()),
                table@,
            );
        }
        self.put_table(cluster, kind, table);
        self.connections.mark_fresh(cluster);
        self.enforce_budget(cluster);
        touched && self.is_shown(cluster, kind)
    }

    fn apply_row(&mut self, cluster: &ClusterId, kind: &KindId, row: &Arc<ResourceRow>, now: Instant) -> (changed: bool)
        requires
            old(self).wf(),
        ensures
            final(self).wf(),
            final(self)@ == old(self)@.with_table(
                cluster.deep_view(),
                kind.deep_view(),
                old(self)@.table(cluster.deep_view(), kind.deep_view()).with_row(row.deep_view(), now),
            ),
            changed == (in_view(old(self)@.panes, cluster.deep_view(), kind.deep_view()) && !old(self)@.table(
                cluster.deep_view(),
                kind.deep_view(),
            ).has_row(row.deep_view())),
    {
        let mut table: ResourceTable = self.take_table(cluster, kind);
        let touched: bool = table.apply(Arc::clone(row), now);
        proof {
            put_after_cut::<(ClusterId, KindId), TableModel>(
                old(self)@.tables,
                (cluster.deep_view(), kind.deep_view()),
                table@,
            );
        }
        self.put_table(cluster, kind, table);
        touched && self.is_shown(cluster, kind)
    }

    fn apply_removal(&mut self, cluster: &ClusterId, kind: &KindId, key: &ResourceKey) -> (changed: bool)
        requires
            old(self).wf(),
        ensures
            final(self).wf(),
            final(self)@ == old(self)@.with_table(
                cluster.deep_view(),
                kind.deep_view(),
                old(self)@.table(cluster.deep_view(), kind.deep_view()).without(key.deep_view()),
            ),
            changed == (in_view(old(self)@.panes, cluster.deep_view(), kind.deep_view()) && is_key(
                old(self)@.table(cluster.deep_view(), kind.deep_view()).rows,
                key.deep_view(),
            )),
    {
        let mut table: ResourceTable = self.take_table(cluster, kind);
        let touched: bool = table.remove(key);
        proof {
            put_after_cut::<(ClusterId, KindId), TableModel>(
                old(self)@.tables,
                (cluster.deep_view(), kind.deep_view()),
                table@,
            );
        }
        self.put_table(cluster, kind, table);
        touched && self.is_shown(cluster, kind)
    }

    fn apply_refusal(&mut self, cluster: &ClusterId, kind: &KindId, reason: &String) -> (changed: bool)
        requires
            old(self).wf(),
        ensures
            final(self).wf(),
            final(self)@ == old(self)@.with_table(
                cluster.deep_view(),
                kind.deep_view(),
                old(self)@.table(cluster.deep_view(), kind.deep_view()).refused(reason@),
            ),
            changed == (in_view(old(self)@.panes, cluster.deep_view(), kind.deep_view()) && !old(self)@.table(
                cluster.deep_view(),
                kind.deep_view(),
            ).refused_already(reason@)),
    {
        let mut table: ResourceTable = self.take_table(cluster, kind);
        let touched: bool = table.refuse(reason.as_str());
        proof {
            put_after_cut::<(ClusterId, KindId), TableModel>(
                old(self)@.tables,
                (cluster.deep_view(), kind.deep_view()),
                table@,
            );
        }
        self.put_table(cluster, kind, table);
        touched && self.is_shown(cluster, kind)
    }

    fn apply_forward(&mut self, cluster: &ClusterId, forward: &Arc<ForwardInfo>)
        requires
            old(self).wf(),
        ensures
            final(self).wf(),
            final(self)@ == (AppModel {
                forwards: if forward.deep_view().state is Stopped {
                    cut(old(self)@.forwards, (forward.deep_view().id, cluster.deep_view()))
                } else {
                    put::<(ForwardId, ClusterId), ForwardInfoModel>(
                        old(self)@.forwards,
                        (forward.deep_view().id, cluster.deep_view()),
                        forward.deep_view(),
                    )
                },
                ..old(self)@
            }),
    {
        let key: (ForwardId, ClusterId) = (forward.id, cluster.dup());
        match &forward.state {
            ForwardState::Stopped => {
                let _ = self.forwards.take(&key);
            },
            _ => {
                self.forwards.put(key, Arc::clone(forward));
            },
        }
    }

    /// Folds one event in, reporting whether anything that is shown changed.
    pub fn apply(&mut self, event: &ClusterEvent, now: Instant) -> (changed: bool)
        requires
            old(self).wf(),
            old(self)@.takes(event.deep_view()),
        ensures
            final(self).wf(),
            final(self)@ == old(self)@.applied(event.deep_view(), now),
            changed == old(self)@.repaints(event.deep_view()),
    {
        let news: bool = self.connections.apply(event, now);
        match event {
            ClusterEvent::Contexts { contexts, current } => {
                self.apply_contexts(contexts, current, now);
                true
            },
            ClusterEvent::ConfigFailed { reason } => {
                // The contexts stay: the last good read is the best there is.
                self.config_error = Some(reason.dup());
                true
            },
            ClusterEvent::Kinds { cluster, kinds } => {
                self.kinds.put(cluster.dup(), Arc::clone(kinds));
                true
            },
            ClusterEvent::ResourceReset { cluster, kind, columns, rows } => {
                self.apply_listing(cluster, kind, columns, rows)
            },
            ClusterEvent::ResourceApplied { cluster, kind, row } => self.apply_row(cluster, kind, row, now),
            ClusterEvent::ResourceDeleted { cluster, kind, key } => self.apply_removal(cluster, kind, key),
            ClusterEvent::Object { cluster, kind, detail } => {
                if self.awaiting(cluster, kind, &detail.key) {
                    self.detail = Some(
                        Detail::Ready {
                            cluster: cluster.dup(),
                            kind: kind.dup(),
                            object: Arc::clone(detail),
                        },
                    );
                    true
                } else {
                    false
                }
            },
            ClusterEvent::KindFailed { cluster, kind, reason } => self.apply_refusal(cluster, kind, reason),
            ClusterEvent::ObjectFailed { cluster, kind, key, reason } => {
                if self.awaiting(cluster, kind, key) {
                    self.detail = Some(
                        Detail::Failed {
                            cluster: cluster.dup(),
                            kind: kind.dup(),
                            key: key.dup(),
                            reason: reason.dup(),
                        },
                    );
                    true
                } else {
                    false
                }
            },
            ClusterEvent::LogBatch { cluster, lines } => {
                if self.is_tailing(cluster) {
                    if let Some(session) = &mut self.logs {
                        session.buffer.extend(lines);
                    }
                    true
                } else {
                    false
                }
            },
            ClusterEvent::LogSourceChanged { cluster, source, state } => {
                if self.is_tailing(cluster) {
                    if let Some(session) = &mut self.logs {
                        session.buffer.source_changed(source.dup(), state.dup());
                    }
                    true
                } else {
                    false
                }
            },
            ClusterEvent::LogsFailed { cluster, reason } => {
                if self.is_tailing(cluster) {
                    if let Some(session) = &mut self.logs {
                        session.buffer.fail(reason.dup());
                    }
                    true
                } else {
                    false
                }
            },
            ClusterEvent::MutationDone { cluster, mutation, outcome } => {
                self.record_activity(
                    Activity {
                        cluster: cluster.dup(),
                        mutation: Arc::clone(mutation),
                        outcome: outcome.dup(),
                        at: now,
                    },
                );
                true
            },
            ClusterEvent::ForwardChanged { cluster, forward } => {
                self.apply_forward(cluster, forward);
                true
            },
            ClusterEvent::ExecOutput { cluster, lines } => {
                if self.is_executing(cluster) {
                    if let Some(session) = &mut self.exec_session {
                        session.buffer.extend(lines);
                    }
                    true
                } else {
                    false
                }
            },
            ClusterEvent::ExecFinished { cluster, status } => {
                if self.is_executing(cluster) {
                    if let Some(session) = &mut self.exec_session {
                        session.status = Some(status.dup());
                    }
                    true
                } else {
                    false
                }
            },
            _ => news,
        }
    }

    /// Whether an event changes the rows a pane shows.
    fn affects(&self, event: &ClusterEvent, index: usize) -> (affected: bool)
        requires
            index < self@.panes.len(),
        ensures
            affected == self@.affects(event.deep_view(), index as int),
    {
        assert(self@.panes[index as int] == self.panes[index as int].deep_view());
        match event {
            ClusterEvent::ResourceReset { cluster, kind, .. } => self.panes[index].shows(cluster, kind),
            ClusterEvent::ResourceApplied { cluster, kind, .. } => self.panes[index].shows(cluster, kind),
            ClusterEvent::ResourceDeleted { cluster, kind, .. } => self.panes[index].shows(cluster, kind),
            ClusterEvent::KindFailed { cluster, kind, .. } => self.panes[index].shows(cluster, kind),
            _ => false,
        }
    }

    /// Folds a batch in, rebuilding the rows of a pane at most once, and
    /// reports whether anything that is shown changed.
    pub fn apply_batch(&mut self, events: &Vec<ClusterEvent>, now: Instant) -> (changed: bool)
        requires
            old(self).wf(),
            old(self)@.takes_all(events.deep_view(), now),
        ensures
            final(self).wf(),
            final(self)@ == old(self)@.batched(events.deep_view(), now),
            changed == old(self)@.repaints_any(events.deep_view(), now),
    {
        let ghost all = events.deep_view();
        let ghost start = self@;
        let mut changed: bool = false;
        let mut stale: Vec<bool> = Vec::new();
        let mut fill: usize = 0;
        while fill < self.panes.len()
            invariant
                fill <= self.panes.len(),
                stale.len() == fill,
                forall|i: int| 0 <= i < fill ==> !(#[trigger] stale@[i]),
            decreases self.panes.len() - fill,
        {
            stale.push(false);
            fill += 1;
        }

        let mut at: usize = 0;
        assert(all.take(0) =~= seq![]);
        while at < events.len()
            invariant
                at <= events.len(),
                all == events.deep_view(),
                start == old(self)@,
                start.takes_all(all, now),
                self.wf(),
                self@ == start.applied_all(all.take(at as int), now),
                changed == start.repaints_any(all.take(at as int), now),
                stale.len() == self@.panes.len(),
                forall|i: int|
                    0 <= i < stale.len() ==> (#[trigger] stale@[i]) == start.affects_any(
                        all.take(at as int),
                        now,
                        i,
                    ),
            decreases events.len() - at,
        {
            let event: &ClusterEvent = &events[at];
            assert(event.deep_view() == all[at as int]);
            assert(start.applied_all(all.take(at as int), now).takes(all[at as int]));
            let repaint: bool = self.apply(event, now);
            changed = changed || repaint;
            proof {
                assert(all.take(at + 1).drop_last() =~= all.take(at as int));
                assert(all.take(at + 1).last() == all[at as int]);
                start.applied_all(all.take(at as int), now).applying_keeps_panes(all[at as int], now);
            }
            let mut pane: usize = 0;
            while pane < stale.len()
                invariant
                    pane <= stale.len(),
                    at < events.len(),
                    all == events.deep_view(),
                    event.deep_view() == all[at as int],
                    all.take(at + 1).drop_last() == all.take(at as int),
                    all.take(at + 1).last() == all[at as int],
                    self@ == start.applied_all(all.take(at + 1), now),
                    stale.len() == self@.panes.len(),
                    forall|i: int|
                        0 <= i < pane ==> (#[trigger] stale@[i]) == start.affects_any(all.take(at + 1), now, i),
                    forall|i: int|
                        pane <= i < stale.len() ==> (#[trigger] stale@[i]) == start.affects_any(
                            all.take(at as int),
                            now,
                            i,
                        ),
                decreases stale.len() - pane,
            {
                let affected: bool = self.affects(event, pane);
                let was: bool = stale[pane];
                stale.set(pane, was || affected);
                pane += 1;
            }
            at += 1;
        }
        assert(all.take(at as int) =~= all);

        let ghost after = self@;
        let mut pane: usize = 0;
        while pane < stale.len()
            invariant
                pane <= stale.len(),
                self.wf(),
                stale.len() == after.panes.len(),
                self@ == (AppModel { panes: self@.panes, ..after }),
                self@.panes.len() == after.panes.len(),
                forall|i: int| 0 <= i < stale.len() ==> (#[trigger] stale@[i]) == start.affects_any(all, now, i),
                forall|i: int|
                    0 <= i < pane ==> (#[trigger] self@.panes[i]) == (if start.affects_any(all, now, i) {
                        after.panes[i].refreshed(after.tables)
                    } else {
                        after.panes[i]
                    }),
                forall|i: int| pane <= i < self@.panes.len() ==> (#[trigger] self@.panes[i]) == after.panes[i],
            decreases stale.len() - pane,
        {
            assert(self@.panes[pane as int] == after.panes[pane as int]);
            if stale[pane] {
                self.refresh_pane(pane);
            }
            pane += 1;
        }
        assert(self@.panes =~= start.batched(all, now).panes);
        changed
    }

    // --- what the panes show ----------------------------------------------------

    /// Switches the cluster the focused pane shows.
    pub fn select_cluster(&mut self, cluster: ClusterId, now: Instant)
        requires
            old(self).wf(),
        ensures
            final(self).wf(),
            final(self)@ == old(self)@.with_cluster(cluster.deep_view(), now),
    {
        let ghost before = self@;
        let ghost pane = before.focused();
        assert(pane == self.panes[self.focus as int].deep_view());
        if self.panes[self.focus].is_on(&cluster) {
            return;
        }
        let ghost moved = PaneModel { cluster: Some(cluster.deep_view()), cursor: 0, ..pane };
        if let Some(leaving) = &self.panes[self.focus].cluster {
            let leaving: ClusterId = leaving.dup();
            self.last_viewed.put(leaving, now);
        }
        self.last_viewed.put(cluster.dup(), now);
        self.panes[self.focus].cluster = Some(cluster);
        self.panes[self.focus].cursor = 0;
        self.detail = None;
        self.logs = None;
        self.exec_session = None;
        let focus: usize = self.focus;
        proof {
            assert(self@.panes =~= before.panes.update(focus as int, moved));
            before.pane_swap(moved);
        }
        self.refresh_pane(focus);
        assert(self@.panes =~= before.with_cluster(cluster.deep_view(), now).panes);
    }

    /// Switches the kind the focused pane shows.
    pub fn select_kind(&mut self, kind: KindId)
        requires
            old(self).wf(),
        ensures
            final(self).wf(),
            final(self)@ == old(self)@.with_kind(kind.deep_view()),
    {
        let ghost before = self@;
        let ghost pane = before.focused();
        assert(pane == self.panes[self.focus as int].deep_view());
        let same: bool = match &self.panes[self.focus].kind {
            Some(shown) => shown.same(&kind),
            None => false,
        };
        if same {
            return;
        }
        let ghost moved = PaneModel { kind: Some(kind.deep_view()), cursor: 0, ..pane };
        self.panes[self.focus].kind = Some(kind);
        self.panes[self.focus].cursor = 0;
        self.detail = None;
        let focus: usize = self.focus;
        proof {
            assert(self@.panes =~= before.panes.update(focus as int, moved));
            before.pane_swap(moved);
        }
        self.refresh_pane(focus);
        assert(self@.panes =~= before.with_kind(kind.deep_view()).panes);
    }

    /// Puts filters on the focused pane.
    fn set_filters(&mut self, filters: Filters)
        requires
            old(self).wf(),
        ensures
            final(self).wf(),
            final(self)@ == old(self)@.with_filters(filters.deep_view()),
    {
        let ghost before = self@;
        let ghost pane = before.focused();
        let ghost changed = PaneModel { filters: filters.deep_view(), ..pane };
        assert(pane == self.panes[self.focus as int].deep_view());
        self.panes[self.focus].filters = filters;
        let focus: usize = self.focus;
        proof {
            assert(self@.panes =~= before.panes.update(focus as int, changed));
            before.pane_swap(changed);
        }
        self.refresh_pane(focus);
        assert(self@.panes =~= before.with_filters(filters.deep_view()).panes);
    }

    /// Puts a namespace filter on the focused pane, or takes it off.
    pub fn set_namespace(&mut self, namespace: Option<String>)
        requires
            old(self).wf(),
        ensures
            final(self).wf(),
            final(self)@ == old(self)@.with_filters(
                FiltersModel { namespace: typed(namespace.deep_view()), ..old(self)@.focused().filters },
            ),
    {
        assert(self@.focused() == self.panes[self.focus as int].deep_view());
        let mut filters: Filters = self.panes[self.focus].filters.dup();
        filters.namespace = unless_empty(namespace);
        self.set_filters(filters);
    }

    /// Puts a label selector on the focused pane, or takes it off.
    pub fn set_selector(&mut self, selector: Option<String>)
        requires
            old(self).wf(),
        ensures
            final(self).wf(),
            final(self)@ == old(self)@.with_filters(
                FiltersModel { selector: typed(selector.deep_view()), ..old(self)@.focused().filters },
            ),
    {
        assert(self@.focused() == self.panes[self.focus as int].deep_view());
        let mut filters: Filters = self.panes[self.focus].filters.dup();
        filters.selector = unless_empty(selector);
        self.set_filters(filters);
    }

    /// Puts a text to search for on the focused pane, or takes it off.
    pub fn set_search(&mut self, search: Option<String>)
        requires
            old(self).wf(),
        ensures
            final(self).wf(),
            final(self)@ == old(self)@.with_filters(
                FiltersModel { search: typed(search.deep_view()), ..old(self)@.focused().filters },
            ),
    {
        assert(self@.focused() == self.panes[self.focus as int].deep_view());
        let mut filters: Filters = self.panes[self.focus].filters.dup();
        filters.search = unless_empty(search);
        self.set_filters(filters);
    }

    /// The filters on the focused pane.
    pub fn filters(&self) -> (filters: &Filters)
        requires
            self.wf(),
        ensures
            filters.deep_view() == self@.focused().filters,
    {
        self.focused().filters()
    }

    /// Sorts the focused pane by a column, going through its orders.
    pub fn sort_by(&mut self, key: SortKey)
        requires
            old(self).wf(),
        ensures
            final(self).wf(),
            final(self)@ == old(self)@.refocused(
                PaneModel {
                    sort: clicked_sort(old(self)@.focused().sort, key),
                    cursor: 0,
                    ..old(self)@.focused()
                },
            ),
    {
        let ghost before = self@;
        let ghost pane = before.focused();
        let ghost sorted_pane = PaneModel { sort: clicked_sort(pane.sort, key), cursor: 0, ..pane };
        assert(pane == self.panes[self.focus as int].deep_view());
        let clicked: Sort = self.panes[self.focus].sort.clicked(key);
        self.panes[self.focus].sort = clicked;
        self.panes[self.focus].cursor = 0;
        let focus: usize = self.focus;
        proof {
            assert(self@.panes =~= before.panes.update(focus as int, sorted_pane));
            before.pane_swap(sorted_pane);
        }
        self.refresh_pane(focus);
        assert(self@.panes =~= before.refocused(sorted_pane).panes);
    }

    /// What the focused pane is sorted by.
    pub fn sort(&self) -> (sort: Sort)
        requires
            self.wf(),
        ensures
            sort == self@.focused().sort,
    {
        self.focused().sort()
    }

    /// Every pane, left to right.
    pub fn panes(&self) -> (panes: &Vec<Pane>)
        ensures
            panes.deep_view() == self@.panes,
    {
        &self.panes
    }

    /// The pane that commands apply to.
    pub fn focused(&self) -> (pane: &Pane)
        requires
            self.wf(),
        ensures
            pane.deep_view() == self@.focused(),
    {
        assert(self@.focused() == self.panes[self.focus as int].deep_view());
        &self.panes[self.focus]
    }

    /// Which pane commands apply to.
    pub fn focus(&self) -> (focus: usize)
        ensures
            focus == self@.focus,
    {
        self.focus
    }

    /// Focuses a pane. One that is not there is ignored.
    pub fn focus_pane(&mut self, index: usize, now: Instant)
        requires
            old(self).wf(),
        ensures
            final(self).wf(),
            final(self)@ == old(self)@.with_focus(index, now),
    {
        if index < self.panes.len() && index != self.focus {
            self.focus = index;
            self.detail = None;
            assert(self@.panes[index as int] == self.panes[index as int].deep_view());
            if let Some(cluster) = &self.panes[index].cluster {
                self.last_viewed.put(cluster.dup(), now);
            }
        }
    }

    /// The first context of another cluster than the one given.
    fn other_context(&self, cluster: &Option<ClusterId>) -> (other: Option<ClusterId>)
        ensures
            other.deep_view() == other_context(self@.contexts, cluster.deep_view()),
    {
        let ghost all = self@.contexts;
        let mut at: usize = 0;
        while at < self.contexts.len()
            invariant
                at <= self.contexts.len(),
                all == self.contexts.deep_view(),
                other_context(all.take(at as int), cluster.deep_view()) is None,
            decreases self.contexts.len() - at,
        {
            assert(all.take(at + 1).drop_last() =~= all.take(at as int));
            assert(all.take(at + 1).last() == all[at as int]);
            let candidate: Option<ClusterId> = Some(ClusterId::new(self.contexts[at].name.as_str()));
            if !candidate.same(cluster) {
                proof {
                    other_context_stays(all, cluster.deep_view(), at + 1);
                }
                return candidate;
            }
            at += 1;
        }
        assert(all.take(at as int) =~= all);
        None
    }

    /// Adds a second pane, on another cluster if there is one, and reports
    /// whether the layout changed.
    pub fn split(&mut self, now: Instant) -> (changed: bool)
        requires
            old(self).wf(),
        ensures
            final(self).wf(),
            final(self)@ == old(self)@.split(now),
            changed == (old(self)@.panes.len() == 1),
    {
        if self.panes.len() > 1 {
            return false;
        }
        let ghost before = self@;
        assert(before.panes[0] == self.panes[0].deep_view());
        let mut pane: Pane = Pane::blank();
        pane.kind = self.panes[0].kind.dup();
        pane.cluster = match self.other_context(&self.panes[0].cluster) {
            Some(other) => Some(other),
            None => self.panes[0].cluster.dup(),
        };
        let ghost second = pane.deep_view();
        if let Some(cluster) = &pane.cluster {
            self.last_viewed.put(cluster.dup(), now);
        }
        self.panes.push(pane);
        self.focus = 1;
        proof {
            assert(self@.panes =~= before.panes.push(second));
            assert forall|i: int| 0 <= i < self@.panes.len() implies (#[trigger] self@.panes[i]).cursor_fits() by {
                if i == 0 {
                    assert(before.panes[0].cursor_fits());
                }
            }
        }
        self.refresh_pane(1);
        assert(self@.panes =~= before.split(now).panes);
        true
    }

    /// Drops the second pane, and reports whether the layout changed.
    pub fn unsplit(&mut self, now: Instant) -> (changed: bool)
        requires
            old(self).wf(),
        ensures
            final(self).wf(),
            final(self)@ == old(self)@.unsplit(now),
            changed == (old(self)@.panes.len() == 2),
    {
        if self.panes.len() < 2 {
            return false;
        }
        let ghost before = self@;
        assert(before.panes[1] == self.panes[1].deep_view());
        if let Some(leaving) = &self.panes[1].cluster {
            let leaving: ClusterId = leaving.dup();
            self.last_viewed.put(leaving, now);
        }
        self.panes.truncate(1);
        self.focus = 0;
        self.detail = None;
        proof {
            assert(self@.panes =~= before.panes.take(1));
            assert(before.panes[0].cursor_fits());
        }
        true
    }

    /// Whether two panes are open.
    pub fn is_split(&self) -> (split: bool)
        ensures
            split == (self@.panes.len() > 1),
    {
        self.panes.len() > 1
    }

    /// The clusters that are in a pane.
    pub fn clusters_in_view(&self) -> (clusters: Vec<ClusterId>)
        ensures
            clusters.deep_view() == clusters_of(self@.panes),
    {
        let ghost all = self@.panes;
        let mut clusters: Vec<ClusterId> = Vec::new();
        let mut at: usize = 0;
        assert(clusters.deep_view() =~= clusters_of(all.take(0)));
        while at < self.panes.len()
            invariant
                at <= self.panes.len(),
                all == self.panes.deep_view(),
                clusters.deep_view() == clusters_of(all.take(at as int)),
            decreases self.panes.len() - at,
        {
            let ghost before = clusters.deep_view();
            assert(all.take(at + 1).drop_last() =~= all.take(at as int));
            assert(all.take(at + 1).last() == all[at as int]);
            if let Some(cluster) = &self.panes[at].cluster {
                let repeated: bool = clusters.len() > 0 && clusters[clusters.len() - 1].same(cluster);
                if !repeated {
                    clusters.push(cluster.dup());
                    assert(clusters.deep_view() =~= before.push(cluster.deep_view()));
                }
            }
            at += 1;
        }
        assert(all.take(at as int) =~= all);
        clusters
    }

    /// What the panes need watched: a cluster, a kind and the filters.
    pub fn watch_targets(&self) -> (targets: Vec<(ClusterId, KindId, Filters)>)
        ensures
            targets.deep_view() == targets_of(self@.panes),
    {
        let ghost all = self@.panes;
        let mut targets: Vec<(ClusterId, KindId, Filters)> = Vec::new();
        let mut at: usize = 0;
        assert(targets.deep_view() =~= targets_of(all.take(0)));
        while at < self.panes.len()
            invariant
                at <= self.panes.len(),
                all == self.panes.deep_view(),
                targets.deep_view() == targets_of(all.take(at as int)),
            decreases self.panes.len() - at,
        {
            let ghost before = targets.deep_view();
            assert(all.take(at + 1).drop_last() =~= all.take(at as int));
            assert(all.take(at + 1).last() == all[at as int]);
            let pane: &Pane = &self.panes[at];
            assert(all[at as int] == pane.deep_view());
            if let (Some(cluster), Some(kind)) = (&pane.cluster, &pane.kind) {
                targets.push((cluster.dup(), kind.dup(), pane.filters.dup()));
                assert(targets.deep_view() =~= before.push(
                    (cluster.deep_view(), kind.deep_view(), pane.filters.deep_view()),
                ));
            }
            at += 1;
        }
        assert(all.take(at as int) =~= all);
        targets
    }

    /// When each row behind a pane last changed, for as long as that is less
    /// than `window` ago.
    pub fn changed_recently(&mut self, pane: usize, now: Instant, window: Duration) -> (changes: Arc<
        OrdMap<ResourceKey, Instant>,
    >)
        requires
            old(self).wf(),
        ensures
            final(self).wf(),
            final(self)@ == old(self)@.pruned(pane as int, now, window),
            changes@ == old(self)@.recent_changes(pane as int, now, window),
    {
        if pane >= self.panes.len() {
            return Arc::new(OrdMap::new());
        }
        assert(self@.panes[pane as int] == self.panes[pane as int].deep_view());
        let (cluster, kind) = match (self.panes[pane].cluster.dup(), self.panes[pane].kind.dup()) {
            (Some(cluster), Some(kind)) => (cluster, kind),
            _ => return Arc::new(OrdMap::new()),
        };
        let key: (ClusterId, KindId) = (cluster, kind);
        let ghost before = self@;
        match self.tables.take(&key) {
            Some(found) => {
                let mut table: ResourceTable = found;
                assert(sound_tables()(table));
                let changes: Arc<OrdMap<ResourceKey, Instant>> = table.changed_since(now, window);
                proof {
                    put_after_cut::<(ClusterId, KindId), TableModel>(
                        before.tables,
                        key.deep_view(),
                        table@,
                    );
                    assert(sound_tables()(table));
                }
                self.tables.put(key, table);
                changes
            },
            None => {
                proof {
                    crate::keyed::cut_of_missing::<(ClusterId, KindId), TableModel>(before.tables, key.deep_view());
                }
                Arc::new(OrdMap::new())
            },
        }
    }

    // --- the keyboard -----------------------------------------------------------

    /// Where the keyboard is in the focused pane.
    pub fn cursor(&self) -> (cursor: usize)
        requires
            self.wf(),
        ensures
            cursor == self@.focused().cursor,
    {
        self.focused().cursor()
    }

    /// The row the keyboard is on, if there is one.
    pub fn current_row(&self) -> (row: Option<&Arc<ResourceRow>>)
        requires
            self.wf(),
        ensures
            row.deep_view() == (if self@.focused().rows.len() > 0 {
                Some(self@.focused().rows[self@.focused().cursor as int])
            } else {
                None
            }),
    {
        proof {
            assert(self@.panes[self.focus as int].cursor_fits());
        }
        self.focused().current_row()
    }

    /// Puts the cursor at a place of the focused pane.
    fn place_cursor(&mut self, cursor: usize) -> (moved: bool)
        requires
            old(self).wf(),
            cursor == 0 || cursor < old(self)@.focused().rows.len(),
        ensures
            final(self).wf(),
            final(self)@ == old(self)@.with_focused(PaneModel { cursor, ..old(self)@.focused() }),
            moved == (cursor != old(self)@.focused().cursor),
    {
        let ghost before = self@;
        let ghost pane = before.focused();
        assert(pane == self.panes[self.focus as int].deep_view());
        let moved: bool = cursor != self.panes[self.focus].cursor;
        self.panes[self.focus].cursor = cursor;
        proof {
            let placed = PaneModel { cursor, ..pane };
            assert(self@.panes =~= before.panes.update(self.focus as int, placed));
            before.pane_swap(placed);
        }
        moved
    }

    /// Moves the cursor, stopping at both ends, and reports whether it went
    /// anywhere.
    pub fn move_cursor(&mut self, by: isize) -> (moved: bool)
        requires
            old(self).wf(),
        ensures
            final(self).wf(),
            final(self)@ == old(self)@.with_cursor(old(self)@.focused().cursor + by),
            moved == (final(self)@.focused().cursor != old(self)@.focused().cursor),
    {
        let rows: usize = self.focused().rows().len();
        let cursor: usize = self.cursor();
        let wanted: i128 = cursor as i128 + by as i128;
        let place: usize = if rows == 0 || wanted <= 0 {
            0
        } else if wanted >= rows as i128 {
            rows - 1
        } else {
            wanted as usize
        };
        self.place_cursor(place)
    }

    /// Puts the cursor on a row, as near as the rows allow, and reports
    /// whether it went anywhere.
    pub fn set_cursor(&mut self, index: usize) -> (moved: bool)
        requires
            old(self).wf(),
        ensures
            final(self).wf(),
            final(self)@ == old(self)@.with_cursor(index as int),
            moved == (final(self)@.focused().cursor != old(self)@.focused().cursor),
    {
        let rows: usize = self.focused().rows().len();
        let place: usize = if rows == 0 {
            0
        } else if index >= rows {
            rows - 1
        } else {
            index
        };
        self.place_cursor(place)
    }

    /// Moves the cursor half of what fits on screen, and at least one row.
    pub fn move_cursor_half_page(&mut self, down: bool, visible: usize) -> (moved: bool)
        requires
            old(self).wf(),
        ensures
            final(self).wf(),
            final(self)@ == old(self)@.with_cursor(
                old(self)@.focused().cursor + (if down {
                    half_page(visible)
                } else {
                    -half_page(visible)
                }),
            ),
            moved == (final(self)@.focused().cursor != old(self)@.focused().cursor),
    {
        let half: isize = if visible < 2 {
            1
        } else {
            (visible / 2) as isize
        };
        self.move_cursor(
            if down {
                half
            } else {
                -half
            },
        )
    }

    /// Puts the cursor on the last row.
    pub fn cursor_to_end(&mut self) -> (moved: bool)
        requires
            old(self).wf(),
        ensures
            final(self).wf(),
            final(self)@ == old(self)@.with_cursor(old(self)@.focused().rows.len() - 1),
            moved == (final(self)@.focused().cursor != old(self)@.focused().cursor),
    {
        let rows: usize = self.focused().rows().len();
        let last: usize = if rows == 0 {
            0
        } else {
            rows - 1
        };
        self.set_cursor(last)
    }

    // --- changes ----------------------------------------------------------------

    /// Sets which clusters may be changed.
    pub fn set_permissions(&mut self, permissions: Permissions)
        requires
            old(self).wf(),
            permissions.wf(),
        ensures
            final(self).wf(),
            final(self)@ == (AppModel { permissions: permissions@, ..old(self)@ }),
    {
        self.permissions = permissions;
    }

    /// Which clusters may be changed.
    pub fn permissions(&self) -> (permissions: &Permissions)
        ensures
            permissions@ == self@.permissions,
    {
        &self.permissions
    }

    /// Whether a cluster may be changed at all.
    pub fn may_mutate(&self, cluster: &ClusterId) -> (allowed: bool)
        requires
            self.wf(),
        ensures
            allowed == self@.permissions.may_mutate(cluster.deep_view()),
    {
        self.permissions.may_mutate(cluster)
    }

    /// Why a change to a cluster is refused, if it is.
    pub fn refusal(&self, cluster: &ClusterId) -> (refusal: Option<Refusal>)
        requires
            self.wf(),
        ensures
            refusal.deep_view() == self@.refusal(cluster.deep_view()),
    {
        if !self.permissions.may_mutate(cluster) {
            return Some(Refusal::ReadOnly { cluster: cluster.dup() });
        }
        let connected: bool = match self.connections.get(cluster) {
            Some(connection) => connection.state.is_usable(),
            None => false,
        };
        if !connected {
            return Some(Refusal::NotConnected { cluster: cluster.dup() });
        }
        None
    }

    /// Allows a change, or says why not.
    ///
    /// Nothing else makes an [`Authorized`], so that a change that was never
    /// looked at cannot be sent.
    pub fn authorize(&self, cluster: &ClusterId, mutation: Arc<Mutation>) -> (answer: Result<Authorized, Refusal>)
        requires
            self.wf(),
        ensures
            match answer {
                Ok(authorized) => self@.refusal(cluster.deep_view()) is None && authorized@ == (
                    cluster.deep_view(),
                    mutation.deep_view(),
                ),
                Err(refusal) => self@.refusal(cluster.deep_view()) == Some(refusal.deep_view()),
            },
    {
        match self.refusal(cluster) {
            Some(refusal) => Err(refusal),
            None => Ok(Authorized::new(cluster.dup(), mutation)),
        }
    }

    /// Allows a command, or says why not, by the same rule as a change.
    pub fn authorize_exec(&self, cluster: &ClusterId, target: Arc<ExecTarget>) -> (answer: Result<
        AuthorizedExec,
        Refusal,
    >)
        requires
            self.wf(),
        ensures
            match answer {
                Ok(authorized) => self@.refusal(cluster.deep_view()) is None && authorized@ == (
                    cluster.deep_view(),
                    target.deep_view(),
                ),
                Err(refusal) => self@.refusal(cluster.deep_view()) == Some(refusal.deep_view()),
            },
    {
        match self.refusal(cluster) {
            Some(refusal) => Err(refusal),
            None => Ok(AuthorizedExec::new(cluster.dup(), target)),
        }
    }

    /// Records a refusal among the recent actions.
    pub fn record_refusal(&mut self, cluster: ClusterId, mutation: Arc<Mutation>, refusal: &Refusal, now: Instant)
        requires
            old(self).wf(),
        ensures
            final(self).wf(),
            final(self)@ == old(self)@.recording(
                ActivityModel {
                    cluster: cluster.deep_view(),
                    mutation: mutation.deep_view(),
                    outcome: MutationOutcomeModel::Refused { reason: refusal_reason(refusal.deep_view()) },
                    at: now,
                },
            ),
    {
        self.record_activity(
            Activity {
                cluster,
                mutation,
                outcome: MutationOutcome::Refused { reason: refusal.reason() },
                at: now,
            },
        );
    }

    /// What was done recently, newest first.
    pub fn activity(&self) -> (activity: &Vec<Activity>)
        ensures
            activity.deep_view() == self@.activity,
    {
        &self.activity
    }

    /// The most recent action.
    pub fn last_activity(&self) -> (latest: Option<&Activity>)
        ensures
            latest.deep_view() == (if self@.activity.len() > 0 {
                Some(self@.activity[0])
            } else {
                None
            }),
    {
        if self.activity.len() > 0 {
            Some(&self.activity[0])
        } else {
            None
        }
    }

    // --- forwards ---------------------------------------------------------------

    /// Whether there is another forward id to take.
    pub fn can_forward(&self) -> (can: bool)
        ensures
            can == (self@.next_forward < u64::MAX),
    {
        self.next_forward < u64::MAX
    }

    /// Takes the next forward id.
    pub fn next_forward_id(&mut self) -> (id: ForwardId)
        requires
            old(self).wf(),
            old(self)@.next_forward < u64::MAX,
        ensures
            final(self).wf(),
            id.0 == old(self)@.next_forward,
            final(self)@ == (AppModel { next_forward: (old(self)@.next_forward + 1) as u64, ..old(self)@ }),
    {
        let id: ForwardId = ForwardId(self.next_forward);
        self.next_forward = self.next_forward + 1;
        id
    }

    /// Every forward and its cluster, in the order they were started.
    pub fn forwards(&self) -> (forwards: Vec<(&ClusterId, &Arc<ForwardInfo>)>)
        ensures
            forwards.deep_view() == self@.forwards.map_values(forward_entry()),
    {
        let ghost all = self@.forwards;
        let mut forwards: Vec<(&ClusterId, &Arc<ForwardInfo>)> = Vec::new();
        let mut at: usize = 0;
        assert(forwards.deep_view() =~= all.take(0).map_values(forward_entry()));
        while at < self.forwards.len()
            invariant
                at <= all.len(),
                all == self.forwards@,
                forwards.deep_view() == all.take(at as int).map_values(forward_entry()),
            decreases all.len() - at,
        {
            let ghost before = forwards.deep_view();
            let key: &(ForwardId, ClusterId) = self.forwards.key_at(at);
            forwards.push((&key.1, self.forwards.value_at(at)));
            assert(forwards.deep_view() =~= before.push(forward_entry()(all[at as int])));
            assert(all.take(at + 1).map_values(forward_entry()) =~= before.push(forward_entry()(all[at as int])));
            at += 1;
        }
        assert(all.take(at as int) =~= all);
        forwards
    }

    /// How many forwards are open.
    pub fn forward_count(&self) -> (forwards: usize)
        ensures
            forwards == self@.forwards.len(),
    {
        self.forwards.len()
    }

    /// How many forwards need attention.
    pub fn broken_forwards(&self) -> (broken: usize)
        ensures
            broken == count(self@.forwards, broken_entry()),
    {
        let ghost all = self@.forwards;
        let mut broken: usize = 0;
        let mut at: usize = 0;
        assert(all.take(0) =~= seq![]);
        assert(all.take(0).filter(broken_entry()).len() == 0) by {
            reveal(Seq::filter);
        }
        while at < self.forwards.len()
            invariant
                at <= all.len(),
                all == self.forwards@,
                broken <= at,
                broken == count(all.take(at as int), broken_entry()),
            decreases all.len() - at,
        {
            proof {
                filter_push(all.take(at as int), all[at as int], broken_entry());
                assert(all.take(at + 1) =~= all.take(at as int).push(all[at as int]));
            }
            if self.forwards.value_at(at).state.is_problem() {
                broken += 1;
            }
            at += 1;
        }
        assert(all.take(at as int) =~= all);
        broken
    }

    /// Forgets a forward that was torn down.
    pub fn forget_forward(&mut self, cluster: &ClusterId, id: ForwardId)
        requires
            old(self).wf(),
        ensures
            final(self).wf(),
            final(self)@ == (AppModel {
                forwards: cut(old(self)@.forwards, (id, cluster.deep_view())),
                ..old(self)@
            }),
    {
        let _ = self.forwards.take(&(id, cluster.dup()));
    }

    // --- warm clusters ----------------------------------------------------------

    /// Records that a cluster is looked at.
    pub fn touch_cluster(&mut self, cluster: &ClusterId, now: Instant)
        requires
            old(self).wf(),
        ensures
            final(self).wf(),
            final(self)@ == (AppModel {
                last_viewed: put::<ClusterId, Instant>(old(self)@.last_viewed, cluster.deep_view(), now),
                ..old(self)@
            }),
    {
        self.last_viewed.put(cluster.dup(), now);
    }

    /// The clusters that have been out of view for longer than `timeout`.
    pub fn idle_clusters(&self, now: Instant, timeout: Duration) -> (idle: Vec<ClusterId>)
        requires
            self.wf(),
        ensures
            idle.deep_view() == self@.idle_at(now, timeout),
    {
        let ghost all = self@.last_viewed;
        let ghost keep = neglected(self@.panes, now, timeout);
        let in_sight: Vec<ClusterId> = self.clusters_in_view();
        let mut idle: Vec<ClusterId> = Vec::new();
        let mut at: usize = 0;
        assert(all.take(0) =~= seq![]);
        assert(idle.deep_view() =~= all.take(0).filter(keep).map_values(viewed_cluster())) by {
            reveal(Seq::filter);
        }
        while at < self.last_viewed.len()
            invariant
                at <= all.len(),
                all == self.last_viewed@,
                keep == neglected(self@.panes, now, timeout),
                in_sight.deep_view() == clusters_of(self@.panes),
                idle.deep_view() == all.take(at as int).filter(keep).map_values(viewed_cluster()),
            decreases all.len() - at,
        {
            let ghost before = idle.deep_view();
            let ghost entry = all[at as int];
            proof {
                filter_push(all.take(at as int), entry, keep);
                assert(all.take(at + 1) =~= all.take(at as int).push(entry));
            }
            let cluster: &ClusterId = self.last_viewed.key_at(at);
            let seen: Instant = *self.last_viewed.value_at(at);
            if !is_among(&in_sight, cluster) && now.saturating_duration_since(seen).nanos > timeout.nanos {
                idle.push(cluster.dup());
                assert(idle.deep_view() =~= before.push(entry.0));
                assert(all.take(at as int).filter(keep).push(entry).map_values(viewed_cluster())
                    =~= before.push(entry.0));
            }
            at += 1;
        }
        assert(all.take(at as int) =~= all);
        idle
    }

    /// Drops the tables held for a cluster, keeping its connection.
    pub fn release(&mut self, cluster: &ClusterId)
        requires
            old(self).wf(),
        ensures
            final(self).wf(),
            final(self)@ == old(self)@.released(cluster.deep_view()),
    {
        let ghost before = self@;
        let ghost keep = of_other_clusters(cluster.deep_view());
        let mut at: usize = 0;
        while at < self.tables.len()
            invariant
                at <= self.tables@.len(),
                self.wf(),
                keep == of_other_clusters(cluster.deep_view()),
                self@ == (AppModel { tables: self@.tables, ..before }),
                self.tables@.filter(keep) == before.tables.filter(keep),
                forall|i: int| 0 <= i < at ==> keep(#[trigger] self.tables@[i]),
            decreases self.tables@.len() - at,
        {
            if self.tables.key_at(at).0.same(cluster) {
                proof {
                    crate::seqs::filter_remove(self.tables@, keep, at as int);
                }
                self.tables.remove_at(at);
            } else {
                at += 1;
            }
        }
        proof {
            crate::seqs::filter_all(self.tables@, keep);
        }
        let _ = self.last_viewed.take(cluster);

        let ghost emptied = self@;
        let mut pane: usize = 0;
        while pane < self.panes.len()
            invariant
                pane <= self@.panes.len(),
                self.wf(),
                self@ == (AppModel { panes: self@.panes, ..emptied }),
                self@.panes.len() == before.panes.len(),
                emptied.tables == before.tables.filter(keep),
                emptied.panes == before.panes,
                forall|i: int|
                    0 <= i < pane ==> (#[trigger] self@.panes[i]) == (if before.panes[i].cluster == Some(
                        cluster.deep_view(),
                    ) {
                        before.panes[i].refreshed(emptied.tables)
                    } else {
                        before.panes[i]
                    }),
                forall|i: int| pane <= i < self@.panes.len() ==> (#[trigger] self@.panes[i]) == before.panes[i],
            decreases self@.panes.len() - pane,
        {
            assert(self@.panes[pane as int] == self.panes[pane as int].deep_view());
            assert(self@.panes[pane as int] == before.panes[pane as int]);
            if self.panes[pane].is_on(cluster) {
                self.refresh_pane(pane);
            }
            pane += 1;
        }
        assert(self@.panes =~= before.released(cluster.deep_view()).panes);
    }

    /// How many rows one cluster may hold.
    pub fn budget(&self) -> (budget: usize)
        ensures
            budget == self@.budget,
    {
        self.budget
    }

    /// Sets how many rows one cluster may hold: at least one.
    pub fn set_budget(&mut self, budget: usize)
        requires
            old(self).wf(),
        ensures
            final(self).wf(),
            final(self)@ == (AppModel {
                budget: if budget == 0 {
                    1
                } else {
                    budget
                },
                ..old(self)@
            }),
    {
        self.budget = if budget == 0 {
            1
        } else {
            budget
        };
    }

    /// Every row that is held, with its cluster and its kind, those of
    /// clusters in no pane among them.
    pub fn all_rows(&self) -> (rows: Vec<(&ClusterId, &KindId, &Arc<ResourceRow>)>)
        ensures
            rows.deep_view() == rows_of(self@.tables),
    {
        let ghost all = self@.tables;
        let mut rows: Vec<(&ClusterId, &KindId, &Arc<ResourceRow>)> = Vec::new();
        let mut at: usize = 0;
        assert(rows.deep_view() =~= rows_of(all.take(0)));
        while at < self.tables.len()
            invariant
                at <= all.len(),
                all == self.tables@,
                rows.deep_view() == rows_of(all.take(at as int)),
            decreases all.len() - at,
        {
            let key: &(ClusterId, KindId) = self.tables.key_at(at);
            let table: &ResourceTable = self.tables.value_at(at);
            let ghost (c, k) = (key.0.deep_view(), key.1.deep_view());
            let ghost before = rows.deep_view();
            let ghost held = values(table@.rows);
            let ghost listed = held.map_values(|row: RowModel| (c, k, row));
            let mut next: usize = 0;
            assert(before + listed.take(0) =~= before);
            while next < table.len()
                invariant
                    next <= held.len(),
                    held == values(table@.rows),
                    listed == held.map_values(|row: RowModel| (c, k, row)),
                    c == key.0.deep_view(),
                    k == key.1.deep_view(),
                    rows.deep_view() == before + listed.take(next as int),
                decreases held.len() - next,
            {
                let ghost so_far = rows.deep_view();
                let row: &Arc<ResourceRow> = table.row_at(next);
                assert(row.deep_view() == held[next as int]);
                rows.push((&key.0, &key.1, row));
                assert(rows.deep_view() =~= so_far.push(listed[next as int]));
                assert(before + listed.take(next + 1) =~= so_far.push(listed[next as int]));
                next += 1;
            }
            assert(listed.take(next as int) =~= listed);
            assert(all.take(at + 1).drop_last() =~= all.take(at as int));
            assert(all.take(at + 1).last() == all[at as int]);
            at += 1;
        }
        assert(all.take(at as int) =~= all);
        rows
    }

    // --- logs -------------------------------------------------------------------

    /// Opens a log tail, in place of any that was open.
    pub fn open_logs(&mut self, cluster: ClusterId, target: Arc<LogTarget>, capacity: usize)
        requires
            old(self).wf(),
        ensures
            final(self).wf(),
            final(self)@ == (AppModel {
                logs: Some(
                    LogSessionModel {
                        cluster: cluster.deep_view(),
                        target: target.deep_view(),
                        buffer: LogModel::fresh(capacity),
                        following: true,
                    },
                ),
                ..old(self)@
            }),
    {
        self.logs = Some(LogSession { cluster, target, buffer: LogBuffer::new(capacity), following: true });
    }

    /// Closes the log tail.
    pub fn close_logs(&mut self)
        requires
            old(self).wf(),
        ensures
            final(self).wf(),
            final(self)@ == (AppModel { logs: None, ..old(self)@ }),
    {
        self.logs = None;
    }

    /// The log tail, if one is open.
    pub fn logs(&self) -> (session: Option<&LogSession>)
        requires
            self.wf(),
        ensures
            session.deep_view() == self@.logs,
            session matches Some(session) ==> session.buffer.wf(),
    {
        self.logs.as_ref()
    }

    /// The lines the tail shows, shared; none, if no tail is open.
    pub fn log_lines(&mut self) -> (lines: Arc<Vec<Arc<LogLine>>>)
        requires
            old(self).wf(),
        ensures
            final(self).wf(),
            final(self)@ == old(self)@,
            lines.deep_view() == (match old(self)@.logs {
                Some(session) => session.buffer.shown_lines(),
                None => seq![],
            }),
    {
        if let Some(session) = &mut self.logs {
            return session.buffer.visible_lines();
        }
        let none: Vec<Arc<LogLine>> = Vec::new();
        assert(none.deep_view() =~= seq![]);
        Arc::new(none)
    }

    /// Filters the tail, reporting whether other lines are visible now.
    pub fn set_log_filter(&mut self, spec: FilterSpec) -> (changed: bool)
        requires
            old(self).wf(),
        ensures
            final(self).wf(),
            changed == (old(self)@.logs is Some && (final(self)@.logs->0).buffer.shown() != (old(
                self,
            )@.logs->0).buffer.shown()),
            match old(self)@.logs {
                Some(session) => if session.buffer.filter == spec.deep_view() {
                    final(self)@ == old(self)@
                } else {
                    let matcher = (final(self)@.logs->0).buffer.matcher;
                    compiles(spec.deep_view(), matcher) && final(self)@ == old(self)@.with_log_buffer(
                        session.buffer.narrowed(spec.deep_view(), matcher),
                    )
                },
                None => final(self)@ == old(self)@,
            },
    {
        if let Some(session) = &mut self.logs {
            return session.buffer.set_filter(spec);
        }
        false
    }

    /// Orders the tail's lines, reporting whether the order is a different one.
    pub fn set_log_order(&mut self, order: LogOrder) -> (changed: bool)
        requires
            old(self).wf(),
        ensures
            final(self).wf(),
            changed == (old(self)@.logs is Some && (old(self)@.logs->0).buffer.order != order),
            final(self)@ == (if old(self)@.logs is Some {
                old(self)@.with_log_buffer(LogModel { order, ..(old(self)@.logs->0).buffer })
            } else {
                old(self)@
            }),
    {
        if let Some(session) = &mut self.logs {
            return session.buffer.set_order(order);
        }
        false
    }

    /// Makes the view stick to the newest line, or lets it stay where it is.
    pub fn set_following(&mut self, following: bool)
        requires
            old(self).wf(),
        ensures
            final(self).wf(),
            final(self)@ == (if old(self)@.logs is Some {
                AppModel { logs: Some(LogSessionModel { following, ..old(self)@.logs->0 }), ..old(self)@ }
            } else {
                old(self)@
            }),
    {
        if let Some(session) = &mut self.logs {
            session.following = following;
        }
    }

    // --- commands ---------------------------------------------------------------

    /// Opens a command's output, in place of any that was open.
    pub fn open_exec(&mut self, cluster: ClusterId, target: Arc<ExecTarget>, capacity: usize)
        requires
            old(self).wf(),
        ensures
            final(self).wf(),
            final(self)@ == (AppModel {
                exec_session: Some(
                    ExecSessionModel {
                        cluster: cluster.deep_view(),
                        target: target.deep_view(),
                        buffer: LogModel::fresh(capacity),
                        status: None,
                    },
                ),
                ..old(self)@
            }),
    {
        self.exec_session = Some(ExecSession { cluster, target, buffer: LogBuffer::new(capacity), status: None });
    }

    /// Opens a command's output, in place of any that was open and read
    /// through the filter that one was read through.
    pub fn reopen_exec(&mut self, cluster: ClusterId, target: Arc<ExecTarget>, capacity: usize)
        requires
            old(self).wf(),
        ensures
            final(self).wf(),
            final(self)@ == (AppModel {
                exec_session: Some(
                    ExecSessionModel {
                        cluster: cluster.deep_view(),
                        target: target.deep_view(),
                        buffer: match old(self)@.exec_session {
                            Some(session) => LogModel {
                                filter: session.buffer.filter,
                                matcher: session.buffer.matcher,
                                ..LogModel::fresh(capacity)
                            },
                            None => LogModel::fresh(capacity),
                        },
                        status: None,
                    },
                ),
                ..old(self)@
            }),
    {
        let mut before: Option<ExecSession> = None;
        std::mem::swap(&mut before, &mut self.exec_session);
        let buffer: LogBuffer = match before {
            Some(session) => session.buffer.emptied(capacity),
            None => LogBuffer::new(capacity),
        };
        self.exec_session = Some(ExecSession { cluster, target, buffer, status: None });
    }

    /// Closes the command's output.
    pub fn close_exec(&mut self)
        requires
            old(self).wf(),
        ensures
            final(self).wf(),
            final(self)@ == (AppModel { exec_session: None, ..old(self)@ }),
    {
        self.exec_session = None;
    }

    /// The command that runs, or the last one that ran, if its output is open.
    pub fn exec_session(&self) -> (session: Option<&ExecSession>)
        requires
            self.wf(),
        ensures
            session.deep_view() == self@.exec_session,
            session matches Some(session) ==> session.buffer.wf(),
    {
        self.exec_session.as_ref()
    }

    /// The lines the command's output shows, shared; none, if none is open.
    pub fn exec_lines(&mut self) -> (lines: Arc<Vec<Arc<LogLine>>>)
        requires
            old(self).wf(),
        ensures
            final(self).wf(),
            final(self)@ == old(self)@,
            lines.deep_view() == (match old(self)@.exec_session {
                Some(session) => session.buffer.shown_lines(),
                None => seq![],
            }),
    {
        if let Some(session) = &mut self.exec_session {
            return session.buffer.visible_lines();
        }
        let none: Vec<Arc<LogLine>> = Vec::new();
        assert(none.deep_view() =~= seq![]);
        Arc::new(none)
    }

    /// Marks the running command as cancelled, reporting whether one ran.
    pub fn cancel_exec(&mut self) -> (cancelled: bool)
        requires
            old(self).wf(),
        ensures
            final(self).wf(),
            cancelled == (old(self)@.exec_session is Some && (old(self)@.exec_session->0).status is None),
            final(self)@ == (if cancelled {
                AppModel {
                    exec_session: Some(
                        ExecSessionModel {
                            status: Some(ExecStatusModel::Cancelled),
                            ..old(self)@.exec_session->0
                        },
                    ),
                    ..old(self)@
                }
            } else {
                old(self)@
            }),
    {
        if let Some(session) = &mut self.exec_session {
            if session.status.is_none() {
                session.status = Some(ExecStatus::Cancelled);
                return true;
            }
        }
        false
    }

    /// Filters the command's output, reporting whether other lines are visible
    /// now.
    pub fn set_exec_filter(&mut self, spec: FilterSpec) -> (changed: bool)
        requires
            old(self).wf(),
        ensures
            final(self).wf(),
            changed == (old(self)@.exec_session is Some && (final(self)@.exec_session->0).buffer.shown() != (old(
                self,
            )@.exec_session->0).buffer.shown()),
            match old(self)@.exec_session {
                Some(session) => if session.buffer.filter == spec.deep_view() {
                    final(self)@ == old(self)@
                } else {
                    let matcher = (final(self)@.exec_session->0).buffer.matcher;
                    compiles(spec.deep_view(), matcher) && final(self)@ == old(self)@.with_exec_buffer(
                        session.buffer.narrowed(spec.deep_view(), matcher),
                    )
                },
                None => final(self)@ == old(self)@,
            },
    {
        if let Some(session) = &mut self.exec_session {
            return session.buffer.set_filter(spec);
        }
        false
    }

    // --- the detail pane --------------------------------------------------------

    /// Records that an object is being fetched.
    pub fn open_detail(&mut self, cluster: ClusterId, kind: KindId, key: ResourceKey)
        requires
            old(self).wf(),
        ensures
            final(self).wf(),
            final(self)@ == (AppModel {
                detail: Some(
                    DetailModel::Loading {
                        cluster: cluster.deep_view(),
                        kind: kind.deep_view(),
                        key: key.deep_view(),
                    },
                ),
                ..old(self)@
            }),
    {
        self.detail = Some(Detail::Loading { cluster, kind, key });
    }

    /// Closes the detail pane.
    pub fn close_detail(&mut self)
        requires
            old(self).wf(),
        ensures
            final(self).wf(),
            final(self)@ == (AppModel { detail: None, ..old(self)@ }),
    {
        self.detail = None;
    }

    /// What the detail pane shows, if anything.
    pub fn detail(&self) -> (detail: Option<&Detail>)
        ensures
            detail.deep_view() == self@.detail,
    {
        self.detail.as_ref()
    }

    // --- questions --------------------------------------------------------------

    /// The cluster the focused pane shows.
    pub fn active(&self) -> (cluster: Option<&ClusterId>)
        requires
            self.wf(),
        ensures
            cluster.deep_view() == self@.focused().cluster,
    {
        self.focused().cluster()
    }

    /// The kind the focused pane shows.
    pub fn kind(&self) -> (kind: Option<&KindId>)
        requires
            self.wf(),
        ensures
            kind.deep_view() == self@.focused().kind,
    {
        self.focused().kind()
    }

    /// The kinds the focused pane's cluster serves.
    pub fn kinds(&self) -> (kinds: Arc<Vec<KindInfo>>)
        requires
            self.wf(),
        ensures
            kinds.deep_view() == self@.kinds_of(self@.focused().cluster),
    {
        self.kinds_of(self.active())
    }

    /// The kinds a cluster serves.
    pub fn kinds_of(&self, cluster: Option<&ClusterId>) -> (kinds: Arc<Vec<KindInfo>>)
        requires
            self.wf(),
        ensures
            kinds.deep_view() == self@.kinds_of(cluster.deep_view()),
    {
        if let Some(cluster) = cluster {
            if let Some(kinds) = self.kinds.get(cluster) {
                return Arc::clone(kinds);
            }
        }
        let none: Vec<KindInfo> = Vec::new();
        assert(none.deep_view() =~= seq![]);
        Arc::new(none)
    }

    /// What discovery said about a kind of the focused pane's cluster.
    pub fn kind_info(&self, kind: &KindId) -> (info: Option<KindInfo>)
        requires
            self.wf(),
        ensures
            info.deep_view() == known_kind(self@.kinds_of(self@.focused().cluster), kind.deep_view()),
    {
        let kinds: Arc<Vec<KindInfo>> = self.kinds();
        let ghost all = kinds.deep_view();
        let ghost wanted = of_kind(kind.deep_view());
        let mut at: usize = 0;
        while at < kinds.len()
            invariant
                at <= kinds.len(),
                all == kinds.deep_view(),
                all == self@.kinds_of(self@.focused().cluster),
                wanted == of_kind(kind.deep_view()),
                forall|i: int| 0 <= i < at ==> !wanted(#[trigger] all[i]),
            decreases kinds.len() - at,
        {
            assert(all[at as int] == kinds[at as int].deep_view());
            if kinds[at].id.same(kind) {
                proof {
                    crate::seqs::filter_first(all, wanted, at as int);
                }
                return Some(kinds[at].dup());
            }
            at += 1;
        }
        proof {
            crate::seqs::filter_prefix(all, wanted, 0);
            assert(all.take(0) =~= Seq::empty());
        }
        None
    }

    /// The rows the focused pane shows.
    pub fn rows(&self) -> (rows: &Vec<Arc<ResourceRow>>)
        requires
            self.wf(),
        ensures
            rows.deep_view() == self@.focused().rows,
    {
        self.focused().rows()
    }

    /// The same rows, shared.
    pub fn rows_shared(&self) -> (rows: Arc<Vec<Arc<ResourceRow>>>)
        requires
            self.wf(),
        ensures
            rows.deep_view() == self@.focused().rows,
    {
        self.focused().rows_shared()
    }

    /// The columns those rows carry cells for.
    pub fn columns(&self) -> (columns: &Vec<ColumnSpec>)
        requires
            self.wf(),
        ensures
            columns.deep_view() == self@.focused().columns,
    {
        self.focused().columns()
    }

    /// Every context of the kubeconfig.
    pub fn contexts(&self) -> (contexts: &Vec<ContextInfo>)
        ensures
            contexts.deep_view() == self@.contexts,
    {
        &self.contexts
    }

    /// The current context, when there is one.
    pub fn current_context(&self) -> (cluster: Option<&ClusterId>)
        ensures
            cluster.deep_view() == self@.current,
    {
        self.current.as_ref()
    }

    /// Why the kubeconfig could not be read, if it could not.
    pub fn config_error(&self) -> (reason: Option<&str>)
        ensures
            reason.deep_view() == self@.config_error,
    {
        match &self.config_error {
            Some(reason) => Some(reason.as_str()),
            None => None,
        }
    }

    /// What is known about every cluster's connection.
    pub fn connections(&self) -> (connections: &ConnectionRegistry)
        requires
            self.wf(),
        ensures
            connections@ == self@.connections,
            connections.wf(),
    {
        &self.connections
    }

    /// What is known about a cluster's connection.
    pub fn connection(&self, cluster: &ClusterId) -> (connection: Option<&Connection>)
        requires
            self.wf(),
        ensures
            connection.deep_view() == lookup(self@.connections, cluster.deep_view()),
    {
        self.connections.get(cluster)
    }

    /// What is known about the connection of the focused pane's cluster.
    pub fn active_connection(&self) -> (connection: Option<&Connection>)
        requires
            self.wf(),
        ensures
            connection.deep_view() == (match self@.focused().cluster {
                Some(cluster) => lookup(self@.connections, cluster),
                None => None,
            }),
    {
        match self.active() {
            Some(cluster) => self.connections.get(cluster),
            None => None,
        }
    }

    /// How many rows the focused pane's table holds, and how many of them are
    /// shown.
    pub fn counts(&self) -> (counts: (usize, usize))
        requires
            self.wf(),
        ensures
            counts.0 == (match self@.focused().table(self@.tables) {
                Some(table) => table.rows.len(),
                None => 0,
            }),
            counts.1 == self@.focused().rows.len(),
    {
        let total: usize = match self.pane_table(self.focus) {
            Some(table) => table.len(),
            None => 0,
        };
        let shown: &Vec<Arc<ResourceRow>> = self.rows();
        assert(shown.deep_view().len() == shown.len());
        (total, shown.len())
    }

    /// How many rows a kind holds on the focused pane's cluster.
    pub fn row_count(&self, kind: &KindId) -> (rows: usize)
        requires
            self.wf(),
        ensures
            rows == (match self@.focused().cluster {
                Some(cluster) => self@.table(cluster, kind.deep_view()).rows.len(),
                None => 0,
            }),
    {
        match self.active() {
            Some(cluster) => match self.tables.get(&(cluster.dup(), kind.dup())) {
                Some(table) => table.len(),
                None => 0,
            },
            None => 0,
        }
    }

    /// The namespaces the focused pane's table has rows in, in order.
    pub fn namespaces(&self) -> (namespaces: Vec<String>)
        requires
            self.wf(),
        ensures
            match self@.focused().table(self@.tables) {
                Some(table) => table.is_namespaces(namespaces.deep_view()),
                None => namespaces.deep_view() == Seq::<Seq<char>>::empty(),
            },
    {
        match self.pane_table(self.focus) {
            Some(table) => table.namespaces(),
            None => {
                let none: Vec<String> = Vec::new();
                assert(none.deep_view() =~= Seq::empty());
                none
            },
        }
    }
}

/// What was typed, if anything was.
pub open spec fn typed(text: Option<Seq<char>>) -> Option<Seq<char>> {
    match text {
        Some(text) => if text.len() > 0 {
            Some(text)
        } else {
            None
        },
        None => None,
    }
}

fn unless_empty(text: Option<String>) -> (typed_text: Option<String>)
    ensures
        typed_text.deep_view() == typed(text.deep_view()),
{
    match text {
        Some(text) => if text.as_str().is_empty() {
            None
        } else {
            Some(text)
        },
        None => None,
    }
}

/// Half of what fits on screen, and at least one row.
pub open spec fn half_page(visible: usize) -> int {
    if visible < 2 {
        1
    } else {
        visible as int / 2
    }
}

/// A forward with its cluster.
pub open spec fn forward_entry() -> spec_fn(((ForwardId, Seq<char>), ForwardInfoModel)) -> (
    Seq<char>,
    ForwardInfoModel,
) {
    |entry: ((ForwardId, Seq<char>), ForwardInfoModel)| ((entry.0).1, entry.1)
}

/// Picks the forwards that need attention.
pub open spec fn broken_entry() -> spec_fn(((ForwardId, Seq<char>), ForwardInfoModel)) -> bool {
    |entry: ((ForwardId, Seq<char>), ForwardInfoModel)| forward_problem(entry.1.state)
}

/// Picks what discovery said about a kind.
pub open spec fn of_kind(kind: KindModel) -> spec_fn(KindInfoModel) -> bool {
    |info: KindInfoModel| info.id == kind
}

/// What discovery said about a kind, first.
pub open spec fn known_kind(kinds: Seq<KindInfoModel>, kind: KindModel) -> Option<KindInfoModel> {
    let found = kinds.filter(of_kind(kind));
    if found.len() > 0 {
        Some(found[0])
    } else {
        None
    }
}

fn is_among(clusters: &Vec<ClusterId>, cluster: &ClusterId) -> (among: bool)
    ensures
        among == clusters.deep_view().contains(cluster.deep_view()),
{
    let ghost all = clusters.deep_view();
    let mut at: usize = 0;
    while at < clusters.len()
        invariant
            at <= clusters.len(),
            all == clusters.deep_view(),
            forall|i: int| 0 <= i < at ==> (#[trigger] all[i]) != cluster.deep_view(),
        decreases clusters.len() - at,
    {
        assert(all[at as int] == clusters[at as int].deep_view());
        if clusters[at].same(cluster) {
            return true;
        }
        at += 1;
    }
    false
}

proof fn other_context_stays(contexts: Seq<ContextModel>, cluster: Option<Seq<char>>, at: int)
    requires
        0 <= at <= contexts.len(),
        other_context(contexts.take(at), cluster) is Some,
    ensures
        other_context(contexts, cluster) == other_context(contexts.take(at), cluster),
    decreases contexts.len() - at,
{
    if at < contexts.len() {
        assert(contexts.drop_last().take(at) =~= contexts.take(at));
        other_context_stays(contexts.drop_last(), cluster, at);
    } else {
        assert(contexts.take(at) =~= contexts);
    }
}

} // verus!

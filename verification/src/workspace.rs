//! A console: what somebody in front of it does, and what the cluster side is
//! asked to do about it.
//!
//! Nothing here draws or sends. What is to be sent is left in an outbox, and
//! whoever empties it reports back what became of it.

use crate::app::{AppState, Pane};
use crate::catalog::find_kind;
use crate::clock::{Duration, Instant, SystemTime};
use crate::columns::{Columns, Layout};
use crate::console::{
    default_kind, flush_fits, is_pods, is_watchable, stopped_watch, watches_of, watches_of_others, BridgeStats, Lines,
    RefusalEntry, ThemeChoice, WatchFilters, WorkspaceModel, SWEEP_INTERVAL,
};
use crate::events::{ClusterCommand, ClusterEvent, CommandError, CommandModel, FlushStats};
use crate::filter::{compiles, FilterModel, FilterSpec};
use crate::keyed::{put, OrdMap, OrdSet};
use crate::logs::{lines_text, LogBuffer, LogOrder};
use crate::logview::format_time;
use crate::model::{AppModel, Detail};
use crate::mutation::Mutation;
use crate::objects::{
    ClusterId, ColumnSpec, KeyModel, KindId, KindInfo, KindModel, ObjectDetail, PodContainer, ResourceKey, ResourceRow,
};
use crate::palette::{can_search, candidates_of, Match, Palette, Target};
use crate::permissions::Permissions;
use crate::proposal::Proposal;
use crate::remembered::UiState;
use crate::rows::{Filters, FiltersModel, SortKey};
use crate::seqs::{filter_all, filter_first, filter_prefix, filter_push, filter_remove};
use crate::sessions::{ConnectionState, ExecTarget, ForwardId, ForwardTarget, LogSelector, LogTarget};
use crate::text::{is_text, joined, text_of, to_decimal, trim};
use crate::times::parse_time;
use crate::value::Value;
use crate::wording::{error_text, export_file, export_name, typed_port, DetailTab};
use std::sync::Arc;
use vstd::prelude::*;

verus! {

/// A console, as far as it can be told without drawing it.
pub struct Workspace {
    state: AppState,
    stats: BridgeStats,
    theme: ThemeChoice,
    attempted: OrdSet<ClusterId>,
    watching: OrdMap<(ClusterId, KindId), (Option<String>, Option<String>)>,
    idle_timeout: Duration,
    last_sweep: Instant,
    last_error: Option<String>,
    remembered: UiState,
    yaml_showing: Option<ResourceKey>,
    log_wrap: bool,
    log_anchor: Option<usize>,
    log_visible: usize,
    exec_visible: usize,
    log_notice: Option<String>,
    exec_notice: Option<String>,
    palette: Palette,
    palette_open: bool,
    palette_matches: Vec<Match>,
    palette_index: usize,
    pending_tail: Option<Arc<LogTarget>>,
    pending: Option<Proposal>,
    exec_containers: Vec<PodContainer>,
    exec_container: Option<String>,
    container_menu_open: bool,
    forwards_open: bool,
    namespace_menu_open: bool,
    detail_tab: DetailTab,
    log_capacity: usize,
    columns: Layout,
    exports: u32,
    outbox: Vec<ClusterCommand>,
    refused: Vec<RefusalEntry>,
}

impl View for Workspace {
    type V = WorkspaceModel;

    closed spec fn view(&self) -> WorkspaceModel {
        WorkspaceModel {
            app: self.state@,
            stats: self.stats,
            theme: self.theme,
            attempted: self.attempted@,
            watching: self.watching@,
            idle_timeout: self.idle_timeout,
            last_sweep: self.last_sweep,
            last_error: self.last_error.deep_view(),
            remembered: self.remembered@,
            yaml_showing: self.yaml_showing.deep_view(),
            log_wrap: self.log_wrap,
            log_anchor: self.log_anchor,
            log_visible: self.log_visible,
            exec_visible: self.exec_visible,
            log_notice: self.log_notice.deep_view(),
            exec_notice: self.exec_notice.deep_view(),
            palette: self.palette@,
            palette_open: self.palette_open,
            palette_matches: self.palette_matches.deep_view(),
            palette_index: self.palette_index,
            pending_tail: self.pending_tail.deep_view(),
            pending: self.pending.deep_view(),
            exec_containers: self.exec_containers.deep_view(),
            exec_container: self.exec_container.deep_view(),
            container_menu_open: self.container_menu_open,
            forwards_open: self.forwards_open,
            namespace_menu_open: self.namespace_menu_open,
            detail_tab: self.detail_tab,
            log_capacity: self.log_capacity,
            columns: self.columns@,
            exports: self.exports,
            outbox: self.outbox.deep_view(),
            refused: self.refused.deep_view(),
        }
    }
}

impl Workspace {
    /// Whether everything a console holds is well-formed.
    pub closed spec fn wf(&self) -> bool {
        &&& self.state.wf()
        &&& self.attempted.wf()
        &&& self.watching.wf()
        &&& self.remembered.wf()
        &&& self.palette.wf()
        &&& self.columns.wf()
        &&& self.palette_matches.len() <= crate::palette::MAX_RESULTS
        &&& self.palette_index <= crate::palette::MAX_RESULTS
    }

    /// A console that was just opened: it asks what contexts there are.
    pub fn new(started: Instant) -> (workspace: Self)
        ensures
            workspace.wf(),
            workspace@ == WorkspaceModel::opened(started, None),
    {
        Workspace::with_tail(started, None)
    }

    /// A console that was just opened, with a tail that is opened once its
    /// cluster is connected.
    pub fn with_tail(started: Instant, tail: Option<LogTarget>) -> (workspace: Self)
        ensures
            workspace.wf(),
            workspace@ == WorkspaceModel::opened(started, tail.deep_view()),
    {
        let mut outbox: Vec<ClusterCommand> = Vec::new();
        outbox.push(ClusterCommand::ListContexts);
        let workspace: Workspace = Workspace {
            state: AppState::new(),
            stats: BridgeStats::default(),
            theme: ThemeChoice::System,
            attempted: OrdSet::new(),
            watching: OrdMap::new(),
            idle_timeout: Duration { nanos: crate::app::DEFAULT_IDLE_TIMEOUT },
            last_sweep: started,
            last_error: None,
            remembered: UiState::new(),
            yaml_showing: None,
            log_wrap: false,
            log_anchor: None,
            log_visible: 0,
            exec_visible: 0,
            log_notice: None,
            exec_notice: None,
            palette: Palette::new(),
            palette_open: false,
            palette_matches: Vec::new(),
            palette_index: 0,
            pending_tail: match tail {
                Some(target) => Some(Arc::new(target)),
                None => None,
            },
            pending: None,
            exec_containers: Vec::new(),
            exec_container: None,
            container_menu_open: false,
            forwards_open: false,
            namespace_menu_open: false,
            detail_tab: DetailTab::Yaml,
            log_capacity: crate::logs::DEFAULT_CAPACITY,
            columns: Layout::new(Columns::new()),
            exports: 0,
            outbox,
            refused: Vec::new(),
        };
        proof {
            assert(workspace@.outbox =~= seq![CommandModel::ListContexts]);
            assert(workspace@.palette_matches =~= seq![]);
            assert(workspace@.exec_containers =~= seq![]);
            assert(workspace@.refused =~= seq![]);
        }
        workspace
    }

    /// What the console knows and shows.
    pub fn state(&self) -> (state: &AppState)
        requires
            self.wf(),
        ensures
            state@ == self@.app,
            state.wf(),
    {
        &self.state
    }

    // --- sending ----------------------------------------------------------------

    /// Leaves something to be done in the outbox.
    fn send(&mut self, command: ClusterCommand)
        requires
            old(self).wf(),
        ensures
            final(self).wf(),
            final(self)@ == old(self)@.sending(command.deep_view()),
    {
        let ghost before = self.outbox.deep_view();
        let ghost added = command.deep_view();
        self.outbox.push(command);
        assert(self.outbox.deep_view() =~= before.push(added));
    }

    /// Empties the outbox: what is to be sent, in order.
    pub fn take_commands(&mut self) -> (commands: Vec<ClusterCommand>)
        requires
            old(self).wf(),
        ensures
            final(self).wf(),
            commands.deep_view() == old(self)@.outbox,
            final(self)@ == (WorkspaceModel { outbox: seq![], ..old(self)@ }),
    {
        let mut commands: Vec<ClusterCommand> = Vec::new();
        std::mem::swap(&mut commands, &mut self.outbox);
        assert(self.outbox.deep_view() =~= seq![]);
        commands
    }

    /// Hears what became of something that was to be sent: what was accepted
    /// clears what went wrong before, what was not is said.
    pub fn delivered(&mut self, outcome: Result<(), CommandError>)
        requires
            old(self).wf(),
        ensures
            final(self).wf(),
            final(self)@ == (WorkspaceModel {
                last_error: match outcome {
                    Ok(_) => None,
                    Err(error) => Some(crate::wording::command_error_text(error)),
                },
                ..old(self)@
            }),
    {
        self.last_error = match outcome {
            Ok(_) => None,
            Err(error) => Some(error_text(error)),
        };
    }

    /// Empties the list of what was refused, for the audit log.
    pub fn take_refusals(&mut self) -> (refused: Vec<RefusalEntry>)
        requires
            old(self).wf(),
        ensures
            final(self).wf(),
            refused.deep_view() == old(self)@.refused,
            final(self)@ == (WorkspaceModel { refused: seq![], ..old(self)@ }),
    {
        let mut refused: Vec<RefusalEntry> = Vec::new();
        std::mem::swap(&mut refused, &mut self.refused);
        assert(self.refused.deep_view() =~= seq![]);
        refused
    }

    /// Puts something somebody needs to know on screen, verbatim.
    pub fn report(&mut self, problem: String)
        requires
            old(self).wf(),
        ensures
            final(self).wf(),
            final(self)@ == (WorkspaceModel { last_error: Some(problem@), ..old(self)@ }),
    {
        self.last_error = Some(problem);
    }

    // --- settings ---------------------------------------------------------------

    /// Sets which clusters may be changed.
    pub fn set_permissions(&mut self, permissions: Permissions)
        requires
            old(self).wf(),
            permissions.wf(),
        ensures
            final(self).wf(),
            final(self)@ == old(self)@.with_app(AppModel { permissions: permissions@, ..old(self)@.app }),
    {
        self.state.set_permissions(permissions);
    }

    /// Sets which columns kinds show.
    pub fn set_columns(&mut self, columns: Columns)
        requires
            old(self).wf(),
            columns.wf(),
        ensures
            final(self).wf(),
            final(self)@ == (WorkspaceModel { columns: columns@, ..old(self)@ }),
    {
        self.columns = Layout::new(columns);
    }

    /// Sets how long clusters stay warm, how many rows one may hold, and how
    /// many lines a session keeps.
    pub fn set_limits(&mut self, idle_timeout: Duration, row_budget: usize, log_buffer: usize)
        requires
            old(self).wf(),
        ensures
            final(self).wf(),
            final(self)@ == (WorkspaceModel {
                idle_timeout,
                log_capacity: log_buffer,
                app: AppModel {
                    budget: if row_budget == 0 {
                        1
                    } else {
                        row_budget
                    },
                    ..old(self)@.app
                },
                ..old(self)@
            }),
    {
        self.idle_timeout = idle_timeout;
        self.log_capacity = log_buffer;
        self.state.set_budget(row_budget);
    }

    /// Brings back what the sidebar looked like.
    pub fn restore(&mut self, remembered: UiState)
        requires
            old(self).wf(),
            remembered.wf(),
        ensures
            final(self).wf(),
            final(self)@ == (WorkspaceModel { remembered: remembered@, ..old(self)@ }),
    {
        self.remembered = remembered;
    }

    /// What the sidebar looks like, to be written down.
    pub fn remembered(&self) -> (remembered: &UiState)
        requires
            self.wf(),
        ensures
            remembered@ == self@.remembered,
            remembered.wf(),
    {
        &self.remembered
    }

    /// Sets the appearance.
    pub fn set_theme(&mut self, theme: ThemeChoice)
        requires
            old(self).wf(),
        ensures
            final(self).wf(),
            final(self)@ == (WorkspaceModel { theme, ..old(self)@ }),
    {
        self.theme = theme;
    }

    /// Goes on to the next appearance.
    pub fn cycle_theme(&mut self) -> (theme: ThemeChoice)
        requires
            old(self).wf(),
        ensures
            final(self).wf(),
            theme == crate::console::next_theme(old(self)@.theme),
            final(self)@ == (WorkspaceModel { theme, ..old(self)@ }),
    {
        self.theme = self.theme.next();
        self.theme
    }

    /// What the event pump has done.
    pub fn stats(&self) -> (stats: BridgeStats)
        ensures
            stats == self@.stats,
    {
        self.stats
    }

    // --- connections and watches ------------------------------------------------

    /// Asks a cluster to connect, once.
    fn connect_once(&mut self, cluster: &ClusterId)
        requires
            old(self).wf(),
        ensures
            final(self).wf(),
            final(self)@ == old(self)@.connecting(cluster.deep_view()),
    {
        if self.attempted.insert(cluster.dup()) {
            self.send(ClusterCommand::Connect { cluster: cluster.dup() });
        } else {
            assert(self@.attempted =~= old(self)@.attempted);
        }
    }

    /// Starts whatever watches the panes need, and stops none.
    fn ensure_watches(&mut self)
        requires
            old(self).wf(),
        ensures
            final(self).wf(),
            final(self)@ == old(self)@.ensured(),
    {
        let targets: Vec<(ClusterId, KindId, Filters)> = self.state.watch_targets();
        let ghost all = targets.deep_view();
        let ghost before = self@;
        let mut at: usize = 0;
        assert(all.take(0) =~= seq![]);
        while at < targets.len()
            invariant
                at <= targets.len(),
                all == targets.deep_view(),
                self.wf(),
                self@ == before.watching_all(all.take(at as int)),
            decreases targets.len() - at,
        {
            assert(all.take(at + 1).drop_last() =~= all.take(at as int));
            assert(all.take(at + 1).last() == all[at as int]);
            let target: &(ClusterId, KindId, Filters) = &targets[at];
            let filters: &Filters = &target.2;
            let key: (ClusterId, KindId) = (target.0.dup(), target.1.dup());
            let wanted: (Option<String>, Option<String>) = (filters.namespace.dup(), filters.selector.dup());
            let running: bool = match self.watching.get(&key) {
                Some(held) => held.same(&wanted),
                None => false,
            };
            if !running {
                self.watching.put(key, wanted);
                self.send(
                    ClusterCommand::Watch {
                        cluster: target.0.dup(),
                        kind: target.1.dup(),
                        namespace: filters.namespace.dup(),
                        selector: filters.selector.dup(),
                    },
                );
            }
            at += 1;
        }
        assert(all.take(at as int) =~= all);
    }

    /// Stops the watches of a cluster and drops its rows.
    fn let_go(&mut self, cluster: &ClusterId)
        requires
            old(self).wf(),
        ensures
            final(self).wf(),
            final(self)@ == old(self)@.letting_go(cluster.deep_view()),
    {
        let ghost before = self@;
        let ghost c = cluster.deep_view();
        let ghost (mine, others) = (watches_of(c), watches_of_others(c));
        let ghost stops = before.watching.filter(mine).map_values(stopped_watch());
        let mut at: usize = 0;
        let ghost mut seen: Seq<((Seq<char>, KindModel), WatchFilters)> = seq![];
        assert(before.outbox + seq![].map_values(stopped_watch()) =~= before.outbox);
        assert(Seq::<((Seq<char>, KindModel), WatchFilters)>::empty().filter(mine) =~= Seq::empty()) by {
            reveal(Seq::filter);
        }
        assert(seq![] + before.watching.skip(0) =~= before.watching);
        while at < self.watching.len()
            invariant
                at <= self.watching@.len(),
                self.wf(),
                c == cluster.deep_view(),
                mine == watches_of(c),
                others == watches_of_others(c),
                self@ == (WorkspaceModel { watching: self@.watching, outbox: self@.outbox, ..before }),
                seen + self.watching@.skip(at as int) == before.watching,
                seen.filter(others) == self.watching@.take(at as int),
                self@.outbox == before.outbox + seen.filter(mine).map_values(stopped_watch()),
            decreases self.watching@.len() - at,
        {
            let ghost entry = self.watching@[at as int];
            let ghost held = self.watching@;
            let ghost sent = self@.outbox;
            proof {
                filter_push(seen, entry, mine);
                filter_push(seen, entry, others);
                assert(held.skip(at as int) =~= seq![entry] + held.skip(at + 1));
                assert(seen.push(entry) + held.skip(at + 1) =~= before.watching);
            }
            if self.watching.key_at(at).0.same(cluster) {
                let kind: KindId = self.watching.key_at(at).1.dup();
                self.send(ClusterCommand::StopWatch { cluster: cluster.dup(), kind });
                self.watching.remove_at(at);
                proof {
                    assert(held.remove(at as int).take(at as int) =~= held.take(at as int));
                    assert(held.remove(at as int).skip(at as int) =~= held.skip(at + 1));
                    assert(seen.filter(mine).push(entry).map_values(stopped_watch()) =~= seen.filter(mine).map_values(
                        stopped_watch(),
                    ).push(stopped_watch()(entry)));
                    assert(before.outbox + seen.filter(mine).map_values(stopped_watch()).push(stopped_watch()(entry))
                        =~= sent.push(stopped_watch()(entry)));
                    seen = seen.push(entry);
                }
            } else {
                proof {
                    assert(held.take(at + 1) =~= held.take(at as int).push(entry));
                    seen = seen.push(entry);
                }
                at += 1;
            }
        }
        proof {
            assert(self.watching@.skip(at as int) =~= Seq::empty());
            assert(seen =~= before.watching);
            assert(self.watching@.take(at as int) =~= self.watching@);
        }
        self.state.release(cluster);
    }

    /// Lets clusters go that nobody has looked at for a while, every so often.
    pub fn sweep_idle_clusters(&mut self, now: Instant)
        requires
            old(self).wf(),
        ensures
            final(self).wf(),
            final(self)@ == old(self)@.swept(now),
    {
        if now.saturating_duration_since(self.last_sweep).nanos < SWEEP_INTERVAL {
            return;
        }
        self.last_sweep = now;
        let idle: Vec<ClusterId> = self.state.idle_clusters(now, self.idle_timeout);
        let ghost all = idle.deep_view();
        let ghost before = self@;
        let mut at: usize = 0;
        assert(all.take(0) =~= seq![]);
        while at < idle.len()
            invariant
                at <= idle.len(),
                all == idle.deep_view(),
                self.wf(),
                self@ == before.letting_go_all(all.take(at as int)),
            decreases idle.len() - at,
        {
            assert(all.take(at + 1).drop_last() =~= all.take(at as int));
            assert(all.take(at + 1).last() == all[at as int]);
            self.let_go(&idle[at]);
            at += 1;
        }
        assert(all.take(at as int) =~= all);
    }

    /// Asks the focused pane's cluster to connect again after a failure.
    pub fn reconnect(&mut self)
        requires
            old(self).wf(),
        ensures
            final(self).wf(),
            final(self)@ == old(self)@.reconnecting(),
    {
        let cluster: ClusterId = match self.state.active() {
            Some(cluster) => cluster.dup(),
            None => return,
        };
        let ghost before = self@;
        let ghost keep = watches_of_others(cluster.deep_view());
        let _ = self.attempted.insert(cluster.dup());
        let mut at: usize = 0;
        while at < self.watching.len()
            invariant
                at <= self.watching@.len(),
                self.wf(),
                keep == watches_of_others(cluster.deep_view()),
                self@ == (WorkspaceModel {
                    attempted: before.attempted.insert(cluster.deep_view()),
                    watching: self@.watching,
                    ..before
                }),
                self.watching@.filter(keep) == before.watching.filter(keep),
                forall|i: int| 0 <= i < at ==> keep(#[trigger] self.watching@[i]),
            decreases self.watching@.len() - at,
        {
            if self.watching.key_at(at).0.same(&cluster) {
                proof {
                    filter_remove(self.watching@, keep, at as int);
                }
                self.watching.remove_at(at);
            } else {
                at += 1;
            }
        }
        proof {
            filter_all(self.watching@, keep);
        }
        self.send(ClusterCommand::Connect { cluster });
    }

    /// Reads the kubeconfig again.
    pub fn reload_contexts(&mut self)
        requires
            old(self).wf(),
        ensures
            final(self).wf(),
            final(self)@ == old(self)@.sending(CommandModel::ListContexts),
    {
        self.send(ClusterCommand::ListContexts);
    }

    // --- which kind to open -----------------------------------------------------

    /// The kind a cluster opens on that was never opened.
    fn default_kind_of(&self, cluster: Option<&ClusterId>) -> (kind: Option<KindId>)
        requires
            self.wf(),
        ensures
            kind.deep_view() == default_kind(self@.app.kinds_of(cluster.deep_view())),
    {
        let kinds: Arc<Vec<KindInfo>> = self.state.kinds_of(cluster);
        let ghost all = kinds.deep_view();
        let mut at: usize = 0;
        while at < kinds.len()
            invariant
                at <= kinds.len(),
                all == kinds.deep_view(),
                all == self@.app.kinds_of(cluster.deep_view()),
                forall|i: int| 0 <= i < at ==> !is_pods()(#[trigger] all[i]),
            decreases kinds.len() - at,
        {
            assert(all[at as int] == kinds[at as int].deep_view());
            if kinds[at].id.is_core() && is_text(kinds[at].id.kind.as_str(), "Pod") {
                proof {
                    filter_first(all, is_pods(), at as int);
                }
                return Some(kinds[at].id.dup());
            }
            at += 1;
        }
        proof {
            filter_prefix(all, is_pods(), 0);
            assert(all.take(0) =~= Seq::empty());
        }
        let mut next: usize = 0;
        while next < kinds.len()
            invariant
                next <= kinds.len(),
                all == kinds.deep_view(),
                all == self@.app.kinds_of(cluster.deep_view()),
                all.filter(is_pods()).len() == 0,
                forall|i: int| 0 <= i < next ==> !is_watchable()(#[trigger] all[i]),
            decreases kinds.len() - next,
        {
            assert(all[next as int] == kinds[next as int].deep_view());
            if kinds[next].watchable {
                proof {
                    filter_first(all, is_watchable(), next as int);
                }
                return Some(kinds[next].id.dup());
            }
            next += 1;
        }
        proof {
            filter_prefix(all, is_watchable(), 0);
            assert(all.take(0) =~= Seq::empty());
        }
        None
    }

    /// The kind a pane on a cluster opens on: the one that cluster was left on,
    /// if it still serves it, and otherwise pods.
    pub fn opening_kind_of(&self, cluster: Option<&ClusterId>) -> (kind: Option<KindId>)
        requires
            self.wf(),
        ensures
            kind.deep_view() == self@.opening_kind(cluster.deep_view()),
    {
        if let Some(name) = cluster {
            if let Some(label) = self.remembered.last_kind(&name.name) {
                let kinds: Arc<Vec<KindInfo>> = self.state.kinds_of(cluster);
                if let Some(info) = find_kind(&kinds, label.as_str()) {
                    return Some(info.id.dup());
                }
            }
        }
        self.default_kind_of(cluster)
    }

    /// Puts the focused pane on the kind its cluster opens on.
    fn open_kind(&mut self)
        requires
            old(self).wf(),
        ensures
            final(self).wf(),
            final(self)@ == old(self)@.on_opening_kind(),
    {
        if let Some(kind) = self.opening_kind_of(self.state.active()) {
            self.state.select_kind(kind);
        }
    }

    /// Puts a pane that shows no kind on the one its cluster opens on.
    fn open_pane(&mut self, index: usize, now: Instant)
        requires
            old(self).wf(),
            index < old(self)@.app.panes.len(),
        ensures
            final(self).wf(),
            final(self)@ == old(self)@.pane_opened(index as int, now),
    {
        let panes: &Vec<Pane> = self.state.panes();
        assert(panes.deep_view()[index as int] == panes[index as int].deep_view());
        assert(panes.deep_view().len() == panes.len());
        if panes[index].kind().is_some() {
            return;
        }
        if let Some(kind) = self.opening_kind_of(panes[index].cluster()) {
            let focus: usize = self.state.focus();
            self.state.focus_pane(index, now);
            self.state.select_kind(kind);
            self.state.focus_pane(focus, now);
        }
    }

    /// Takes a batch in from the cluster side, and does what follows from it.
    pub fn apply_events(&mut self, events: &Vec<ClusterEvent>, flush: FlushStats, now: Instant)
        requires
            old(self).wf(),
            flush_fits(old(self)@.stats, flush),
            old(self)@.app.takes_all(events.deep_view(), now),
        ensures
            final(self).wf(),
            final(self)@ == old(self)@.fed(events.deep_view(), flush, now),
    {
        self.stats.record(flush);
        let _ = self.state.apply_batch(events, now);

        let clusters: Vec<ClusterId> = self.state.clusters_in_view();
        let ghost all = clusters.deep_view();
        let ghost told = self@;
        let mut at: usize = 0;
        assert(all.take(0) =~= seq![]);
        while at < clusters.len()
            invariant
                at <= clusters.len(),
                all == clusters.deep_view(),
                self.wf(),
                self@ == told.connecting_all(all.take(at as int)),
            decreases clusters.len() - at,
        {
            assert(all.take(at + 1).drop_last() =~= all.take(at as int));
            assert(all.take(at + 1).last() == all[at as int]);
            self.connect_once(&clusters[at]);
            at += 1;
        }
        assert(all.take(at as int) =~= all);
        self.open_pending_tail();

        let ghost connected = self@;
        let count: usize = self.state.panes().len();
        assert(self@.app.panes.len() == count);
        let mut index: usize = 0;
        while index < count
            invariant
                index <= count,
                count == connected.app.panes.len(),
                self.wf(),
                self@ == connected.panes_opened(index as int, now),
                self@.app.panes.len() == count,
            decreases count - index,
        {
            self.open_pane(index, now);
            index += 1;
        }
        self.ensure_watches();
        self.sweep_idle_clusters(now);
    }

    /// Opens a tail and asks the cluster side for its lines.
    fn start_tail(&mut self, cluster: ClusterId, target: Arc<LogTarget>)
        requires
            old(self).wf(),
        ensures
            final(self).wf(),
            final(self)@ == old(self)@.tailing(cluster.deep_view(), target.deep_view()),
    {
        self.state.open_logs(cluster.dup(), Arc::clone(&target), self.log_capacity);
        self.send(ClusterCommand::StartLogs { cluster, target });
    }

    /// Opens the tail that waited for its cluster, if that is connected.
    fn open_pending_tail(&mut self)
        requires
            old(self).wf(),
        ensures
            final(self).wf(),
            final(self)@ == old(self)@.tail_opened(),
    {
        let (target, cluster) = match (&self.pending_tail, self.state.active()) {
            (Some(target), Some(cluster)) => (Arc::clone(target), cluster.dup()),
            _ => return,
        };
        let connected: bool = match self.state.connection(&cluster) {
            Some(connection) => match &connection.state {
                ConnectionState::Connected => true,
                _ => false,
            },
            None => false,
        };
        if connected {
            self.pending_tail = None;
            self.start_tail(cluster, target);
        }
    }

    // --- choosing what to look at -----------------------------------------------

    /// Remembers a kind as opened, unless it is the one on screen.
    fn visit(&mut self, kind: &KindId)
        requires
            old(self).wf(),
        ensures
            final(self).wf(),
            final(self)@ == old(self)@.visiting(kind.deep_view()),
    {
        let cluster: String = match self.state.active() {
            Some(cluster) => cluster.name.clone(),
            None => return,
        };
        if let Some(shown) = self.state.kind() {
            if shown.same(kind) {
                return;
            }
        }
        self.remembered.visited(cluster, kind.label());
    }

    /// Points the focused pane at a cluster, connecting to it if need be.
    pub fn select_cluster(&mut self, cluster: ClusterId, now: Instant)
        requires
            old(self).wf(),
        ensures
            final(self).wf(),
            final(self)@ == old(self)@.on_cluster(cluster.deep_view(), now),
    {
        self.state.select_cluster(cluster.dup(), now);
        self.state.touch_cluster(&cluster, now);
        self.connect_once(&cluster);
        self.open_kind();
        self.ensure_watches();
    }

    /// Switches the kind the table shows.
    pub fn select_kind(&mut self, kind: KindId)
        requires
            old(self).wf(),
        ensures
            final(self).wf(),
            final(self)@ == old(self)@.on_kind(kind.deep_view()),
    {
        self.visit(&kind);
        self.state.select_kind(kind);
        self.ensure_watches();
    }

    /// Lists again with what the namespace and selector fields say.
    pub fn apply_server_filters(&mut self, namespace: String, selector: String)
        requires
            old(self).wf(),
        ensures
            final(self).wf(),
            final(self)@ == old(self)@.with_server_filters(namespace@, selector@),
    {
        self.state.set_namespace(Some(namespace));
        self.state.set_selector(Some(selector));
        self.ensure_watches();
    }

    /// Searches the rows of the focused pane.
    pub fn set_search(&mut self, search: String)
        requires
            old(self).wf(),
        ensures
            final(self).wf(),
            final(self)@ == old(self)@.with_app(
                old(self)@.app.with_filters(
                    FiltersModel {
                        search: crate::app::typed(Some(search@)),
                        ..old(self)@.app.focused().filters
                    },
                ),
            ),
    {
        self.state.set_search(Some(search));
    }

    /// Forgets the containers of the object that was on screen.
    fn forget_containers(&mut self)
        requires
            old(self).wf(),
        ensures
            final(self).wf(),
            final(self)@ == old(self)@.without_containers(),
    {
        self.exec_containers = Vec::new();
        self.exec_container = None;
        self.container_menu_open = false;
        assert(self.exec_containers.deep_view() =~= seq![]);
    }

    /// Asks for an object.
    fn fetch(&mut self, cluster: ClusterId, kind: KindId, key: ResourceKey, reveal: bool)
        requires
            old(self).wf(),
        ensures
            final(self).wf(),
            final(self)@ == old(self)@.fetching(
                cluster.deep_view(),
                kind.deep_view(),
                key.deep_view(),
                reveal,
            ),
    {
        self.state.open_detail(cluster.dup(), kind.dup(), key.dup());
        self.send(ClusterCommand::FetchObject { cluster, kind, key, reveal });
    }

    /// The cluster and the kind of the focused pane, if it shows both.
    fn looking_at(&self) -> (place: Option<(ClusterId, KindId)>)
        requires
            self.wf(),
        ensures
            place.deep_view() == (match (self@.active(), self@.app.focused().kind) {
                (Some(cluster), Some(kind)) => Some((cluster, kind)),
                _ => None,
            }),
    {
        match (self.state.active(), self.state.kind()) {
            (Some(cluster), Some(kind)) => Some((cluster.dup(), kind.dup())),
            _ => None,
        }
    }

    /// Opens an object of the kind on screen. Its hidden values stay hidden.
    pub fn open_object(&mut self, key: ResourceKey)
        requires
            old(self).wf(),
        ensures
            final(self).wf(),
            final(self)@ == old(self)@.with_object(key.deep_view()),
    {
        let (cluster, kind) = match self.looking_at() {
            Some(place) => place,
            None => return,
        };
        self.detail_tab = DetailTab::Yaml;
        self.forget_containers();
        self.fetch(cluster, kind, key, false);
    }

    /// Asks for the object on screen again, with its hidden values.
    pub fn reveal_values(&mut self)
        requires
            old(self).wf(),
        ensures
            final(self).wf(),
            final(self)@ == old(self)@.revealing(),
    {
        let (cluster, kind, key) = match (self.state.active(), self.state.detail()) {
            (Some(cluster), Some(detail)) => (cluster.dup(), detail.kind().dup(), detail.key().dup()),
            _ => return,
        };
        self.yaml_showing = None;
        self.fetch(cluster, kind, key, true);
    }

    /// Opens an object of another kind than the one on screen.
    pub fn open_elsewhere(&mut self, kind: KindId, key: ResourceKey)
        requires
            old(self).wf(),
        ensures
            final(self).wf(),
            final(self)@ == old(self)@.elsewhere(kind.deep_view(), key.deep_view()),
    {
        self.select_kind(kind.dup());
        let cluster: ClusterId = match self.state.active() {
            Some(cluster) => cluster.dup(),
            None => return,
        };
        self.forget_containers();
        self.fetch(cluster, kind, key, false);
    }

    /// Opens the row the cursor is on.
    pub fn open_row(&mut self)
        requires
            old(self).wf(),
        ensures
            final(self).wf(),
            final(self)@ == (if old(self)@.app.focused().rows.len() > 0 {
                old(self)@.with_object(
                    old(self)@.app.focused().rows[old(self)@.app.focused().cursor as int].key,
                )
            } else {
                old(self)@
            }),
    {
        let key: ResourceKey = match self.state.current_row() {
            Some(row) => row.key.dup(),
            None => return,
        };
        self.open_object(key);
    }

    // --- changes ----------------------------------------------------------------

    /// Puts a change in front of somebody. Nothing is sent until they agree.
    pub fn propose(&mut self, mutation: Mutation)
        requires
            old(self).wf(),
        ensures
            final(self).wf(),
            final(self)@ == old(self)@.proposing(mutation.deep_view()),
    {
        let cluster: ClusterId = match self.state.active() {
            Some(cluster) => cluster.dup(),
            None => return,
        };
        self.pending = Some(Proposal::Mutation { cluster, mutation: Arc::new(mutation) });
    }

    /// What waits for somebody to agree to it.
    pub fn pending(&self) -> (pending: Option<&Proposal>)
        ensures
            pending.deep_view() == self@.pending,
    {
        self.pending.as_ref()
    }

    /// Drops what was proposed.
    pub fn cancel_mutation(&mut self)
        requires
            old(self).wf(),
        ensures
            final(self).wf(),
            final(self)@ == (WorkspaceModel { pending: None, ..old(self)@ }),
    {
        self.pending = None;
    }

    /// Sends what was proposed, if it is allowed, to the cluster it was
    /// proposed for.
    pub fn confirm_mutation(&mut self, now: Instant)
        requires
            old(self).wf(),
        ensures
            final(self).wf(),
            final(self)@ == old(self)@.confirmed(now),
    {
        let mut pending: Option<Proposal> = None;
        std::mem::swap(&mut pending, &mut self.pending);
        match pending {
            Some(proposal) => match proposal {
                Proposal::Mutation { cluster, mutation } => self.send_mutation(cluster, mutation, now),
                Proposal::Command { cluster, target } => self.send_command(cluster, target),
            },
            None => {},
        }
    }

    fn note_refusal(&mut self, entry: RefusalEntry)
        requires
            old(self).wf(),
        ensures
            final(self).wf(),
            final(self)@ == (WorkspaceModel {
                refused: old(self)@.refused.push(entry.deep_view()),
                ..old(self)@
            }),
    {
        let ghost before = self.refused.deep_view();
        let ghost added = entry.deep_view();
        self.refused.push(entry);
        assert(self.refused.deep_view() =~= before.push(added));
    }

    /// Sends a change that is allowed, or records why it is not.
    fn send_mutation(&mut self, cluster: ClusterId, mutation: Arc<Mutation>, now: Instant)
        requires
            old(self).wf(),
        ensures
            final(self).wf(),
            final(self)@ == old(self)@.changing(cluster.deep_view(), mutation.deep_view(), now),
    {
        match self.state.authorize(&cluster, Arc::clone(&mutation)) {
            Ok(authorized) => {
                let (cluster, mutation) = authorized.into_parts();
                self.send(ClusterCommand::Mutate { cluster, mutation });
            },
            Err(refusal) => {
                self.note_refusal(
                    RefusalEntry {
                        cluster: cluster.dup(),
                        key: mutation.key(),
                        kind: mutation.kind().label(),
                        verb: mutation.verb().to_owned(),
                        detail: mutation.detail(),
                        reason: refusal.reason(),
                    },
                );
                self.state.record_refusal(cluster, mutation, &refusal, now);
            },
        }
    }

    /// Sends a command that is allowed, or says why it is not.
    fn send_command(&mut self, cluster: ClusterId, target: Arc<ExecTarget>)
        requires
            old(self).wf(),
        ensures
            final(self).wf(),
            final(self)@ == old(self)@.executing(cluster.deep_view(), target.deep_view()),
    {
        match self.state.authorize_exec(&cluster, Arc::clone(&target)) {
            Ok(authorized) => {
                let (cluster, target) = authorized.into_parts();
                self.state.reopen_exec(cluster.dup(), Arc::clone(&target), self.log_capacity);
                self.exec_notice = None;
                self.send(ClusterCommand::Exec { cluster, target });
            },
            Err(refusal) => {
                self.note_refusal(
                    RefusalEntry {
                        cluster: cluster.dup(),
                        key: ResourceKey::new(target.namespace.as_str(), target.pod.as_str()),
                        kind: "pods".to_owned(),
                        verb: "exec".to_owned(),
                        detail: target.command_line(),
                        reason: refusal.reason(),
                    },
                );
                self.last_error = Some(refusal.reason());
            },
        }
    }

    /// How many replicas the table says a workload wants.
    pub fn current_replicas(&self, key: &ResourceKey) -> (replicas: Option<u32>)
        requires
            self.wf(),
        ensures
            replicas_shown(self@.app.focused().rows, key.deep_view()) == (match replicas {
                Some(replicas) => Some(replicas as nat),
                None => None,
            }),
    {
        let rows: &Vec<Arc<ResourceRow>> = self.state.rows();
        let ghost all = rows.deep_view();
        let ghost wanted = of_key(key.deep_view());
        let mut at: usize = 0;
        while at < rows.len()
            invariant
                at <= rows.len(),
                all == rows.deep_view(),
                all == self@.app.focused().rows,
                wanted == of_key(key.deep_view()),
                forall|i: int| 0 <= i < at ==> !wanted(#[trigger] all[i]),
            decreases rows.len() - at,
        {
            assert(all[at as int] == rows[at as int].deep_view());
            if rows[at].key.same(key) {
                proof {
                    filter_first(all, wanted, at as int);
                }
                return crate::wording::replicas_in(rows[at].cell(0));
            }
            at += 1;
        }
        proof {
            filter_prefix(all, wanted, 0);
            assert(all.take(0) =~= Seq::empty());
        }
        None
    }

    // --- forwards ---------------------------------------------------------------

    /// Opens a local port onto the pod in the detail pane, or says why that is
    /// refused.
    pub fn start_forward(&mut self, port: &str)
        requires
            old(self).wf(),
            old(self)@.app.next_forward < u64::MAX,
        ensures
            final(self).wf(),
            final(self)@ == old(self)@.forwarding(port@),
    {
        let (cluster, key) = match (self.state.active(), self.state.detail()) {
            (Some(cluster), Some(detail)) => (cluster.dup(), detail.key().dup()),
            _ => return,
        };
        if let Some(refusal) = self.state.refusal(&cluster) {
            self.note_refusal(
                RefusalEntry {
                    cluster,
                    key,
                    kind: "pods".to_owned(),
                    verb: "port-forward".to_owned(),
                    detail: text_of(trim(port).as_slice()),
                    reason: refusal.reason(),
                },
            );
            self.last_error = Some(refusal.reason());
            return;
        }
        let port: u16 = match typed_port(port) {
            Some(port) => port,
            None => {
                self.last_error = Some("Type the container port to forward, next to Forward.".to_owned());
                return;
            },
        };
        let id: ForwardId = self.state.next_forward_id();
        let target: ForwardTarget = ForwardTarget::new(key.namespace.as_str(), key.name.as_str(), port);
        self.forwards_open = true;
        self.send(ClusterCommand::StartForward { cluster, id, target });
    }

    /// Tears a forward down.
    pub fn stop_forward(&mut self, cluster: ClusterId, id: ForwardId)
        requires
            old(self).wf(),
        ensures
            final(self).wf(),
            final(self)@ == old(self)@.with_app(
                AppModel {
                    forwards: crate::keyed::cut(old(self)@.app.forwards, (id, cluster.deep_view())),
                    ..old(self)@.app
                },
            ).sending(CommandModel::StopForward { cluster: cluster.deep_view(), id }),
    {
        self.state.forget_forward(&cluster, id);
        self.send(ClusterCommand::StopForward { cluster, id });
    }

    /// Opens the list of forwards, or closes it.
    pub fn toggle_forwards(&mut self)
        requires
            old(self).wf(),
        ensures
            final(self).wf(),
            final(self)@ == (WorkspaceModel { forwards_open: !old(self)@.forwards_open, ..old(self)@ }),
    {
        self.forwards_open = !self.forwards_open;
    }

    /// Says that an address was copied.
    pub fn copy_address(&mut self, address: &str)
        requires
            old(self).wf(),
        ensures
            final(self).wf(),
            final(self)@ == (WorkspaceModel {
                last_error: None,
                log_notice: Some("Copied "@ + address@),
                ..old(self)@
            }),
    {
        self.last_error = None;
        self.log_notice = Some(joined("Copied ".to_owned(), address));
    }

    // --- commands ---------------------------------------------------------------

    /// Puts a command for the pod in the detail pane in front of somebody.
    pub fn run_command(&mut self, command: &str)
        requires
            old(self).wf(),
        ensures
            final(self).wf(),
            final(self)@ == old(self)@.proposing_command(command@),
    {
        let key: ResourceKey = match self.state.detail() {
            Some(detail) => detail.key().dup(),
            None => return,
        };
        let target: ExecTarget = match ExecTarget::parse(
            key.namespace.as_str(),
            key.name.as_str(),
            self.exec_container.dup(),
            command,
        ) {
            Some(target) => target,
            None => {
                self.last_error = Some("Type a command to run next to Run, such as `ls -la /etc`.".to_owned());
                return;
            },
        };
        let cluster: ClusterId = match self.state.active() {
            Some(cluster) => cluster.dup(),
            None => return,
        };
        self.pending = Some(Proposal::Command { cluster, target: Arc::new(target) });
    }

    /// Stops the command.
    pub fn stop_command(&mut self)
        requires
            old(self).wf(),
        ensures
            final(self).wf(),
            final(self)@ == old(self)@.command_stopped(),
    {
        let cluster: ClusterId = match self.state.exec_session() {
            Some(session) => session.cluster.dup(),
            None => return,
        };
        let _ = self.state.cancel_exec();
        self.send(ClusterCommand::CancelExec { cluster });
    }

    /// Closes the command's output, stopping the command if it still runs.
    pub fn close_command(&mut self)
        requires
            old(self).wf(),
        ensures
            final(self).wf(),
            final(self)@ == old(self)@.command_closed(),
    {
        let running: bool = match self.state.exec_session() {
            Some(session) => session.is_running(),
            None => false,
        };
        if running {
            self.stop_command();
        }
        self.state.close_exec();
        self.exec_notice = None;
    }

    /// Opens the list of containers, or closes it.
    pub fn toggle_container_menu(&mut self)
        requires
            old(self).wf(),
        ensures
            final(self).wf(),
            final(self)@ == (WorkspaceModel {
                container_menu_open: !old(self)@.container_menu_open,
                ..old(self)@
            }),
    {
        self.container_menu_open = !self.container_menu_open;
    }

    /// Aims the next command at a container, or at the pod's default.
    pub fn pick_container(&mut self, container: Option<String>)
        requires
            old(self).wf(),
        ensures
            final(self).wf(),
            final(self)@ == (WorkspaceModel {
                exec_container: container.deep_view(),
                container_menu_open: false,
                ..old(self)@
            }),
    {
        self.exec_container = container;
        self.container_menu_open = false;
    }

    /// The container the next command is aimed at; the pod's default, if none.
    pub fn exec_container(&self) -> (container: Option<&String>)
        ensures
            container.deep_view() == self@.exec_container,
    {
        self.exec_container.as_ref()
    }

    /// The containers of the pod in the detail pane.
    pub fn exec_containers(&self) -> (containers: &Vec<PodContainer>)
        ensures
            containers.deep_view() == self@.exec_containers,
    {
        &self.exec_containers
    }

    // --- logs -------------------------------------------------------------------

    /// Tails what is selected, or closes the tail if one is open.
    pub fn toggle_logs(&mut self)
        requires
            old(self).wf(),
        ensures
            final(self).wf(),
            final(self)@ == (if old(self)@.app.logs is Some {
                old(self)@.logs_closed()
            } else {
                old(self)@.logs_opened()
            }),
    {
        if self.state.logs().is_some() {
            self.close_logs();
        } else {
            self.open_logs();
        }
    }

    /// What to tail, or why nothing can be.
    pub fn log_target(&self) -> (target: Result<LogTarget, String>)
        requires
            self.wf(),
        ensures
            self@.log_target() == (match target {
                Ok(target) => Ok(target.deep_view()),
                Err(reason) => Err(reason@),
            }),
    {
        let container: Option<String> = match self.state.logs() {
            Some(session) => session.target.container.dup(),
            None => None,
        };
        if let Some(detail) = self.state.detail() {
            if detail.kind().is_core() && is_text(detail.kind().kind.as_str(), "Pod") {
                let key: &ResourceKey = detail.key();
                return Ok(LogTarget::pod(key.namespace.as_str(), key.name.as_str()).container(container));
            }
        }
        let filters: &Filters = self.state.filters();
        let namespace: &String = match &filters.namespace {
            Some(namespace) => namespace,
            None => return Err(
                "Open a pod, or set a namespace filter, before tailing logs: log streams are per-namespace.".to_owned(),
            ),
        };
        match &filters.selector {
            Some(selector) => Ok(LogTarget::labels(namespace.as_str(), selector.as_str()).container(container)),
            None => Err(
                joined(
                    joined("Set a label selector to tail every pod in ".to_owned(), namespace.as_str()),
                    ", or open one pod.",
                ),
            ),
        }
    }

    /// Opens a tail for the pod in the detail pane, or for the pods that the
    /// table's filters describe.
    pub fn open_logs(&mut self)
        requires
            old(self).wf(),
        ensures
            final(self).wf(),
            final(self)@ == old(self)@.logs_opened(),
    {
        let cluster: ClusterId = match self.state.active() {
            Some(cluster) => cluster.dup(),
            None => return,
        };
        match self.log_target() {
            Ok(target) => {
                self.log_notice = None;
                self.log_anchor = None;
                self.start_tail(cluster, Arc::new(target));
            },
            Err(reason) => {
                self.log_notice = Some(reason);
            },
        }
    }

    /// Starts the tail over with what the selector and container fields say.
    pub fn retarget_logs(&mut self, selector: &str, container: &str)
        requires
            old(self).wf(),
        ensures
            final(self).wf(),
            final(self)@ == old(self)@.retargeted(selector@, container@),
    {
        let (cluster, before) = match (self.state.active(), self.state.logs()) {
            (Some(cluster), Some(session)) => (cluster.dup(), session.target.dup()),
            _ => return,
        };
        let target: LogTarget = if selector.is_empty() {
            match &before.selector {
                LogSelector::Pod(pod) => LogTarget::pod(before.namespace.as_str(), pod.as_str()),
                LogSelector::Labels(_) => {
                    self.log_notice = Some("A selector is needed to tail several pods.".to_owned());
                    return;
                },
            }
        } else {
            LogTarget::labels(before.namespace.as_str(), selector)
        };
        let picked: Option<String> = if container.is_empty() {
            None
        } else {
            Some(container.to_owned())
        };
        let target: LogTarget = target.container(picked).previous(before.previous);
        self.log_anchor = None;
        self.start_tail(cluster, Arc::new(target));
    }

    /// Switches between the logs of the running containers and of the ones before.
    pub fn toggle_previous(&mut self)
        requires
            old(self).wf(),
        ensures
            final(self).wf(),
            final(self)@ == old(self)@.previous_toggled(),
    {
        let (cluster, before) = match (self.state.active(), self.state.logs()) {
            (Some(cluster), Some(session)) => (cluster.dup(), (*session.target).dup()),
            _ => return,
        };
        let previous: bool = before.previous;
        self.start_tail(cluster, Arc::new(before.previous(!previous)));
    }

    /// Closes the tail.
    pub fn close_logs(&mut self)
        requires
            old(self).wf(),
        ensures
            final(self).wf(),
            final(self)@ == old(self)@.logs_closed(),
    {
        if let Some(cluster) = self.state.active() {
            let cluster: ClusterId = cluster.dup();
            self.send(ClusterCommand::StopLogs { cluster });
        }
        self.state.close_logs();
        self.log_notice = None;
        self.log_anchor = None;
    }

    /// The lines of a pane, if it is open.
    pub fn buffer(&self, lines: Lines) -> (buffer: Option<&LogBuffer>)
        requires
            self.wf(),
        ensures
            self@.buffer(lines) == (match buffer {
                Some(buffer) => Some(buffer@),
                None => None,
            }),
            buffer matches Some(buffer) ==> buffer.wf(),
    {
        match lines {
            Lines::Logs => match self.state.logs() {
                Some(session) => Some(&session.buffer),
                None => None,
            },
            Lines::Command => match self.state.exec_session() {
                Some(session) => Some(&session.buffer),
                None => None,
            },
        }
    }

    /// What a pane is read through, if it is open.
    fn filter_of(&self, lines: Lines) -> (spec: Option<FilterSpec>)
        requires
            self.wf(),
        ensures
            spec.deep_view() == (match self@.buffer(lines) {
                Some(buffer) => Some(buffer.filter),
                None => None,
            }),
    {
        match self.buffer(lines) {
            Some(buffer) => Some(buffer.filter().dup()),
            None => None,
        }
    }

    /// Reads a pane through another filter.
    fn set_filter(&mut self, lines: Lines, spec: FilterSpec)
        requires
            old(self).wf(),
            old(self)@.buffer(lines) is Some,
        ensures
            final(self).wf(),
            (old(self)@.buffer(lines)->0).filter == spec.deep_view() ==> final(self)@ == old(self)@,
            (old(self)@.buffer(lines)->0).filter != spec.deep_view() ==> final(self)@.buffer(lines) is Some
                && compiles(spec.deep_view(), (final(self)@.buffer(lines)->0).matcher) && final(self)@ == old(
                self,
            )@.filtered(lines, spec.deep_view(), (final(self)@.buffer(lines)->0).matcher),
    {
        match lines {
            Lines::Logs => {
                if self.state.set_log_filter(spec) {
                    self.log_anchor = None;
                }
            },
            Lines::Command => {
                let _ = self.state.set_exec_filter(spec);
            },
        }
    }

    /// Reads a pane through what its filter box says.
    pub fn apply_filter(&mut self, lines: Lines, pattern: String)
        requires
            old(self).wf(),
        ensures
            final(self).wf(),
            old(self)@.buffer(lines) is None ==> final(self)@ == old(self)@,
            old(self)@.buffer(lines) matches Some(buffer) ==> ({
                let filter = FilterModel { pattern: pattern@, ..buffer.filter };
                if buffer.filter == filter {
                    final(self)@ == old(self)@
                } else {
                    final(self)@.buffer(lines) is Some && compiles(
                        filter,
                        (final(self)@.buffer(lines)->0).matcher,
                    ) && final(self)@ == old(self)@.filtered(
                        lines,
                        filter,
                        (final(self)@.buffer(lines)->0).matcher,
                    )
                }
            }),
    {
        let mut spec: FilterSpec = match self.filter_of(lines) {
            Some(spec) => spec,
            None => return,
        };
        spec.pattern = pattern;
        self.set_filter(lines, spec);
    }

    /// Flips one of the filter's modes and leaves the pattern.
    pub fn toggle_filter_mode(&mut self, lines: Lines, regex: bool)
        requires
            old(self).wf(),
        ensures
            final(self).wf(),
            old(self)@.buffer(lines) is None ==> final(self)@ == old(self)@,
            old(self)@.buffer(lines) matches Some(buffer) ==> ({
                let filter = if regex {
                    FilterModel { regex: !buffer.filter.regex, ..buffer.filter }
                } else {
                    FilterModel { case_sensitive: !buffer.filter.case_sensitive, ..buffer.filter }
                };
                final(self)@.buffer(lines) is Some && compiles(
                    filter,
                    (final(self)@.buffer(lines)->0).matcher,
                ) && final(self)@ == old(self)@.filtered(
                    lines,
                    filter,
                    (final(self)@.buffer(lines)->0).matcher,
                )
            }),
    {
        let mut spec: FilterSpec = match self.filter_of(lines) {
            Some(spec) => spec,
            None => return,
        };
        if regex {
            spec.regex = !spec.regex;
        } else {
            spec.case_sensitive = !spec.case_sensitive;
        }
        self.set_filter(lines, spec);
    }

    /// Says something over a pane.
    fn say(&mut self, lines: Lines, said: String)
        requires
            old(self).wf(),
        ensures
            final(self).wf(),
            final(self)@ == old(self)@.saying(lines, said@),
    {
        match lines {
            Lines::Logs => {
                self.log_notice = Some(said);
            },
            Lines::Command => {
                self.exec_notice = Some(said);
            },
        }
    }

    /// Makes the tail stick to the newest line, or stay put.
    pub fn toggle_follow(&mut self)
        requires
            old(self).wf(),
        ensures
            final(self).wf(),
            final(self)@ == old(self)@.follow_toggled(),
    {
        let following: bool = match self.state.logs() {
            Some(session) => !session.following,
            None => true,
        };
        self.state.set_following(following);
        if following {
            self.log_anchor = None;
        }
    }

    /// Moves the tail to the first line at or after a typed time, and says
    /// where that is, or that there is none.
    pub fn jump_to_time(&mut self, typed: &str, now: SystemTime)
        requires
            old(self).wf(),
        ensures
            final(self).wf(),
            final(self)@ == old(self)@.jumped(typed@, now),
    {
        let buffer: &LogBuffer = match self.state.logs() {
            Some(session) => &session.buffer,
            None => return,
        };
        let at: SystemTime = match parse_time(typed, now) {
            Ok(at) => at,
            Err(error) => {
                self.log_notice = Some(error.to_string());
                return;
            },
        };
        let found: Option<usize> = buffer.seek(at);
        let held: String = to_decimal(buffer.visible_len() as u64);
        let time: String = format_time(at);
        match found {
            Some(index) => {
                self.state.set_following(false);
                self.log_anchor = Some(index);
                let jumped: String = joined(joined("Jumped to ".to_owned(), time.as_str()), " — line ");
                let line: String = joined(jumped, to_decimal((index + 1) as u64).as_str());
                self.log_notice = Some(joined(joined(line, " of "), held.as_str()));
            },
            None => {
                let none: String = joined(joined("No line at or after ".to_owned(), time.as_str()), " in the ");
                self.log_notice = Some(joined(joined(none, held.as_str()), " lines held"));
            },
        }
    }

    /// Wraps long lines, or clips them.
    pub fn toggle_wrap(&mut self)
        requires
            old(self).wf(),
        ensures
            final(self).wf(),
            final(self)@ == (WorkspaceModel { log_wrap: !old(self)@.log_wrap, ..old(self)@ }),
    {
        self.log_wrap = !self.log_wrap;
    }

    /// Orders the tail's lines by timestamp, or by arrival.
    pub fn toggle_order(&mut self)
        requires
            old(self).wf(),
        ensures
            final(self).wf(),
            final(self)@ == old(self)@.order_toggled(),
    {
        let order: LogOrder = match self.state.logs() {
            Some(session) => match session.buffer.order() {
                LogOrder::Timestamp => LogOrder::Arrival,
                LogOrder::Arrival => LogOrder::Timestamp,
            },
            None => LogOrder::Timestamp,
        };
        if self.state.set_log_order(order) {
            self.log_anchor = None;
        }
    }

    /// What a pane is called, if it is open.
    pub fn label_of(&self, lines: Lines) -> (label: Option<String>)
        requires
            self.wf(),
        ensures
            label.deep_view() == self@.label_of(lines),
    {
        match lines {
            Lines::Logs => match self.state.logs() {
                Some(session) => Some(session.target.label()),
                None => None,
            },
            Lines::Command => match self.state.exec_session() {
                Some(session) => Some(session.target.label()),
                None => None,
            },
        }
    }

    /// The text to copy of a pane: what it shows. It says how much that is.
    pub fn copy_lines(&mut self, lines: Lines) -> (text: Option<String>)
        requires
            old(self).wf(),
        ensures
            final(self).wf(),
            match old(self)@.buffer(lines) {
                Some(buffer) => text.deep_view() == Some(lines_text(buffer.shown_lines())) && final(self)@ == old(
                    self,
                )@.saying(
                    lines,
                    "Copied "@ + crate::text::decimal(buffer.shown().len()) + " lines"@,
                ),
                None => text is None && final(self)@ == old(self)@,
            },
    {
        let (text, copied) = match self.buffer(lines) {
            Some(buffer) => (buffer.to_text(), buffer.visible_len()),
            None => return None,
        };
        let counted: String = joined("Copied ".to_owned(), to_decimal(copied as u64).as_str());
        self.say(lines, joined(counted, " lines"));
        Some(text)
    }

    /// Whether another export can be numbered.
    pub fn can_export(&self) -> (can: bool)
        ensures
            can == (self@.exports < u32::MAX),
    {
        self.exports < u32::MAX
    }

    /// The name and the text of an export of a pane: what it shows.
    pub fn export_lines(&mut self, lines: Lines) -> (file: Option<(String, String)>)
        requires
            old(self).wf(),
            old(self)@.exports < u32::MAX,
        ensures
            final(self).wf(),
            match (old(self)@.label_of(lines), old(self)@.buffer(lines)) {
                (Some(label), Some(buffer)) => file.deep_view() == Some(
                    (export_file(label, old(self)@.exports as nat), lines_text(buffer.shown_lines())),
                ) && final(self)@ == (WorkspaceModel {
                    exports: (old(self)@.exports + 1) as u32,
                    ..old(self)@
                }),
                _ => file is None && final(self)@ == old(self)@,
            },
    {
        let label: String = match self.label_of(lines) {
            Some(label) => label,
            None => return None,
        };
        let text: String = match self.buffer(lines) {
            Some(buffer) => buffer.to_text(),
            None => return None,
        };
        let name: String = export_name(label.as_str(), self.exports);
        self.exports = self.exports + 1;
        Some((name, text))
    }

    /// Says where an export went, or why it went nowhere.
    pub fn exported(&mut self, lines: Lines, outcome: Result<String, String>)
        requires
            old(self).wf(),
        ensures
            final(self).wf(),
            final(self)@ == old(self)@.saying(
                lines,
                match outcome {
                    Ok(path) => "Exported to "@ + path@,
                    Err(error) => "Could not export: "@ + error@,
                },
            ),
    {
        let said: String = match outcome {
            Ok(path) => joined("Exported to ".to_owned(), path.as_str()),
            Err(error) => joined("Could not export: ".to_owned(), error.as_str()),
        };
        self.say(lines, said);
    }

    // --- layout -----------------------------------------------------------------

    /// Shows two clusters side by side, or goes back to one.
    pub fn toggle_split(&mut self, now: Instant)
        requires
            old(self).wf(),
        ensures
            final(self).wf(),
            final(self)@ == old(self)@.split_toggled(now),
    {
        if self.state.is_split() {
            let _ = self.state.unsplit(now);
        } else {
            let _ = self.state.split(now);
        }
        if let Some(cluster) = self.state.active() {
            let cluster: ClusterId = cluster.dup();
            self.connect_once(&cluster);
        }
        self.open_kind();
        self.ensure_watches();
    }

    /// Points commands at a pane.
    pub fn focus_pane(&mut self, index: usize, now: Instant)
        requires
            old(self).wf(),
        ensures
            final(self).wf(),
            final(self)@ == old(self)@.with_app(old(self)@.app.with_focus(index, now)),
    {
        self.state.focus_pane(index, now);
    }

    /// Sorts a pane by a column, focusing it.
    pub fn sort_by(&mut self, pane: usize, key: SortKey, now: Instant)
        requires
            old(self).wf(),
        ensures
            final(self).wf(),
            final(self)@ == ({
                let app = old(self)@.app.with_focus(pane, now);
                old(self)@.with_app(
                    app.refocused(
                        crate::model::PaneModel {
                            sort: crate::rows::clicked_sort(app.focused().sort, key),
                            cursor: 0,
                            ..app.focused()
                        },
                    ),
                )
            }),
    {
        self.state.focus_pane(pane, now);
        self.state.sort_by(key);
    }

    /// Moves the cursor, reporting whether it went anywhere.
    pub fn move_cursor(&mut self, by: isize) -> (moved: bool)
        requires
            old(self).wf(),
        ensures
            final(self).wf(),
            final(self)@ == old(self)@.with_app(
                old(self)@.app.with_cursor(old(self)@.app.focused().cursor + by),
            ),
            moved == (final(self)@.app.focused().cursor != old(self)@.app.focused().cursor),
    {
        self.state.move_cursor(by)
    }

    /// Puts the cursor on a row, reporting whether it went anywhere.
    pub fn set_cursor(&mut self, index: usize) -> (moved: bool)
        requires
            old(self).wf(),
        ensures
            final(self).wf(),
            final(self)@ == old(self)@.with_app(old(self)@.app.with_cursor(index as int)),
            moved == (final(self)@.app.focused().cursor != old(self)@.app.focused().cursor),
    {
        self.state.set_cursor(index)
    }

    /// Puts the cursor on the last row, reporting whether it went anywhere.
    pub fn row_bottom(&mut self) -> (moved: bool)
        requires
            old(self).wf(),
        ensures
            final(self).wf(),
            final(self)@ == old(self)@.with_app(
                old(self)@.app.with_cursor(old(self)@.app.focused().rows.len() - 1),
            ),
            moved == (final(self)@.app.focused().cursor != old(self)@.app.focused().cursor),
    {
        self.state.cursor_to_end()
    }

    /// Moves the cursor half of what fits on screen.
    pub fn half_page(&mut self, down: bool, visible: usize) -> (moved: bool)
        requires
            old(self).wf(),
        ensures
            final(self).wf(),
            final(self)@ == old(self)@.with_app(
                old(self)@.app.with_cursor(
                    old(self)@.app.focused().cursor + (if down {
                        crate::app::half_page(visible)
                    } else {
                        -crate::app::half_page(visible)
                    }),
                ),
            ),
            moved == (final(self)@.app.focused().cursor != old(self)@.app.focused().cursor),
    {
        self.state.move_cursor_half_page(down, visible)
    }

    /// Shows another part of the object in the detail pane.
    pub fn show_detail_tab(&mut self, tab: DetailTab)
        requires
            old(self).wf(),
        ensures
            final(self).wf(),
            final(self)@ == (WorkspaceModel { detail_tab: tab, ..old(self)@ }),
    {
        self.detail_tab = tab;
    }

    /// Opens the list of namespaces, or closes it.
    pub fn toggle_namespace_menu(&mut self)
        requires
            old(self).wf(),
        ensures
            final(self).wf(),
            final(self)@ == (WorkspaceModel {
                namespace_menu_open: !old(self)@.namespace_menu_open,
                ..old(self)@
            }),
    {
        self.namespace_menu_open = !self.namespace_menu_open;
    }

    /// Applies a namespace picked from the list, or all of them.
    pub fn pick_namespace(&mut self, namespace: Option<String>, selector: String)
        requires
            old(self).wf(),
        ensures
            final(self).wf(),
            final(self)@ == (WorkspaceModel { namespace_menu_open: false, ..old(self)@ }).with_server_filters(
                match namespace.deep_view() {
                    Some(namespace) => namespace,
                    None => seq![],
                },
                selector@,
            ),
    {
        let text: String = match namespace {
            Some(namespace) => namespace,
            None => {
                let none: String = String::new();
                assert(none@ =~= seq![]);
                none
            },
        };
        self.namespace_menu_open = false;
        self.apply_server_filters(text, selector);
    }

    /// Opens a closed section of the sidebar, or closes an open one, and
    /// remembers which.
    pub fn toggle_section(&mut self, title: String, open: bool)
        requires
            old(self).wf(),
        ensures
            final(self).wf(),
            final(self)@ == (WorkspaceModel {
                remembered: old(self)@.remembered.with_section(title@, !open),
                ..old(self)@
            }),
    {
        self.remembered.set_section(title, !open);
    }

    // --- the palette ------------------------------------------------------------

    /// Opens the palette with everything that can be jumped to, or closes it.
    pub fn toggle_palette(&mut self)
        requires
            old(self).wf(),
        ensures
            final(self).wf(),
            old(self)@.palette_open ==> final(self)@ == old(self)@.palette_closed(),
            !old(self)@.palette_open ==> final(self)@ == (WorkspaceModel {
                palette: jump_candidates(old(self)@.app),
                palette_open: true,
                palette_matches: crate::palette::unsearched(jump_candidates(old(self)@.app)),
                palette_index: 0,
                ..old(self)@
            }),
    {
        if self.palette_open {
            self.close_palette();
            return;
        }
        let clusters: Vec<String> = context_names(&self.state);
        let kinds: Arc<Vec<KindInfo>> = self.state.kinds();
        let rows: Vec<(&ClusterId, &KindId, &Arc<ResourceRow>)> = self.state.all_rows();
        self.palette.rebuild(&clusters, &kinds, &rows, self.state.active());
        proof {
            reveal_strlit("");
            assert(crate::text::trimmed(""@).len() == 0);
        }
        self.palette_matches = self.palette.search("");
        self.palette_index = 0;
        self.palette_open = true;
    }

    /// Puts the palette away.
    pub fn close_palette(&mut self)
        requires
            old(self).wf(),
        ensures
            final(self).wf(),
            final(self)@ == old(self)@.palette_closed(),
    {
        self.palette_open = false;
        self.palette_matches.clear();
        assert(self.palette_matches.deep_view() =~= seq![]);
    }

    /// Searches the palette for what was typed into it, reporting whether that
    /// could be done. Where the matcher cannot be asked about every candidate,
    /// everything stays as it was.
    pub fn search_palette(&mut self, query: &str) -> (searched: bool)
        requires
            old(self).wf(),
        ensures
            final(self).wf(),
            searched == can_search(old(self)@.palette, query@),
            final(self)@ == (if searched {
                old(self)@.with_query(query@)
            } else {
                old(self)@
            }),
    {
        if !self.palette.can_search(query) {
            return false;
        }
        self.palette_matches = self.palette.search(query);
        self.palette_index = 0;
        true
    }

    /// Whether the palette is open.
    pub fn palette_open(&self) -> (open: bool)
        ensures
            open == self@.palette_open,
    {
        self.palette_open
    }

    /// What the palette found.
    pub fn palette_matches(&self) -> (matches: &Vec<Match>)
        ensures
            matches.deep_view() == self@.palette_matches,
    {
        &self.palette_matches
    }

    /// Which of that is picked.
    pub fn palette_index(&self) -> (index: usize)
        ensures
            index == self@.palette_index,
    {
        self.palette_index
    }

    /// Picks the next thing the palette found, if there is one.
    pub fn select_next(&mut self)
        requires
            old(self).wf(),
        ensures
            final(self).wf(),
            final(self)@ == (WorkspaceModel {
                palette_index: if old(self)@.palette_open && old(self)@.palette_matches.len() > 0 {
                    if old(self)@.palette_index + 1 < old(self)@.palette_matches.len() {
                        (old(self)@.palette_index + 1) as usize
                    } else {
                        (old(self)@.palette_matches.len() - 1) as usize
                    }
                } else {
                    old(self)@.palette_index
                },
                ..old(self)@
            }),
    {
        if self.palette_open && self.palette_matches.len() > 0 {
            assert(self.palette_matches.deep_view().len() == self.palette_matches.len());
            self.palette_index = if self.palette_index + 1 < self.palette_matches.len() {
                self.palette_index + 1
            } else {
                self.palette_matches.len() - 1
            };
        }
    }

    /// Picks the thing before.
    pub fn select_previous(&mut self)
        requires
            old(self).wf(),
        ensures
            final(self).wf(),
            final(self)@ == (WorkspaceModel {
                palette_index: if old(self)@.palette_open && old(self)@.palette_index > 0 {
                    (old(self)@.palette_index - 1) as usize
                } else {
                    old(self)@.palette_index
                },
                ..old(self)@
            }),
    {
        if self.palette_open && self.palette_index > 0 {
            self.palette_index = self.palette_index - 1;
        }
    }

    /// Jumps to what the palette is on.
    pub fn confirm(&mut self, now: Instant)
        requires
            old(self).wf(),
        ensures
            final(self).wf(),
            final(self)@ == old(self)@.palette_confirmed(now),
    {
        if !self.palette_open || self.palette_index >= self.palette_matches.len() {
            assert(self.palette_matches.deep_view().len() == self.palette_matches.len());
            return;
        }
        let target: Target = self.palette_matches[self.palette_index].candidate.target.dup();
        assert(target.deep_view() == self@.palette_matches[self.palette_index as int].candidate.target);
        self.close_palette();
        match target {
            Target::Cluster(name) => self.select_cluster(ClusterId { name }, now),
            Target::Kind(kind) => self.select_kind(kind),
            Target::Object { cluster, kind, key } => {
                let here: bool = match self.state.active() {
                    Some(active) => active.same(&cluster),
                    None => false,
                };
                if !here {
                    self.select_cluster(cluster, now);
                }
                let shown: bool = match self.state.kind() {
                    Some(shown) => shown.same(&kind),
                    None => false,
                };
                if shown {
                    self.open_object(key);
                } else {
                    self.open_elsewhere(kind, key);
                }
            },
        }
    }

    /// Closes whatever is on top.
    pub fn dismiss(&mut self)
        requires
            old(self).wf(),
        ensures
            final(self).wf(),
            final(self)@ == old(self)@.dismissed(),
    {
        if self.pending.is_some() {
            self.pending = None;
        } else if self.namespace_menu_open {
            self.namespace_menu_open = false;
        } else if self.container_menu_open {
            self.container_menu_open = false;
        } else if self.palette_open {
            self.close_palette();
        } else if self.state.exec_session().is_some() {
            self.close_command();
        } else if self.state.logs().is_some() {
            self.close_logs();
        } else if self.state.detail().is_some() {
            self.state.close_detail();
            self.yaml_showing = None;
        }
    }

    // --- drawing ----------------------------------------------------------------

    /// The object whose YAML is to be shown and is not yet.
    pub fn unshown(&self) -> (object: Option<&Arc<ObjectDetail>>)
        ensures
            object.deep_view() == self@.unshown(),
    {
        match self.state.detail() {
            Some(Detail::Ready { object, .. }) => {
                let shown: bool = match &self.yaml_showing {
                    Some(key) => key.same(&object.key),
                    None => false,
                };
                if shown {
                    None
                } else {
                    Some(object)
                }
            },
            _ => None,
        }
    }

    /// Notes that the YAML of the object in the detail pane is shown, and what
    /// its containers are; that neither is, if no object is there.
    pub fn sync_yaml(&mut self, containers: Vec<PodContainer>)
        requires
            old(self).wf(),
        ensures
            final(self).wf(),
            final(self)@ == old(self)@.yaml_synced(containers.deep_view()),
    {
        let fresh: Option<ResourceKey> = match self.unshown() {
            Some(object) => Some(object.key.dup()),
            None => None,
        };
        if let Some(key) = fresh {
            self.exec_containers = containers;
            self.exec_container = None;
            self.yaml_showing = Some(key);
            return;
        }
        let ready: bool = match self.state.detail() {
            Some(Detail::Ready { .. }) => true,
            _ => false,
        };
        if !ready && self.yaml_showing.is_some() {
            self.yaml_showing = None;
            self.exec_containers = Vec::new();
            self.exec_container = None;
            assert(self.exec_containers.deep_view() =~= seq![]);
        }
    }

    /// The line the tail is to scroll to: the newest, if it follows and there
    /// are other lines than before.
    pub fn follow_logs(&mut self) -> (line: Option<usize>)
        requires
            old(self).wf(),
        ensures
            final(self).wf(),
            match old(self)@.app.logs {
                Some(session) => {
                    let visible = session.buffer.shown().len();
                    &&& final(self)@ == (WorkspaceModel { log_visible: visible as usize, ..old(self)@ })
                    &&& line == (if session.following && visible > 0 && visible != old(self)@.log_visible {
                        Some((visible - 1) as usize)
                    } else {
                        None
                    })
                },
                None => line is None && final(self)@ == (WorkspaceModel { log_visible: 0, ..old(self)@ }),
            },
    {
        match self.state.logs() {
            Some(session) => {
                let visible: usize = session.buffer.visible_len();
                let line: Option<usize> = if session.following && visible > 0 && visible != self.log_visible {
                    Some(visible - 1)
                } else {
                    None
                };
                self.log_visible = visible;
                line
            },
            None => {
                self.log_visible = 0;
                None
            },
        }
    }

    /// The line the command's output is to scroll to: the newest, if there are
    /// other lines than before.
    pub fn follow_command(&mut self) -> (line: Option<usize>)
        requires
            old(self).wf(),
        ensures
            final(self).wf(),
            match old(self)@.app.exec_session {
                Some(session) => {
                    let visible = session.buffer.shown().len();
                    &&& final(self)@ == (WorkspaceModel { exec_visible: visible as usize, ..old(self)@ })
                    &&& line == (if visible > 0 && visible != old(self)@.exec_visible {
                        Some((visible - 1) as usize)
                    } else {
                        None
                    })
                },
                None => line is None && final(self)@ == (WorkspaceModel { exec_visible: 0, ..old(self)@ }),
            },
    {
        match self.state.exec_session() {
            Some(session) => {
                let visible: usize = session.buffer.visible_len();
                let line: Option<usize> = if visible > 0 && visible != self.exec_visible {
                    Some(visible - 1)
                } else {
                    None
                };
                self.exec_visible = visible;
                line
            },
            None => {
                self.exec_visible = 0;
                None
            },
        }
    }

    // --- what somebody has open -------------------------------------------------

    /// What went wrong last.
    pub fn last_error(&self) -> (error: Option<&String>)
        ensures
            error.deep_view() == self@.last_error,
    {
        self.last_error.as_ref()
    }

    /// What is said over a pane of lines.
    pub fn notice(&self, lines: Lines) -> (notice: Option<&String>)
        ensures
            notice.deep_view() == (match lines {
                Lines::Logs => self@.log_notice,
                Lines::Command => self@.exec_notice,
            }),
    {
        match lines {
            Lines::Logs => self.log_notice.as_ref(),
            Lines::Command => self.exec_notice.as_ref(),
        }
    }

    /// Whether long lines wrap.
    pub fn wraps(&self) -> (wraps: bool)
        ensures
            wraps == self@.log_wrap,
    {
        self.log_wrap
    }

    /// Where a jump left the tail.
    pub fn anchor(&self) -> (anchor: Option<usize>)
        ensures
            anchor == self@.log_anchor,
    {
        self.log_anchor
    }

    /// The part of the object the detail pane shows.
    pub fn detail_tab(&self) -> (tab: DetailTab)
        ensures
            tab == self@.detail_tab,
    {
        self.detail_tab
    }

    /// Whether the list of forwards is open.
    pub fn forwards_open(&self) -> (open: bool)
        ensures
            open == self@.forwards_open,
    {
        self.forwards_open
    }

    /// Whether the list of namespaces is open.
    pub fn namespace_menu_open(&self) -> (open: bool)
        ensures
            open == self@.namespace_menu_open,
    {
        self.namespace_menu_open
    }

    /// Whether the list of containers is open.
    pub fn container_menu_open(&self) -> (open: bool)
        ensures
            open == self@.container_menu_open,
    {
        self.container_menu_open
    }

    /// The appearance.
    pub fn theme(&self) -> (theme: ThemeChoice)
        ensures
            theme == self@.theme,
    {
        self.theme
    }

    /// The lines the tail shows, shared.
    pub fn log_lines(&mut self) -> (lines: Arc<Vec<Arc<crate::sessions::LogLine>>>)
        requires
            old(self).wf(),
        ensures
            final(self).wf(),
            final(self)@ == old(self)@,
            lines.deep_view() == (match old(self)@.app.logs {
                Some(session) => session.buffer.shown_lines(),
                None => seq![],
            }),
    {
        self.state.log_lines()
    }

    /// The lines the command's output shows, shared.
    pub fn exec_lines(&mut self) -> (lines: Arc<Vec<Arc<crate::sessions::LogLine>>>)
        requires
            old(self).wf(),
        ensures
            final(self).wf(),
            final(self)@ == old(self)@,
            lines.deep_view() == (match old(self)@.app.exec_session {
                Some(session) => session.buffer.shown_lines(),
                None => seq![],
            }),
    {
        self.state.exec_lines()
    }

    /// When each row behind the focused pane last changed, for as long as that
    /// is less than `window` ago.
    pub fn recent_changes(&mut self, now: Instant, window: Duration) -> (changes: Arc<OrdMap<ResourceKey, Instant>>)
        requires
            old(self).wf(),
        ensures
            final(self).wf(),
            final(self)@ == old(self)@.with_app(
                old(self)@.app.pruned(old(self)@.app.focus as int, now, window),
            ),
            changes@ == old(self)@.app.recent_changes(old(self)@.app.focus as int, now, window),
    {
        let focus: usize = self.state.focus();
        self.state.changed_recently(focus, now, window)
    }

    /// The columns a pane shows, each with its place among all of the kind's.
    pub fn visible_columns(&self, index: usize) -> (columns: Vec<(usize, ColumnSpec)>)
        requires
            self.wf(),
            index < self@.app.panes.len(),
        ensures
            columns.deep_view() == shown_columns(self@.app.panes[index as int], self@.columns),
    {
        let panes: &Vec<Pane> = self.state.panes();
        assert(panes.deep_view()[index as int] == panes[index as int].deep_view());
        assert(panes.deep_view().len() == panes.len());
        let pane: &Pane = &panes[index];
        let specs: &Vec<ColumnSpec> = pane.columns();
        let ghost all = specs.deep_view();
        let chosen: Option<Vec<usize>> = match pane.kind() {
            Some(kind) => self.columns.indices(kind, specs),
            None => None,
        };
        let mut columns: Vec<(usize, ColumnSpec)> = Vec::new();
        let mut at: usize = 0;
        match chosen {
            Some(places) => {
                let ghost wanted = places.deep_view().map_values(
                    |place: usize| (place, all[place as int]),
                );
                assert(columns.deep_view() =~= wanted.take(0));
                while at < places.len()
                    invariant
                        at <= places.len(),
                        all == specs.deep_view(),
                        forall|i: int| 0 <= i < places.len() ==> places[i] < specs.len(),
                        wanted == places.deep_view().map_values(|place: usize| (place, all[place as int])),
                        columns.deep_view() == wanted.take(at as int),
                    decreases places.len() - at,
                {
                    let ghost before = columns.deep_view();
                    let place: usize = places[at];
                    columns.push((place, specs[place].dup()));
                    assert(wanted[at as int] == (place, all[place as int]));
                    assert(columns.deep_view() =~= before.push(wanted[at as int]));
                    assert(wanted.take(at + 1) =~= before.push(wanted[at as int]));
                    at += 1;
                }
                assert(wanted.take(at as int) =~= wanted);
            },
            None => {
                let ghost wanted = every_column(all);
                assert(columns.deep_view() =~= wanted.take(0));
                while at < specs.len()
                    invariant
                        at <= specs.len(),
                        all == specs.deep_view(),
                        wanted == every_column(all),
                        columns.deep_view() == wanted.take(at as int),
                    decreases specs.len() - at,
                {
                    let ghost before = columns.deep_view();
                    columns.push((at, specs[at].dup()));
                    assert(columns.deep_view() =~= before.push(wanted[at as int]));
                    assert(wanted.take(at + 1) =~= before.push(wanted[at as int]));
                    at += 1;
                }
                assert(wanted.take(at as int) =~= wanted);
            },
        }
        columns
    }
}

/// Every column, with its place.
pub open spec fn every_column(specs: Seq<crate::objects::ColumnModel>) -> Seq<(usize, crate::objects::ColumnModel)> {
    Seq::new(specs.len(), |i: int| (i as usize, specs[i]))
}

/// The columns a pane shows: those the settings choose for its kind, or all.
pub open spec fn shown_columns(
    pane: crate::model::PaneModel,
    columns: Seq<(Seq<char>, Seq<Seq<char>>)>,
) -> Seq<(usize, crate::objects::ColumnModel)> {
    let specs = pane.columns;
    let chosen = match pane.kind {
        Some(kind) => crate::columns::chosen_columns(columns, crate::objects::kind_label(kind), specs),
        None => None,
    };
    match chosen {
        Some(places) => places.map_values(|place: usize| (place, specs[place as int])),
        None => every_column(specs),
    }
}

/// Picks the rows of an object.
pub open spec fn of_key(key: KeyModel) -> spec_fn(crate::objects::RowModel) -> bool {
    |row: crate::objects::RowModel| row.key == key
}

/// How many replicas rows say an object wants, by its first cell.
pub open spec fn replicas_shown(rows: Seq<crate::objects::RowModel>, key: KeyModel) -> Option<nat> {
    let found = rows.filter(of_key(key));
    if found.len() > 0 {
        crate::wording::desired_replicas(crate::objects::cell_at(found[0], 0).text)
    } else {
        None
    }
}

/// The names of contexts.
pub open spec fn names_of(contexts: Seq<crate::objects::ContextModel>) -> Seq<Seq<char>> {
    contexts.map_values(|context: crate::objects::ContextModel| context.name)
}

/// Everything that can be jumped to from a state.
pub open spec fn jump_candidates(app: AppModel) -> Seq<crate::palette::CandidateModel> {
    candidates_of(
        names_of(app.contexts),
        app.kinds_of(app.focused().cluster),
        crate::model::rows_of(app.tables),
        app.focused().cluster,
    )
}

fn context_names(state: &AppState) -> (names: Vec<String>)
    ensures
        names.deep_view() == names_of(state@.contexts),
{
    let contexts: &Vec<crate::objects::ContextInfo> = state.contexts();
    let ghost all = contexts.deep_view();
    let mut names: Vec<String> = Vec::new();
    let mut at: usize = 0;
    assert(names.deep_view() =~= names_of(all.take(0)));
    while at < contexts.len()
        invariant
            at <= contexts.len(),
            all == contexts.deep_view(),
            names.deep_view() == names_of(all.take(at as int)),
        decreases contexts.len() - at,
    {
        let ghost before = names.deep_view();
        names.push(contexts[at].name.clone());
        assert(names.deep_view() =~= before.push(all[at as int].name));
        assert(names_of(all.take(at + 1)) =~= before.push(all[at as int].name));
        at += 1;
    }
    assert(all.take(at as int) =~= all);
    names
}

} // verus!

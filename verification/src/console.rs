//! What somebody in front of a console can do, as steps from one state of it to
//! the next.

use crate::app::typed;
use crate::catalog::kind_labelled;
use crate::clock::{since, Duration, Instant, SystemTime};
use crate::events::{CommandModel, EventModel, FlushStats};
use crate::filter::FilterModel;
use crate::keyed::{lookup, put};
use crate::logs::{LogModel, LogOrder};
use crate::logview::time_text;
use crate::model::{
    clusters_of, detail_key, detail_kind, targets_of, ActivityModel, AppModel, DetailModel,
    ExecSessionModel, LogSessionModel,
};
use crate::mutation::{mutation_detail, mutation_key, mutation_kind, mutation_verb, MutationModel, MutationOutcomeModel};
use crate::objects::{kind_label, ClusterId, ContainerModel, KeyModel, KindId, KindInfoModel, KindModel, ResourceKey};
use crate::palette::{found_by, CandidateModel, MatchModel, TargetModel};
use crate::permissions::refusal_reason;
use crate::proposal::ProposalModel;
use crate::remembered::UiModel;
use crate::rows::FiltersModel;
use crate::sessions::{
    exec_label, log_target_label, ConnectionStateModel, ExecStatusModel, ExecTargetModel, ForwardId,
    ForwardTargetModel, LogSelectorModel, LogTargetModel,
};
use crate::text::{decimal, trimmed, words};
use crate::times::{time_error_text, typed_time};
use crate::value::Value;
use crate::wording::{port_typed, DetailTab};
use vstd::prelude::*;

verus! {

/// How often idle clusters are swept, in nanoseconds.
pub const SWEEP_INTERVAL: u128 = 30_000_000_000;

/// What the event pump has done so far.
#[derive(Clone, Copy, Debug, PartialEq, Eq, Structural)]
pub struct BridgeStats {
    /// How many flushes were applied.
    pub flushes: u64,
    /// How many events those held.
    pub applied: u64,
    /// How many events were superseded before they arrived.
    pub collapsed: u64,
    /// How many events were lost because the queue was full.
    pub dropped: u64,
}

impl Default for BridgeStats {
    fn default() -> (stats: Self)
        ensures
            stats == no_flushes(),
    {
        BridgeStats { flushes: 0, applied: 0, collapsed: 0, dropped: 0 }
    }
}

/// Nothing done so far.
pub open spec fn no_flushes() -> BridgeStats {
    BridgeStats { flushes: 0, applied: 0, collapsed: 0, dropped: 0 }
}

/// Whether one more flush can be counted.
pub open spec fn flush_fits(stats: BridgeStats, flush: FlushStats) -> bool {
    &&& stats.flushes < u64::MAX
    &&& stats.applied + flush.applied <= u64::MAX
    &&& stats.collapsed + flush.collapsed <= u64::MAX
    &&& stats.dropped + flush.dropped <= u64::MAX
}

/// The totals after one more flush.
pub open spec fn flushed(stats: BridgeStats, flush: FlushStats) -> BridgeStats {
    BridgeStats {
        flushes: (stats.flushes + 1) as u64,
        applied: (stats.applied + flush.applied) as u64,
        collapsed: (stats.collapsed + flush.collapsed) as u64,
        dropped: (stats.dropped + flush.dropped) as u64,
    }
}

impl BridgeStats {
    /// Counts one more flush.
    pub fn record(&mut self, flush: FlushStats)
        requires
            flush_fits(*old(self), flush),
        ensures
            *final(self) == flushed(*old(self), flush),
    {
        self.flushes = self.flushes + 1;
        self.applied = self.applied + flush.applied as u64;
        self.collapsed = self.collapsed + flush.collapsed;
        self.dropped = self.dropped + flush.dropped as u64;
    }
}

/// The appearance somebody chose.
#[derive(Clone, Copy, Debug, PartialEq, Eq, Structural)]
pub enum ThemeChoice {
    /// Whatever the system uses.
    System,
    /// Light.
    Light,
    /// Dark.
    Dark,
}

/// The appearance after this one.
pub open spec fn next_theme(theme: ThemeChoice) -> ThemeChoice {
    match theme {
        ThemeChoice::System => ThemeChoice::Light,
        ThemeChoice::Light => ThemeChoice::Dark,
        ThemeChoice::Dark => ThemeChoice::System,
    }
}

impl ThemeChoice {
    /// The appearance after this one.
    pub fn next(self) -> (theme: Self)
        ensures
            theme == next_theme(self),
    {
        match self {
            ThemeChoice::System => ThemeChoice::Light,
            ThemeChoice::Light => ThemeChoice::Dark,
            ThemeChoice::Dark => ThemeChoice::System,
        }
    }

    /// What the button says.
    pub fn label(self) -> (label: &'static str)
        ensures
            label@ == (match self {
                ThemeChoice::System => "Theme: system"@,
                ThemeChoice::Light => "Theme: light"@,
                ThemeChoice::Dark => "Theme: dark"@,
            }),
    {
        match self {
            ThemeChoice::System => "Theme: system",
            ThemeChoice::Light => "Theme: light",
            ThemeChoice::Dark => "Theme: dark",
        }
    }
}

/// Which of the two panes of lines something is about.
#[derive(Clone, Copy, Debug, PartialEq, Eq, Structural)]
pub enum Lines {
    /// The log tail.
    Logs,
    /// The output of a command.
    Command,
}

/// A change or a command that was refused, for the audit log.
#[derive(Clone, Debug, PartialEq, Eq)]
pub struct RefusalEntry {
    /// The cluster it was for.
    pub cluster: ClusterId,
    /// The object.
    pub key: ResourceKey,
    /// The label of the object's kind.
    pub kind: String,
    /// What was asked for.
    pub verb: String,
    /// What was asked for beyond that.
    pub detail: String,
    /// Why it was refused.
    pub reason: String,
}

/// What a [`RefusalEntry`] holds.
pub struct RefusalEntryModel {
    /// The cluster it was for.
    pub cluster: Seq<char>,
    /// The object.
    pub key: KeyModel,
    /// The label of the object's kind.
    pub kind: Seq<char>,
    /// What was asked for.
    pub verb: Seq<char>,
    /// What was asked for beyond that.
    pub detail: Seq<char>,
    /// Why it was refused.
    pub reason: Seq<char>,
}

impl DeepView for RefusalEntry {
    type V = RefusalEntryModel;

    open spec fn deep_view(&self) -> RefusalEntryModel {
        RefusalEntryModel {
            cluster: self.cluster.deep_view(),
            key: self.key.deep_view(),
            kind: self.kind.deep_view(),
            verb: self.verb.deep_view(),
            detail: self.detail.deep_view(),
            reason: self.reason.deep_view(),
        }
    }
}

impl Value for RefusalEntry {
    fn dup(&self) -> (copy: Self) {
        RefusalEntry {
            cluster: self.cluster.dup(),
            key: self.key.dup(),
            kind: self.kind.dup(),
            verb: self.verb.dup(),
            detail: self.detail.dup(),
            reason: self.reason.dup(),
        }
    }

    fn same(&self, other: &Self) -> (equal: bool) {
        self.cluster.same(&other.cluster)
            && self.key.same(&other.key)
            && self.kind.same(&other.kind)
            && self.verb.same(&other.verb)
            && self.detail.same(&other.detail)
            && self.reason.same(&other.reason)
    }
}

/// The server-side filters a watch was started with.
pub type WatchFilters = (Option<Seq<char>>, Option<Seq<char>>);

/// What a console is doing: what it knows and shows, what somebody has open in
/// front of it, and what it wants done.
pub struct WorkspaceModel {
    /// What it knows and shows.
    pub app: AppModel,
    /// What the event pump has done.
    pub stats: BridgeStats,
    /// The appearance.
    pub theme: ThemeChoice,
    /// The clusters that were asked to connect.
    pub attempted: Set<Seq<char>>,
    /// The watches that run.
    pub watching: Seq<((Seq<char>, KindModel), WatchFilters)>,
    /// How long a cluster nobody looks at stays warm.
    pub idle_timeout: Duration,
    /// When idle clusters were last swept.
    pub last_sweep: Instant,
    /// What went wrong last.
    pub last_error: Option<Seq<char>>,
    /// What the sidebar looked like.
    pub remembered: UiModel,
    /// Which object's YAML is shown.
    pub yaml_showing: Option<KeyModel>,
    /// Whether long lines wrap.
    pub log_wrap: bool,
    /// Where a jump left the tail.
    pub log_anchor: Option<usize>,
    /// How many lines the tail showed last.
    pub log_visible: usize,
    /// How many lines the command showed last.
    pub exec_visible: usize,
    /// What is said over the tail.
    pub log_notice: Option<Seq<char>>,
    /// What is said over the command.
    pub exec_notice: Option<Seq<char>>,
    /// Everything that can be jumped to.
    pub palette: Seq<CandidateModel>,
    /// Whether the palette is open.
    pub palette_open: bool,
    /// What the palette found.
    pub palette_matches: Seq<MatchModel>,
    /// Which of that is picked.
    pub palette_index: usize,
    /// A tail that waits for its cluster to connect.
    pub pending_tail: Option<LogTargetModel>,
    /// What waits for somebody to agree to it.
    pub pending: Option<ProposalModel>,
    /// The containers of the pod in the detail pane.
    pub exec_containers: Seq<ContainerModel>,
    /// The one a command would run in.
    pub exec_container: Option<Seq<char>>,
    /// Whether the list of containers is open.
    pub container_menu_open: bool,
    /// Whether the list of forwards is open.
    pub forwards_open: bool,
    /// Whether the list of namespaces is open.
    pub namespace_menu_open: bool,
    /// The part of the object the detail pane shows.
    pub detail_tab: DetailTab,
    /// How many lines a session keeps.
    pub log_capacity: usize,
    /// The columns the settings choose.
    pub columns: Seq<(Seq<char>, Seq<Seq<char>>)>,
    /// How many exports there were.
    pub exports: u32,
    /// What the cluster side is to do.
    pub outbox: Seq<CommandModel>,
    /// What was refused, for the audit log.
    pub refused: Seq<RefusalEntryModel>,
}

// --- kinds to open --------------------------------------------------------------

/// Picks pods.
pub open spec fn is_pods() -> spec_fn(KindInfoModel) -> bool {
    |info: KindInfoModel| info.id.group.len() == 0 && info.id.kind == "Pod"@
}

/// Picks what can be listed.
pub open spec fn is_watchable() -> spec_fn(KindInfoModel) -> bool {
    |info: KindInfoModel| info.watchable
}

/// The kind a cluster opens on that was never opened: pods, or the first that
/// can be listed.
pub open spec fn default_kind(kinds: Seq<KindInfoModel>) -> Option<KindModel> {
    let (pods, others) = (kinds.filter(is_pods()), kinds.filter(is_watchable()));
    if pods.len() > 0 {
        Some(pods[0].id)
    } else if others.len() > 0 {
        Some(others[0].id)
    } else {
        None
    }
}

/// Picks the watches of a cluster.
pub open spec fn watches_of(cluster: Seq<char>) -> spec_fn(((Seq<char>, KindModel), WatchFilters)) -> bool {
    |entry: ((Seq<char>, KindModel), WatchFilters)| (entry.0).0 == cluster
}

/// Picks the watches of other clusters.
pub open spec fn watches_of_others(cluster: Seq<char>) -> spec_fn(((Seq<char>, KindModel), WatchFilters)) -> bool {
    |entry: ((Seq<char>, KindModel), WatchFilters)| (entry.0).0 != cluster
}

/// A watch, stopped.
pub open spec fn stopped_watch() -> spec_fn(((Seq<char>, KindModel), WatchFilters)) -> CommandModel {
    |entry: ((Seq<char>, KindModel), WatchFilters)|
        CommandModel::StopWatch { cluster: (entry.0).0, kind: (entry.0).1 }
}

/// Whether a kind is pods.
pub open spec fn pod_kind(kind: KindModel) -> bool {
    kind.group.len() == 0 && kind.kind == "Pod"@
}

impl WorkspaceModel {
    /// A console that was just opened: it asks what contexts there are.
    pub open spec fn opened(started: Instant, tail: Option<LogTargetModel>) -> WorkspaceModel {
        WorkspaceModel {
            app: AppModel::fresh(),
            stats: no_flushes(),
            theme: ThemeChoice::System,
            attempted: Set::empty(),
            watching: seq![],
            idle_timeout: Duration { nanos: 300_000_000_000 },
            last_sweep: started,
            last_error: None,
            remembered: UiModel::blank(),
            yaml_showing: None,
            log_wrap: false,
            log_anchor: None,
            log_visible: 0,
            exec_visible: 0,
            log_notice: None,
            exec_notice: None,
            palette: seq![],
            palette_open: false,
            palette_matches: seq![],
            palette_index: 0,
            pending_tail: tail,
            pending: None,
            exec_containers: seq![],
            exec_container: None,
            container_menu_open: false,
            forwards_open: false,
            namespace_menu_open: false,
            detail_tab: DetailTab::Yaml,
            log_capacity: 100_000,
            columns: seq![],
            exports: 0,
            outbox: seq![CommandModel::ListContexts],
            refused: seq![],
        }
    }

    /// With another state behind it.
    pub open spec fn with_app(self, app: AppModel) -> WorkspaceModel {
        WorkspaceModel { app, ..self }
    }

    /// With something to be done.
    pub open spec fn sending(self, command: CommandModel) -> WorkspaceModel {
        WorkspaceModel { outbox: self.outbox.push(command), ..self }
    }

    /// The cluster of the focused pane.
    pub open spec fn active(self) -> Option<Seq<char>> {
        self.app.focused().cluster
    }

    // --- connections and watches ------------------------------------------------

    /// With a cluster asked to connect, if it was not yet.
    pub open spec fn connecting(self, cluster: Seq<char>) -> WorkspaceModel {
        if self.attempted.contains(cluster) {
            self
        } else {
            (WorkspaceModel { attempted: self.attempted.insert(cluster), ..self }).sending(
                CommandModel::Connect { cluster },
            )
        }
    }

    /// With clusters asked to connect, those that were not yet.
    pub open spec fn connecting_all(self, clusters: Seq<Seq<char>>) -> WorkspaceModel
        decreases clusters.len(),
    {
        if clusters.len() == 0 {
            self
        } else {
            self.connecting_all(clusters.drop_last()).connecting(clusters.last())
        }
    }

    /// With a kind watched through filters, unless it is already.
    pub open spec fn watching_one(self, target: (Seq<char>, KindModel, FiltersModel)) -> WorkspaceModel {
        let (cluster, kind, filters) = target;
        let wanted = (filters.namespace, filters.selector);
        if lookup(self.watching, (cluster, kind)) == Some(wanted) {
            self
        } else {
            (WorkspaceModel {
                watching: put::<(ClusterId, KindId), WatchFilters>(self.watching, (cluster, kind), wanted),
                ..self
            }).sending(
                CommandModel::Watch { cluster, kind, namespace: filters.namespace, selector: filters.selector },
            )
        }
    }

    /// With everything watched that is to be, and nothing stopped.
    pub open spec fn watching_all(self, targets: Seq<(Seq<char>, KindModel, FiltersModel)>) -> WorkspaceModel
        decreases targets.len(),
    {
        if targets.len() == 0 {
            self
        } else {
            self.watching_all(targets.drop_last()).watching_one(targets.last())
        }
    }

    /// With everything watched that the panes show.
    pub open spec fn ensured(self) -> WorkspaceModel {
        self.watching_all(targets_of(self.app.panes))
    }

    /// The kind a pane on a cluster opens on: the one that cluster was left
    /// on, if it still serves it.
    pub open spec fn opening_kind(self, cluster: Option<Seq<char>>) -> Option<KindModel> {
        let kinds = self.app.kinds_of(cluster);
        let left_on = match cluster {
            Some(cluster) => match self.remembered.last_kind(cluster) {
                Some(label) => kind_labelled(kinds, label),
                None => None,
            },
            None => None,
        };
        match left_on {
            Some(info) => Some(info.id),
            None => default_kind(kinds),
        }
    }

    /// With the focused pane on the kind its cluster opens on.
    pub open spec fn on_opening_kind(self) -> WorkspaceModel {
        match self.opening_kind(self.active()) {
            Some(kind) => self.with_app(self.app.with_kind(kind)),
            None => self,
        }
    }

    /// With a pane that shows no kind on the one its cluster opens on.
    pub open spec fn pane_opened(self, index: int, now: Instant) -> WorkspaceModel {
        if self.app.panes[index].kind is Some {
            self
        } else {
            match self.opening_kind(self.app.panes[index].cluster) {
                Some(kind) => self.with_app(
                    self.app.with_focus(index as usize, now).with_kind(kind).with_focus(self.app.focus, now),
                ),
                None => self,
            }
        }
    }

    /// With the first panes opened that show no kind.
    pub open spec fn panes_opened(self, upto: int, now: Instant) -> WorkspaceModel
        decreases upto,
    {
        if upto <= 0 {
            self
        } else {
            self.panes_opened(upto - 1, now).pane_opened(upto - 1, now)
        }
    }

    /// With the tail opened that waited for its cluster, if that is connected.
    pub open spec fn tail_opened(self) -> WorkspaceModel {
        match (self.pending_tail, self.active()) {
            (Some(target), Some(cluster)) => match lookup(self.app.connections, cluster) {
                Some(connection) => if connection.state == ConnectionStateModel::Connected {
                    (WorkspaceModel { pending_tail: None, ..self }).tailing(cluster, target)
                } else {
                    self
                },
                None => self,
            },
            _ => self,
        }
    }

    /// With a tail open, and the cluster side asked for its lines.
    pub open spec fn tailing(self, cluster: Seq<char>, target: LogTargetModel) -> WorkspaceModel {
        self.with_app(
            AppModel {
                logs: Some(
                    LogSessionModel {
                        cluster,
                        target,
                        buffer: LogModel::fresh(self.log_capacity),
                        following: true,
                    },
                ),
                ..self.app
            },
        ).sending(CommandModel::StartLogs { cluster, target })
    }

    /// The clusters nobody has looked at for a while.
    pub open spec fn idle(self, now: Instant) -> Seq<Seq<char>> {
        self.app.idle_at(now, self.idle_timeout)
    }

    /// With a cluster let go: its watches stopped, its rows dropped, and its
    /// connection kept.
    pub open spec fn letting_go(self, cluster: Seq<char>) -> WorkspaceModel {
        WorkspaceModel {
            outbox: self.outbox + self.watching.filter(watches_of(cluster)).map_values(stopped_watch()),
            watching: self.watching.filter(watches_of_others(cluster)),
            app: self.app.released(cluster),
            ..self
        }
    }

    /// With clusters let go.
    pub open spec fn letting_go_all(self, clusters: Seq<Seq<char>>) -> WorkspaceModel
        decreases clusters.len(),
    {
        if clusters.len() == 0 {
            self
        } else {
            self.letting_go_all(clusters.drop_last()).letting_go(clusters.last())
        }
    }

    /// With idle clusters let go, if it is time to look for them.
    pub open spec fn swept(self, now: Instant) -> WorkspaceModel {
        if since(now, self.last_sweep).nanos < SWEEP_INTERVAL {
            self
        } else {
            (WorkspaceModel { last_sweep: now, ..self }).letting_go_all(self.idle(now))
        }
    }

    /// After a batch of events: what they say is known, every pane's cluster is
    /// asked to connect, a tail that waited is opened, panes without a kind
    /// get one, what they show is watched, and what is idle is let go.
    pub open spec fn fed(self, events: Seq<EventModel>, flush: FlushStats, now: Instant) -> WorkspaceModel {
        let told = WorkspaceModel {
            stats: flushed(self.stats, flush),
            app: self.app.batched(events, now),
            ..self
        };
        let connected = told.connecting_all(clusters_of(told.app.panes)).tail_opened();
        connected.panes_opened(connected.app.panes.len() as int, now).ensured().swept(now)
    }

    // --- choosing what to look at -----------------------------------------------

    /// With a kind remembered as opened, unless it is the one on screen.
    pub open spec fn visiting(self, kind: KindModel) -> WorkspaceModel {
        match self.active() {
            Some(cluster) => if self.app.focused().kind == Some(kind) {
                self
            } else {
                WorkspaceModel { remembered: self.remembered.visited(cluster, kind_label(kind)), ..self }
            },
            None => self,
        }
    }

    /// With the focused pane on a cluster, connected and on the kind it was
    /// left on.
    pub open spec fn on_cluster(self, cluster: Seq<char>, now: Instant) -> WorkspaceModel {
        let moved = self.app.with_cluster(cluster, now);
        self.with_app(
            AppModel { last_viewed: put::<ClusterId, Instant>(moved.last_viewed, cluster, now), ..moved },
        ).connecting(cluster).on_opening_kind().ensured()
    }

    /// With the focused pane on a kind.
    pub open spec fn on_kind(self, kind: KindModel) -> WorkspaceModel {
        let visited = self.visiting(kind);
        visited.with_app(visited.app.with_kind(kind)).ensured()
    }

    /// With filters on the focused pane that the apiserver applies.
    pub open spec fn with_server_filters(self, namespace: Seq<char>, selector: Seq<char>) -> WorkspaceModel {
        let filters = self.app.focused().filters;
        let narrowed = self.app.with_filters(FiltersModel { namespace: typed(Some(namespace)), ..filters });
        self.with_app(
            narrowed.with_filters(
                FiltersModel { selector: typed(Some(selector)), ..narrowed.focused().filters },
            ),
        ).ensured()
    }

    /// With the containers of the object that was on screen forgotten.
    pub open spec fn without_containers(self) -> WorkspaceModel {
        WorkspaceModel {
            exec_containers: seq![],
            exec_container: None,
            container_menu_open: false,
            ..self
        }
    }

    /// With an object asked for.
    pub open spec fn fetching(self, cluster: Seq<char>, kind: KindModel, key: KeyModel, reveal: bool) -> WorkspaceModel {
        self.with_app(
            AppModel { detail: Some(DetailModel::Loading { cluster, kind, key }), ..self.app },
        ).sending(CommandModel::FetchObject { cluster, kind, key, reveal })
    }

    /// With an object of the kind on screen opened, its hidden values hidden.
    pub open spec fn with_object(self, key: KeyModel) -> WorkspaceModel {
        match (self.active(), self.app.focused().kind) {
            (Some(cluster), Some(kind)) => (WorkspaceModel { detail_tab: DetailTab::Yaml, ..self })
                .without_containers().fetching(cluster, kind, key, false),
            _ => self,
        }
    }

    /// With the object on screen asked for again, its hidden values shown.
    pub open spec fn revealing(self) -> WorkspaceModel {
        match (self.active(), self.app.detail) {
            (Some(cluster), Some(detail)) => (WorkspaceModel { yaml_showing: None, ..self }).fetching(
                cluster,
                detail_kind(detail),
                detail_key(detail),
                true,
            ),
            _ => self,
        }
    }

    /// With an object of another kind opened.
    pub open spec fn elsewhere(self, kind: KindModel, key: KeyModel) -> WorkspaceModel {
        let there = self.on_kind(kind);
        match there.active() {
            Some(cluster) => there.without_containers().fetching(cluster, kind, key, false),
            None => there,
        }
    }

    // --- changes ----------------------------------------------------------------

    /// With a change put in front of somebody.
    pub open spec fn proposing(self, mutation: MutationModel) -> WorkspaceModel {
        match self.active() {
            Some(cluster) => WorkspaceModel {
                pending: Some(ProposalModel::Mutation { cluster, mutation }),
                ..self
            },
            None => self,
        }
    }

    /// With a change sent, or recorded as refused.
    pub open spec fn changing(self, cluster: Seq<char>, mutation: MutationModel, now: Instant) -> WorkspaceModel {
        match self.app.refusal(cluster) {
            None => self.sending(CommandModel::Mutate { cluster, mutation }),
            Some(refusal) => WorkspaceModel {
                refused: self.refused.push(
                    RefusalEntryModel {
                        cluster,
                        key: mutation_key(mutation),
                        kind: kind_label(mutation_kind(mutation)),
                        verb: mutation_verb(mutation),
                        detail: mutation_detail(mutation),
                        reason: refusal_reason(refusal),
                    },
                ),
                app: self.app.recording(
                    ActivityModel {
                        cluster,
                        mutation,
                        outcome: MutationOutcomeModel::Refused { reason: refusal_reason(refusal) },
                        at: now,
                    },
                ),
                ..self
            },
        }
    }

    /// The output a command starts with: nothing, read through the filter the
    /// command before it was read through.
    pub open spec fn blank_output(self) -> LogModel {
        match self.app.exec_session {
            Some(session) => LogModel {
                filter: session.buffer.filter,
                matcher: session.buffer.matcher,
                ..LogModel::fresh(self.log_capacity)
            },
            None => LogModel::fresh(self.log_capacity),
        }
    }

    /// With a command sent, or recorded as refused.
    pub open spec fn executing(self, cluster: Seq<char>, target: ExecTargetModel) -> WorkspaceModel {
        match self.app.refusal(cluster) {
            None => (WorkspaceModel {
                app: AppModel {
                    exec_session: Some(
                        ExecSessionModel { cluster, target, buffer: self.blank_output(), status: None },
                    ),
                    ..self.app
                },
                exec_notice: None,
                ..self
            }).sending(CommandModel::Exec { cluster, target }),
            Some(refusal) => WorkspaceModel {
                refused: self.refused.push(
                    RefusalEntryModel {
                        cluster,
                        key: KeyModel { namespace: target.namespace, name: target.pod },
                        kind: "pods"@,
                        verb: "exec"@,
                        detail: crate::sessions::spaced(target.command),
                        reason: refusal_reason(refusal),
                    },
                ),
                last_error: Some(refusal_reason(refusal)),
                ..self
            },
        }
    }

    /// With what was proposed agreed to: it goes to the cluster it was
    /// proposed for.
    pub open spec fn confirmed(self, now: Instant) -> WorkspaceModel {
        let settled = WorkspaceModel { pending: None, ..self };
        match self.pending {
            Some(ProposalModel::Mutation { cluster, mutation }) => settled.changing(cluster, mutation, now),
            Some(ProposalModel::Command { cluster, target }) => settled.executing(cluster, target),
            None => self,
        }
    }

    // --- forwards and commands --------------------------------------------------

    /// With a forward to the pod in the detail pane started, or recorded as
    /// refused: a way into a cluster is held to the same rule as a change to it.
    pub open spec fn forwarding(self, port: Seq<char>) -> WorkspaceModel {
        match (self.active(), self.app.detail) {
            (Some(cluster), Some(detail)) => match self.app.refusal(cluster) {
                Some(refusal) => WorkspaceModel {
                    refused: self.refused.push(
                        RefusalEntryModel {
                            cluster,
                            key: detail_key(detail),
                            kind: "pods"@,
                            verb: "port-forward"@,
                            detail: trimmed(port),
                            reason: refusal_reason(refusal),
                        },
                    ),
                    last_error: Some(refusal_reason(refusal)),
                    ..self
                },
                None => match port_typed(port) {
                    Some(port) => (WorkspaceModel {
                        forwards_open: true,
                        app: AppModel { next_forward: (self.app.next_forward + 1) as u64, ..self.app },
                        ..self
                    }).sending(
                        CommandModel::StartForward {
                            cluster,
                            id: ForwardId(self.app.next_forward),
                            target: ForwardTargetModel {
                                namespace: detail_key(detail).namespace,
                                pod: detail_key(detail).name,
                                port: port as u16,
                            },
                        },
                    ),
                    None => WorkspaceModel {
                        last_error: Some("Type the container port to forward, next to Forward."@),
                        ..self
                    },
                },
            },
            _ => self,
        }
    }

    /// With a command for the pod in the detail pane put in front of somebody.
    pub open spec fn proposing_command(self, command: Seq<char>) -> WorkspaceModel {
        match self.app.detail {
            Some(detail) => if words(command).len() == 0 {
                WorkspaceModel {
                    last_error: Some("Type a command to run next to Run, such as `ls -la /etc`."@),
                    ..self
                }
            } else {
                match self.active() {
                    Some(cluster) => WorkspaceModel {
                        pending: Some(
                            ProposalModel::Command {
                                cluster,
                                target: ExecTargetModel {
                                    namespace: detail_key(detail).namespace,
                                    pod: detail_key(detail).name,
                                    container: self.exec_container,
                                    command: words(command),
                                },
                            },
                        ),
                        ..self
                    },
                    None => self,
                }
            },
            None => self,
        }
    }

    /// With the command stopped, if there is one.
    pub open spec fn command_stopped(self) -> WorkspaceModel {
        match self.app.exec_session {
            Some(session) => self.with_app(
                AppModel {
                    exec_session: Some(
                        if session.status is None {
                            ExecSessionModel { status: Some(ExecStatusModel::Cancelled), ..session }
                        } else {
                            session
                        },
                    ),
                    ..self.app
                },
            ).sending(CommandModel::CancelExec { cluster: session.cluster }),
            None => self,
        }
    }

    /// With the command's output closed, and the command stopped if it runs.
    pub open spec fn command_closed(self) -> WorkspaceModel {
        let stopped = match self.app.exec_session {
            Some(session) => if session.status is None {
                self.command_stopped()
            } else {
                self
            },
            None => self,
        };
        WorkspaceModel {
            app: AppModel { exec_session: None, ..stopped.app },
            exec_notice: None,
            ..stopped
        }
    }

    // --- logs -------------------------------------------------------------------

    /// What to tail, or why nothing can be: the pod in the detail pane, or else
    /// the pods that the table's filters describe.
    pub open spec fn log_target(self) -> Result<LogTargetModel, Seq<char>> {
        let container = match self.app.logs {
            Some(session) => session.target.container,
            None => None,
        };
        let filters = self.app.focused().filters;
        if self.app.detail is Some && pod_kind(detail_kind(self.app.detail->0)) {
            Ok(
                LogTargetModel {
                    namespace: detail_key(self.app.detail->0).namespace,
                    selector: LogSelectorModel::Pod(detail_key(self.app.detail->0).name),
                    container,
                    previous: false,
                },
            )
        } else {
            match (filters.namespace, filters.selector) {
                (None, _) => Err(
                    "Open a pod, or set a namespace filter, before tailing logs: log streams are per-namespace."@,
                ),
                (Some(namespace), None) => Err(
                    "Set a label selector to tail every pod in "@ + namespace + ", or open one pod."@,
                ),
                (Some(namespace), Some(selector)) => Ok(
                    LogTargetModel {
                        namespace,
                        selector: LogSelectorModel::Labels(selector),
                        container,
                        previous: false,
                    },
                ),
            }
        }
    }

    /// With a tail opened, or with why none can be.
    pub open spec fn logs_opened(self) -> WorkspaceModel {
        match (self.active(), self.log_target()) {
            (None, _) => self,
            (Some(_), Err(reason)) => WorkspaceModel { log_notice: Some(reason), ..self },
            (Some(cluster), Ok(target)) => (WorkspaceModel { log_notice: None, log_anchor: None, ..self }).tailing(
                cluster,
                target,
            ),
        }
    }

    /// With the tail closed.
    pub open spec fn logs_closed(self) -> WorkspaceModel {
        let told = match self.active() {
            Some(cluster) => self.sending(CommandModel::StopLogs { cluster }),
            None => self,
        };
        WorkspaceModel {
            app: AppModel { logs: None, ..told.app },
            log_notice: None,
            log_anchor: None,
            ..told
        }
    }

    /// With the tail on other pods or another container.
    pub open spec fn retargeted(self, selector: Seq<char>, container: Seq<char>) -> WorkspaceModel {
        match (self.active(), self.app.logs) {
            (Some(cluster), Some(session)) => {
                let picked = if selector.len() > 0 {
                    Some(LogSelectorModel::Labels(selector))
                } else {
                    match session.target.selector {
                        LogSelectorModel::Pod(pod) => Some(LogSelectorModel::Pod(pod)),
                        LogSelectorModel::Labels(_) => None,
                    }
                };
                match picked {
                    Some(selector) => (WorkspaceModel { log_anchor: None, ..self }).tailing(
                        cluster,
                        LogTargetModel {
                            namespace: session.target.namespace,
                            selector,
                            container: typed(Some(container)),
                            previous: session.target.previous,
                        },
                    ),
                    None => WorkspaceModel {
                        log_notice: Some("A selector is needed to tail several pods."@),
                        ..self
                    },
                }
            },
            _ => self,
        }
    }

    /// With the logs of the containers before, or of the ones that run.
    pub open spec fn previous_toggled(self) -> WorkspaceModel {
        match (self.active(), self.app.logs) {
            (Some(cluster), Some(session)) => self.tailing(
                cluster,
                LogTargetModel { previous: !session.target.previous, ..session.target },
            ),
            _ => self,
        }
    }

    /// The lines of a pane, if it is open.
    pub open spec fn buffer(self, lines: Lines) -> Option<LogModel> {
        match lines {
            Lines::Logs => match self.app.logs {
                Some(session) => Some(session.buffer),
                None => None,
            },
            Lines::Command => match self.app.exec_session {
                Some(session) => Some(session.buffer),
                None => None,
            },
        }
    }

    /// With the lines of a pane replaced.
    pub open spec fn with_buffer(self, lines: Lines, buffer: LogModel) -> WorkspaceModel {
        match lines {
            Lines::Logs => self.with_app(self.app.with_log_buffer(buffer)),
            Lines::Command => self.with_app(self.app.with_exec_buffer(buffer)),
        }
    }

    /// With another filter on a pane, which compiled to `matcher`. Where other
    /// lines are visible by it, the line a jump landed on is forgotten.
    pub open spec fn filtered(
        self,
        lines: Lines,
        filter: FilterModel,
        matcher: crate::filter::MatcherModel,
    ) -> WorkspaceModel {
        let before = self.buffer(lines)->0;
        let after = before.narrowed(filter, matcher);
        let narrowed = self.with_buffer(lines, after);
        if lines == Lines::Logs && after.shown() != before.shown() {
            WorkspaceModel { log_anchor: None, ..narrowed }
        } else {
            narrowed
        }
    }

    /// With something said over a pane.
    pub open spec fn saying(self, lines: Lines, said: Seq<char>) -> WorkspaceModel {
        match lines {
            Lines::Logs => WorkspaceModel { log_notice: Some(said), ..self },
            Lines::Command => WorkspaceModel { exec_notice: Some(said), ..self },
        }
    }

    /// What a pane is called.
    pub open spec fn label_of(self, lines: Lines) -> Option<Seq<char>> {
        match lines {
            Lines::Logs => match self.app.logs {
                Some(session) => Some(log_target_label(session.target)),
                None => None,
            },
            Lines::Command => match self.app.exec_session {
                Some(session) => Some(exec_label(session.target)),
                None => None,
            },
        }
    }

    /// With the tail sticking to the newest line, or staying put.
    pub open spec fn follow_toggled(self) -> WorkspaceModel {
        let following = match self.app.logs {
            Some(session) => !session.following,
            None => true,
        };
        WorkspaceModel {
            app: match self.app.logs {
                Some(session) => AppModel { logs: Some(LogSessionModel { following, ..session }), ..self.app },
                None => self.app,
            },
            log_anchor: if following {
                None
            } else {
                self.log_anchor
            },
            ..self
        }
    }

    /// With the tail at the first line at or after a typed time.
    pub open spec fn jumped(self, typed: Seq<char>, now: SystemTime) -> WorkspaceModel {
        match self.app.logs {
            Some(session) => {
                let held = decimal(session.buffer.shown().len());
                match typed_time(typed, now) {
                    Err(error) => WorkspaceModel { log_notice: Some(time_error_text(error)), ..self },
                    Ok(at) => match session.buffer.sought(at) {
                        Some(index) => WorkspaceModel {
                            app: AppModel {
                                logs: Some(LogSessionModel { following: false, ..session }),
                                ..self.app
                            },
                            log_anchor: Some(index),
                            log_notice: Some(
                                "Jumped to "@ + time_text(at) + " — line "@ + decimal((index + 1) as nat) + " of "@
                                    + held,
                            ),
                            ..self
                        },
                        None => WorkspaceModel {
                            log_notice: Some(
                                "No line at or after "@ + time_text(at) + " in the "@ + held + " lines held"@,
                            ),
                            ..self
                        },
                    },
                }
            },
            None => self,
        }
    }

    /// With the tail's lines in the other order.
    pub open spec fn order_toggled(self) -> WorkspaceModel {
        match self.app.logs {
            Some(session) => WorkspaceModel {
                app: self.app.with_log_buffer(
                    LogModel {
                        order: if session.buffer.order == LogOrder::Timestamp {
                            LogOrder::Arrival
                        } else {
                            LogOrder::Timestamp
                        },
                        ..session.buffer
                    },
                ),
                log_anchor: None,
                ..self
            },
            None => self,
        }
    }

    // --- layout -----------------------------------------------------------------

    /// With two panes, or with one.
    pub open spec fn split_toggled(self, now: Instant) -> WorkspaceModel {
        let laid_out = self.with_app(
            if self.app.panes.len() > 1 {
                self.app.unsplit(now)
            } else {
                self.app.split(now)
            },
        );
        let connected = match laid_out.active() {
            Some(cluster) => laid_out.connecting(cluster),
            None => laid_out,
        };
        connected.on_opening_kind().ensured()
    }

    /// With the focused pane's cluster asked to connect again, and watched anew.
    pub open spec fn reconnecting(self) -> WorkspaceModel {
        match self.active() {
            Some(cluster) => (WorkspaceModel {
                attempted: self.attempted.insert(cluster),
                watching: self.watching.filter(watches_of_others(cluster)),
                ..self
            }).sending(CommandModel::Connect { cluster }),
            None => self,
        }
    }

    /// With the palette searched for what was typed into it.
    pub open spec fn with_query(self, query: Seq<char>) -> WorkspaceModel {
        WorkspaceModel { palette_matches: found_by(self.palette, query), palette_index: 0, ..self }
    }

    /// With the palette put away.
    pub open spec fn palette_closed(self) -> WorkspaceModel {
        WorkspaceModel { palette_open: false, palette_matches: seq![], ..self }
    }

    /// With the thing on top put away: what waits for an answer first, then
    /// menus, the palette, the command, the tail, and the detail pane last.
    pub open spec fn dismissed(self) -> WorkspaceModel {
        if self.pending is Some {
            WorkspaceModel { pending: None, ..self }
        } else if self.namespace_menu_open {
            WorkspaceModel { namespace_menu_open: false, ..self }
        } else if self.container_menu_open {
            WorkspaceModel { container_menu_open: false, ..self }
        } else if self.palette_open {
            self.palette_closed()
        } else if self.app.exec_session is Some {
            self.command_closed()
        } else if self.app.logs is Some {
            self.logs_closed()
        } else if self.app.detail is Some {
            WorkspaceModel { app: AppModel { detail: None, ..self.app }, yaml_showing: None, ..self }
        } else {
            self
        }
    }

    /// With a jump made.
    pub open spec fn jumping_to(self, target: TargetModel, now: Instant) -> WorkspaceModel {
        match target {
            TargetModel::Cluster(name) => self.on_cluster(name, now),
            TargetModel::Kind(kind) => self.on_kind(kind),
            TargetModel::Object { cluster, kind, key } => {
                let there = if self.active() != Some(cluster) {
                    self.on_cluster(cluster, now)
                } else {
                    self
                };
                if there.app.focused().kind == Some(kind) {
                    there.with_object(key)
                } else {
                    there.elsewhere(kind, key)
                }
            },
        }
    }

    /// With what the palette is on jumped to.
    pub open spec fn palette_confirmed(self, now: Instant) -> WorkspaceModel {
        if self.palette_open && self.palette_index < self.palette_matches.len() {
            self.palette_closed().jumping_to(
                self.palette_matches[self.palette_index as int].candidate.target,
                now,
            )
        } else {
            self
        }
    }

    // --- what is drawn ----------------------------------------------------------

    /// The object whose YAML is to be shown and is not yet.
    pub open spec fn unshown(self) -> Option<crate::objects::ObjectModel> {
        match self.app.detail {
            Some(DetailModel::Ready { object, .. }) => if self.yaml_showing != Some(object.key) {
                Some(object)
            } else {
                None
            },
            _ => None,
        }
    }

    /// With the YAML of the object in the detail pane shown, and its
    /// containers known; with neither, if no object is there.
    pub open spec fn yaml_synced(self, containers: Seq<ContainerModel>) -> WorkspaceModel {
        match self.app.detail {
            Some(DetailModel::Ready { object, .. }) => if self.yaml_showing != Some(object.key) {
                WorkspaceModel {
                    exec_containers: containers,
                    exec_container: None,
                    yaml_showing: Some(object.key),
                    ..self
                }
            } else {
                self
            },
            _ => if self.yaml_showing is Some {
                WorkspaceModel { yaml_showing: None, exec_containers: seq![], exec_container: None, ..self }
            } else {
                self
            },
        }
    }
}

// --- laws -----------------------------------------------------------------------

/// Putting something in front of somebody sends nothing, and neither does
/// taking it away.
pub proof fn proposals_send_nothing(workspace: WorkspaceModel, mutation: MutationModel, command: Seq<char>)
    ensures
        workspace.proposing(mutation).outbox == workspace.outbox,
        workspace.proposing_command(command).outbox == workspace.outbox,
        workspace.pending is Some ==> workspace.dismissed().outbox == workspace.outbox,
{
}

/// What is agreed to goes to the cluster the sentence named, whatever is on
/// screen by then, and is exactly what was proposed. Where that cluster may
/// not be changed or cannot be reached, nothing goes anywhere and the refusal
/// is on record.
pub proof fn agreement_is_to_what_was_said(workspace: WorkspaceModel, now: Instant)
    requires
        workspace.pending is Some,
    ensures
        ({
            let proposal = workspace.pending->0;
            let after = workspace.confirmed(now);
            let cluster = crate::proposal::proposal_cluster(proposal);
            &&& after.pending is None
            &&& workspace.app.refusal(cluster) is None ==> after.outbox == workspace.outbox.push(
                match proposal {
                    ProposalModel::Mutation { cluster, mutation } => CommandModel::Mutate { cluster, mutation },
                    ProposalModel::Command { cluster, target } => CommandModel::Exec { cluster, target },
                },
            ) && after.refused == workspace.refused
            &&& workspace.app.refusal(cluster) is Some ==> after.outbox == workspace.outbox && after.refused.len()
                == workspace.refused.len() + 1 && after.refused.last().cluster == cluster
        }),
{
}

/// A forward goes to a cluster exactly where a change to it would, and one that
/// is refused leaves nothing behind but the refusal.
pub proof fn forwards_pass_the_same_gate(workspace: WorkspaceModel, port: Seq<char>)
    requires
        workspace.active() is Some,
        workspace.app.detail is Some,
    ensures
        ({
            let cluster = workspace.active()->0;
            let after = workspace.forwarding(port);
            &&& workspace.app.refusal(cluster) is Some ==> after.outbox == workspace.outbox && after.app
                == workspace.app && after.refused.len() == workspace.refused.len() + 1 && after.refused.last().cluster
                == cluster && after.last_error == Some(refusal_reason(workspace.app.refusal(cluster)->0))
            &&& workspace.app.refusal(cluster) is None && port_typed(port) is Some ==> after.outbox.len()
                == workspace.outbox.len() + 1 && after.refused == workspace.refused
        }),
{
}

/// A cluster is asked to connect once, however often that is wanted, and a kind
/// that is watched already is not asked for again.
pub proof fn nothing_is_asked_for_twice(
    workspace: WorkspaceModel,
    cluster: Seq<char>,
    target: (Seq<char>, KindModel, FiltersModel),
)
    requires
        crate::keyed::ascending::<(ClusterId, KindId), WatchFilters>(workspace.watching),
    ensures
        workspace.connecting(cluster).connecting(cluster) == workspace.connecting(cluster),
        workspace.watching_one(target).watching_one(target) == workspace.watching_one(target),
{
    let (c, k, filters) = target;
    crate::keyed::lookup_after_put::<(ClusterId, KindId), WatchFilters>(
        workspace.watching,
        (c, k),
        (filters.namespace, filters.selector),
        (c, k),
    );
}

/// Opening an object never asks for its hidden values; asking for them is an
/// act of its own.
pub proof fn opening_keeps_secrets(workspace: WorkspaceModel, key: KeyModel)
    requires
        workspace.active() is Some,
        workspace.app.focused().kind is Some,
    ensures
        workspace.with_object(key).outbox == workspace.outbox.push(
            CommandModel::FetchObject {
                cluster: workspace.active()->0,
                kind: workspace.app.focused().kind->0,
                key,
                reveal: false,
            },
        ),
        workspace.with_object(key).detail_tab == DetailTab::Yaml,
        workspace.with_object(key).exec_container is None,
        workspace.with_object(key).exec_containers.len() == 0,
{
}

/// One press of escape puts one thing away, and what waits for an answer goes
/// before anything that is sent somewhere.
pub proof fn escape_closes_one_thing(workspace: WorkspaceModel)
    ensures
        workspace.pending is Some ==> workspace.dismissed() == (WorkspaceModel { pending: None, ..workspace }),
        workspace.pending is None && workspace.palette_open && !workspace.namespace_menu_open
            && !workspace.container_menu_open ==> workspace.dismissed().app == workspace.app,
        workspace.dismissed().app.detail != workspace.app.detail ==> workspace.app.logs is None
            && workspace.app.exec_session is None && !workspace.palette_open,
{
}

/// A jump that finds nothing leaves the tail where it was, and following if it did.
pub proof fn a_failed_jump_moves_nothing(workspace: WorkspaceModel, typed_text: Seq<char>, now: SystemTime)
    requires
        workspace.app.logs is Some,
        match typed_time(typed_text, now) {
            Ok(at) => (workspace.app.logs->0).buffer.sought(at) is None,
            Err(_) => true,
        },
    ensures
        workspace.jumped(typed_text, now).app == workspace.app,
        workspace.jumped(typed_text, now).log_anchor == workspace.log_anchor,
        workspace.jumped(typed_text, now).log_notice is Some,
{
}

/// Letting a cluster go stops its watches and no others.
pub proof fn letting_go_stops_its_watches(
    workspace: WorkspaceModel,
    cluster: Seq<char>,
    watch: ((Seq<char>, KindModel), WatchFilters),
)
    ensures
        workspace.letting_go(cluster).watching.contains(watch) <==> workspace.watching.contains(watch) && (watch.0).0
            != cluster,
{
    crate::seqs::filter_contains(workspace.watching, watches_of_others(cluster), watch);
}

/// A cluster that was let go keeps its connection: what is known of it stays,
/// and going back to it asks for no other.
pub proof fn letting_go_keeps_the_connection(workspace: WorkspaceModel, cluster: Seq<char>)
    requires
        workspace.attempted.contains(cluster),
    ensures
        workspace.letting_go(cluster).app.connections == workspace.app.connections,
        workspace.letting_go(cluster).connecting(cluster) == workspace.letting_go(cluster),
{
}

/// Appearances go round: after three steps the first is back, and no step stays
/// where it is.
pub proof fn appearances_go_round(theme: ThemeChoice)
    ensures
        next_theme(next_theme(next_theme(theme))) == theme,
        next_theme(theme) != theme,
        next_theme(ThemeChoice::System) == ThemeChoice::Light,
{
}

/// A flush is counted with all it held, all it folded and all it lost.
pub proof fn a_flush_is_counted(stats: BridgeStats, flush: FlushStats)
    requires
        flush_fits(stats, flush),
    ensures
        flushed(stats, flush).flushes == stats.flushes + 1,
        flushed(stats, flush).applied == stats.applied + flush.applied,
        flushed(stats, flush).collapsed == stats.collapsed + flush.collapsed,
        flushed(stats, flush).dropped == stats.dropped + flush.dropped,
{
}

} // verus!

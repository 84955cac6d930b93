//! What a console shows, in words and lists, for whoever draws it.

use crate::app::{broken_entry, AppState, ExecSession, LogSession, Pane};
use crate::catalog::{category_title, is_sections, recent, recent_kinds, sections, Category, CategoryModel};
use crate::console::{pod_kind, BridgeStats, Lines, WorkspaceModel};
use crate::keyed::lookup;
use crate::logs::{streaming_sources, LogBuffer, LogModel, LogOrder};
use crate::logview::{wrap_start, wrap_window};
use crate::model::{
    all_held_rows, counted, detail_key, detail_kind, ActivityModel, AppModel, Detail, DetailModel, ExecSessionModel,
    PaneModel,
};
use crate::mutation::{mutation_key, mutation_verb, outcome_message};
use crate::objects::{
    cell_at, key_text, kind_label, ClusterId, ContainerModel, ContextInfo, ContextModel, EventLine, EventLineModel,
    KeyModel, KindId, KindInfo, KindInfoModel, KindModel, ObjectDetail, OwnerModel, OwnerRef, PodContainer,
    ResourceKey, ResourceRow, RowModel,
};
use crate::proposal::{proposal_cluster, Proposal, ProposalModel};
use crate::remembered::UiModel;
use crate::seqs::{count, filter_first, filter_prefix, filter_push};
use crate::sessions::{
    connection_detail, connection_label, connection_problem, connection_usable, exec_problem, forward_address,
    forward_detail, forward_problem, forward_summary, ConnectionState, ConnectionStateModel, ForwardInfo,
    ForwardInfoModel, LogSelector,
};
use crate::text::{
    contains, decimal, holds, is_text, joined, lowercase, text_of, to_decimal, to_lowercase, trim, trimmed,
};
use crate::value::Value;
use crate::wording::{empty_message, empty_text, kind_wanted, matches_filter, owner_kind, owner_kind_of};
use crate::workspace::{of_key, Workspace};
use std::sync::Arc;
use vstd::prelude::*;

verus! {

// --- the header -----------------------------------------------------------------

/// What stands beside the cluster's name.
pub open spec fn subtitle_text(pane: PaneModel) -> Seq<char> {
    match (pane.cluster, pane.kind) {
        (Some(_), Some(kind)) => kind_label(kind),
        (Some(_), None) => "no kind selected"@,
        _ => "no cluster selected"@,
    }
}

/// What the button of the forwards says, where there are any.
pub open spec fn forwards_text(open: nat, broken: nat) -> Option<Seq<char>> {
    if open == 0 {
        None
    } else if broken > 0 {
        Some("Forwards "@ + decimal(open) + " ⚠"@)
    } else {
        Some("Forwards "@ + decimal(open))
    }
}

/// What stands beside the cluster's name: the kind on screen.
pub fn subtitle(state: &AppState) -> (text: String)
    requires
        state.wf(),
    ensures
        text@ == subtitle_text(state@.focused()),
{
    match (state.active(), state.kind()) {
        (Some(_), Some(kind)) => kind.label(),
        (Some(_), None) => "no kind selected".to_owned(),
        _ => "no cluster selected".to_owned(),
    }
}

/// Whether the cluster on screen refuses changes.
pub fn is_read_only(state: &AppState) -> (read_only: bool)
    requires
        state.wf(),
    ensures
        read_only == (match state@.focused().cluster {
            Some(cluster) => !state@.permissions.may_mutate(cluster),
            None => false,
        }),
{
    match state.active() {
        Some(cluster) => !state.may_mutate(cluster),
        None => false,
    }
}

/// What the button of the forwards says, where there are any.
pub fn forwards_label(state: &AppState) -> (label: Option<String>)
    ensures
        label.deep_view() == forwards_text(state@.forwards.len(), count(state@.forwards, broken_entry())),
{
    let open: usize = state.forward_count();
    if open == 0 {
        return None;
    }
    let counted_text: String = joined("Forwards ".to_owned(), to_decimal(open as u64).as_str());
    if state.broken_forwards() > 0 {
        Some(joined(counted_text, " ⚠"))
    } else {
        Some(counted_text)
    }
}

// --- the sidebar ----------------------------------------------------------------

/// A context in the sidebar.
#[derive(Clone, Debug, PartialEq, Eq)]
pub struct ContextRow {
    /// Its name.
    pub name: String,
    /// Whether the focused pane shows it.
    pub selected: bool,
    /// Whether another pane does.
    pub elsewhere: bool,
    /// How its connection is doing.
    pub state: ConnectionState,
}

/// What a [`ContextRow`] holds.
pub struct ContextRowModel {
    /// Its name.
    pub name: Seq<char>,
    /// Whether the focused pane shows it.
    pub selected: bool,
    /// Whether another pane does.
    pub elsewhere: bool,
    /// How its connection is doing.
    pub state: ConnectionStateModel,
}

impl DeepView for ContextRow {
    type V = ContextRowModel;

    open spec fn deep_view(&self) -> ContextRowModel {
        ContextRowModel {
            name: self.name.deep_view(),
            selected: self.selected.deep_view(),
            elsewhere: self.elsewhere.deep_view(),
            state: self.state.deep_view(),
        }
    }
}

/// How a cluster's connection is doing; idle, if nothing is known of it.
pub open spec fn state_of(app: AppModel, cluster: Seq<char>) -> ConnectionStateModel {
    match lookup(app.connections, cluster) {
        Some(connection) => connection.state,
        None => ConnectionStateModel::Idle,
    }
}

/// Whether a pane without the focus shows a cluster.
pub open spec fn shown_elsewhere(app: AppModel, cluster: Seq<char>) -> bool {
    exists|i: int|
        0 <= i < app.panes.len() && i != app.focus && (#[trigger] app.panes[i]).cluster == Some(cluster)
}

/// A context in the sidebar.
pub open spec fn context_row(app: AppModel, context: ContextModel) -> ContextRowModel {
    ContextRowModel {
        name: context.name,
        selected: app.focused().cluster == Some(context.name),
        elsewhere: shown_elsewhere(app, context.name),
        state: state_of(app, context.name),
    }
}

fn is_shown_elsewhere(state: &AppState, cluster: &ClusterId) -> (elsewhere: bool)
    ensures
        elsewhere == shown_elsewhere(state@, cluster.deep_view()),
{
    let panes: &Vec<Pane> = state.panes();
    let ghost all = panes.deep_view();
    let focus: usize = state.focus();
    let mut at: usize = 0;
    while at < panes.len()
        invariant
            at <= panes.len(),
            all == panes.deep_view(),
            all == state@.panes,
            focus == state@.focus,
            forall|i: int|
                0 <= i < at && i != focus ==> (#[trigger] all[i]).cluster != Some(cluster.deep_view()),
        decreases panes.len() - at,
    {
        assert(all[at as int] == panes[at as int].deep_view());
        if at != focus {
            if let Some(shown) = panes[at].cluster() {
                if shown.same(cluster) {
                    return true;
                }
            }
        }
        at += 1;
    }
    false
}

/// The contexts, as the sidebar lists them.
pub fn context_rows(state: &AppState) -> (rows: Vec<ContextRow>)
    requires
        state.wf(),
    ensures
        rows.deep_view() == state@.contexts.map_values(|context: ContextModel| context_row(state@, context)),
{
    let contexts: &Vec<ContextInfo> = state.contexts();
    let ghost all = contexts.deep_view();
    let ghost wanted = all.map_values(|context: ContextModel| context_row(state@, context));
    let mut rows: Vec<ContextRow> = Vec::new();
    let mut at: usize = 0;
    assert(rows.deep_view() =~= wanted.take(0));
    while at < contexts.len()
        invariant
            at <= contexts.len(),
            state.wf(),
            all == contexts.deep_view(),
            wanted == all.map_values(|context: ContextModel| context_row(state@, context)),
            rows.deep_view() == wanted.take(at as int),
        decreases contexts.len() - at,
    {
        let ghost before = rows.deep_view();
        let id: ClusterId = ClusterId::new(contexts[at].name.as_str());
        assert(id.deep_view() == all[at as int].name);
        let selected: bool = match state.active() {
            Some(active) => active.same(&id),
            None => false,
        };
        let row: ContextRow = ContextRow {
            name: contexts[at].name.clone(),
            selected,
            elsewhere: is_shown_elsewhere(state, &id),
            state: match state.connection(&id) {
                Some(connection) => connection.state.dup(),
                None => ConnectionState::Idle,
            },
        };
        assert(row.deep_view() == wanted[at as int]);
        rows.push(row);
        assert(rows.deep_view() =~= before.push(wanted[at as int]));
        assert(wanted.take(at + 1) =~= before.push(wanted[at as int]));
        at += 1;
    }
    assert(wanted.take(at as int) =~= wanted);
    rows
}

/// A line of the sidebar, below the contexts.
#[derive(Clone, Debug, PartialEq, Eq)]
pub enum SidebarRow {
    /// The heading of a section.
    Heading {
        /// What it says.
        title: String,
        /// Whether the section is open.
        open: bool,
        /// Whether it would be, if nothing forced it.
        by_choice: bool,
        /// How many kinds it has.
        count: usize,
    },
    /// A kind.
    Kind {
        /// Which one.
        kind: KindId,
        /// Whether it is listed as recently opened.
        recent: bool,
        /// What it says.
        label: String,
        /// Whether it is the one on screen.
        selected: bool,
        /// How many of its rows are held.
        rows: usize,
        /// Whether it is custom.
        custom: bool,
    },
}

/// What a [`SidebarRow`] holds.
pub enum SidebarRowModel {
    /// The heading of a section.
    Heading {
        /// What it says.
        title: Seq<char>,
        /// Whether the section is open.
        open: bool,
        /// Whether it would be, if nothing forced it.
        by_choice: bool,
        /// How many kinds it has.
        count: usize,
    },
    /// A kind.
    Kind {
        /// Which one.
        kind: KindModel,
        /// Whether it is listed as recently opened.
        recent: bool,
        /// What it says.
        label: Seq<char>,
        /// Whether it is the one on screen.
        selected: bool,
        /// How many of its rows are held.
        rows: usize,
        /// Whether it is custom.
        custom: bool,
    },
}

impl DeepView for SidebarRow {
    type V = SidebarRowModel;

    open spec fn deep_view(&self) -> SidebarRowModel {
        match self {
            SidebarRow::Heading { title, open, by_choice, count } => SidebarRowModel::Heading {
                title: title.deep_view(),
                open: open.deep_view(),
                by_choice: by_choice.deep_view(),
                count: count.deep_view(),
            },
            SidebarRow::Kind { kind, recent, label, selected, rows, custom } => SidebarRowModel::Kind {
                kind: kind.deep_view(),
                recent: recent.deep_view(),
                label: label.deep_view(),
                selected: selected.deep_view(),
                rows: rows.deep_view(),
                custom: custom.deep_view(),
            },
        }
    }
}

/// What the sidebar's filter box asks for.
pub open spec fn kind_query(text: Seq<char>) -> Seq<char> {
    lowercase(trimmed(text))
}

/// Picks the kinds a filter asks for.
pub open spec fn wanted_kinds(query: Seq<char>) -> spec_fn(KindInfoModel) -> bool {
    |info: KindInfoModel| kind_wanted(info.id, query)
}

/// How many rows of a kind are held for the cluster on screen.
pub open spec fn rows_held(app: AppModel, kind: KindModel) -> usize {
    match app.focused().cluster {
        Some(cluster) => app.table(cluster, kind).rows.len() as usize,
        None => 0,
    }
}

/// A kind in the sidebar. Under the recently opened ones it has its group,
/// which is the heading's business elsewhere.
pub open spec fn kind_row(app: AppModel, info: KindInfoModel, among_recent: bool) -> SidebarRowModel {
    SidebarRowModel::Kind {
        kind: info.id,
        recent: among_recent,
        label: if among_recent {
            kind_label(info.id)
        } else {
            info.id.plural
        },
        selected: app.focused().kind == Some(info.id),
        rows: rows_held(app, info.id),
        custom: info.custom,
    }
}

/// Whether the kind on screen is one of some.
pub open spec fn holds_selection(app: AppModel, kinds: Seq<KindInfoModel>) -> bool {
    exists|i: int| 0 <= i < kinds.len() && app.focused().kind == Some((#[trigger] kinds[i]).id)
}

/// A section: its heading, and its kinds if it is open. A filter opens it, and
/// so does holding what is on screen. A section that a filter leaves nothing
/// of is not there.
pub open spec fn section_rows(
    app: AppModel,
    title: Seq<char>,
    kinds: Seq<KindInfoModel>,
    query: Seq<char>,
    by_choice: bool,
    among_recent: bool,
) -> Seq<SidebarRowModel> {
    let shown = kinds.filter(wanted_kinds(query));
    let open = query.len() > 0 || (!among_recent && holds_selection(app, shown)) || by_choice;
    if shown.len() == 0 {
        seq![]
    } else {
        let heading = seq![
            SidebarRowModel::Heading { title, open, by_choice, count: shown.len() as usize },
        ];
        if open {
            heading + shown.map_values(|info: KindInfoModel| kind_row(app, info, among_recent))
        } else {
            heading
        }
    }
}

/// Sections, one below the other.
pub open spec fn all_section_rows(
    app: AppModel,
    remembered: UiModel,
    found: Seq<(CategoryModel, Seq<KindInfoModel>)>,
    query: Seq<char>,
) -> Seq<SidebarRowModel>
    decreases found.len(),
{
    if found.len() == 0 {
        seq![]
    } else {
        let (category, kinds) = found.last();
        let title = category_title(category);
        all_section_rows(app, remembered, found.drop_last(), query) + section_rows(
            app,
            title,
            kinds,
            query,
            remembered.is_open(title, category == CategoryModel::Workloads),
            false,
        )
    }
}

/// The kinds that were opened recently on the cluster on screen.
pub open spec fn recently_opened(app: AppModel, remembered: UiModel) -> Seq<KindInfoModel> {
    match app.focused().cluster {
        Some(cluster) => recent_kinds(app.kinds_of(Some(cluster)), remembered.visits_to(cluster)),
        None => seq![],
    }
}

/// The sidebar below the contexts: what was opened recently, then the sections.
pub open spec fn sidebar_rows(
    app: AppModel,
    remembered: UiModel,
    found: Seq<(CategoryModel, Seq<KindInfoModel>)>,
    text: Seq<char>,
) -> Seq<SidebarRowModel> {
    let query = kind_query(text);
    section_rows(
        app,
        "RECENT"@,
        recently_opened(app, remembered),
        query,
        remembered.is_open("RECENT"@, true),
        true,
    ) + all_section_rows(app, remembered, found, query)
}

/// What is said where the sidebar lists nothing.
pub open spec fn sidebar_note(app: AppModel) -> Seq<char> {
    if app.kinds_of(app.focused().cluster).len() == 0 {
        "connect to discover kinds"@
    } else {
        "no kind matches that filter"@
    }
}

/// Whether a heading's section is open: what somebody decided, or its default.
pub fn heading_is_open(workspace: &Workspace, heading: &str, by_default: bool) -> (open: bool)
    requires
        workspace.wf(),
    ensures
        open == workspace@.remembered.is_open(heading@, by_default),
{
    match workspace.remembered().section(&heading.to_owned()) {
        Some(open) => open,
        None => by_default,
    }
}

/// Whether a category's section is open.
pub fn section_is_open(workspace: &Workspace, category: &Category) -> (open: bool)
    requires
        workspace.wf(),
    ensures
        open == workspace@.remembered.is_open(
            category_title(category.deep_view()),
            category.deep_view() == CategoryModel::Workloads,
        ),
{
    heading_is_open(workspace, category.title().as_str(), category.open_by_default())
}

/// The kinds that were opened recently on the cluster on screen.
pub fn recent_on_screen(workspace: &Workspace) -> (kinds: Vec<KindInfo>)
    requires
        workspace.wf(),
    ensures
        kinds.deep_view() == recently_opened(workspace@.app, workspace@.remembered),
{
    let state: &AppState = workspace.state();
    match state.active() {
        Some(cluster) => {
            let visits: Vec<String> = workspace.remembered().recent_kinds(&cluster.name);
            recent(&state.kinds_of(Some(cluster)), &visits)
        },
        None => {
            let none: Vec<KindInfo> = Vec::new();
            assert(none.deep_view() =~= seq![]);
            none
        },
    }
}

fn wanted_of(kinds: &Vec<KindInfo>, query: &str) -> (shown: Vec<KindInfo>)
    ensures
        shown.deep_view() == kinds.deep_view().filter(wanted_kinds(query@)),
{
    let ghost all = kinds.deep_view();
    let ghost keep = wanted_kinds(query@);
    let mut shown: Vec<KindInfo> = Vec::new();
    let mut at: usize = 0;
    assert(all.take(0) =~= seq![]);
    assert(shown.deep_view() =~= all.take(0).filter(keep)) by {
        reveal(Seq::filter);
    }
    while at < kinds.len()
        invariant
            at <= kinds.len(),
            all == kinds.deep_view(),
            keep == wanted_kinds(query@),
            shown.deep_view() == all.take(at as int).filter(keep),
        decreases kinds.len() - at,
    {
        let ghost before = shown.deep_view();
        proof {
            filter_push(all.take(at as int), all[at as int], keep);
            assert(all.take(at + 1) =~= all.take(at as int).push(all[at as int]));
        }
        if matches_filter(&kinds[at], query) {
            shown.push(kinds[at].dup());
            assert(shown.deep_view() =~= before.push(all[at as int]));
        }
        at += 1;
    }
    assert(all.take(at as int) =~= all);
    shown
}

fn selection_is_among(state: &AppState, kinds: &Vec<KindInfo>) -> (among: bool)
    requires
        state.wf(),
    ensures
        among == holds_selection(state@, kinds.deep_view()),
{
    let ghost all = kinds.deep_view();
    let selected: &KindId = match state.kind() {
        Some(kind) => kind,
        None => return false,
    };
    let mut at: usize = 0;
    while at < kinds.len()
        invariant
            at <= kinds.len(),
            all == kinds.deep_view(),
            state@.focused().kind == Some(selected.deep_view()),
            forall|i: int| 0 <= i < at ==> (#[trigger] all[i]).id != selected.deep_view(),
        decreases kinds.len() - at,
    {
        assert(all[at as int] == kinds[at as int].deep_view());
        if kinds[at].id.same(selected) {
            return true;
        }
        at += 1;
    }
    false
}

fn push_section(
    rows: &mut Vec<SidebarRow>,
    state: &AppState,
    title: String,
    kinds: &Vec<KindInfo>,
    query: &str,
    by_choice: bool,
    among_recent: bool,
)
    requires
        state.wf(),
    ensures
        final(rows).deep_view() == old(rows).deep_view() + section_rows(
            state@,
            title@,
            kinds.deep_view(),
            query@,
            by_choice,
            among_recent,
        ),
{
    let ghost before = rows.deep_view();
    let ghost app = state@;
    let shown: Vec<KindInfo> = wanted_of(kinds, query);
    let ghost all = shown.deep_view();
    if shown.len() == 0 {
        assert(all.len() == 0);
        assert(before + seq![] =~= before);
        return;
    }
    let open: bool = !query.is_empty() || (!among_recent && selection_is_among(state, &shown)) || by_choice;
    rows.push(SidebarRow::Heading { title, open, by_choice, count: shown.len() });
    let ghost heading = SidebarRowModel::Heading { title: title@, open, by_choice, count: all.len() as usize };
    assert(rows.deep_view() =~= before.push(heading));
    if !open {
        assert(before + seq![heading] =~= before.push(heading));
        return;
    }
    let ghost wanted = all.map_values(|info: KindInfoModel| kind_row(app, info, among_recent));
    let mut at: usize = 0;
    assert(rows.deep_view() =~= before + (seq![heading] + wanted.take(0)));
    while at < shown.len()
        invariant
            at <= shown.len(),
            state.wf(),
            app == state@,
            all == shown.deep_view(),
            wanted == all.map_values(|info: KindInfoModel| kind_row(app, info, among_recent)),
            rows.deep_view() == before + (seq![heading] + wanted.take(at as int)),
        decreases shown.len() - at,
    {
        let ghost so_far = rows.deep_view();
        let info: &KindInfo = &shown[at];
        let selected: bool = match state.kind() {
            Some(kind) => kind.same(&info.id),
            None => false,
        };
        let row: SidebarRow = SidebarRow::Kind {
            kind: info.id.dup(),
            recent: among_recent,
            label: if among_recent {
                info.id.label()
            } else {
                info.id.plural.clone()
            },
            selected,
            rows: state.row_count(&info.id),
            custom: info.custom,
        };
        assert(row.deep_view() == wanted[at as int]);
        rows.push(row);
        assert(rows.deep_view() =~= so_far.push(wanted[at as int]));
        assert(before + (seq![heading] + wanted.take(at + 1)) =~= so_far.push(wanted[at as int]));
        at += 1;
    }
    assert(wanted.take(at as int) =~= wanted);
}

/// The sidebar below the contexts, narrowed by what its filter box says.
pub fn sidebar(workspace: &Workspace, text: &str) -> (rows: Vec<SidebarRow>)
    requires
        workspace.wf(),
    ensures
        exists|found: Seq<(CategoryModel, Seq<KindInfoModel>)>| #[trigger]
            is_sections(workspace@.app.kinds_of(workspace@.app.focused().cluster), found) && rows.deep_view()
                == sidebar_rows(workspace@.app, workspace@.remembered, found, text@),
{
    let state: &AppState = workspace.state();
    let query: String = to_lowercase(text_of(trim(text).as_slice()).as_str());
    let mut rows: Vec<SidebarRow> = Vec::new();
    let ghost app = workspace@.app;
    let ghost remembered = workspace@.remembered;
    let by_choice: bool = heading_is_open(workspace, "RECENT", true);
    push_section(
        &mut rows,
        state,
        "RECENT".to_owned(),
        &recent_on_screen(workspace),
        query.as_str(),
        by_choice,
        true,
    );
    let ghost first = rows.deep_view();
    assert(first =~= section_rows(
        app,
        "RECENT"@,
        recently_opened(app, remembered),
        query@,
        remembered.is_open("RECENT"@, true),
        true,
    ));

    let found: Vec<(Category, Vec<KindInfo>)> = sections(&state.kinds());
    let ghost all = found.deep_view();
    let mut at: usize = 0;
    assert(rows.deep_view() =~= first + all_section_rows(app, remembered, all.take(0), query@));
    while at < found.len()
        invariant
            at <= found.len(),
            workspace.wf(),
            state.wf(),
            state@ == app,
            app == workspace@.app,
            remembered == workspace@.remembered,
            all == found.deep_view(),
            rows.deep_view() == first + all_section_rows(app, remembered, all.take(at as int), query@),
        decreases found.len() - at,
    {
        assert(all.take(at + 1).drop_last() =~= all.take(at as int));
        assert(all.take(at + 1).last() == all[at as int]);
        let section: &(Category, Vec<KindInfo>) = &found[at];
        let open: bool = section_is_open(workspace, &section.0);
        push_section(&mut rows, state, section.0.title(), &section.1, query.as_str(), open, false);
        assert(rows.deep_view() =~= first + all_section_rows(app, remembered, all.take(at + 1), query@));
        at += 1;
    }
    assert(all.take(at as int) =~= all);
    assert(is_sections(app.kinds_of(app.focused().cluster), all));
    rows
}

/// What is said where the sidebar lists nothing.
pub fn sidebar_nothing(state: &AppState) -> (note: &'static str)
    requires
        state.wf(),
    ensures
        note@ == sidebar_note(state@),
{
    if state.kinds().len() == 0 {
        "connect to discover kinds"
    } else {
        "no kind matches that filter"
    }
}

// --- the toolbar ----------------------------------------------------------------

/// What the button of the namespaces says.
pub open spec fn namespace_text(namespace: Option<Seq<char>>) -> Seq<char> {
    match namespace {
        Some(namespace) => namespace + "  ▾"@,
        None => "All namespaces  ▾"@,
    }
}

/// How many rows are shown, and how many there are if that is not all.
pub open spec fn shown_text(total: nat, shown: nat, namespaces: nat) -> Seq<char> {
    if total == shown {
        decimal(total) + " shown · "@ + decimal(namespaces) + " namespaces"@
    } else {
        decimal(shown) + " of "@ + decimal(total) + " shown · "@ + decimal(namespaces) + " namespaces"@
    }
}

/// What the button of the namespaces says.
pub fn namespace_label(state: &AppState) -> (label: String)
    requires
        state.wf(),
    ensures
        label@ == namespace_text(state@.focused().filters.namespace),
{
    match &state.filters().namespace {
        Some(namespace) => joined(namespace.clone(), "  ▾"),
        None => "All namespaces  ▾".to_owned(),
    }
}

/// How many rows are shown, of how many and in how many namespaces.
pub fn shown_label(total: usize, shown: usize, namespaces: usize) -> (label: String)
    ensures
        label@ == shown_text(total as nat, shown as nat, namespaces as nat),
{
    let counts: String = if total == shown {
        to_decimal(total as u64)
    } else {
        joined(joined(to_decimal(shown as u64), " of "), to_decimal(total as u64).as_str())
    };
    joined(
        joined(joined(counts, " shown · "), to_decimal(namespaces as u64).as_str()),
        " namespaces",
    )
}

// --- the banner and the footer --------------------------------------------------

/// What is wrong, and whether connecting again could mend it: an error of its
/// own first, then the kubeconfig, then the connection on screen.
pub open spec fn banner_text(workspace: WorkspaceModel) -> Option<(Seq<char>, bool)> {
    let app = workspace.app;
    if workspace.last_error is Some {
        Some((workspace.last_error->0, false))
    } else if app.config_error is Some {
        Some(("kubeconfig: "@ + app.config_error->0, false))
    } else {
        match app.focused().cluster {
            Some(cluster) => match lookup(app.connections, cluster) {
                Some(connection) => if connection_problem(connection.state) {
                    let detail = match connection_detail(connection.state) {
                        Some(detail) => detail,
                        None => "no detail available"@,
                    };
                    Some((cluster + ": "@ + connection_label(connection.state) + " — "@ + detail, true))
                } else {
                    None
                },
                None => None,
            },
            None => None,
        }
    }
}

/// What is wrong, and whether connecting again could mend it.
pub fn banner(workspace: &Workspace) -> (banner: Option<(String, bool)>)
    requires
        workspace.wf(),
    ensures
        banner.deep_view() == banner_text(workspace@),
{
    if let Some(error) = workspace.last_error() {
        return Some((error.clone(), false));
    }
    let state: &AppState = workspace.state();
    if let Some(error) = state.config_error() {
        return Some((joined("kubeconfig: ".to_owned(), error), false));
    }
    let cluster: &ClusterId = match state.active() {
        Some(cluster) => cluster,
        None => return None,
    };
    match state.connection(cluster) {
        Some(connection) => {
            if !connection.state.is_problem() {
                return None;
            }
            let detail: &str = match connection.state.detail() {
                Some(detail) => detail,
                None => "no detail available",
            };
            let named: String = joined(joined(cluster.name.clone(), ": "), connection.state.label());
            Some((joined(joined(named, " — "), detail), true))
        },
        None => None,
    }
}

/// What was done last.
pub open spec fn activity_text(activity: ActivityModel) -> Seq<char> {
    mutation_verb(activity.mutation) + " "@ + key_text(mutation_key(activity.mutation)) + " · "@ + outcome_message(
        activity.outcome,
    )
}

/// What was done last, and whether it went wrong.
pub fn activity_line(state: &AppState) -> (line: Option<(String, bool)>)
    ensures
        line.deep_view() == (if state@.activity.len() > 0 {
            Some((activity_text(state@.activity[0]), !(state@.activity[0].outcome is Applied)))
        } else {
            None
        }),
{
    match state.last_activity() {
        Some(activity) => {
            let done: String = joined(activity.mutation.verb().to_owned(), " ");
            let named: String = joined(joined(done, activity.mutation.key().to_text().as_str()), " · ");
            let told: String = joined(named, activity.outcome.message().as_str());
            Some((told, activity.outcome.is_problem()))
        },
        None => None,
    }
}

/// Picks the contexts whose clusters can be reached.
pub open spec fn reachable(app: AppModel) -> spec_fn(ContextModel) -> bool {
    |context: ContextModel| connection_usable(state_of(app, context.name))
}

/// How many clusters are connected.
pub fn connected_clusters(state: &AppState) -> (connected: usize)
    requires
        state.wf(),
    ensures
        connected == count(state@.contexts, reachable(state@)),
{
    let contexts: &Vec<ContextInfo> = state.contexts();
    let ghost all = contexts.deep_view();
    let ghost wanted = reachable(state@);
    let mut connected: usize = 0;
    let mut at: usize = 0;
    assert(all.take(0) =~= seq![]);
    assert(all.take(0).filter(wanted).len() == 0) by {
        reveal(Seq::filter);
    }
    while at < contexts.len()
        invariant
            at <= contexts.len(),
            state.wf(),
            all == contexts.deep_view(),
            wanted == reachable(state@),
            connected <= at,
            connected == count(all.take(at as int), wanted),
        decreases contexts.len() - at,
    {
        proof {
            filter_push(all.take(at as int), all[at as int], wanted);
            assert(all.take(at + 1) =~= all.take(at as int).push(all[at as int]));
        }
        let id: ClusterId = ClusterId::new(contexts[at].name.as_str());
        assert(id.deep_view() == all[at as int].name);
        let usable: bool = match state.connection(&id) {
            Some(connection) => connection.state.is_usable(),
            None => false,
        };
        if usable {
            connected += 1;
        }
        at += 1;
    }
    assert(all.take(at as int) =~= all);
    connected
}

/// What the footer says about what is held: the kinds, the clusters if there is
/// more than one, the rows, and what was lost.
pub open spec fn held_text(app: AppModel) -> Seq<Seq<char>> {
    let kinds = seq![decimal(app.kinds_of(app.focused().cluster).len()) + " kinds"@];
    let connected = count(app.contexts, reachable(app));
    let warm = if connected > 1 {
        seq!["· "@ + decimal(connected) + " clusters warm"@]
    } else {
        seq![]
    };
    let rows = seq!["· "@ + decimal(counted(all_held_rows(app.tables)) as nat) + " rows held"@];
    let lost = match app.focused().cluster {
        Some(cluster) => match lookup(app.connections, cluster) {
            Some(connection) => connection.dropped_events,
            None => 0,
        },
        None => 0,
    };
    let stale = if lost > 0 {
        seq!["· "@ + decimal(lost as nat) + " events dropped"@]
    } else {
        seq![]
    };
    kinds + warm + rows + stale
}

/// What the footer says about what is held.
pub fn held_lines(state: &AppState) -> (lines: Vec<String>)
    requires
        state.wf(),
    ensures
        lines.deep_view() == held_text(state@),
{
    let mut lines: Vec<String> = Vec::new();
    let kinds: Arc<Vec<KindInfo>> = state.kinds();
    assert(kinds.deep_view().len() == kinds.len());
    lines.push(joined(to_decimal(kinds.len() as u64), " kinds"));
    let connected: usize = connected_clusters(state);
    if connected > 1 {
        lines.push(joined(joined("· ".to_owned(), to_decimal(connected as u64).as_str()), " clusters warm"));
    }
    lines.push(joined(joined("· ".to_owned(), to_decimal(state.total_rows() as u64).as_str()), " rows held"));
    let lost: usize = match state.active_connection() {
        Some(connection) => connection.dropped_events,
        None => 0,
    };
    if lost > 0 {
        lines.push(joined(joined("· ".to_owned(), to_decimal(lost as u64).as_str()), " events dropped"));
    }
    assert(lines.deep_view() =~= held_text(state@));
    lines
}

/// What the footer says about the event pump.
pub open spec fn stats_text(stats: BridgeStats) -> Seq<char> {
    "flushes "@ + decimal(stats.flushes as nat) + " · coalesced "@ + decimal(stats.collapsed as nat) + " · dropped "@
        + decimal(stats.dropped as nat)
}

/// What the footer says about the event pump.
pub fn stats_line(stats: BridgeStats) -> (line: String)
    ensures
        line@ == stats_text(stats),
{
    let flushes: String = joined("flushes ".to_owned(), to_decimal(stats.flushes).as_str());
    let collapsed: String = joined(joined(flushes, " · coalesced "), to_decimal(stats.collapsed).as_str());
    joined(joined(collapsed, " · dropped "), to_decimal(stats.dropped).as_str())
}

// --- panes ----------------------------------------------------------------------

/// What a pane says in place of rows.
pub open spec fn pane_text(app: AppModel, pane: PaneModel) -> Seq<char> {
    empty_text(
        pane.unavailable,
        pane.kind,
        match pane.cluster {
            Some(cluster) => match lookup(app.connections, cluster) {
                Some(connection) => Some(connection.state),
                None => None,
            },
            None => None,
        },
    )
}

/// What a pane says in place of rows.
pub fn pane_message(state: &AppState, pane: &Pane) -> (message: String)
    requires
        state.wf(),
    ensures
        message@ == pane_text(state@, pane.deep_view()),
{
    let connection: Option<&ConnectionState> = match pane.cluster() {
        Some(cluster) => match state.connection(cluster) {
            Some(connection) => Some(&connection.state),
            None => None,
        },
        None => None,
    };
    let reason: Option<&str> = match pane.unavailable() {
        Some(reason) => Some(reason.as_str()),
        None => None,
    };
    empty_message(reason, pane.kind(), connection)
}

/// What stands over a pane beside another.
pub open spec fn pane_heading(pane: PaneModel) -> Seq<char> {
    (match pane.cluster {
        Some(cluster) => cluster,
        None => "no cluster"@,
    }) + " · "@ + (match pane.kind {
        Some(kind) => kind_label(kind),
        None => "no kind"@,
    })
}

/// What stands over a pane beside another.
pub fn pane_title(pane: &Pane) -> (title: String)
    ensures
        title@ == pane_heading(pane.deep_view()),
{
    let cluster: String = match pane.cluster() {
        Some(cluster) => cluster.name.clone(),
        None => "no cluster".to_owned(),
    };
    let kind: String = match pane.kind() {
        Some(kind) => kind.label(),
        None => "no kind".to_owned(),
    };
    joined(joined(cluster, " · "), kind.as_str())
}

/// Whether a pane's table has a column for the namespace: unless its kind is
/// known to live outside of them.
pub fn has_namespace_column(state: &AppState, pane: &Pane) -> (namespaced: bool)
    requires
        state.wf(),
    ensures
        namespaced == (match pane.deep_view().kind {
            Some(kind) => match crate::app::known_kind(state@.kinds_of(state@.focused().cluster), kind) {
                Some(info) => info.namespaced,
                None => true,
            },
            None => true,
        }),
{
    match pane.kind() {
        Some(kind) => match state.kind_info(kind) {
            Some(info) => info.namespaced,
            None => true,
        },
        None => true,
    }
}

// --- the tail -------------------------------------------------------------------

/// How many lines there are, and how many are shown if that is not all.
pub open spec fn line_count_text(buffer: LogModel) -> Seq<char> {
    if buffer.shown().len() == buffer.lines.len() {
        decimal(buffer.lines.len()) + " lines"@
    } else {
        decimal(buffer.shown().len()) + " of "@ + decimal(buffer.lines.len()) + " lines"@
    }
}

/// How many lines there are, and how many are shown if that is not all.
pub fn line_count(buffer: &LogBuffer) -> (text: String)
    requires
        buffer.wf(),
    ensures
        text@ == line_count_text(buffer@),
{
    let (shown, held) = (buffer.visible_len(), buffer.len());
    if shown == held {
        joined(to_decimal(held as u64), " lines")
    } else {
        joined(joined(joined(to_decimal(shown as u64), " of "), to_decimal(held as u64).as_str()), " lines")
    }
}

/// What stands beside the tail's name: the lines, the sources that stream, and
/// the lines that were dropped.
pub open spec fn tail_text(buffer: LogModel) -> Seq<char> {
    line_count_text(buffer) + " "@ + ("· "@ + decimal(count(buffer.sources, streaming_sources())) + " streaming"@) + " "@
        + (if buffer.dropped > 0 {
        "· "@ + decimal(buffer.dropped as nat) + " dropped"@
    } else {
        ""@
    })
}

/// What stands beside the tail's name.
pub fn tail_status(buffer: &LogBuffer) -> (text: String)
    requires
        buffer.wf(),
    ensures
        text@ == tail_text(buffer@),
{
    let streaming: String = joined(
        joined("· ".to_owned(), to_decimal(buffer.streaming() as u64).as_str()),
        " streaming",
    );
    let dropped: String = if buffer.dropped() > 0 {
        joined(joined("· ".to_owned(), to_decimal(buffer.dropped()).as_str()), " dropped")
    } else {
        "".to_owned()
    };
    let lines: String = joined(joined(line_count(buffer), " "), streaming.as_str());
    joined(joined(lines, " "), dropped.as_str())
}

/// Whether the lines of a tail are shown with their sources: where there is
/// more than one, or could be.
pub fn shows_source(session: &LogSession) -> (shown: bool)
    ensures
        shown == (session.deep_view().buffer.sources.len() > 1 || session.deep_view().target.selector is Labels),
{
    let several: bool = match &session.target.selector {
        LogSelector::Labels(_) => true,
        LogSelector::Pod(_) => false,
    };
    session.buffer.source_count() > 1 || several
}

/// What stands over the tail in passing: what was said last, where the lines
/// without a timestamp went, and which lines are shown while long ones wrap.
pub open spec fn tail_notes(workspace: WorkspaceModel, buffer: LogModel) -> Seq<Seq<char>> {
    let shown = buffer.shown().len();
    let start = wrap_start(shown as usize, workspace.log_anchor);
    let end = if start + crate::logview::WRAP_LIMIT < shown {
        start + crate::logview::WRAP_LIMIT
    } else {
        shown as int
    };
    (match workspace.log_notice {
        Some(said) => seq![said],
        None => seq![],
    }) + (if buffer.order == LogOrder::Timestamp && buffer.untimestamped() > 0 {
        seq![
            "No timestamp on "@ + decimal(buffer.untimestamped())
                + " of these lines; they are listed last, in arrival order."@,
        ]
    } else {
        seq![]
    }) + (if workspace.log_wrap && end - start < shown {
        seq![
            "Wrapped: showing lines "@ + decimal((start + 1) as nat) + "–"@ + decimal(end as nat) + " of "@ + decimal(
                shown,
            ) + ". Filter or jump to reach the rest."@,
        ]
    } else {
        seq![]
    })
}

/// Texts with a dot between them.
pub open spec fn dotted(texts: Seq<Seq<char>>) -> Seq<char>
    decreases texts.len(),
{
    if texts.len() == 0 {
        seq![]
    } else if texts.len() == 1 {
        texts[0]
    } else {
        dotted(texts.drop_last()) + " · "@ + texts.last()
    }
}

/// What stands over the tail, and whether it is a complaint: a failure first,
/// then a filter that cannot be used, then what there is to note.
pub open spec fn tail_notice_text(workspace: WorkspaceModel, buffer: LogModel) -> Option<(Seq<char>, bool)> {
    let notes = tail_notes(workspace, buffer);
    if buffer.error is Some {
        Some((buffer.error->0, true))
    } else if buffer.matcher is Invalid {
        Some(("filter: "@ + buffer.matcher->Invalid_0, true))
    } else if notes.len() > 0 {
        Some((dotted(notes), false))
    } else {
        None
    }
}

fn join_dotted(texts: &Vec<String>) -> (text: String)
    requires
        texts.len() > 0,
    ensures
        text@ == dotted(texts.deep_view()),
{
    let ghost all = texts.deep_view();
    let mut text: String = texts[0].clone();
    let mut at: usize = 1;
    assert(all.take(1)[0] == all[0]);
    while at < texts.len()
        invariant
            1 <= at <= texts.len(),
            all == texts.deep_view(),
            text@ == dotted(all.take(at as int)),
        decreases texts.len() - at,
    {
        assert(all.take(at + 1).drop_last() =~= all.take(at as int));
        assert(all.take(at + 1).last() == all[at as int]);
        text = joined(joined(text, " · "), texts[at].as_str());
        at += 1;
    }
    assert(all.take(at as int) =~= all);
    text
}

/// What stands over the tail, and whether it is a complaint.
pub fn tail_notice(workspace: &Workspace, buffer: &LogBuffer) -> (notice: Option<(String, bool)>)
    requires
        buffer.wf(),
    ensures
        notice.deep_view() == tail_notice_text(workspace@, buffer@),
{
    if let Some(reason) = buffer.error() {
        return Some((reason.to_owned(), true));
    }
    if let Some(reason) = buffer.filter_error() {
        return Some((joined("filter: ".to_owned(), reason), true));
    }
    let mut notes: Vec<String> = Vec::new();
    if let Some(said) = workspace.notice(Lines::Logs) {
        notes.push(said.clone());
    }
    if buffer.order() == LogOrder::Timestamp && buffer.untimestamped() > 0 {
        let missing: String = joined(
            "No timestamp on ".to_owned(),
            to_decimal(buffer.untimestamped() as u64).as_str(),
        );
        notes.push(joined(missing, " of these lines; they are listed last, in arrival order."));
    }
    let shown: usize = buffer.visible_len();
    let window: std::ops::Range<usize> = wrap_window(shown, workspace.anchor());
    if workspace.wraps() && window.end - window.start < shown {
        let from: String = joined(
            "Wrapped: showing lines ".to_owned(),
            to_decimal((window.start + 1) as u64).as_str(),
        );
        let range: String = joined(joined(from, "–"), to_decimal(window.end as u64).as_str());
        let of: String = joined(joined(range, " of "), to_decimal(shown as u64).as_str());
        notes.push(joined(of, ". Filter or jump to reach the rest."));
    }
    assert(notes.deep_view() =~= tail_notes(workspace@, buffer@));
    assert(notes.deep_view().len() == notes.len());
    if notes.len() > 0 {
        Some((join_dotted(&notes), false))
    } else {
        None
    }
}

/// What the tail says in place of lines.
pub open spec fn tail_empty_text(buffer: LogModel) -> Seq<char> {
    if buffer.lines.len() > 0 {
        "Nothing matches the current filter."@
    } else if count(buffer.sources, streaming_sources()) > 0 {
        "Attached — waiting for output."@
    } else {
        "Attaching…"@
    }
}

/// What the tail says in place of lines.
pub fn tail_message(buffer: &LogBuffer) -> (message: &'static str)
    ensures
        message@ == tail_empty_text(buffer@),
{
    if !buffer.is_empty() {
        "Nothing matches the current filter."
    } else if buffer.streaming() > 0 {
        "Attached — waiting for output."
    } else {
        "Attaching…"
    }
}

// --- the command ----------------------------------------------------------------

/// What stands over a command's output, and whether it is a complaint.
pub open spec fn command_notice_text(workspace: WorkspaceModel, buffer: LogModel) -> Option<(Seq<char>, bool)> {
    if buffer.matcher is Invalid {
        Some(("filter: "@ + buffer.matcher->Invalid_0, true))
    } else {
        match workspace.exec_notice {
            Some(said) => Some((said, false)),
            None => None,
        }
    }
}

/// What stands over a command's output, and whether it is a complaint.
pub fn command_notice(workspace: &Workspace, buffer: &LogBuffer) -> (notice: Option<(String, bool)>)
    ensures
        notice.deep_view() == command_notice_text(workspace@, buffer@),
{
    if let Some(reason) = buffer.filter_error() {
        return Some((joined("filter: ".to_owned(), reason), true));
    }
    match workspace.notice(Lines::Command) {
        Some(said) => Some((said.clone(), false)),
        None => None,
    }
}

/// What a command's output says in place of lines: a command that printed
/// nothing is a result.
pub open spec fn command_empty_text(session: ExecSessionModel) -> Seq<char> {
    if session.buffer.lines.len() > 0 {
        "Nothing matches the current filter."@
    } else if session.status is None {
        "Running — waiting for output."@
    } else {
        "The command printed nothing."@
    }
}

/// What a command's output says in place of lines.
pub fn command_message(session: &ExecSession) -> (message: &'static str)
    ensures
        message@ == command_empty_text(session.deep_view()),
{
    if !session.buffer.is_empty() {
        "Nothing matches the current filter."
    } else if session.is_running() {
        "Running — waiting for output."
    } else {
        "The command printed nothing."
    }
}

/// Whether a command ended badly.
pub fn command_failed(session: &ExecSession) -> (bad: bool)
    ensures
        bad == (match session.deep_view().status {
            Some(status) => exec_problem(status),
            None => false,
        }),
{
    match &session.status {
        Some(status) => status.is_problem(),
        None => false,
    }
}

// --- the detail pane ------------------------------------------------------------

/// Something that can be done to the object in the detail pane.
#[derive(Clone, Copy, Debug, PartialEq, Eq, Structural)]
pub enum Action {
    /// Run another number of replicas.
    Scale,
    /// Replace its pods.
    Restart,
    /// Move everything off it.
    Drain,
    /// Keep new pods off it.
    Cordon,
    /// Let new pods on it again.
    Uncordon,
    /// Ask what an edit would do.
    DryRun,
    /// Apply an edit.
    Apply,
    /// Delete it.
    Delete,
}

impl DeepView for Action {
    type V = Action;

    open spec fn deep_view(&self) -> Action {
        *self
    }
}

/// Whether a kind has replicas to set.
pub open spec fn scalable(kind: KindModel) -> bool {
    (kind.group == "apps"@ && (kind.plural == "deployments"@ || kind.plural == "statefulsets"@ || kind.plural
        == "replicasets"@)) || (kind.group.len() == 0 && kind.plural == "replicationcontrollers"@)
}

/// Whether the pods of a kind can be replaced one after the other.
pub open spec fn restartable(kind: KindModel) -> bool {
    kind.group == "apps"@ && (kind.plural == "deployments"@ || kind.plural == "statefulsets"@ || kind.plural
        == "daemonsets"@)
}

/// Whether a kind is nodes.
pub open spec fn node_kind(kind: KindModel) -> bool {
    kind.group.len() == 0 && kind.kind == "Node"@
}

/// Whether a kind has replicas to set.
pub fn is_scalable(kind: &KindId) -> (scales: bool)
    ensures
        scales == scalable(kind.deep_view()),
{
    let plural: &str = kind.plural.as_str();
    (is_text(kind.group.as_str(), "apps") && (is_text(plural, "deployments") || is_text(plural, "statefulsets")
        || is_text(plural, "replicasets"))) || (kind.is_core() && is_text(plural, "replicationcontrollers"))
}

/// Whether the pods of a kind can be replaced one after the other.
pub fn is_restartable(kind: &KindId) -> (restarts: bool)
    ensures
        restarts == restartable(kind.deep_view()),
{
    let plural: &str = kind.plural.as_str();
    is_text(kind.group.as_str(), "apps") && (is_text(plural, "deployments") || is_text(plural, "statefulsets")
        || is_text(plural, "daemonsets"))
}

/// Whether rows say that new pods are kept off a node.
pub open spec fn cordoned(rows: Seq<RowModel>, key: KeyModel) -> bool {
    let found = rows.filter(of_key(key));
    found.len() > 0 && holds(cell_at(found[0], 0).text, "SchedulingDisabled"@)
}

/// Whether a detail is an object whose values are hidden.
pub open spec fn masked(detail: DetailModel) -> bool {
    match detail {
        DetailModel::Ready { object, .. } => object.maskable && !object.revealed,
        _ => false,
    }
}

/// What can be done to an object of a kind, allowed or not.
pub open spec fn kind_actions(app: AppModel, detail: DetailModel) -> Seq<Action> {
    let kind = detail_kind(detail);
    (if scalable(kind) {
        seq![Action::Scale]
    } else {
        seq![]
    }) + (if restartable(kind) {
        seq![Action::Restart]
    } else {
        seq![]
    }) + (if node_kind(kind) {
        seq![
            Action::Drain,
            if cordoned(app.focused().rows, detail_key(detail)) {
                Action::Uncordon
            } else {
                Action::Cordon
            },
        ]
    } else {
        seq![]
    }) + seq![Action::DryRun, Action::Apply, Action::Delete]
}

/// Why the cluster on screen may not be changed, if it may not.
pub open spec fn changes_refused(app: AppModel) -> Option<Seq<char>> {
    match app.focused().cluster {
        Some(cluster) => if app.permissions.may_mutate(cluster) {
            None
        } else {
            Some("`"@ + cluster + "` is read-only. Change `[access]` in `settings.toml` to allow writes."@)
        },
        None => Some("No cluster is selected."@),
    }
}

/// Why an action cannot be taken, if it cannot: the cluster may not be changed,
/// or the edit would send what stands in for hidden values.
pub open spec fn action_refused(app: AppModel, detail: DetailModel, action: Action) -> Option<Seq<char>> {
    match changes_refused(app) {
        Some(reason) => Some(reason),
        None => if masked(detail) && (action == Action::DryRun || action == Action::Apply) {
            Some("Values are hidden. Reveal them first: this would send what hides them."@)
        } else {
            None
        },
    }
}

/// The button of an action.
#[derive(Clone, Debug, PartialEq, Eq)]
pub struct ActionButton {
    /// What it does.
    pub action: Action,
    /// Why it is disabled, if it is.
    pub refused: Option<String>,
}

/// What a [`ActionButton`] holds.
pub struct ActionButtonModel {
    /// What it does.
    pub action: Action,
    /// Why it is disabled, if it is.
    pub refused: Option<Seq<char>>,
}

impl DeepView for ActionButton {
    type V = ActionButtonModel;

    open spec fn deep_view(&self) -> ActionButtonModel {
        ActionButtonModel {
            action: self.action.deep_view(),
            refused: self.refused.deep_view(),
        }
    }
}

/// The buttons of what can be done to the object in the detail pane: all that
/// makes sense for its kind, each disabled where it cannot be done, and saying
/// why.
pub open spec fn buttons_for(app: AppModel, detail: DetailModel) -> Seq<ActionButtonModel> {
    kind_actions(app, detail).map_values(
        |action: Action| ActionButtonModel { action, refused: action_refused(app, detail, action) },
    )
}

fn is_cordoned(state: &AppState, key: &ResourceKey) -> (off: bool)
    requires
        state.wf(),
    ensures
        off == cordoned(state@.focused().rows, key.deep_view()),
{
    let rows: &Vec<Arc<ResourceRow>> = state.rows();
    let ghost all = rows.deep_view();
    let ghost wanted = of_key(key.deep_view());
    let mut at: usize = 0;
    while at < rows.len()
        invariant
            at <= rows.len(),
            all == rows.deep_view(),
            all == state@.focused().rows,
            wanted == of_key(key.deep_view()),
            forall|i: int| 0 <= i < at ==> !wanted(#[trigger] all[i]),
        decreases rows.len() - at,
    {
        assert(all[at as int] == rows[at as int].deep_view());
        if rows[at].key.same(key) {
            proof {
                filter_first(all, wanted, at as int);
            }
            return contains(rows[at].cell(0), "SchedulingDisabled");
        }
        at += 1;
    }
    proof {
        filter_prefix(all, wanted, 0);
        assert(all.take(0) =~= Seq::empty());
    }
    false
}

/// Whether a detail is an object whose values are hidden.
pub fn is_masked(detail: &Detail) -> (hidden: bool)
    ensures
        hidden == masked(detail.deep_view()),
{
    match detail {
        Detail::Ready { object, .. } => object.maskable && !object.revealed,
        _ => false,
    }
}

/// Why the cluster on screen may not be changed, if it may not.
pub fn refused_changes(state: &AppState) -> (reason: Option<String>)
    requires
        state.wf(),
    ensures
        reason.deep_view() == changes_refused(state@),
{
    match state.active() {
        Some(cluster) => if state.may_mutate(cluster) {
            None
        } else {
            let named: String = joined("`".to_owned(), cluster.as_str());
            Some(joined(named, "` is read-only. Change `[access]` in `settings.toml` to allow writes."))
        },
        None => Some("No cluster is selected.".to_owned()),
    }
}

/// Why an action cannot be taken, if it cannot.
pub fn refused_action(state: &AppState, detail: &Detail, action: Action) -> (reason: Option<String>)
    requires
        state.wf(),
    ensures
        reason.deep_view() == action_refused(state@, detail.deep_view(), action),
{
    match refused_changes(state) {
        Some(reason) => Some(reason),
        None => if is_masked(detail) && (action == Action::DryRun || action == Action::Apply) {
            Some("Values are hidden. Reveal them first: this would send what hides them.".to_owned())
        } else {
            None
        },
    }
}

/// What can be done to an object of a kind, allowed or not.
fn actions_of(state: &AppState, detail: &Detail) -> (offered: Vec<Action>)
    requires
        state.wf(),
    ensures
        offered@ == kind_actions(state@, detail.deep_view()),
{
    let mut offered: Vec<Action> = Vec::new();
    let kind: &KindId = detail.kind();
    if is_scalable(kind) {
        offered.push(Action::Scale);
    }
    if is_restartable(kind) {
        offered.push(Action::Restart);
    }
    if kind.is_core() && is_text(kind.kind.as_str(), "Node") {
        offered.push(Action::Drain);
        if is_cordoned(state, detail.key()) {
            offered.push(Action::Uncordon);
        } else {
            offered.push(Action::Cordon);
        }
    }
    offered.push(Action::DryRun);
    offered.push(Action::Apply);
    offered.push(Action::Delete);
    assert(offered@ =~= kind_actions(state@, detail.deep_view()));
    offered
}

/// The buttons of what can be done to the object in the detail pane.
pub fn buttons(state: &AppState, detail: &Detail) -> (offered: Vec<ActionButton>)
    requires
        state.wf(),
    ensures
        offered.deep_view() == buttons_for(state@, detail.deep_view()),
{
    let actions: Vec<Action> = actions_of(state, detail);
    let ghost (app, model) = (state@, detail.deep_view());
    let ghost button = |action: Action|
        ActionButtonModel { action, refused: action_refused(app, model, action) };
    let mut offered: Vec<ActionButton> = Vec::new();
    let mut at: usize = 0;
    assert(offered.deep_view() =~= actions@.take(0).map_values(button));
    while at < actions.len()
        invariant
            at <= actions.len(),
            state.wf(),
            app == state@,
            model == detail.deep_view(),
            button == (|action: Action|
                ActionButtonModel { action, refused: action_refused(app, model, action) }),
            offered.deep_view() == actions@.take(at as int).map_values(button),
        decreases actions.len() - at,
    {
        let ghost before = offered.deep_view();
        let action: Action = actions[at];
        offered.push(ActionButton { action, refused: refused_action(state, detail, action) });
        assert(offered.deep_view() =~= before.push(button(action)));
        assert(actions@.take(at + 1).map_values(button) =~= before.push(button(action)));
        at += 1;
    }
    assert(actions@.take(at as int) =~= actions@);
    offered
}

/// What the detail pane is called.
pub open spec fn detail_heading(detail: DetailModel) -> Seq<char> {
    kind_label(detail_kind(detail)) + " · "@ + key_text(detail_key(detail))
}

/// What the detail pane is called.
pub fn detail_title(detail: &Detail) -> (title: String)
    ensures
        title@ == detail_heading(detail.deep_view()),
{
    joined(joined(detail.kind().label(), " · "), detail.key().to_text().as_str())
}

/// What the button that shows hidden values says, where there are any.
pub fn reveal_label(detail: &Detail) -> (label: Option<&'static str>)
    ensures
        label.deep_view() == (match detail.deep_view() {
            DetailModel::Ready { object, .. } => if !object.maskable {
                None
            } else if object.revealed {
                Some("Values shown"@)
            } else {
                Some("Reveal values"@)
            },
            _ => None,
        }),
{
    match detail {
        Detail::Ready { object, .. } => if !object.maskable {
            None
        } else if object.revealed {
            Some("Values shown")
        } else {
            Some("Reveal values")
        },
        _ => None,
    }
}

/// Whether the detail pane is on a pod.
pub fn is_pod(detail: &Detail) -> (pod: bool)
    ensures
        pod == pod_kind(detail_kind(detail.deep_view())),
{
    detail.kind().is_core() && is_text(detail.kind().kind.as_str(), "Pod")
}

/// Something that happened to an object, as it is listed.
#[derive(Clone, Debug, PartialEq, Eq)]
pub struct EventRow {
    /// Whether it is a warning.
    pub warning: bool,
    /// The short reason.
    pub reason: String,
    /// What happened.
    pub message: String,
    /// How often, if more than once.
    pub times: Option<String>,
}

/// What a [`EventRow`] holds.
pub struct EventRowModel {
    /// Whether it is a warning.
    pub warning: bool,
    /// The short reason.
    pub reason: Seq<char>,
    /// What happened.
    pub message: Seq<char>,
    /// How often, if more than once.
    pub times: Option<Seq<char>>,
}

impl DeepView for EventRow {
    type V = EventRowModel;

    open spec fn deep_view(&self) -> EventRowModel {
        EventRowModel {
            warning: self.warning.deep_view(),
            reason: self.reason.deep_view(),
            message: self.message.deep_view(),
            times: self.times.deep_view(),
        }
    }
}

/// Something that happened, as it is listed.
pub open spec fn event_row(event: EventLineModel) -> EventRowModel {
    EventRowModel {
        warning: event.warning,
        reason: event.reason,
        message: event.message,
        times: if event.count > 1 {
            Some("×"@ + decimal(event.count as nat))
        } else {
            None
        },
    }
}

/// What happened to an object, latest first.
pub open spec fn event_list(events: Seq<EventLineModel>) -> Seq<EventRowModel> {
    events.reverse().map_values(|event: EventLineModel| event_row(event))
}

/// What happened to an object, latest first.
pub fn event_rows(object: &ObjectDetail) -> (rows: Vec<EventRow>)
    ensures
        rows.deep_view() == event_list(object.deep_view().events),
{
    let ghost all = object.deep_view().events;
    let mut rows: Vec<EventRow> = Vec::new();
    let mut left: usize = object.events.len();
    while left > 0
        invariant
            left <= object.events.len(),
            all == object.events.deep_view(),
            rows.len() == all.len() - left,
            forall|i: int| 0 <= i < rows.len() ==> (#[trigger] rows.deep_view()[i]) == event_row(all[all.len() - 1 - i]),
        decreases left,
    {
        let ghost before = rows.deep_view();
        left -= 1;
        let event: &EventLine = &object.events[left];
        let row: EventRow = EventRow {
            warning: event.is_warning(),
            reason: event.reason.clone(),
            message: event.message.clone(),
            times: if event.count > 1 {
                Some(joined("×".to_owned(), to_decimal(event.count as u64).as_str()))
            } else {
                None
            },
        };
        let ghost added = row.deep_view();
        assert(added == event_row(all[left as int]));
        rows.push(row);
        assert(rows.deep_view() =~= before.push(added));
    }
    assert(rows.deep_view() =~= event_list(all));
    rows
}

/// What owns an object, as it is listed.
#[derive(Clone, Debug, PartialEq, Eq)]
pub struct OwnerRow {
    /// What the button says.
    pub label: String,
    /// The kind it leads to.
    pub kind: KindId,
    /// The object it leads to.
    pub key: ResourceKey,
}

/// What a [`OwnerRow`] holds.
pub struct OwnerRowModel {
    /// What the button says.
    pub label: Seq<char>,
    /// The kind it leads to.
    pub kind: KindModel,
    /// The object it leads to.
    pub key: KeyModel,
}

impl DeepView for OwnerRow {
    type V = OwnerRowModel;

    open spec fn deep_view(&self) -> OwnerRowModel {
        OwnerRowModel {
            label: self.label.deep_view(),
            kind: self.kind.deep_view(),
            key: self.key.deep_view(),
        }
    }
}

/// An owner, as it is listed. It is looked for in the object's own namespace.
pub open spec fn owner_row(owner: OwnerModel, namespace: Seq<char>) -> OwnerRowModel {
    OwnerRowModel {
        label: owner.kind + "/"@ + owner.name,
        kind: owner_kind_of(owner.api_version, owner.kind),
        key: KeyModel { namespace, name: owner.name },
    }
}

/// What owns an object.
pub fn owner_rows(object: &ObjectDetail) -> (rows: Vec<OwnerRow>)
    ensures
        rows.deep_view() == object.deep_view().owners.map_values(
            |owner: OwnerModel| owner_row(owner, object.deep_view().key.namespace),
        ),
{
    let ghost namespace = object.deep_view().key.namespace;
    let ghost wanted = object.deep_view().owners.map_values(|owner: OwnerModel| owner_row(owner, namespace));
    let mut rows: Vec<OwnerRow> = Vec::new();
    let mut at: usize = 0;
    assert(rows.deep_view() =~= wanted.take(0));
    while at < object.owners.len()
        invariant
            at <= object.owners.len(),
            namespace == object.deep_view().key.namespace,
            wanted == object.deep_view().owners.map_values(|owner: OwnerModel| owner_row(owner, namespace)),
            rows.deep_view() == wanted.take(at as int),
        decreases object.owners.len() - at,
    {
        let ghost before = rows.deep_view();
        let owner: &OwnerRef = &object.owners[at];
        let row: OwnerRow = OwnerRow {
            label: joined(joined(owner.kind.clone(), "/"), owner.name.as_str()),
            kind: owner_kind(owner),
            key: ResourceKey::new(object.key.namespace.as_str(), owner.name.as_str()),
        };
        assert(row.deep_view() == wanted[at as int]);
        rows.push(row);
        assert(rows.deep_view() =~= before.push(wanted[at as int]));
        assert(wanted.take(at + 1) =~= before.push(wanted[at as int]));
        at += 1;
    }
    assert(wanted.take(at as int) =~= wanted);
    rows
}

// --- forwards -------------------------------------------------------------------

/// A port forward in the list of them.
#[derive(Clone, Debug, PartialEq, Eq)]
pub struct ForwardRow {
    /// Where it listens and where that leads.
    pub summary: String,
    /// What is wrong with it, or how it is used.
    pub detail: String,
    /// Whether it needs attention.
    pub problem: bool,
    /// What there is to copy.
    pub address: Option<String>,
}

/// What a [`ForwardRow`] holds.
pub struct ForwardRowModel {
    /// Where it listens and where that leads.
    pub summary: Seq<char>,
    /// What is wrong with it, or how it is used.
    pub detail: Seq<char>,
    /// Whether it needs attention.
    pub problem: bool,
    /// What there is to copy.
    pub address: Option<Seq<char>>,
}

impl DeepView for ForwardRow {
    type V = ForwardRowModel;

    open spec fn deep_view(&self) -> ForwardRowModel {
        ForwardRowModel {
            summary: self.summary.deep_view(),
            detail: self.detail.deep_view(),
            problem: self.problem.deep_view(),
            address: self.address.deep_view(),
        }
    }
}

/// A forward, as it is listed.
pub open spec fn forward_row(entry: (Seq<char>, ForwardInfoModel)) -> ForwardRowModel {
    let (cluster, forward) = entry;
    ForwardRowModel {
        summary: forward_summary(forward),
        detail: match forward_detail(forward.state) {
            Some(reason) => reason,
            None => cluster + " · "@ + decimal(forward.connections as nat) + " connections"@,
        },
        problem: forward_problem(forward.state),
        address: forward_address(forward.state),
    }
}

/// A forward, as it is listed.
pub fn describe_forward(cluster: &ClusterId, forward: &ForwardInfo) -> (row: ForwardRow)
    ensures
        row.deep_view() == forward_row((cluster.deep_view(), forward.deep_view())),
{
    let detail: String = match forward.state.detail() {
        Some(reason) => reason.to_owned(),
        None => joined(
            joined(joined(cluster.name.clone(), " · "), to_decimal(forward.connections as u64).as_str()),
            " connections",
        ),
    };
    ForwardRow {
        summary: forward.summary(),
        detail,
        problem: forward.state.is_problem(),
        address: forward.address(),
    }
}

// --- what waits for an answer ---------------------------------------------------

/// What is said about the cluster something was proposed for, if it is in trouble.
pub open spec fn health_text(app: AppModel, proposal: ProposalModel) -> Option<Seq<char>> {
    match lookup(app.connections, proposal_cluster(proposal)) {
        Some(connection) => if connection_problem(connection.state) {
            Some("This cluster is currently "@ + connection_label(connection.state) + "."@)
        } else {
            None
        },
        None => None,
    }
}

/// What is said about the cluster something was proposed for, if it is in trouble.
pub fn cluster_health(state: &AppState, proposal: &Proposal) -> (health: Option<String>)
    requires
        state.wf(),
    ensures
        health.deep_view() == health_text(state@, proposal.deep_view()),
{
    match state.connection(proposal.cluster()) {
        Some(connection) => if connection.state.is_problem() {
            Some(joined(joined("This cluster is currently ".to_owned(), connection.state.label()), "."))
        } else {
            None
        },
        None => None,
    }
}

// --- menus ----------------------------------------------------------------------

/// An entry of a menu.
#[derive(Clone, Debug, PartialEq, Eq)]
pub struct MenuRow {
    /// What it says.
    pub label: String,
    /// Whether it is the one in force.
    pub selected: bool,
}

/// What a [`MenuRow`] holds.
pub struct MenuRowModel {
    /// What it says.
    pub label: Seq<char>,
    /// Whether it is the one in force.
    pub selected: bool,
}

impl DeepView for MenuRow {
    type V = MenuRowModel;

    open spec fn deep_view(&self) -> MenuRowModel {
        MenuRowModel {
            label: self.label.deep_view(),
            selected: self.selected.deep_view(),
        }
    }
}

/// The namespaces to pick from: all of them, then each.
pub open spec fn namespace_entries(namespaces: Seq<Seq<char>>, current: Option<Seq<char>>) -> Seq<MenuRowModel> {
    seq![MenuRowModel { label: "All namespaces"@, selected: current is None }] + namespaces.map_values(
        |namespace: Seq<char>| MenuRowModel { label: namespace, selected: current == Some(namespace) },
    )
}

/// The namespaces to pick from.
pub fn namespace_menu(namespaces: &Vec<String>, current: &Option<String>) -> (entries: Vec<MenuRow>)
    ensures
        entries.deep_view() == namespace_entries(namespaces.deep_view(), current.deep_view()),
{
    let ghost wanted = namespace_entries(namespaces.deep_view(), current.deep_view());
    let mut entries: Vec<MenuRow> = Vec::new();
    entries.push(MenuRow { label: "All namespaces".to_owned(), selected: current.is_none() });
    let mut at: usize = 0;
    assert(entries.deep_view() =~= wanted.take(1));
    while at < namespaces.len()
        invariant
            at <= namespaces.len(),
            wanted == namespace_entries(namespaces.deep_view(), current.deep_view()),
            entries.deep_view() == wanted.take(at + 1),
        decreases namespaces.len() - at,
    {
        let ghost before = entries.deep_view();
        let selected: bool = match current {
            Some(namespace) => namespace.same(&namespaces[at]),
            None => false,
        };
        let entry: MenuRow = MenuRow { label: namespaces[at].clone(), selected };
        assert(entry.deep_view() == wanted[at + 1]);
        entries.push(entry);
        assert(entries.deep_view() =~= before.push(wanted[at + 1]));
        assert(wanted.take(at + 2) =~= before.push(wanted[at + 1]));
        at += 1;
    }
    assert(wanted.take(at + 1) =~= wanted);
    entries
}

/// A container to pick. One that only runs while a pod starts says so.
pub open spec fn container_entry(container: ContainerModel, current: Option<Seq<char>>) -> MenuRowModel {
    MenuRowModel {
        label: if container.init {
            container.name + " (init)"@
        } else {
            container.name
        },
        selected: current == Some(container.name),
    }
}

/// The containers to pick from: the pod's default, then each.
pub open spec fn container_entries(
    containers: Seq<ContainerModel>,
    current: Option<Seq<char>>,
) -> Seq<MenuRowModel> {
    seq![MenuRowModel { label: "Default container"@, selected: current is None }] + containers.map_values(
        |container: ContainerModel| container_entry(container, current),
    )
}

/// The containers to pick from.
pub fn container_menu(containers: &Vec<PodContainer>, current: Option<&String>) -> (entries: Vec<MenuRow>)
    ensures
        entries.deep_view() == container_entries(containers.deep_view(), current.deep_view()),
{
    let ghost wanted = container_entries(containers.deep_view(), current.deep_view());
    let mut entries: Vec<MenuRow> = Vec::new();
    entries.push(MenuRow { label: "Default container".to_owned(), selected: current.is_none() });
    let mut at: usize = 0;
    assert(entries.deep_view() =~= wanted.take(1));
    while at < containers.len()
        invariant
            at <= containers.len(),
            wanted == container_entries(containers.deep_view(), current.deep_view()),
            entries.deep_view() == wanted.take(at + 1),
        decreases containers.len() - at,
    {
        let ghost before = entries.deep_view();
        let container: &PodContainer = &containers[at];
        let selected: bool = match current {
            Some(name) => name.same(&container.name),
            None => false,
        };
        let entry: MenuRow = MenuRow {
            label: if container.init {
                joined(container.name.clone(), " (init)")
            } else {
                container.name.clone()
            },
            selected,
        };
        assert(entry.deep_view() == wanted[at + 1]);
        entries.push(entry);
        assert(entries.deep_view() =~= before.push(wanted[at + 1]));
        assert(wanted.take(at + 2) =~= before.push(wanted[at + 1]));
        at += 1;
    }
    assert(wanted.take(at + 1) =~= wanted);
    entries
}

// --- laws -----------------------------------------------------------------------

/// Where the cluster may not be changed every button is disabled and says why;
/// where it may, only an edit of hidden values is.
pub proof fn buttons_respect_permissions(app: AppModel, detail: DetailModel, i: int)
    requires
        0 <= i < buttons_for(app, detail).len(),
    ensures
        ({
            let button = buttons_for(app, detail)[i];
            &&& app.focused().cluster matches Some(cluster) ==> !app.permissions.may_mutate(cluster) ==> button.refused
                is Some
            &&& app.focused().cluster matches Some(cluster) ==> app.permissions.may_mutate(cluster) ==> (button.refused
                is Some <==> masked(detail) && (button.action == Action::DryRun || button.action == Action::Apply))
        }),
{
}

/// A section that holds the kind on screen is open, whatever somebody chose.
pub proof fn what_is_on_screen_is_not_folded_away(
    app: AppModel,
    title: Seq<char>,
    kinds: Seq<KindInfoModel>,
    by_choice: bool,
    i: int,
)
    requires
        0 <= i < kinds.len(),
        app.focused().kind == Some(kinds[i].id),
    ensures
        ({
            let rows = section_rows(app, title, kinds, seq![], by_choice, false);
            rows.len() == kinds.len() + 1 && rows[i + 1] == kind_row(app, kinds[i], false)
        }),
{
    let none = Seq::<char>::empty();
    crate::seqs::filter_all(kinds, wanted_kinds(none));
    assert(kinds.filter(wanted_kinds(none)) == kinds);
    assert(holds_selection(app, kinds));
}

} // verus!

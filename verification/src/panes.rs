//! What each part of the window holds, put together for whoever draws it.

use crate::app::{broken_entry, exec_summary, forward_entry, known_kind, AppState, ExecSession, LogSession, Pane};
use crate::catalog::{is_sections, CategoryModel};
use crate::clock::{Duration, Instant};
use crate::console::{pod_kind, ThemeChoice, WorkspaceModel};
use crate::keyed::OrdMap;
use crate::logs::{LogBuffer, LogOrder};
use crate::logview::{chips_of, legend, overflow_of, wrap_start, wrap_window, WRAP_LIMIT};
use crate::model::{detail_key, detail_kind, AppModel, Detail, DetailModel, LogSessionModel, PaneModel};
use crate::mutation::{Mutation, MutationModel};
use crate::objects::{
    cell_at, ClusterId, ColumnModel, ColumnSpec, ContainerModel, ContextModel, KeyModel, KindInfoModel, ObjectDetail,
    ObjectModel, OwnerModel, PodContainer, ResourceKey, ResourceRow, RowModel,
};
use crate::palette::{Match, MatchModel};
use crate::proposal::{proposal_cluster, proposal_destructive, proposal_sentence, proposal_verb, proposal_warning};
use crate::rows::{Sort, SortKey};
use crate::seqs::count;
use crate::sessions::{
    exec_label, exec_problem, log_target_label, ConnectionState, ConnectionStateModel, ForwardId, ForwardInfo,
    ForwardInfoModel, LogLine, LogSource, LogSourceState,
};
use crate::text::joined;
use crate::value::Value;
use crate::views::{
    action_refused, activity_line, activity_text, buttons, buttons_for, changes_refused, cluster_health,
    command_empty_text, command_failed, command_message, command_notice, command_notice_text, context_row,
    context_rows, describe_forward, detail_heading, detail_title, event_list, event_rows, forward_row, forwards_label,
    forwards_text, has_namespace_column, health_text, held_lines, held_text, is_masked, is_pod, is_read_only,
    line_count, line_count_text, masked, owner_row, owner_rows, pane_heading, pane_message, pane_text, pane_title,
    refused_action, refused_changes, reveal_label, shows_source, sidebar, sidebar_note, sidebar_nothing, sidebar_rows,
    state_of, stats_line, stats_text, subtitle, subtitle_text, tail_empty_text, tail_message, tail_notice,
    tail_notice_text, tail_status, tail_text, Action, ActionButton, ActionButtonModel, ContextRow, ContextRowModel,
    EventRow, EventRowModel, ForwardRow, ForwardRowModel, OwnerRow, OwnerRowModel, SidebarRow, SidebarRowModel,
};
use crate::wording::{replicas_typed, tab_label, typed_replicas, DetailTab};
use crate::workspace::{replicas_shown, shown_columns, Workspace};
use std::sync::Arc;
use vstd::prelude::*;

verus! {

// --- the header -----------------------------------------------------------------

/// What stands over everything.
#[derive(Clone, Debug, PartialEq, Eq)]
pub struct Header {
    /// The cluster on screen, and how its connection is doing.
    pub cluster: Option<(ClusterId, ConnectionState)>,
    /// What stands beside its name.
    pub subtitle: String,
    /// Whether it refuses changes.
    pub read_only: bool,
    /// What the button of the forwards says, where there are any.
    pub forwards: Option<String>,
    /// What the button that splits the window says.
    pub split: &'static str,
    /// What the button of the theme says.
    pub theme: &'static str,
}

/// What a [`Header`] holds.
pub struct HeaderModel {
    /// The cluster on screen, and how its connection is doing.
    pub cluster: Option<(Seq<char>, ConnectionStateModel)>,
    /// What stands beside its name.
    pub subtitle: Seq<char>,
    /// Whether it refuses changes.
    pub read_only: bool,
    /// What the button of the forwards says, where there are any.
    pub forwards: Option<Seq<char>>,
    /// What the button that splits the window says.
    pub split: Seq<char>,
    /// What the button of the theme says.
    pub theme: Seq<char>,
}

impl DeepView for Header {
    type V = HeaderModel;

    open spec fn deep_view(&self) -> HeaderModel {
        HeaderModel {
            cluster: self.cluster.deep_view(),
            subtitle: self.subtitle.deep_view(),
            read_only: self.read_only.deep_view(),
            forwards: self.forwards.deep_view(),
            split: self.split.deep_view(),
            theme: self.theme.deep_view(),
        }
    }
}

/// What the button of the theme says.
pub open spec fn theme_text(theme: ThemeChoice) -> Seq<char> {
    match theme {
        ThemeChoice::System => "Theme: system"@,
        ThemeChoice::Light => "Theme: light"@,
        ThemeChoice::Dark => "Theme: dark"@,
    }
}

/// What stands over everything.
pub open spec fn header_of(workspace: WorkspaceModel) -> HeaderModel {
    let app = workspace.app;
    HeaderModel {
        cluster: match app.focused().cluster {
            Some(cluster) => Some((cluster, state_of(app, cluster))),
            None => None,
        },
        subtitle: subtitle_text(app.focused()),
        read_only: match app.focused().cluster {
            Some(cluster) => !app.permissions.may_mutate(cluster),
            None => false,
        },
        forwards: forwards_text(app.forwards.len(), count(app.forwards, broken_entry())),
        split: if app.panes.len() > 1 {
            "Single  ⌘\\"@
        } else {
            "Split  ⌘\\"@
        },
        theme: theme_text(workspace.theme),
    }
}

fn connection_of(state: &AppState, cluster: &ClusterId) -> (connection: ConnectionState)
    requires
        state.wf(),
    ensures
        connection.deep_view() == state_of(state@, cluster.deep_view()),
{
    match state.connection(cluster) {
        Some(connection) => connection.state.dup(),
        None => ConnectionState::Idle,
    }
}

impl Workspace {
    /// What stands over everything.
    pub fn header(&self) -> (header: Header)
        requires
            self.wf(),
        ensures
            header.deep_view() == header_of(self@),
    {
        let state: &AppState = self.state();
        Header {
            cluster: match state.active() {
                Some(cluster) => Some((cluster.dup(), connection_of(state, cluster))),
                None => None,
            },
            subtitle: subtitle(state),
            read_only: is_read_only(state),
            forwards: forwards_label(state),
            split: if state.is_split() {
                "Single  ⌘\\"
            } else {
                "Split  ⌘\\"
            },
            theme: self.theme().label(),
        }
    }
}

// --- the sidebar ----------------------------------------------------------------

/// What stands left of everything.
#[derive(Clone, Debug, PartialEq, Eq)]
pub struct Sidebar {
    /// The contexts.
    pub contexts: Vec<ContextRow>,
    /// What was opened recently, and the sections.
    pub rows: Vec<SidebarRow>,
    /// What is said where there are no such rows.
    pub nothing: Option<&'static str>,
}

/// What a [`Sidebar`] holds.
pub struct SidebarModel {
    /// The contexts.
    pub contexts: Seq<ContextRowModel>,
    /// What was opened recently, and the sections.
    pub rows: Seq<SidebarRowModel>,
    /// What is said where there are no such rows.
    pub nothing: Option<Seq<char>>,
}

impl DeepView for Sidebar {
    type V = SidebarModel;

    open spec fn deep_view(&self) -> SidebarModel {
        SidebarModel {
            contexts: self.contexts.deep_view(),
            rows: self.rows.deep_view(),
            nothing: self.nothing.deep_view(),
        }
    }
}

/// What stands left of everything, given the sections of the kinds.
pub open spec fn sidebar_of(
    workspace: WorkspaceModel,
    found: Seq<(CategoryModel, Seq<KindInfoModel>)>,
    text: Seq<char>,
) -> SidebarModel {
    let app = workspace.app;
    let rows = sidebar_rows(app, workspace.remembered, found, text);
    SidebarModel {
        contexts: app.contexts.map_values(|context: ContextModel| context_row(app, context)),
        rows,
        nothing: if rows.len() == 0 {
            Some(sidebar_note(app))
        } else {
            None
        },
    }
}

impl Workspace {
    /// What stands left of everything, narrowed by what its filter box says.
    pub fn sidebar(&self, text: &str) -> (view: Sidebar)
        requires
            self.wf(),
        ensures
            exists|found: Seq<(CategoryModel, Seq<KindInfoModel>)>| #[trigger]
                is_sections(self@.app.kinds_of(self@.app.focused().cluster), found) && view.deep_view() == sidebar_of(
                    self@,
                    found,
                    text@,
                ),
    {
        let rows: Vec<SidebarRow> = sidebar(self, text);
        let ghost found = choose|found: Seq<(CategoryModel, Seq<KindInfoModel>)>| #[trigger]
            is_sections(self@.app.kinds_of(self@.app.focused().cluster), found) && rows.deep_view() == sidebar_rows(
                self@.app,
                self@.remembered,
                found,
                text@,
            );
        assert(rows.deep_view().len() == rows.len());
        let nothing: Option<&'static str> = if rows.len() == 0 {
            Some(sidebar_nothing(self.state()))
        } else {
            None
        };
        let contexts: Vec<ContextRow> = context_rows(self.state());
        let view: Sidebar = Sidebar { contexts, rows, nothing };
        assert(view.deep_view() == sidebar_of(self@, found, text@));
        view
    }
}

// --- panes of rows --------------------------------------------------------------

/// The heading of a column.
#[derive(Clone, Debug, PartialEq, Eq)]
pub struct Heading {
    /// What it says, with an arrow if it is what is sorted by.
    pub label: String,
    /// What a click on it sorts by.
    pub key: SortKey,
    /// How wide the column is; what is left, if it has no width.
    pub width: Option<u32>,
}

/// What a [`Heading`] holds.
pub struct HeadingModel {
    /// What it says, with an arrow if it is what is sorted by.
    pub label: Seq<char>,
    /// What a click on it sorts by.
    pub key: SortKey,
    /// How wide the column is; what is left, if it has no width.
    pub width: Option<u32>,
}

impl DeepView for Heading {
    type V = HeadingModel;

    open spec fn deep_view(&self) -> HeadingModel {
        HeadingModel {
            label: self.label.deep_view(),
            key: self.key.deep_view(),
            width: self.width.deep_view(),
        }
    }
}

/// One table of the window.
#[derive(Clone, Debug, PartialEq, Eq)]
pub struct PaneView {
    /// What stands over it beside another.
    pub title: Option<String>,
    /// How the connection of its cluster is doing.
    pub connection: ConnectionState,
    /// Whether commands apply to it.
    pub focused: bool,
    /// The headings of its columns.
    pub headings: Vec<Heading>,
    /// The kind's own columns that are shown, with their places among all of them.
    pub columns: Vec<(usize, ColumnSpec)>,
    /// Whether there is a column for the namespace.
    pub namespaced: bool,
    /// What it says in place of rows, where there are none.
    pub message: Option<String>,
    /// The object in the detail pane.
    pub opened: Option<ResourceKey>,
    /// Which row the keyboard is on.
    pub cursor: usize,
}

/// What a [`PaneView`] holds.
pub struct PaneViewModel {
    /// What stands over it beside another.
    pub title: Option<Seq<char>>,
    /// How the connection of its cluster is doing.
    pub connection: ConnectionStateModel,
    /// Whether commands apply to it.
    pub focused: bool,
    /// The headings of its columns.
    pub headings: Seq<HeadingModel>,
    /// The kind's own columns that are shown, with their places among all of them.
    pub columns: Seq<(usize, ColumnModel)>,
    /// Whether there is a column for the namespace.
    pub namespaced: bool,
    /// What it says in place of rows, where there are none.
    pub message: Option<Seq<char>>,
    /// The object in the detail pane.
    pub opened: Option<KeyModel>,
    /// Which row the keyboard is on.
    pub cursor: usize,
}

impl DeepView for PaneView {
    type V = PaneViewModel;

    open spec fn deep_view(&self) -> PaneViewModel {
        PaneViewModel {
            title: self.title.deep_view(),
            connection: self.connection.deep_view(),
            focused: self.focused.deep_view(),
            headings: self.headings.deep_view(),
            columns: self.columns.deep_view(),
            namespaced: self.namespaced.deep_view(),
            message: self.message.deep_view(),
            opened: self.opened.deep_view(),
            cursor: self.cursor.deep_view(),
        }
    }
}

/// How wide the column of the namespace is.
pub const NAMESPACE_WIDTH: u32 = 180;

/// How wide the column of the age is.
pub const AGE_WIDTH: u32 = 80;

/// A heading, with an arrow if it is what is sorted by.
pub open spec fn heading_of(label: Seq<char>, key: SortKey, width: Option<u32>, sort: Sort) -> HeadingModel {
    HeadingModel {
        label: label + (if sort.key != key {
            ""@
        } else if sort.descending {
            "▾"@
        } else {
            "▴"@
        }),
        key,
        width,
    }
}

/// The headings of a table: the namespace where there is one, the name, the
/// kind's own columns, and the age.
pub open spec fn headings_of(columns: Seq<(usize, ColumnModel)>, namespaced: bool, sort: Sort) -> Seq<HeadingModel> {
    (if namespaced {
        seq![heading_of("NAMESPACE"@, SortKey::Namespace, Some(NAMESPACE_WIDTH), sort)]
    } else {
        seq![]
    }) + seq![heading_of("NAME"@, SortKey::Name, None, sort)] + columns.map_values(
        |column: (usize, ColumnModel)| heading_of((column.1).name, SortKey::Cell(column.0), (column.1).width, sort),
    ) + seq![heading_of("AGE"@, SortKey::Age, Some(AGE_WIDTH), sort)]
}

fn heading(label: &str, key: SortKey, width: Option<u32>, sort: Sort) -> (heading: Heading)
    ensures
        heading.deep_view() == heading_of(label@, key, width, sort),
{
    let arrow: &str = match sort.marker(key) {
        Some(arrow) => arrow,
        None => "",
    };
    Heading { label: joined(label.to_owned(), arrow), key, width }
}

/// The headings of a table.
pub fn headings(columns: &Vec<(usize, ColumnSpec)>, namespaced: bool, sort: Sort) -> (all: Vec<Heading>)
    ensures
        all.deep_view() == headings_of(columns.deep_view(), namespaced, sort),
{
    let ghost specs = columns.deep_view();
    let ghost own = |column: (usize, ColumnModel)|
        heading_of((column.1).name, SortKey::Cell(column.0), (column.1).width, sort);
    let mut all: Vec<Heading> = Vec::new();
    if namespaced {
        all.push(heading("NAMESPACE", SortKey::Namespace, Some(NAMESPACE_WIDTH), sort));
    }
    all.push(heading("NAME", SortKey::Name, None, sort));
    let ghost first = all.deep_view();
    let mut at: usize = 0;
    assert(all.deep_view() =~= first + specs.take(0).map_values(own));
    while at < columns.len()
        invariant
            at <= columns.len(),
            specs == columns.deep_view(),
            own == (|column: (usize, ColumnModel)|
                heading_of((column.1).name, SortKey::Cell(column.0), (column.1).width, sort)),
            all.deep_view() == first + specs.take(at as int).map_values(own),
        decreases columns.len() - at,
    {
        let ghost before = all.deep_view();
        let column: &(usize, ColumnSpec) = &columns[at];
        assert(specs[at as int] == column.deep_view());
        all.push(heading(column.1.name.as_str(), SortKey::Cell(column.0), column.1.width, sort));
        assert(all.deep_view() =~= before.push(own(specs[at as int])));
        assert(specs.take(at + 1).map_values(own) =~= specs.take(at as int).map_values(own).push(
            own(specs[at as int]),
        ));
        at += 1;
    }
    assert(specs.take(at as int) =~= specs);
    let ghost before = all.deep_view();
    all.push(heading("AGE", SortKey::Age, Some(AGE_WIDTH), sort));
    proof {
        let last = heading_of("AGE"@, SortKey::Age, Some(AGE_WIDTH), sort);
        assert(all.deep_view() =~= before.push(last));
        if namespaced {
            assert(first =~= seq![
                heading_of("NAMESPACE"@, SortKey::Namespace, Some(NAMESPACE_WIDTH), sort),
                heading_of("NAME"@, SortKey::Name, None, sort),
            ]);
        } else {
            assert(first =~= seq![heading_of("NAME"@, SortKey::Name, None, sort)]);
        }
        assert(all.deep_view() =~= headings_of(specs, namespaced, sort));
    }
    all
}

/// The texts of a row, each with whether the row's state shows in its colour:
/// the namespace where there is a column for it, the name, and the kind's own
/// columns, of which the first carries the state.
pub open spec fn row_texts(
    row: RowModel,
    columns: Seq<(usize, ColumnModel)>,
    namespaced: bool,
) -> Seq<(Seq<char>, bool)> {
    (if namespaced {
        seq![(row.key.namespace, false)]
    } else {
        seq![]
    }) + seq![(row.key.name, false)] + columns.map_values(
        |column: (usize, ColumnModel)| (cell_at(row, column.0 as int).text, column.0 == 0),
    )
}

/// The texts of a row, each with whether the row's state shows in its colour.
pub fn row_cells(row: &ResourceRow, columns: &Vec<(usize, ColumnSpec)>, namespaced: bool) -> (cells: Vec<
    (String, bool),
>)
    ensures
        cells.deep_view() == row_texts(row.deep_view(), columns.deep_view(), namespaced),
{
    let ghost specs = columns.deep_view();
    let ghost model = row.deep_view();
    let ghost own = |column: (usize, ColumnModel)| (cell_at(model, column.0 as int).text, column.0 == 0);
    let mut cells: Vec<(String, bool)> = Vec::new();
    if namespaced {
        cells.push((row.key.namespace.clone(), false));
    }
    cells.push((row.key.name.clone(), false));
    let ghost first = cells.deep_view();
    let mut at: usize = 0;
    assert(cells.deep_view() =~= first + specs.take(0).map_values(own));
    while at < columns.len()
        invariant
            at <= columns.len(),
            specs == columns.deep_view(),
            model == row.deep_view(),
            own == (|column: (usize, ColumnModel)| (cell_at(model, column.0 as int).text, column.0 == 0)),
            cells.deep_view() == first + specs.take(at as int).map_values(own),
        decreases columns.len() - at,
    {
        let ghost before = cells.deep_view();
        let place: usize = columns[at].0;
        assert(specs[at as int] == columns[at as int].deep_view());
        cells.push((row.cell(place).to_owned(), place == 0));
        assert(cells.deep_view() =~= before.push(own(specs[at as int])));
        assert(specs.take(at + 1).map_values(own) =~= specs.take(at as int).map_values(own).push(
            own(specs[at as int]),
        ));
        at += 1;
    }
    proof {
        assert(specs.take(at as int) =~= specs);
        if namespaced {
            assert(first =~= seq![(model.key.namespace, false), (model.key.name, false)]);
        } else {
            assert(first =~= seq![(model.key.name, false)]);
        }
        assert(cells.deep_view() =~= row_texts(model, specs, namespaced));
    }
    cells
}

/// Whether a pane's table has a column for the namespace.
pub open spec fn namespace_column(app: AppModel, pane: PaneModel) -> bool {
    match pane.kind {
        Some(kind) => match known_kind(app.kinds_of(app.focused().cluster), kind) {
            Some(info) => info.namespaced,
            None => true,
        },
        None => true,
    }
}

/// One table of the window.
pub open spec fn pane_view_of(workspace: WorkspaceModel, index: int) -> PaneViewModel {
    let app = workspace.app;
    let pane = app.panes[index];
    let columns = shown_columns(pane, workspace.columns);
    PaneViewModel {
        title: if app.panes.len() > 1 {
            Some(pane_heading(pane))
        } else {
            None
        },
        connection: match pane.cluster {
            Some(cluster) => state_of(app, cluster),
            None => ConnectionStateModel::Idle,
        },
        focused: app.focus == index,
        headings: headings_of(columns, namespace_column(app, pane), pane.sort),
        columns,
        namespaced: namespace_column(app, pane),
        message: if pane.rows.len() == 0 {
            Some(pane_text(app, pane))
        } else {
            None
        },
        opened: match app.detail {
            Some(detail) => Some(detail_key(detail)),
            None => None,
        },
        cursor: pane.cursor,
    }
}

impl Workspace {
    /// One table of the window.
    pub fn pane_view(&self, index: usize) -> (view: PaneView)
        requires
            self.wf(),
            index < self@.app.panes.len(),
        ensures
            view.deep_view() == pane_view_of(self@, index as int),
    {
        let state: &AppState = self.state();
        let panes: &Vec<Pane> = state.panes();
        assert(panes.deep_view().len() == panes.len());
        let pane: &Pane = &panes[index];
        assert(panes.deep_view()[index as int] == pane.deep_view());
        let columns: Vec<(usize, ColumnSpec)> = self.visible_columns(index);
        let namespaced: bool = has_namespace_column(state, pane);
        let shared: Arc<Vec<Arc<ResourceRow>>> = pane.rows_shared();
        assert(shared.deep_view().len() == shared.len());
        PaneView {
            title: if state.is_split() {
                Some(pane_title(pane))
            } else {
                None
            },
            connection: match pane.cluster() {
                Some(cluster) => connection_of(state, cluster),
                None => ConnectionState::Idle,
            },
            focused: state.focus() == index,
            headings: headings(&columns, namespaced, pane.sort()),
            columns,
            namespaced,
            message: if shared.len() == 0 {
                Some(pane_message(state, pane))
            } else {
                None
            },
            opened: match state.detail() {
                Some(detail) => Some(detail.key().dup()),
                None => None,
            },
            cursor: pane.cursor(),
        }
    }
}

// --- the detail pane ------------------------------------------------------------

/// A tab of the detail pane.
#[derive(Clone, Debug, PartialEq, Eq)]
pub struct TabView {
    /// Which part it shows.
    pub tab: DetailTab,
    /// What it says.
    pub label: String,
    /// Whether it is the one that is open.
    pub active: bool,
}

/// What a [`TabView`] holds.
pub struct TabViewModel {
    /// Which part it shows.
    pub tab: DetailTab,
    /// What it says.
    pub label: Seq<char>,
    /// Whether it is the one that is open.
    pub active: bool,
}

impl DeepView for TabView {
    type V = TabViewModel;

    open spec fn deep_view(&self) -> TabViewModel {
        TabViewModel {
            tab: self.tab.deep_view(),
            label: self.label.deep_view(),
            active: self.active.deep_view(),
        }
    }
}

/// What the open tab of the detail pane shows.
#[derive(Clone, Debug, PartialEq, Eq)]
pub enum DetailContent {
    /// The object itself.
    Yaml,
    /// What has happened to it, the latest first.
    Events(Vec<EventRow>),
    /// What owns it.
    Related(Vec<OwnerRow>),
    /// That there is nothing to show.
    Nothing(&'static str),
}

/// What a [`DetailContent`] holds.
pub enum DetailContentModel {
    /// The object itself.
    Yaml,
    /// What has happened to it, the latest first.
    Events(Seq<EventRowModel>),
    /// What owns it.
    Related(Seq<OwnerRowModel>),
    /// That there is nothing to show.
    Nothing(Seq<char>),
}

impl DeepView for DetailContent {
    type V = DetailContentModel;

    open spec fn deep_view(&self) -> DetailContentModel {
        match self {
            DetailContent::Yaml => DetailContentModel::Yaml,
            DetailContent::Events(held) => DetailContentModel::Events(held.deep_view()),
            DetailContent::Related(held) => DetailContentModel::Related(held.deep_view()),
            DetailContent::Nothing(held) => DetailContentModel::Nothing(held.deep_view()),
        }
    }
}

/// What the detail pane shows below its buttons.
#[derive(Clone, Debug, PartialEq, Eq)]
pub enum DetailBody {
    /// That the object is on its way.
    Loading,
    /// Why there is no object.
    Failed(String),
    /// The object.
    Ready {
        /// The tabs.
        tabs: Vec<TabView>,
        /// What the open one shows.
        content: DetailContent,
    },
}

/// What a [`DetailBody`] holds.
pub enum DetailBodyModel {
    /// That the object is on its way.
    Loading,
    /// Why there is no object.
    Failed(Seq<char>),
    /// The object.
    Ready {
        /// The tabs.
        tabs: Seq<TabViewModel>,
        /// What the open one shows.
        content: DetailContentModel,
    },
}

impl DeepView for DetailBody {
    type V = DetailBodyModel;

    open spec fn deep_view(&self) -> DetailBodyModel {
        match self {
            DetailBody::Loading => DetailBodyModel::Loading,
            DetailBody::Failed(held) => DetailBodyModel::Failed(held.deep_view()),
            DetailBody::Ready { tabs, content } => DetailBodyModel::Ready {
                tabs: tabs.deep_view(),
                content: content.deep_view(),
            },
        }
    }
}

/// The pane beside the tables that shows one object.
#[derive(Clone, Debug, PartialEq, Eq)]
pub struct DetailPane {
    /// What it is called.
    pub title: String,
    /// That values are hidden, where they are.
    pub note: Option<&'static str>,
    /// The buttons of what can be done to the object.
    pub actions: Vec<ActionButton>,
    /// Whether it is a pod, with ports to forward and logs to tail.
    pub is_pod: bool,
    /// What the button that picks a container says, where there is a choice.
    pub container: Option<String>,
    /// Why nothing can be run in it or forwarded to it, if nothing can.
    pub refused: Option<String>,
    /// What the button that shows hidden values says, where there are any.
    pub reveal: Option<&'static str>,
    /// What it shows.
    pub body: DetailBody,
}

/// What a [`DetailPane`] holds.
pub struct DetailPaneModel {
    /// What it is called.
    pub title: Seq<char>,
    /// That values are hidden, where they are.
    pub note: Option<Seq<char>>,
    /// The buttons of what can be done to the object.
    pub actions: Seq<ActionButtonModel>,
    /// Whether it is a pod, with ports to forward and logs to tail.
    pub is_pod: bool,
    /// What the button that picks a container says, where there is a choice.
    pub container: Option<Seq<char>>,
    /// Why nothing can be run in it or forwarded to it, if nothing can.
    pub refused: Option<Seq<char>>,
    /// What the button that shows hidden values says, where there are any.
    pub reveal: Option<Seq<char>>,
    /// What it shows.
    pub body: DetailBodyModel,
}

impl DeepView for DetailPane {
    type V = DetailPaneModel;

    open spec fn deep_view(&self) -> DetailPaneModel {
        DetailPaneModel {
            title: self.title.deep_view(),
            note: self.note.deep_view(),
            actions: self.actions.deep_view(),
            is_pod: self.is_pod.deep_view(),
            container: self.container.deep_view(),
            refused: self.refused.deep_view(),
            reveal: self.reveal.deep_view(),
            body: self.body.deep_view(),
        }
    }
}

/// A tab of the detail pane.
pub open spec fn tab_view(tab: DetailTab, open: DetailTab, object: ObjectModel) -> TabViewModel {
    TabViewModel { tab, label: tab_label(tab, object.events.len(), object.owners.len()), active: open == tab }
}

/// The owners of an object, as they are listed.
pub open spec fn owner_list(object: ObjectModel) -> Seq<OwnerRowModel> {
    object.owners.map_values(
        |owner: OwnerModel| owner_row(owner, object.key.namespace),
    )
}

/// What the open tab shows of an object.
pub open spec fn content_of(open: DetailTab, object: ObjectModel) -> DetailContentModel {
    match open {
        DetailTab::Yaml => DetailContentModel::Yaml,
        DetailTab::Events => if object.events.len() == 0 {
            DetailContentModel::Nothing("Nothing has happened to this object recently."@)
        } else {
            DetailContentModel::Events(event_list(object.events))
        },
        DetailTab::Related => if object.owners.len() == 0 {
            DetailContentModel::Nothing("Nothing owns this object."@)
        } else {
            DetailContentModel::Related(owner_list(object))
        },
    }
}

/// What the detail pane shows below its buttons.
pub open spec fn body_of(open: DetailTab, detail: DetailModel) -> DetailBodyModel {
    match detail {
        DetailModel::Loading { .. } => DetailBodyModel::Loading,
        DetailModel::Failed { reason, .. } => DetailBodyModel::Failed(reason),
        DetailModel::Ready { object, .. } => DetailBodyModel::Ready {
            tabs: seq![
                tab_view(DetailTab::Yaml, open, object),
                tab_view(DetailTab::Events, open, object),
                tab_view(DetailTab::Related, open, object),
            ],
            content: content_of(open, object),
        },
    }
}

/// The pane that shows one object, where one is open.
pub open spec fn detail_pane_of(workspace: WorkspaceModel) -> Option<DetailPaneModel> {
    match workspace.app.detail {
        Some(detail) => {
            let pod = pod_kind(detail_kind(detail));
            Some(
                DetailPaneModel {
                    title: detail_heading(detail),
                    note: if masked(detail) {
                        Some("values hidden"@)
                    } else {
                        None
                    },
                    actions: buttons_for(workspace.app, detail),
                    is_pod: pod,
                    container: if pod && workspace.exec_containers.len() > 1 {
                        Some(
                            match workspace.exec_container {
                                Some(container) => container,
                                None => "Default container"@,
                            },
                        )
                    } else {
                        None
                    },
                    refused: changes_refused(workspace.app),
                    reveal: match detail {
                        DetailModel::Ready { object, .. } => if !object.maskable {
                            None
                        } else if object.revealed {
                            Some("Values shown"@)
                        } else {
                            Some("Reveal values"@)
                        },
                        _ => None,
                    },
                    body: body_of(workspace.detail_tab, detail),
                },
            )
        },
        None => None,
    }
}

fn tab_of(tab: DetailTab, open: DetailTab, object: &ObjectDetail) -> (view: TabView)
    ensures
        view.deep_view() == tab_view(tab, open, object.deep_view()),
{
    TabView { tab, label: tab.label(object.events.len(), object.owners.len()), active: open == tab }
}

fn content(open: DetailTab, object: &ObjectDetail) -> (content: DetailContent)
    ensures
        content.deep_view() == content_of(open, object.deep_view()),
{
    match open {
        DetailTab::Yaml => DetailContent::Yaml,
        DetailTab::Events => if object.events.len() == 0 {
            DetailContent::Nothing("Nothing has happened to this object recently.")
        } else {
            DetailContent::Events(event_rows(object))
        },
        DetailTab::Related => if object.owners.len() == 0 {
            DetailContent::Nothing("Nothing owns this object.")
        } else {
            DetailContent::Related(owner_rows(object))
        },
    }
}

impl Workspace {
    /// The pane that shows one object, where one is open.
    pub fn detail_pane(&self) -> (pane: Option<DetailPane>)
        requires
            self.wf(),
        ensures
            pane.deep_view() == detail_pane_of(self@),
    {
        let state: &AppState = self.state();
        let detail: &Detail = match state.detail() {
            Some(detail) => detail,
            None => return None,
        };
        let pod: bool = is_pod(detail);
        let open: DetailTab = self.detail_tab();
        let body: DetailBody = match detail {
            Detail::Loading { .. } => DetailBody::Loading,
            Detail::Failed { reason, .. } => DetailBody::Failed(reason.clone()),
            Detail::Ready { object, .. } => {
                let mut tabs: Vec<TabView> = Vec::new();
                tabs.push(tab_of(DetailTab::Yaml, open, object));
                tabs.push(tab_of(DetailTab::Events, open, object));
                tabs.push(tab_of(DetailTab::Related, open, object));
                assert(tabs.deep_view() =~= seq![
                    tab_view(DetailTab::Yaml, open, object.deep_view()),
                    tab_view(DetailTab::Events, open, object.deep_view()),
                    tab_view(DetailTab::Related, open, object.deep_view()),
                ]);
                DetailBody::Ready { tabs, content: content(open, object) }
            },
        };
        let containers: &Vec<PodContainer> = self.exec_containers();
        assert(containers.deep_view().len() == containers.len());
        let container: Option<String> = if pod && containers.len() > 1 {
            Some(
                match self.exec_container() {
                    Some(container) => container.clone(),
                    None => "Default container".to_owned(),
                },
            )
        } else {
            None
        };
        Some(
            DetailPane {
                title: detail_title(detail),
                note: if is_masked(detail) {
                    Some("values hidden")
                } else {
                    None
                },
                actions: buttons(state, detail),
                is_pod: pod,
                container,
                refused: refused_changes(state),
                reveal: reveal_label(detail),
                body,
            },
        )
    }
}

// --- panes of lines -------------------------------------------------------------

/// What a pane of lines shows.
#[derive(Clone, Debug, PartialEq, Eq)]
pub enum LinesBody {
    /// What it says in place of lines.
    Message(&'static str),
    /// Some of the lines, each on as many rows as it takes.
    Wrapped {
        /// The first of them.
        start: usize,
        /// The one after the last.
        end: usize,
        /// Whether each is shown with its source.
        sources: bool,
    },
    /// All of the lines, each on a row of its own.
    List {
        /// Whether each is shown with its source.
        sources: bool,
    },
}

/// What a [`LinesBody`] holds.
pub enum LinesBodyModel {
    /// What it says in place of lines.
    Message(Seq<char>),
    /// Some of the lines, each on as many rows as it takes.
    Wrapped {
        /// The first of them.
        start: usize,
        /// The one after the last.
        end: usize,
        /// Whether each is shown with its source.
        sources: bool,
    },
    /// All of the lines, each on a row of its own.
    List {
        /// Whether each is shown with its source.
        sources: bool,
    },
}

impl DeepView for LinesBody {
    type V = LinesBodyModel;

    open spec fn deep_view(&self) -> LinesBodyModel {
        match self {
            LinesBody::Message(held) => LinesBodyModel::Message(held.deep_view()),
            LinesBody::Wrapped { start, end, sources } => LinesBodyModel::Wrapped {
                start: start.deep_view(),
                end: end.deep_view(),
                sources: sources.deep_view(),
            },
            LinesBody::List { sources } => LinesBodyModel::List {
                sources: sources.deep_view(),
            },
        }
    }
}

/// The pane of a tail.
#[derive(Clone, Debug, PartialEq, Eq)]
pub struct LogPane {
    /// What it is called.
    pub title: String,
    /// What stands beside that.
    pub status: String,
    /// What the button that follows the newest line says.
    pub following: &'static str,
    /// What the button of regular expressions says.
    pub regex: &'static str,
    /// What the button of case says.
    pub case: &'static str,
    /// What the button of the previous container says.
    pub version: &'static str,
    /// What the button of wrapping says.
    pub wrap: &'static str,
    /// What the button of the order says.
    pub order: &'static str,
    /// What stands over the lines, and whether it is a complaint.
    pub notice: Option<(String, bool)>,
    /// The sources, each with whether it is dimmed.
    pub legend: Vec<(String, bool)>,
    /// What is said about the sources that are not named.
    pub more: Option<String>,
    /// What it shows.
    pub body: LinesBody,
}

/// What a [`LogPane`] holds.
pub struct LogPaneModel {
    /// What it is called.
    pub title: Seq<char>,
    /// What stands beside that.
    pub status: Seq<char>,
    /// What the button that follows the newest line says.
    pub following: Seq<char>,
    /// What the button of regular expressions says.
    pub regex: Seq<char>,
    /// What the button of case says.
    pub case: Seq<char>,
    /// What the button of the previous container says.
    pub version: Seq<char>,
    /// What the button of wrapping says.
    pub wrap: Seq<char>,
    /// What the button of the order says.
    pub order: Seq<char>,
    /// What stands over the lines, and whether it is a complaint.
    pub notice: Option<(Seq<char>, bool)>,
    /// The sources, each with whether it is dimmed.
    pub legend: Seq<(Seq<char>, bool)>,
    /// What is said about the sources that are not named.
    pub more: Option<Seq<char>>,
    /// What it shows.
    pub body: LinesBodyModel,
}

impl DeepView for LogPane {
    type V = LogPaneModel;

    open spec fn deep_view(&self) -> LogPaneModel {
        LogPaneModel {
            title: self.title.deep_view(),
            status: self.status.deep_view(),
            following: self.following.deep_view(),
            regex: self.regex.deep_view(),
            case: self.case.deep_view(),
            version: self.version.deep_view(),
            wrap: self.wrap.deep_view(),
            order: self.order.deep_view(),
            notice: self.notice.deep_view(),
            legend: self.legend.deep_view(),
            more: self.more.deep_view(),
            body: self.body.deep_view(),
        }
    }
}

/// The pane of a command's output.
#[derive(Clone, Debug, PartialEq, Eq)]
pub struct CommandPane {
    /// What it is called.
    pub title: String,
    /// How the command is doing.
    pub status: String,
    /// Whether it ended badly.
    pub failed: bool,
    /// Whether it can still be stopped.
    pub running: bool,
    /// What the button of regular expressions says.
    pub regex: &'static str,
    /// What the button of case says.
    pub case: &'static str,
    /// How many lines there are.
    pub lines: String,
    /// What stands over the lines, and whether it is a complaint.
    pub notice: Option<(String, bool)>,
    /// What it shows.
    pub body: LinesBody,
}

/// What a [`CommandPane`] holds.
pub struct CommandPaneModel {
    /// What it is called.
    pub title: Seq<char>,
    /// How the command is doing.
    pub status: Seq<char>,
    /// Whether it ended badly.
    pub failed: bool,
    /// Whether it can still be stopped.
    pub running: bool,
    /// What the button of regular expressions says.
    pub regex: Seq<char>,
    /// What the button of case says.
    pub case: Seq<char>,
    /// How many lines there are.
    pub lines: Seq<char>,
    /// What stands over the lines, and whether it is a complaint.
    pub notice: Option<(Seq<char>, bool)>,
    /// What it shows.
    pub body: LinesBodyModel,
}

impl DeepView for CommandPane {
    type V = CommandPaneModel;

    open spec fn deep_view(&self) -> CommandPaneModel {
        CommandPaneModel {
            title: self.title.deep_view(),
            status: self.status.deep_view(),
            failed: self.failed.deep_view(),
            running: self.running.deep_view(),
            regex: self.regex.deep_view(),
            case: self.case.deep_view(),
            lines: self.lines.deep_view(),
            notice: self.notice.deep_view(),
            body: self.body.deep_view(),
        }
    }
}

/// What the button of regular expressions says.
pub open spec fn regex_text(on: bool) -> Seq<char> {
    if on {
        ".* on"@
    } else {
        ".* off"@
    }
}

/// What the button of case says.
pub open spec fn case_text(sensitive: bool) -> Seq<char> {
    if sensitive {
        "Aa"@
    } else {
        "aa"@
    }
}

fn regex_label(on: bool) -> (label: &'static str)
    ensures
        label@ == regex_text(on),
{
    if on {
        ".* on"
    } else {
        ".* off"
    }
}

fn case_label(sensitive: bool) -> (label: &'static str)
    ensures
        label@ == case_text(sensitive),
{
    if sensitive {
        "Aa"
    } else {
        "aa"
    }
}

/// Whether the lines of a tail are shown with their sources.
pub open spec fn source_shown(session: LogSessionModel) -> bool {
    session.buffer.sources.len() > 1 || session.target.selector is Labels
}

/// What a tail shows: while long lines wrap, a window of the lines.
pub open spec fn tail_body(workspace: WorkspaceModel, session: LogSessionModel) -> LinesBodyModel {
    let shown = session.buffer.shown().len();
    let start = wrap_start(shown as usize, workspace.log_anchor);
    if shown == 0 {
        LinesBodyModel::Message(tail_empty_text(session.buffer))
    } else if workspace.log_wrap {
        LinesBodyModel::Wrapped {
            start: start as usize,
            end: if start + WRAP_LIMIT < shown {
                (start + WRAP_LIMIT) as usize
            } else {
                shown as usize
            },
            sources: source_shown(session),
        }
    } else {
        LinesBodyModel::List { sources: source_shown(session) }
    }
}

/// The pane of the tail, where one is open.
pub open spec fn log_pane_of(workspace: WorkspaceModel) -> Option<LogPaneModel> {
    match workspace.app.logs {
        Some(session) => {
            let buffer = session.buffer;
            Some(
                LogPaneModel {
                    title: "logs · "@ + log_target_label(session.target),
                    status: tail_text(buffer),
                    following: if session.following {
                        "Following"@
                    } else {
                        "Paused"@
                    },
                    regex: regex_text(buffer.filter.regex),
                    case: case_text(buffer.filter.case_sensitive),
                    version: if session.target.previous {
                        "Previous"@
                    } else {
                        "Current"@
                    },
                    wrap: if workspace.log_wrap {
                        "Wrap on"@
                    } else {
                        "Wrap off"@
                    },
                    order: if buffer.order == LogOrder::Timestamp {
                        "By time"@
                    } else {
                        "By arrival"@
                    },
                    notice: tail_notice_text(workspace, buffer),
                    legend: chips_of(buffer.sources),
                    more: overflow_of(buffer.sources.len()),
                    body: tail_body(workspace, session),
                },
            )
        },
        None => None,
    }
}

/// The pane of the command's output, where one is open.
pub open spec fn exec_pane_of(workspace: WorkspaceModel) -> Option<CommandPaneModel> {
    match workspace.app.exec_session {
        Some(session) => {
            let buffer = session.buffer;
            Some(
                CommandPaneModel {
                    title: "exec · "@ + exec_label(session.target),
                    status: exec_summary(session),
                    failed: match session.status {
                        Some(status) => exec_problem(status),
                        None => false,
                    },
                    running: session.status is None,
                    regex: regex_text(buffer.filter.regex),
                    case: case_text(buffer.filter.case_sensitive),
                    lines: line_count_text(buffer),
                    notice: command_notice_text(workspace, buffer),
                    body: if buffer.shown().len() == 0 {
                        LinesBodyModel::Message(command_empty_text(session))
                    } else {
                        LinesBodyModel::List { sources: true }
                    },
                },
            )
        },
        None => None,
    }
}

impl Workspace {
    /// The pane of the tail, where one is open.
    pub fn log_pane(&self) -> (pane: Option<LogPane>)
        requires
            self.wf(),
        ensures
            pane.deep_view() == log_pane_of(self@),
    {
        let session: &LogSession = match self.state().logs() {
            Some(session) => session,
            None => return None,
        };
        let buffer: &LogBuffer = &session.buffer;
        let sources: bool = shows_source(session);
        let shown: usize = buffer.visible_len();
        let wraps: bool = self.wraps();
        let body: LinesBody = if shown == 0 {
            LinesBody::Message(tail_message(buffer))
        } else if wraps {
            let window: std::ops::Range<usize> = wrap_window(shown, self.anchor());
            LinesBody::Wrapped { start: window.start, end: window.end, sources }
        } else {
            LinesBody::List { sources }
        };
        let all: Vec<(&LogSource, &LogSourceState)> = buffer.sources();
        let (chips, more) = legend(&all);
        Some(
            LogPane {
                title: joined("logs · ".to_owned(), session.target.label().as_str()),
                status: tail_status(buffer),
                following: if session.following {
                    "Following"
                } else {
                    "Paused"
                },
                regex: regex_label(buffer.filter().regex),
                case: case_label(buffer.filter().case_sensitive),
                version: if session.target.previous {
                    "Previous"
                } else {
                    "Current"
                },
                wrap: if wraps {
                    "Wrap on"
                } else {
                    "Wrap off"
                },
                order: match buffer.order() {
                    LogOrder::Timestamp => "By time",
                    LogOrder::Arrival => "By arrival",
                },
                notice: tail_notice(self, buffer),
                legend: chips,
                more,
                body,
            },
        )
    }

    /// The pane of the command's output, where one is open.
    pub fn exec_pane(&self) -> (pane: Option<CommandPane>)
        requires
            self.wf(),
        ensures
            pane.deep_view() == exec_pane_of(self@),
    {
        let session: &ExecSession = match self.state().exec_session() {
            Some(session) => session,
            None => return None,
        };
        let buffer: &LogBuffer = &session.buffer;
        Some(
            CommandPane {
                title: joined("exec · ".to_owned(), session.target.label().as_str()),
                status: session.summary(),
                failed: command_failed(session),
                running: session.is_running(),
                regex: regex_label(buffer.filter().regex),
                case: case_label(buffer.filter().case_sensitive),
                lines: line_count(buffer),
                notice: command_notice(self, buffer),
                body: if buffer.visible_len() == 0 {
                    LinesBody::Message(command_message(session))
                } else {
                    LinesBody::List { sources: true }
                },
            },
        )
    }
}

// --- forwards -------------------------------------------------------------------

/// A port forward in the list of them, and which it is.
#[derive(Clone, Debug, PartialEq, Eq)]
pub struct ForwardEntry {
    /// The cluster it leads to.
    pub cluster: ClusterId,
    /// Which of its forwards it is.
    pub id: ForwardId,
    /// How it is listed.
    pub row: ForwardRow,
}

/// What a [`ForwardEntry`] holds.
pub struct ForwardEntryModel {
    /// The cluster it leads to.
    pub cluster: Seq<char>,
    /// Which of its forwards it is.
    pub id: ForwardId,
    /// How it is listed.
    pub row: ForwardRowModel,
}

impl DeepView for ForwardEntry {
    type V = ForwardEntryModel;

    open spec fn deep_view(&self) -> ForwardEntryModel {
        ForwardEntryModel {
            cluster: self.cluster.deep_view(),
            id: self.id.deep_view(),
            row: self.row.deep_view(),
        }
    }
}

/// A forward in the list of them.
pub open spec fn forward_entry_of(entry: (Seq<char>, ForwardInfoModel)) -> ForwardEntryModel {
    ForwardEntryModel { cluster: entry.0, id: (entry.1).id, row: forward_row(entry) }
}

/// The list of forwards, where it is open and there are any.
pub open spec fn forwards_panel_of(workspace: WorkspaceModel) -> Option<Seq<ForwardEntryModel>> {
    if !workspace.forwards_open || workspace.app.forwards.len() == 0 {
        None
    } else {
        Some(
            workspace.app.forwards.map_values(forward_entry()).map_values(
                |entry: (Seq<char>, ForwardInfoModel)| forward_entry_of(entry),
            ),
        )
    }
}

impl Workspace {
    /// The list of forwards, where it is open and there are any.
    pub fn forwards_panel(&self) -> (panel: Option<Vec<ForwardEntry>>)
        requires
            self.wf(),
        ensures
            panel.deep_view() == forwards_panel_of(self@),
    {
        let state: &AppState = self.state();
        if !self.forwards_open() || state.forward_count() == 0 {
            return None;
        }
        let forwards: Vec<(&ClusterId, &Arc<ForwardInfo>)> = state.forwards();
        let ghost all = forwards.deep_view();
        let ghost listed = |entry: (Seq<char>, ForwardInfoModel)| forward_entry_of(entry);
        let mut entries: Vec<ForwardEntry> = Vec::new();
        let mut at: usize = 0;
        assert(entries.deep_view() =~= all.take(0).map_values(listed));
        while at < forwards.len()
            invariant
                at <= forwards.len(),
                all == forwards.deep_view(),
                listed == (|entry: (Seq<char>, ForwardInfoModel)| forward_entry_of(entry)),
                entries.deep_view() == all.take(at as int).map_values(listed),
            decreases forwards.len() - at,
        {
            let ghost before = entries.deep_view();
            let (cluster, forward) = forwards[at];
            assert(all[at as int] == (cluster.deep_view(), forward.deep_view()));
            entries.push(
                ForwardEntry { cluster: cluster.dup(), id: forward.id, row: describe_forward(cluster, forward) },
            );
            assert(entries.deep_view() =~= before.push(listed(all[at as int])));
            assert(all.take(at + 1).map_values(listed) =~= before.push(listed(all[at as int])));
            at += 1;
        }
        assert(all.take(at as int) =~= all);
        Some(entries)
    }
}

// --- what waits for an answer ---------------------------------------------------

/// The question in front of everything.
#[derive(Clone, Debug, PartialEq, Eq)]
pub struct Confirmation {
    /// What is about to be done, and to what.
    pub sentence: String,
    /// What is wrong with the cluster, if anything is.
    pub health: Option<String>,
    /// What more there is to say.
    pub warning: Option<&'static str>,
    /// What the button that agrees says.
    pub verb: &'static str,
    /// Whether that button is the red one.
    pub destructive: bool,
}

/// What a [`Confirmation`] holds.
pub struct ConfirmationModel {
    /// What is about to be done, and to what.
    pub sentence: Seq<char>,
    /// What is wrong with the cluster, if anything is.
    pub health: Option<Seq<char>>,
    /// What more there is to say.
    pub warning: Option<Seq<char>>,
    /// What the button that agrees says.
    pub verb: Seq<char>,
    /// Whether that button is the red one.
    pub destructive: bool,
}

impl DeepView for Confirmation {
    type V = ConfirmationModel;

    open spec fn deep_view(&self) -> ConfirmationModel {
        ConfirmationModel {
            sentence: self.sentence.deep_view(),
            health: self.health.deep_view(),
            warning: self.warning.deep_view(),
            verb: self.verb.deep_view(),
            destructive: self.destructive.deep_view(),
        }
    }
}

/// The question in front of everything, where something waits for an answer.
pub open spec fn confirmation_of(workspace: WorkspaceModel) -> Option<ConfirmationModel> {
    match workspace.pending {
        Some(proposal) => Some(
            ConfirmationModel {
                sentence: proposal_sentence(proposal),
                health: health_text(workspace.app, proposal),
                warning: proposal_warning(proposal),
                verb: proposal_verb(proposal),
                destructive: proposal_destructive(proposal),
            },
        ),
        None => None,
    }
}

/// What an action of the detail pane puts in front of somebody: a change to the
/// object it shows. Scaling needs a number that was typed, and a button that is
/// disabled does nothing.
pub open spec fn acting(
    workspace: WorkspaceModel,
    action: Action,
    replicas: Seq<char>,
    yaml: Seq<char>,
) -> WorkspaceModel {
    match workspace.app.detail {
        Some(detail) => if action_refused(workspace.app, detail, action) is Some {
            workspace
        } else {
            let (kind, key) = (detail_kind(detail), detail_key(detail));
            match action {
                Action::Scale => match replicas_typed(replicas) {
                    Some(wanted) => workspace.proposing(
                        MutationModel::Scale {
                            kind,
                            key,
                            replicas: wanted as u32,
                            current: match replicas_shown(workspace.app.focused().rows, key) {
                                Some(current) => Some(current as u32),
                                None => None,
                            },
                        },
                    ),
                    None => WorkspaceModel {
                        last_error: Some("Type a replica count next to Scale first."@),
                        ..workspace
                    },
                },
                Action::Restart => workspace.proposing(MutationModel::Restart { kind, key }),
                Action::Drain => workspace.proposing(MutationModel::Drain { node: key.name, grace_period: None }),
                Action::Cordon => workspace.proposing(MutationModel::Cordon { node: key.name, cordon: true }),
                Action::Uncordon => workspace.proposing(MutationModel::Cordon { node: key.name, cordon: false }),
                Action::DryRun => workspace.proposing(MutationModel::Apply { kind, key, yaml, dry_run: true }),
                Action::Apply => workspace.proposing(MutationModel::Apply { kind, key, yaml, dry_run: false }),
                Action::Delete => workspace.proposing(MutationModel::Delete { kind, key, grace_period: None }),
            }
        },
        None => workspace,
    }
}

impl Workspace {
    /// The question in front of everything, where something waits for an answer.
    pub fn confirmation(&self) -> (question: Option<Confirmation>)
        requires
            self.wf(),
        ensures
            question.deep_view() == confirmation_of(self@),
    {
        match self.pending() {
            Some(proposal) => Some(
                Confirmation {
                    sentence: proposal.confirmation(),
                    health: cluster_health(self.state(), proposal),
                    warning: proposal.warning(),
                    verb: proposal.verb(),
                    destructive: proposal.is_destructive(),
                },
            ),
            None => None,
        }
    }

    /// Puts an action of the detail pane in front of somebody, with what was
    /// typed next to Scale and what the editor holds.
    pub fn act(&mut self, action: Action, replicas: &str, yaml: String)
        requires
            old(self).wf(),
        ensures
            final(self).wf(),
            final(self)@ == acting(old(self)@, action, replicas@, yaml@),
    {
        let (kind, key) = match self.state().detail() {
            Some(detail) => {
                if refused_action(self.state(), detail, action).is_some() {
                    return;
                }
                (detail.kind().dup(), detail.key().dup())
            },
            None => return,
        };
        let mutation: Mutation = match action {
            Action::Scale => match typed_replicas(replicas) {
                Some(wanted) => {
                    let current: Option<u32> = self.current_replicas(&key);
                    Mutation::Scale { kind, key, replicas: wanted, current }
                },
                None => {
                    self.report("Type a replica count next to Scale first.".to_owned());
                    return;
                },
            },
            Action::Restart => Mutation::Restart { kind, key },
            Action::Drain => Mutation::Drain { node: key.name, grace_period: None },
            Action::Cordon => Mutation::Cordon { node: key.name, cordon: true },
            Action::Uncordon => Mutation::Cordon { node: key.name, cordon: false },
            Action::DryRun => Mutation::Apply { kind, key, yaml, dry_run: true },
            Action::Apply => Mutation::Apply { kind, key, yaml, dry_run: false },
            Action::Delete => Mutation::Delete { kind, key, grace_period: None },
        };
        self.propose(mutation);
    }
}

// --- the palette ----------------------------------------------------------------

/// A result of the palette.
#[derive(Clone, Debug, PartialEq, Eq)]
pub struct PaletteRow {
    /// What it is.
    pub label: String,
    /// What else there is to say.
    pub detail: String,
    /// Whether it is where Enter leads.
    pub selected: bool,
}

/// What a [`PaletteRow`] holds.
pub struct PaletteRowModel {
    /// What it is.
    pub label: Seq<char>,
    /// What else there is to say.
    pub detail: Seq<char>,
    /// Whether it is where Enter leads.
    pub selected: bool,
}

impl DeepView for PaletteRow {
    type V = PaletteRowModel;

    open spec fn deep_view(&self) -> PaletteRowModel {
        PaletteRowModel {
            label: self.label.deep_view(),
            detail: self.detail.deep_view(),
            selected: self.selected.deep_view(),
        }
    }
}

/// How many results the palette lists.
pub const PALETTE_SHOWN: usize = 12;

/// A result of the palette.
pub open spec fn palette_row(matches: Seq<MatchModel>, index: usize, at: int) -> PaletteRowModel {
    PaletteRowModel {
        label: matches[at].candidate.label,
        detail: matches[at].candidate.detail,
        selected: at == index,
    }
}

/// The results the palette lists, where it is open: the first of those it has.
pub open spec fn palette_rows(workspace: WorkspaceModel) -> Option<Seq<PaletteRowModel>> {
    let matches = workspace.palette_matches;
    let listed = if matches.len() > PALETTE_SHOWN {
        PALETTE_SHOWN as nat
    } else {
        matches.len()
    };
    if workspace.palette_open {
        Some(Seq::new(listed, |at: int| palette_row(matches, workspace.palette_index, at)))
    } else {
        None
    }
}

impl Workspace {
    /// The results the palette lists, where it is open.
    pub fn palette_overlay(&self) -> (results: Option<Vec<PaletteRow>>)
        requires
            self.wf(),
        ensures
            results.deep_view() == palette_rows(self@),
    {
        if !self.palette_open() {
            return None;
        }
        let matches: &Vec<Match> = self.palette_matches();
        let index: usize = self.palette_index();
        let ghost all = matches.deep_view();
        let listed: usize = if matches.len() > PALETTE_SHOWN {
            PALETTE_SHOWN
        } else {
            matches.len()
        };
        let mut results: Vec<PaletteRow> = Vec::new();
        let mut at: usize = 0;
        while at < listed
            invariant
                at <= listed <= matches.len(),
                all == matches.deep_view(),
                results.deep_view() =~= Seq::new(at as nat, |i: int| palette_row(all, index, i)),
            decreases listed - at,
        {
            let found: &Match = &matches[at];
            assert(all[at as int] == found.deep_view());
            let ghost before = results.deep_view();
            results.push(
                PaletteRow {
                    label: found.candidate.label.clone(),
                    detail: found.candidate.detail.clone(),
                    selected: at == index,
                },
            );
            assert(results.deep_view() =~= before.push(palette_row(all, index, at as int)));
            at += 1;
        }
        assert(results.deep_view() =~= palette_rows(self@)->0);
        Some(results)
    }
}

// --- the footer -----------------------------------------------------------------

/// What stands below everything.
#[derive(Clone, Debug, PartialEq, Eq)]
pub struct Footer {
    /// What was done last, and whether it went wrong.
    pub activity: Option<(String, bool)>,
    /// What is held.
    pub held: Vec<String>,
    /// What the event pump did.
    pub pump: String,
}

/// What a [`Footer`] holds.
pub struct FooterModel {
    /// What was done last, and whether it went wrong.
    pub activity: Option<(Seq<char>, bool)>,
    /// What is held.
    pub held: Seq<Seq<char>>,
    /// What the event pump did.
    pub pump: Seq<char>,
}

impl DeepView for Footer {
    type V = FooterModel;

    open spec fn deep_view(&self) -> FooterModel {
        FooterModel {
            activity: self.activity.deep_view(),
            held: self.held.deep_view(),
            pump: self.pump.deep_view(),
        }
    }
}

/// What stands below everything.
pub open spec fn footer_of(workspace: WorkspaceModel) -> FooterModel {
    FooterModel {
        activity: if workspace.app.activity.len() > 0 {
            let last = workspace.app.activity[0];
            Some((activity_text(last), !(last.outcome is Applied)))
        } else {
            None
        },
        held: held_text(workspace.app),
        pump: stats_text(workspace.stats),
    }
}

impl Workspace {
    /// What stands below everything.
    pub fn footer(&self) -> (footer: Footer)
        requires
            self.wf(),
        ensures
            footer.deep_view() == footer_of(self@),
    {
        let state: &AppState = self.state();
        Footer { activity: activity_line(state), held: held_lines(state), pump: stats_line(self.stats()) }
    }
}

// --- a frame --------------------------------------------------------------------

/// What takes the place between the sidebar and the detail pane.
#[derive(Clone, Copy, Debug, PartialEq, Eq, Structural)]
pub enum MainPane {
    /// The output of a command.
    Command,
    /// A tail.
    Logs,
    /// The tables.
    Tables,
}

/// What a frame needs beside what each part of the window holds.
#[derive(Debug)]
pub struct Frame {
    /// When each row behind the focused pane last changed, if that was lately.
    pub changed: Arc<OrdMap<ResourceKey, Instant>>,
    /// The lines the tail shows.
    pub log_lines: Arc<Vec<Arc<LogLine>>>,
    /// The lines the command's output shows.
    pub exec_lines: Arc<Vec<Arc<LogLine>>>,
    /// The line the tail scrolls to.
    pub scroll_logs: Option<usize>,
    /// The line the command's output scrolls to.
    pub scroll_command: Option<usize>,
    /// What takes the main place.
    pub main: MainPane,
    /// Which keys are listened to.
    pub keys: &'static str,
}

/// How many lines of the tail are shown.
pub open spec fn tail_shown(workspace: WorkspaceModel) -> nat {
    match workspace.app.logs {
        Some(session) => session.buffer.shown().len(),
        None => 0,
    }
}

/// How many lines of a command's output are shown.
pub open spec fn output_shown(workspace: WorkspaceModel) -> nat {
    match workspace.app.exec_session {
        Some(session) => session.buffer.shown().len(),
        None => 0,
    }
}

/// The console once a frame is drawn: changes that are too old are forgotten,
/// the object in the detail pane is the one whose YAML is shown, and what was
/// scrolled to is known.
pub open spec fn drawn(
    workspace: WorkspaceModel,
    containers: Seq<ContainerModel>,
    now: Instant,
    window: Duration,
) -> WorkspaceModel {
    let pruned = workspace.with_app(workspace.app.pruned(workspace.app.focus as int, now, window));
    WorkspaceModel {
        log_visible: tail_shown(workspace) as usize,
        exec_visible: output_shown(workspace) as usize,
        ..pruned.yaml_synced(containers)
    }
}

/// What takes the main place: a command's output before a tail, and a tail
/// before the tables.
pub open spec fn main_pane(workspace: WorkspaceModel) -> MainPane {
    if workspace.app.exec_session is Some {
        MainPane::Command
    } else if workspace.app.logs is Some {
        MainPane::Logs
    } else {
        MainPane::Tables
    }
}

impl Workspace {
    /// Draws a frame: what changed within the last `window`, the lines to show
    /// and where to scroll, given the containers of the object whose YAML is to
    /// be shown next.
    pub fn frame(&mut self, containers: Vec<PodContainer>, now: Instant, window: Duration) -> (frame: Frame)
        requires
            old(self).wf(),
        ensures
            final(self).wf(),
            final(self)@ == drawn(old(self)@, containers.deep_view(), now, window),
            frame.changed@ == old(self)@.app.recent_changes(old(self)@.app.focus as int, now, window),
            frame.log_lines.deep_view() == (match old(self)@.app.logs {
                Some(session) => session.buffer.shown_lines(),
                None => seq![],
            }),
            frame.exec_lines.deep_view() == (match old(self)@.app.exec_session {
                Some(session) => session.buffer.shown_lines(),
                None => seq![],
            }),
            frame.scroll_logs == (match old(self)@.app.logs {
                Some(session) => if session.following && tail_shown(old(self)@) > 0 && tail_shown(old(self)@)
                    != old(self)@.log_visible {
                    Some((tail_shown(old(self)@) - 1) as usize)
                } else {
                    None
                },
                None => None,
            }),
            frame.scroll_command == (if output_shown(old(self)@) > 0 && output_shown(old(self)@) != old(
                self,
            )@.exec_visible {
                Some((output_shown(old(self)@) - 1) as usize)
            } else {
                None
            }),
            frame.main == main_pane(old(self)@),
            frame.keys@ == (if old(self)@.palette_open {
                "Palette"@
            } else {
                "Periscope"@
            }),
    {
        let changed: Arc<OrdMap<ResourceKey, Instant>> = self.recent_changes(now, window);
        let log_lines: Arc<Vec<Arc<LogLine>>> = self.log_lines();
        let exec_lines: Arc<Vec<Arc<LogLine>>> = self.exec_lines();
        self.sync_yaml(containers);
        let scroll_logs: Option<usize> = self.follow_logs();
        let scroll_command: Option<usize> = self.follow_command();
        let main: MainPane = if self.state().exec_session().is_some() {
            MainPane::Command
        } else if self.state().logs().is_some() {
            MainPane::Logs
        } else {
            MainPane::Tables
        };
        let keys: &'static str = if self.palette_open() {
            "Palette"
        } else {
            "Periscope"
        };
        Frame { changed, log_lines, exec_lines, scroll_logs, scroll_command, main, keys }
    }
}

// --- laws -----------------------------------------------------------------------

/// A click on an action changes nothing and sends nothing: it puts a question
/// about the cluster on screen in front of somebody, or says what is missing.
pub proof fn actions_only_ask(workspace: WorkspaceModel, action: Action, replicas: Seq<char>, yaml: Seq<char>)
    ensures
        ({
            let after = acting(workspace, action, replicas, yaml);
            &&& after.outbox == workspace.outbox
            &&& after.app == workspace.app
            &&& after.pending != workspace.pending ==> after.pending is Some && workspace.app.focused().cluster == Some(
                proposal_cluster(after.pending->0),
            )
        }),
{
}

/// What hides values is never sent in their place.
pub proof fn masks_are_never_applied(workspace: WorkspaceModel, action: Action, replicas: Seq<char>, yaml: Seq<char>)
    requires
        workspace.app.detail matches Some(detail) && masked(detail),
        action == Action::Apply || action == Action::DryRun,
    ensures
        acting(workspace, action, replicas, yaml) == workspace,
{
}

/// Drawing a frame sends nothing and leaves on screen what is there.
pub proof fn drawing_sends_nothing(
    workspace: WorkspaceModel,
    containers: Seq<ContainerModel>,
    now: Instant,
    window: Duration,
)
    ensures
        ({
            let after = drawn(workspace, containers, now, window);
            &&& after.outbox == workspace.outbox
            &&& after.app.panes == workspace.app.panes
            &&& after.app.detail == workspace.app.detail
            &&& main_pane(after) == main_pane(workspace)
        }),
{
}

/// Drawing a second frame at once scrolls nowhere and reads no YAML again.
pub proof fn a_second_frame_is_still(
    workspace: WorkspaceModel,
    containers: Seq<ContainerModel>,
    now: Instant,
    window: Duration,
)
    ensures
        ({
            let after = drawn(workspace, containers, now, window);
            &&& after.unshown() is None
            &&& after.log_visible == tail_shown(after) as usize
            &&& after.exec_visible == output_shown(after) as usize
        }),
{
}

} // verus!

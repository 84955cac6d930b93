//! What somebody in front of a console reads, and where it comes from.

use crate::console::WorkspaceModel;
use crate::deeds::{allowed, hides_values, is_about};
use crate::events::CommandError;
use crate::keyed::lookup;
use crate::logview::{wrap_start, WRAP_LIMIT};
use crate::model::{AppModel, DetailModel, ExecSessionModel, PaneModel};
use crate::mutation::{mutation_confirmation, MutationModel};
use crate::objects::{
    kind_label, ColumnModel, ContainerModel, EventLineModel, KeyModel, KindInfoModel, KindModel, ObjectModel, OwnerModel,
    RowModel,
};
use crate::panes::{
    confirmation_of, content_of, detail_pane_of, header_of, headings_of, log_pane_of, main_pane, palette_rows,
    pane_view_of, row_texts, tail_body, LinesBodyModel, MainPane,
};
use crate::proposal::ProposalModel;
use crate::rows::{Sort, SortKey};
use crate::sessions::{
    exec_confirmation, spaced, ConnectionStateModel, ExecTargetModel, ForwardInfoModel, ForwardStateModel,
};
use crate::text::{a_text_holds_its_parts, decimal, holds, lowercase};
use crate::views::{
    action_refused, banner_text, container_entries, event_list, forward_row, namespace_entries, owner_row, section_rows,
    Action, SidebarRowModel,
};
use crate::wording::{empty_text, DetailTab};
use vstd::prelude::*;

verus! {

// --- questions --------------------------------------------------------------------

/// A text holds whatever a part of it holds.
proof fn parts_of_parts(start: Seq<char>, part: Seq<char>, end: Seq<char>, inner: Seq<char>)
    requires
        holds(part, inner),
    ensures
        holds(start + part + end, inner),
{
    let at = choose|at: int| 0 <= at <= part.len() - inner.len() && #[trigger] part.subrange(at, at + inner.len()) == inner;
    let whole = start + part + end;
    let place = start.len() + at;
    assert(whole.subrange(place, place + inner.len()) =~= part.subrange(at, at + inner.len()));
}

/// The object a change is to, in the words of its kind and its name.
pub open spec fn is_change_to(mutation: MutationModel, kind: KindModel, key: KeyModel) -> bool {
    match mutation {
        MutationModel::Delete { kind: k, key: y, .. } => k == kind && y == key,
        MutationModel::Scale { kind: k, key: y, .. } => k == kind && y == key,
        MutationModel::Restart { kind: k, key: y } => k == kind && y == key,
        MutationModel::Apply { kind: k, key: y, .. } => k == kind && y == key,
        _ => false,
    }
}

/// The question about a change to an object names its kind, its name, its
/// namespace and the cluster.
pub proof fn a_question_names_what_it_is_about(
    mutation: MutationModel,
    kind: KindModel,
    key: KeyModel,
    cluster: Seq<char>,
)
    requires
        is_change_to(mutation, kind, key),
    ensures
        ({
            let sentence = mutation_confirmation(mutation, cluster);
            &&& holds(sentence, cluster)
            &&& holds(sentence, key.name)
            &&& holds(sentence, kind.plural)
            &&& holds(sentence, kind.group)
            &&& key.namespace.len() > 0 ==> holds(sentence, key.namespace)
            &&& sentence.last() == '?'
        }),
{
    reveal_strlit("?");
    let sentence = mutation_confirmation(mutation, cluster);
    let object = crate::mutation::object_text(mutation);
    let ask = match mutation {
        MutationModel::Delete { .. } => "Delete "@,
        MutationModel::Scale { .. } => "Scale "@,
        MutationModel::Restart { .. } => "Restart "@,
        MutationModel::Apply { dry_run, .. } => if dry_run {
            "Try, without changing anything, the edited "@
        } else {
            "Apply the edited "@
        },
        _ => ""@,
    };
    let tail = if mutation is Scale {
        " "@ + crate::mutation::mutation_detail(mutation) + "?"@
    } else {
        "?"@
    };
    let on = " on cluster "@;
    assert(sentence =~= (ask + object + on) + cluster + tail);
    a_text_holds_its_parts(ask + object + on, cluster, tail);
    assert(sentence =~= ask + object + (on + cluster + tail));
    let label = kind_label(kind);
    let (space, within) = (" "@, " in namespace "@);
    let none = Seq::<char>::empty();
    let rest = if key.namespace.len() > 0 {
        within + key.namespace
    } else {
        none
    };
    assert(object =~= (label + space) + key.name + rest);
    assert(object =~= none + label + (space + key.name + rest));
    a_text_holds_its_parts(label + space, key.name, rest);
    parts_of_parts(ask, object, on + cluster + tail, key.name);
    if kind.group.len() == 0 {
        a_text_holds_its_parts(none, label, none);
        assert(kind.group =~= none);
        assert(label.subrange(0, 0int + kind.group.len()) =~= kind.group);
    } else {
        assert(label =~= none + kind.plural + ("."@ + kind.group));
        a_text_holds_its_parts(none, kind.plural, "."@ + kind.group);
        assert(label =~= (kind.plural + "."@) + kind.group + none);
        a_text_holds_its_parts(kind.plural + "."@, kind.group, none);
    }
    parts_of_parts(none, label, space + key.name + rest, kind.plural);
    parts_of_parts(none, label, space + key.name + rest, kind.group);
    parts_of_parts(ask, object, on + cluster + tail, kind.plural);
    parts_of_parts(ask, object, on + cluster + tail, kind.group);
    if key.namespace.len() > 0 {
        assert(object =~= (label + space + key.name + within) + key.namespace + none);
        a_text_holds_its_parts(label + space + key.name + within, key.namespace, none);
        parts_of_parts(ask, object, on + cluster + tail, key.namespace);
    }
    assert(sentence.last() == tail.last());
}

/// The question about a command names the command, the pod, its namespace, the
/// container, and the cluster.
pub proof fn a_question_names_the_command(target: ExecTargetModel, cluster: Seq<char>)
    ensures
        ({
            let sentence = exec_confirmation(target, cluster);
            &&& holds(sentence, spaced(target.command))
            &&& holds(sentence, target.pod)
            &&& holds(sentence, target.namespace)
            &&& holds(sentence, cluster)
            &&& target.container matches Some(container) ==> holds(sentence, container)
        }),
{
    let sentence = exec_confirmation(target, cluster);
    let (run, pod, end) = ("Run `"@, "` in pod "@, "?"@);
    let command = spaced(target.command);
    let place = match target.container {
        Some(container) => ", container "@ + container + ","@,
        None => ", default container,"@,
    };
    let (space, on) = (" in namespace "@, " on cluster "@);
    assert(sentence =~= run + command + (pod + target.pod + place + space + target.namespace + on + cluster + end));
    a_text_holds_its_parts(run, command, pod + target.pod + place + space + target.namespace + on + cluster + end);
    assert(sentence =~= (run + command + pod) + target.pod + (place + space + target.namespace + on + cluster + end));
    a_text_holds_its_parts(run + command + pod, target.pod, place + space + target.namespace + on + cluster + end);
    assert(sentence =~= (run + command + pod + target.pod + place + space) + target.namespace + (on + cluster + end));
    a_text_holds_its_parts(run + command + pod + target.pod + place + space, target.namespace, on + cluster + end);
    assert(sentence =~= (run + command + pod + target.pod + place + space + target.namespace + on) + cluster + end);
    a_text_holds_its_parts(run + command + pod + target.pod + place + space + target.namespace + on, cluster, end);
    if target.container is Some {
        let container = target.container->0;
        let (before, after) = (run + command + pod + target.pod + ", container "@, ","@ + space + target.namespace + on
            + cluster + end);
        assert(sentence =~= before + container + after);
        a_text_holds_its_parts(before, container, after);
    }
}

/// What the button to agree says goes by what is agreed to, and it is the red
/// one exactly where something could be lost: on a deletion, a drain, or a
/// command.
pub proof fn the_button_says_what_it_does(workspace: WorkspaceModel, cluster: Seq<char>, mutation: MutationModel)
    ensures
        ({
            let shown = |mutation: MutationModel|
                confirmation_of(
                    WorkspaceModel { pending: Some(ProposalModel::Mutation { cluster, mutation }), ..workspace },
                )->0;
            &&& mutation is Delete ==> shown(mutation).verb == "Delete"@ && shown(mutation).destructive
            &&& mutation is Drain ==> shown(mutation).verb == "Drain"@ && shown(mutation).destructive
            &&& mutation is Scale ==> shown(mutation).verb == "Scale"@ && !shown(mutation).destructive
            &&& mutation is Restart ==> shown(mutation).verb == "Restart"@ && !shown(mutation).destructive
            &&& mutation matches MutationModel::Cordon { cordon, .. } ==> shown(mutation).verb == (if cordon {
                "Cordon"@
            } else {
                "Uncordon"@
            }) && !shown(mutation).destructive
            &&& mutation matches MutationModel::Apply { dry_run, .. } ==> shown(mutation).verb == (if dry_run {
                "Dry run"@
            } else {
                "Apply"@
            }) && !shown(mutation).destructive
            &&& shown(mutation).destructive == (shown(mutation).warning is Some)
            &&& shown(mutation).sentence == mutation_confirmation(mutation, cluster)
        }),
        confirmation_of(WorkspaceModel { pending: None, ..workspace }) is None,
{
}

// --- what is wrong ----------------------------------------------------------------

/// The banner says what went wrong here before what is wrong with the
/// kubeconfig, and that before what is wrong with the connection on screen,
/// each in its own words; with nothing wrong there is none.
pub proof fn the_banner_says_what_is_wrong(workspace: WorkspaceModel)
    ensures
        ({
            let shown = banner_text(workspace);
            let app = workspace.app;
            &&& workspace.last_error matches Some(error) ==> shown == Some((error, false))
            &&& workspace.last_error is None && app.config_error is Some ==> shown is Some && holds(
                (shown->0).0,
                app.config_error->0,
            )
            &&& workspace.last_error is None && app.config_error is None && app.focused().cluster is None ==> shown is None
            &&& workspace.last_error is None && app.config_error is None && app.focused().cluster is Some ==> {
                let cluster = app.focused().cluster->0;
                match lookup(app.connections, cluster) {
                    Some(connection) => match connection.state {
                        ConnectionStateModel::AuthFailed { reason } => shown is Some && holds((shown->0).0, reason) && holds(
                            (shown->0).0,
                            cluster,
                        ) && (shown->0).1,
                        ConnectionStateModel::Degraded { reason } => shown is Some && holds((shown->0).0, reason) && holds(
                            (shown->0).0,
                            cluster,
                        ) && (shown->0).1,
                        ConnectionStateModel::Disconnected { reason: Some(reason) } => shown is Some && holds(
                            (shown->0).0,
                            reason,
                        ) && holds((shown->0).0, cluster) && (shown->0).1,
                        _ => shown is None,
                    },
                    None => shown is None,
                }
            }
        }),
{
    let app = workspace.app;
    let none = Seq::<char>::empty();
    if workspace.last_error is None && app.config_error is Some {
        let text = "kubeconfig: "@ + app.config_error->0;
        assert(text =~= "kubeconfig: "@ + app.config_error->0 + none);
        a_text_holds_its_parts("kubeconfig: "@, app.config_error->0, none);
    }
    if workspace.last_error is None && app.config_error is None && app.focused().cluster is Some {
        let cluster = app.focused().cluster->0;
        if lookup(app.connections, cluster) is Some {
            let state = lookup(app.connections, cluster)->0.state;
            if crate::sessions::connection_detail(state) is Some {
                let detail = crate::sessions::connection_detail(state)->0;
                let middle = ": "@ + crate::sessions::connection_label(state) + " — "@;
                let text = cluster + ": "@ + crate::sessions::connection_label(state) + " — "@ + detail;
                assert(text =~= none + cluster + (middle + detail));
                a_text_holds_its_parts(none, cluster, middle + detail);
                assert(text =~= (cluster + middle) + detail + none);
                a_text_holds_its_parts(cluster + middle, detail, none);
            }
        }
    }
}

/// A table without rows says why: that they may not be listed, and the reason;
/// that its cluster is in trouble; or that there are none, of which kind.
pub proof fn an_empty_table_says_why(kind: KindModel, reason: Seq<char>, state: ConnectionStateModel)
    ensures
        holds(empty_text(Some(reason), Some(kind), Some(state)), reason),
        holds(empty_text(Some(reason), Some(kind), Some(state)), kind_label(kind)),
        state is Connected ==> empty_text(None, Some(kind), Some(state)) == "No "@ + kind_label(kind) + " here."@,
        state is AuthFailed ==> holds(empty_text(None, Some(kind), Some(state)), "not authenticated"@),
        state is Degraded ==> holds(empty_text(None, Some(kind), Some(state)), "degraded"@),
        state matches ConnectionStateModel::Disconnected { reason: Some(_) } ==> holds(
            empty_text(None, Some(kind), Some(state)),
            "disconnected"@,
        ),
{
    let none = Seq::<char>::empty();
    let (label, start, middle) = (kind_label(kind), "Not allowed to list "@, " here — "@);
    let refused = empty_text(Some(reason), Some(kind), Some(state));
    assert(refused =~= start + label + (middle + reason));
    a_text_holds_its_parts(start, label, middle + reason);
    assert(refused =~= (start + label + middle) + reason + none);
    a_text_holds_its_parts(start + label + middle, reason, none);
    a_text_holds_its_parts(
        "No rows to show — the cluster is "@,
        crate::sessions::connection_label(state),
        "."@,
    );
}

/// Why an action cannot be taken names the cluster that may not be changed; on
/// one that may, only an edit of hidden values cannot be.
pub proof fn a_refusal_names_the_cluster(app: AppModel, detail: DetailModel, action: Action, cluster: Seq<char>)
    requires
        app.focused().cluster == Some(cluster),
    ensures
        !allowed(app, cluster) ==> action_refused(app, detail, action) is Some && holds(
            action_refused(app, detail, action)->0,
            cluster,
        ),
        allowed(app, cluster) ==> (action_refused(app, detail, action) is Some <==> hides_values(Some(detail)) && (action
            == Action::Apply || action == Action::DryRun)),
{
    a_text_holds_its_parts(
        "`"@,
        cluster,
        "` is read-only. Change `[access]` in `settings.toml` to allow writes."@,
    );
}

// --- tables -----------------------------------------------------------------------

/// A row is written under its headings: its namespace where there is a column
/// for it, its name, and then the cell of each column that is shown.
pub proof fn a_row_is_written_under_its_headings(
    row: RowModel,
    columns: Seq<(usize, ColumnModel)>,
    namespaced: bool,
    sort: Sort,
    at: int,
)
    requires
        0 <= at < columns.len(),
        columns[at].0 < row.cells.len(),
    ensures
        ({
            let (texts, headings) = (row_texts(row, columns, namespaced), headings_of(columns, namespaced, sort));
            let first: int = if namespaced {
                1
            } else {
                0
            };
            &&& headings.len() == texts.len() + 1
            &&& namespaced ==> texts[0].0 == row.key.namespace && headings[0].key == SortKey::Namespace
            &&& texts[first].0 == row.key.name
            &&& headings[first].key == SortKey::Name
            &&& texts[first + 1 + at].0 == row.cells[columns[at].0 as int].text
            &&& headings[first + 1 + at].key == SortKey::Cell(columns[at].0)
            &&& headings.last().key == SortKey::Age
        }),
{
}

/// A heading has an arrow exactly if the table is sorted by it, up where that
/// ascends and down where it descends, behind the name of its column.
pub proof fn an_arrow_marks_what_is_sorted_by(columns: Seq<(usize, ColumnModel)>, namespaced: bool, sort: Sort, at: int)
    requires
        0 <= at < columns.len(),
    ensures
        ({
            let first: int = if namespaced {
                2
            } else {
                1
            };
            let heading = headings_of(columns, namespaced, sort)[first + at];
            let name = (columns[at].1).name;
            &&& sort.key != SortKey::Cell(columns[at].0) ==> heading.label == name
            &&& sort.key == SortKey::Cell(columns[at].0) && !sort.descending ==> heading.label == name + "▴"@
            &&& sort.key == SortKey::Cell(columns[at].0) && sort.descending ==> heading.label == name + "▾"@
        }),
{
    reveal_strlit("");
    assert((columns[at].1).name + ""@ =~= (columns[at].1).name);
}

/// A pane is drawn as what it is: with the focus if it has it, its cursor where
/// it is, its cluster's connection, and a message where it has no rows.
pub proof fn a_pane_is_drawn_as_it_is(workspace: WorkspaceModel, index: int)
    requires
        0 <= index < workspace.app.panes.len(),
    ensures
        ({
            let (pane, view) = (workspace.app.panes[index], pane_view_of(workspace, index));
            &&& view.focused == (workspace.app.focus == index)
            &&& view.cursor == pane.cursor
            &&& view.message is Some <==> pane.rows.len() == 0
            &&& view.title is Some <==> workspace.app.panes.len() > 1
            &&& pane.cluster matches Some(cluster) ==> lookup(workspace.app.connections, cluster) matches Some(
                connection,
            ) ==> view.connection == connection.state
            &&& workspace.app.detail matches Some(DetailModel::Ready { object, .. }) ==> view.opened == Some(object.key)
            &&& workspace.app.detail is None ==> view.opened is None
        }),
{
}

// --- an object --------------------------------------------------------------------

/// What happened to an object is listed latest first, each with its reason and
/// its words, and marked where it is a warning.
pub proof fn events_are_listed_latest_first(events: Seq<EventLineModel>, i: int)
    requires
        0 <= i < events.len(),
    ensures
        ({
            let (row, event) = (event_list(events)[i], events[events.len() - 1 - i]);
            &&& event_list(events).len() == events.len()
            &&& row.reason == event.reason
            &&& row.message == event.message
            &&& row.warning == event.warning
            &&& row.times is Some <==> event.count > 1
            &&& event.count > 1 ==> row.times == Some("×"@ + decimal(event.count as nat))
        }),
{
}

/// The open tab shows its own part of an object: the YAML, what happened to it,
/// or what owns it.
pub proof fn a_tab_shows_its_part(object: ObjectModel)
    ensures
        content_of(DetailTab::Yaml, object) is Yaml,
        object.events.len() > 0 ==> content_of(DetailTab::Events, object) is Events,
        object.owners.len() > 0 ==> content_of(DetailTab::Related, object) is Related,
        object.events.len() == 0 ==> content_of(DetailTab::Events, object) is Nothing,
        object.owners.len() == 0 ==> content_of(DetailTab::Related, object) is Nothing,
{
}

/// An owner leads to the object of its name in the same namespace, of its kind
/// and in its group and version.
pub proof fn an_owner_leads_to_what_it_names(
    owner: OwnerModel,
    namespace: Seq<char>,
    group: Seq<char>,
    version: Seq<char>,
)
    requires
        forall|i: int| 0 <= i < group.len() ==> group[i] != '/',
        forall|i: int| 0 <= i < version.len() ==> version[i] != '/',
    ensures
        owner_row(owner, namespace).key == (KeyModel { namespace, name: owner.name }),
        owner_row(owner, namespace).kind.kind == owner.kind,
        owner.api_version == group.push('/') + version ==> owner_row(owner, namespace).kind.group == group && owner_row(
            owner,
            namespace,
        ).kind.version == version,
        owner.api_version == version ==> owner_row(owner, namespace).kind.group == ""@ && owner_row(
            owner,
            namespace,
        ).kind.version == version,
{
    let text = owner.api_version;
    crate::text::first_of_is_first(text, '/');
    let at = crate::text::first_of(text, '/');
    if text == group.push('/') + version {
        assert(text[group.len() as int] == '/');
        if at < group.len() {
            assert(text[at] == group[at]);
        }
        assert(text.take(at) =~= group);
        assert(text.skip(at + 1) =~= version);
    }
}

/// The detail pane says that values are hidden exactly where they are, offers to
/// show them there, and says so where they are shown.
pub proof fn hidden_values_are_said_to_be(workspace: WorkspaceModel, cluster: Seq<char>, kind: KindModel, object: ObjectModel)
    requires
        workspace.app.detail == Some(DetailModel::Ready { cluster, kind, object }),
    ensures
        ({
            let pane = detail_pane_of(workspace);
            &&& pane is Some
            &&& pane->0.note is Some <==> object.maskable && !object.revealed
            &&& object.maskable && !object.revealed ==> pane->0.reveal == Some("Reveal values"@)
            &&& object.maskable && object.revealed ==> pane->0.reveal == Some("Values shown"@)
            &&& !object.maskable ==> pane->0.reveal is None
        }),
{
}

/// A pod with several containers says which one a command would run in.
pub proof fn the_container_is_said(workspace: WorkspaceModel, cluster: Seq<char>, kind: KindModel, key: KeyModel)
    requires
        is_about(workspace.app.detail, cluster, kind, key),
        kind.group == ""@,
        kind.kind == "Pod"@,
    ensures
        ({
            let pane = detail_pane_of(workspace);
            &&& pane is Some
            &&& pane->0.is_pod
            &&& workspace.exec_containers.len() > 1 && workspace.exec_container is Some ==> pane->0.container
                == workspace.exec_container
            &&& workspace.exec_containers.len() > 1 && workspace.exec_container is None ==> pane->0.container == Some(
                "Default container"@,
            )
            &&& workspace.exec_containers.len() <= 1 ==> pane->0.container is None
        }),
{
    reveal_strlit("");
}

// --- menus ------------------------------------------------------------------------

/// A menu lists everything there is to pick, each thing by its name, and marks
/// the one in force and no other.
pub proof fn menus_list_what_there_is(
    namespaces: Seq<Seq<char>>,
    containers: Seq<ContainerModel>,
    current: Option<Seq<char>>,
    i: int,
)
    ensures
        namespace_entries(namespaces, current).len() == namespaces.len() + 1,
        namespace_entries(namespaces, current)[0].selected == (current is None),
        0 <= i < namespaces.len() ==> namespace_entries(namespaces, current)[i + 1].label == namespaces[i]
            && namespace_entries(namespaces, current)[i + 1].selected == (current == Some(namespaces[i])),
        container_entries(containers, current).len() == containers.len() + 1,
        container_entries(containers, current)[0].selected == (current is None),
        0 <= i < containers.len() ==> container_entries(containers, current)[i + 1].selected == (current == Some(
            containers[i].name,
        )) && (!containers[i].init ==> container_entries(containers, current)[i + 1].label == containers[i].name) && (
        containers[i].init ==> container_entries(containers, current)[i + 1].label == containers[i].name + " (init)"@),
{
}

/// A section lists the kinds whose labels hold what the filter asks for, in
/// their order, below its heading; with a filter it is always open.
pub proof fn a_filter_opens_what_it_finds(
    app: AppModel,
    title: Seq<char>,
    kinds: Seq<KindInfoModel>,
    query: Seq<char>,
    by_choice: bool,
    at: int,
)
    requires
        0 <= at < kinds.len(),
        query.len() > 0,
    ensures
        ({
            let rows = section_rows(app, title, kinds, query, by_choice, false);
            let listed = exists|i: int|
                0 < i < rows.len() && (#[trigger] rows[i] matches SidebarRowModel::Kind { kind, .. } && kind
                    == kinds[at].id);
            &&& holds(lowercase(kind_label(kinds[at].id)), query) ==> listed
            &&& holds(lowercase(kind_label(kinds[at].id)), query) ==> (rows[0] matches SidebarRowModel::Heading {
                open,
                ..
            } && open)
        }),
{
    let wanted = crate::views::wanted_kinds(query);
    let shown = kinds.filter(wanted);
    if holds(lowercase(kind_label(kinds[at].id)), query) {
        crate::seqs::filter_target(kinds, wanted, at);
        let k = choose|k: int| 0 <= k < shown.len() && shown[k] == kinds[at];
        let rows = section_rows(app, title, kinds, query, by_choice, false);
        assert(rows[k + 1] == crate::views::kind_row(app, kinds[at], false));
        assert(0 < k + 1 < rows.len());
    }
}

/// A closed section shows its heading alone; one that was opened shows every
/// kind of it, in order, with how many rows are held and whether it is on screen.
pub proof fn an_open_section_shows_its_kinds(
    app: AppModel,
    title: Seq<char>,
    kinds: Seq<KindInfoModel>,
    by_choice: bool,
    at: int,
)
    requires
        0 <= at < kinds.len(),
    ensures
        ({
            let rows = section_rows(app, title, kinds, seq![], by_choice, false);
            let on_screen = exists|i: int| 0 <= i < kinds.len() && app.focused().kind == Some((#[trigger] kinds[i]).id);
            &&& rows.len() > 0
            &&& rows[0] matches SidebarRowModel::Heading { title: said, open, count, .. } && said == title && count
                == kinds.len() as usize && open == (by_choice || on_screen)
            &&& !by_choice && !on_screen ==> rows.len() == 1
            &&& by_choice ==> rows.len() == kinds.len() + 1 && (rows[at + 1] matches SidebarRowModel::Kind {
                kind,
                label,
                selected,
                ..
            } && kind == kinds[at].id && label == kinds[at].id.plural && selected == (app.focused().kind == Some(
                kinds[at].id,
            )))
        }),
{
    let none = Seq::<char>::empty();
    crate::seqs::filter_all(kinds, crate::views::wanted_kinds(none));
    assert(kinds.filter(crate::views::wanted_kinds(none)) == kinds);
}

// --- lines ------------------------------------------------------------------------

/// While long lines wrap, a window of them is shown: from the line a jump landed
/// on, or the newest ones, as many as a window has, and never a line twice.
pub proof fn a_window_shows_the_newest_lines(len: usize, anchor: Option<usize>)
    ensures
        anchor is None && len <= WRAP_LIMIT ==> wrap_start(len, anchor) == 0,
        anchor is None && len > WRAP_LIMIT ==> wrap_start(len, anchor) == len - WRAP_LIMIT,
        anchor matches Some(index) ==> index < len ==> wrap_start(len, anchor) == index,
        len > 0 ==> 0 <= wrap_start(len, anchor) < len,
        WRAP_LIMIT == 500,
{
}

/// The buttons of a tail say what is the case: whether it follows, whether what
/// was typed is a regular expression and minds case, which container it is of,
/// and what the lines are ordered by.
pub proof fn a_tail_says_how_it_is_read(workspace: WorkspaceModel)
    requires
        workspace.app.logs is Some,
    ensures
        ({
            let session = workspace.app.logs->0;
            let pane = log_pane_of(workspace)->0;
            &&& log_pane_of(workspace) is Some
            &&& session.following ==> pane.following == "Following"@
            &&& !session.following ==> pane.following == "Paused"@
            &&& session.target.previous ==> pane.version == "Previous"@
            &&& !session.target.previous ==> pane.version == "Current"@
            &&& session.buffer.filter.regex ==> pane.regex == ".* on"@
            &&& !session.buffer.filter.regex ==> pane.regex == ".* off"@
            &&& session.buffer.filter.case_sensitive ==> pane.case == "Aa"@
            &&& !session.buffer.filter.case_sensitive ==> pane.case == "aa"@
            &&& session.buffer.order == crate::logs::LogOrder::Timestamp ==> pane.order == "By time"@
            &&& session.buffer.order == crate::logs::LogOrder::Arrival ==> pane.order == "By arrival"@
            &&& session.buffer.shown().len() == 0 ==> pane.body is Message
            &&& session.buffer.shown().len() > 0 && !workspace.log_wrap ==> pane.body is List
            &&& session.buffer.shown().len() > 0 && workspace.log_wrap ==> pane.body is Wrapped
            &&& session.buffer.error matches Some(error) ==> pane.notice == Some((error, true))
        }),
{
}

/// A command's output takes the place of a tail, and a tail that of the tables.
pub proof fn what_was_opened_last_is_on_top(workspace: WorkspaceModel)
    ensures
        workspace.app.exec_session is Some ==> main_pane(workspace) == MainPane::Command,
        workspace.app.exec_session is None && workspace.app.logs is Some ==> main_pane(workspace) == MainPane::Logs,
        workspace.app.exec_session is None && workspace.app.logs is None ==> main_pane(workspace) == MainPane::Tables,
{
}

// --- forwards, the palette and the header -------------------------------------------

/// A forward that listens gives an address on this machine and the port it got;
/// one that is in trouble says why in the words it was given.
pub proof fn a_forward_says_where_it_listens(cluster: Seq<char>, forward: ForwardInfoModel)
    ensures
        ({
            let row = forward_row((cluster, forward));
            &&& forward.state matches ForwardStateModel::Listening { local_port } ==> row.address == Some(
                "127.0.0.1:"@ + decimal(local_port as nat),
            ) && !row.problem && holds(row.detail, cluster)
            &&& forward.state matches ForwardStateModel::Degraded { local_port, reason } ==> row.address == Some(
                "127.0.0.1:"@ + decimal(local_port as nat),
            ) && row.problem && row.detail == reason
            &&& forward.state matches ForwardStateModel::Failed { reason } ==> row.address is None && row.problem
                && row.detail == reason
            &&& holds(row.summary, forward.target.pod)
        }),
{
    let none = Seq::<char>::empty();
    let end = " · "@ + decimal(forward.connections as nat) + " connections"@;
    assert(cluster + " · "@ + decimal(forward.connections as nat) + " connections"@ =~= none + cluster + end);
    a_text_holds_its_parts(none, cluster, end);
    let target = crate::sessions::forward_target_label(forward.target);
    let summary = crate::sessions::forward_summary(forward);
    let from = match crate::sessions::forward_address(forward.state) {
        Some(address) => address,
        None => match forward.state {
            ForwardStateModel::Starting => "starting"@,
            ForwardStateModel::Stopped => "stopped"@,
            _ => "failed"@,
        },
    };
    assert(summary =~= (from + " → "@) + target + none);
    let pod_end = ":"@ + decimal(forward.target.port as nat);
    assert(target =~= (forward.target.namespace + "/"@) + forward.target.pod + pod_end);
    a_text_holds_its_parts(forward.target.namespace + "/"@, forward.target.pod, pod_end);
    parts_of_parts(from + " → "@, target, none, forward.target.pod);
}

/// The palette lists what it found in that order, and marks what is picked.
pub proof fn the_palette_lists_what_it_found(workspace: WorkspaceModel, at: int)
    requires
        workspace.palette_open,
        0 <= at < palette_rows(workspace)->0.len(),
    ensures
        palette_rows(workspace) is Some,
        palette_rows(workspace)->0.len() <= workspace.palette_matches.len(),
        workspace.palette_matches.len() <= 12 ==> palette_rows(workspace)->0.len() == workspace.palette_matches.len(),
        palette_rows(workspace)->0[at].label == workspace.palette_matches[at].candidate.label,
        palette_rows(workspace)->0[at].detail == workspace.palette_matches[at].candidate.detail,
        palette_rows(workspace)->0[at].selected == (at == workspace.palette_index),
{
}

/// The header names the cluster on screen and how it is doing, and says that it
/// is read-only exactly where it may not be changed.
pub proof fn the_header_names_the_cluster(workspace: WorkspaceModel, cluster: Seq<char>)
    requires
        workspace.app.focused().cluster == Some(cluster),
    ensures
        ({
            let header = header_of(workspace);
            &&& header.cluster matches Some((name, state)) && name == cluster && (lookup(
                workspace.app.connections,
                cluster,
            ) matches Some(connection) ==> state == connection.state)
            &&& header.read_only == !allowed(workspace.app, cluster)
            &&& workspace.app.focused().kind matches Some(kind) ==> header.subtitle == kind_label(kind)
            &&& header.forwards is Some <==> workspace.app.forwards.len() > 0
        }),
{
}

/// A kind's label is its plural, and its group behind a dot where it has one.
pub proof fn a_label_is_a_plural_and_a_group(kind: KindModel)
    ensures
        kind.group.len() == 0 ==> kind_label(kind) == kind.plural,
        kind.group.len() > 0 ==> kind_label(kind) == kind.plural + "."@ + kind.group,
{
}

// --- names and counts ---------------------------------------------------------------

/// The question about a node names it, and the cluster; and so does the record of
/// what was asked of it, with the right word.
pub proof fn a_question_names_the_node(mutation: MutationModel, node: Seq<char>, cluster: Seq<char>)
    requires
        (mutation matches MutationModel::Cordon { node: n, .. } && n == node) || (mutation matches MutationModel::Drain {
            node: n,
            ..
        } && n == node),
    ensures
        holds(mutation_confirmation(mutation, cluster), node),
        holds(mutation_confirmation(mutation, cluster), cluster),
        crate::mutation::mutation_key(mutation).name == node,
        crate::mutation::mutation_key(mutation).namespace.len() == 0,
        mutation is Drain ==> crate::mutation::mutation_verb(mutation) == "drain"@,
        mutation matches MutationModel::Cordon { cordon, .. } ==> crate::mutation::mutation_verb(mutation) == (if cordon {
            "cordon"@
        } else {
            "uncordon"@
        }),
{
    reveal_strlit("");
    let sentence = mutation_confirmation(mutation, cluster);
    let ask = match mutation {
        MutationModel::Cordon { cordon, .. } => if cordon {
            "Cordon "@
        } else {
            "Uncordon "@
        },
        _ => "Drain "@,
    };
    let label = kind_label(crate::mutation::node_kind());
    let start = ask + label + " "@;
    let end = " on cluster "@ + cluster + "?"@;
    assert(sentence =~= start + node + end);
    a_text_holds_its_parts(start, node, end);
    assert(sentence =~= (start + node + " on cluster "@) + cluster + "?"@);
    a_text_holds_its_parts(start + node + " on cluster "@, cluster, "?"@);
}

/// The question about scaling says how many replicas are wanted, and how many
/// there are where that is known.
pub proof fn a_question_says_how_many(
    kind: KindModel,
    key: KeyModel,
    replicas: u32,
    current: Option<u32>,
    cluster: Seq<char>,
)
    ensures
        ({
            let sentence = mutation_confirmation(MutationModel::Scale { kind, key, replicas, current }, cluster);
            &&& holds(sentence, "to "@ + decimal(replicas as nat))
            &&& current matches Some(there) ==> holds(sentence, "from "@ + decimal(there as nat))
        }),
{
    let mutation = MutationModel::Scale { kind, key, replicas, current };
    let sentence = mutation_confirmation(mutation, cluster);
    let start = "Scale "@ + crate::mutation::object_text(mutation) + " on cluster "@ + cluster + " "@;
    let wanted = "to "@ + decimal(replicas as nat);
    match current {
        Some(there) => {
            let from = "from "@ + decimal(there as nat);
            let middle = " to "@ + decimal(replicas as nat) + "?"@;
            reveal_strlit(" to ");
            reveal_strlit("to ");
            reveal_strlit(" ");
            assert(" to "@ =~= " "@ + "to "@);
            assert(sentence =~= start + from + middle);
            a_text_holds_its_parts(start, from, middle);
            assert(sentence =~= (start + from + " "@) + wanted + "?"@);
            a_text_holds_its_parts(start + from + " "@, wanted, "?"@);
        },
        None => {
            assert(sentence =~= start + wanted + "?"@);
            a_text_holds_its_parts(start, wanted, "?"@);
        },
    }
}

/// What was done last is told by its word, the object, and what came of it.
pub proof fn the_last_action_is_told(activity: crate::model::ActivityModel, reason: Seq<char>)
    ensures
        ({
            let told = crate::views::activity_text(activity);
            &&& holds(told, crate::mutation::mutation_verb(activity.mutation))
            &&& holds(told, crate::objects::key_text(crate::mutation::mutation_key(activity.mutation)))
            &&& activity.outcome == (crate::mutation::MutationOutcomeModel::Refused { reason }) ==> holds(told, reason)
            &&& activity.outcome == (crate::mutation::MutationOutcomeModel::Failed { reason }) ==> holds(told, reason)
            &&& activity.outcome == (crate::mutation::MutationOutcomeModel::Applied { detail: reason }) ==> holds(
                told,
                reason,
            )
        }),
{
    let none = Seq::<char>::empty();
    let told = crate::views::activity_text(activity);
    let verb = crate::mutation::mutation_verb(activity.mutation);
    let key = crate::objects::key_text(crate::mutation::mutation_key(activity.mutation));
    let outcome = crate::mutation::outcome_message(activity.outcome);
    assert(told =~= none + verb + (" "@ + key + " · "@ + outcome));
    a_text_holds_its_parts(none, verb, " "@ + key + " · "@ + outcome);
    assert(told =~= (verb + " "@) + key + (" · "@ + outcome));
    a_text_holds_its_parts(verb + " "@, key, " · "@ + outcome);
    assert(told =~= (verb + " "@ + key + " · "@) + outcome + none);
    a_text_holds_its_parts(verb + " "@ + key + " · "@, outcome, none);
}

/// An object is written with its namespace before its name, or by its name alone
/// where it has none; a tail and a command are written with what they are of.
pub proof fn things_are_written_with_their_names(
    key: KeyModel,
    target: crate::sessions::LogTargetModel,
    command: ExecTargetModel,
)
    ensures
        key.namespace.len() == 0 ==> crate::objects::key_text(key) == key.name,
        key.namespace.len() > 0 ==> crate::objects::key_text(key) == key.namespace + "/"@ + key.name,
        holds(crate::sessions::log_target_label(target), target.namespace),
        target.selector matches crate::sessions::LogSelectorModel::Pod(pod) ==> holds(
            crate::sessions::log_target_label(target),
            pod,
        ),
        target.selector matches crate::sessions::LogSelectorModel::Labels(labels) ==> holds(
            crate::sessions::log_target_label(target),
            labels,
        ),
        holds(crate::sessions::exec_label(command), command.pod),
        holds(crate::sessions::exec_label(command), spaced(command.command)),
{
    let none = Seq::<char>::empty();
    let label = crate::sessions::log_target_label(target);
    let picked = match target.selector {
        crate::sessions::LogSelectorModel::Pod(name) => name,
        crate::sessions::LogSelectorModel::Labels(labels) => labels,
    };
    let within = match target.container {
        Some(container) => " ["@ + container + "]"@,
        None => none,
    };
    let end = within + (if target.previous {
        " (previous)"@
    } else {
        none
    });
    assert(label =~= none + target.namespace + ("/"@ + picked + end));
    a_text_holds_its_parts(none, target.namespace, "/"@ + picked + end);
    assert(label =~= (target.namespace + "/"@) + picked + end);
    a_text_holds_its_parts(target.namespace + "/"@, picked, end);
    let place = match command.container {
        Some(container) => " ["@ + container + "]"@,
        None => none,
    };
    let (run, words) = (crate::sessions::exec_label(command), spaced(command.command));
    assert(run =~= (command.namespace + "/"@) + command.pod + (place + " $ "@ + words));
    a_text_holds_its_parts(command.namespace + "/"@, command.pod, place + " $ "@ + words);
    assert(run =~= (command.namespace + "/"@ + command.pod + place + " $ "@) + words + none);
    a_text_holds_its_parts(command.namespace + "/"@ + command.pod + place + " $ "@, words, none);
}

/// How many are shown is said, and of how many where that is not all: of rows, of
/// lines, and of what was dropped.
pub proof fn counts_are_said(total: nat, shown: nat, namespaces: nat, buffer: crate::logs::LogModel)
    ensures
        total == shown ==> crate::views::shown_text(total, shown, namespaces) == decimal(total) + " shown · "@ + decimal(
            namespaces,
        ) + " namespaces"@,
        total != shown ==> crate::views::shown_text(total, shown, namespaces) == decimal(shown) + " of "@ + decimal(
            total,
        ) + " shown · "@ + decimal(namespaces) + " namespaces"@,
        buffer.shown().len() == buffer.lines.len() ==> crate::views::line_count_text(buffer) == decimal(
            buffer.lines.len(),
        ) + " lines"@,
        buffer.shown().len() != buffer.lines.len() ==> crate::views::line_count_text(buffer) == decimal(
            buffer.shown().len(),
        ) + " of "@ + decimal(buffer.lines.len()) + " lines"@,
        buffer.dropped > 0 ==> holds(crate::views::tail_text(buffer), decimal(buffer.dropped as nat) + " dropped"@),
        holds(
            crate::views::tail_text(buffer),
            decimal(buffer.sources.filter(crate::logs::streaming_sources()).len()) + " streaming"@,
        ),
{
    let none = Seq::<char>::empty();
    let text = crate::views::tail_text(buffer);
    let streaming = decimal(buffer.sources.filter(crate::logs::streaming_sources()).len()) + " streaming"@;
    let start = crate::views::line_count_text(buffer) + " "@ + "· "@;
    let dropped = decimal(buffer.dropped as nat) + " dropped"@;
    let end = if buffer.dropped > 0 {
        "· "@ + dropped
    } else {
        ""@
    };
    assert(text =~= start + streaming + (" "@ + end));
    a_text_holds_its_parts(start, streaming, " "@ + end);
    if buffer.dropped > 0 {
        assert(text =~= (start + streaming + " "@ + "· "@) + dropped + none);
        a_text_holds_its_parts(start + streaming + " "@ + "· "@, dropped, none);
    }
}

/// A tab counts what it holds, and exactly the open one is marked.
pub proof fn a_tab_counts_what_it_holds(tab: DetailTab, open: DetailTab, object: ObjectModel)
    ensures
        crate::panes::tab_view(tab, open, object).active == (tab == open),
        object.events.len() > 0 ==> crate::panes::tab_view(DetailTab::Events, open, object).label == "Events"@ + " ("@
            + decimal(object.events.len()) + ")"@,
        object.owners.len() > 0 ==> crate::panes::tab_view(DetailTab::Related, open, object).label == "Related"@ + " ("@
            + decimal(object.owners.len()) + ")"@,
        object.events.len() == 0 ==> crate::panes::tab_view(DetailTab::Events, open, object).label == "Events"@,
        crate::panes::tab_view(DetailTab::Yaml, open, object).label == "YAML"@,
{
}

/// A context in the sidebar is marked where the focused pane is on it, and where
/// another one is, and shows how its cluster is doing.
pub proof fn a_context_shows_where_it_is(app: AppModel, context: crate::objects::ContextModel)
    ensures
        ({
            let row = crate::views::context_row(app, context);
            &&& row.name == context.name
            &&& row.selected == (app.focused().cluster == Some(context.name))
            &&& row.elsewhere <==> exists|i: int|
                0 <= i < app.panes.len() && i != app.focus && (#[trigger] app.panes[i]).cluster == Some(context.name)
            &&& lookup(app.connections, context.name) matches Some(connection) ==> row.state == connection.state
            &&& lookup(app.connections, context.name) is None ==> row.state is Idle
        }),
{
}

/// What is asked for gets a warning about the cluster it is for exactly where
/// that is in trouble.
pub proof fn a_question_warns_of_a_troubled_cluster(workspace: WorkspaceModel, proposal: ProposalModel)
    requires
        workspace.pending == Some(proposal),
    ensures
        ({
            let cluster = match proposal {
                ProposalModel::Mutation { cluster, .. } => cluster,
                ProposalModel::Command { cluster, .. } => cluster,
            };
            let state = lookup(workspace.app.connections, cluster);
            let troubled = state matches Some(connection) && (connection.state is Degraded || connection.state is AuthFailed
                || (connection.state matches ConnectionStateModel::Disconnected { reason } && reason is Some));
            confirmation_of(workspace)->0.health is Some <==> troubled
        }),
{
}

/// A table shows every column of its kind in their order, unless the settings
/// pick some: then those, each with its own cells.
pub proof fn columns_keep_their_cells(
    pane: PaneModel,
    columns: Seq<(Seq<char>, Seq<Seq<char>>)>,
    places: Seq<usize>,
    i: int,
)
    requires
        pane.columns.len() <= usize::MAX,
    ensures
        ({
            let shown = crate::workspace::shown_columns(pane, columns);
            let chosen = match pane.kind {
                Some(kind) => crate::columns::chosen_columns(columns, kind_label(kind), pane.columns),
                None => None,
            };
            &&& chosen is None ==> shown.len() == pane.columns.len() && (0 <= i < shown.len() ==> shown[i].0 == i
                && shown[i].1 == pane.columns[i])
            &&& chosen == Some(places) ==> shown.len() == places.len() && (0 <= i < shown.len() ==> shown[i].0
                == places[i] && shown[i].1 == pane.columns[places[i] as int])
        }),
{
}

/// A kind's plural goes by how its name ends.
pub proof fn plurals_go_by_the_ending(kind: Seq<char>)
    requires
        lowercase(kind).len() > 1,
    ensures
        ({
            let (name, plural) = (lowercase(kind), crate::wording::plural_of(kind));
            let (last, before) = (name.last(), name[name.len() - 2]);
            &&& last == 'y' ==> plural == name.drop_last() + "ies"@
            &&& last == 's' ==> plural == name + "es"@
            &&& last == 'h' && (before == 'c' || before == 's') ==> plural == name + "es"@
            &&& last != 'y' && last != 's' && last != 'h' ==> plural == name + "s"@
        }),
{
    reveal_strlit("s");
    reveal_strlit("ch");
    reveal_strlit("sh");
    let name = lowercase(kind);
    let n = name.len() as int;
    assert(name.skip(n - 1) =~= seq![name[n - 1]]);
    assert(name.skip(n - 2) =~= seq![name[n - 2], name[n - 1]]);
    assert("s"@ =~= seq!['s']);
    assert("ch"@ =~= seq!['c', 'h']);
    assert("sh"@ =~= seq!['s', 'h']);
    assert(seq![name[n - 1]][0] == name[n - 1]);
    assert(seq![name[n - 2], name[n - 1]][0] == name[n - 2]);
    assert(seq![name[n - 2], name[n - 1]][1] == name[n - 1]);
    assert(seq!['s'][0] == 's');
    assert(seq!['c', 'h'][0] == 'c' && seq!['c', 'h'][1] == 'h');
    assert(seq!['s', 'h'][0] == 's' && seq!['s', 'h'][1] == 'h');
}

/// A command's pane says whether it still runs, whether it went wrong, and how it
/// ended.
pub proof fn a_commands_pane_says_how_it_goes(workspace: WorkspaceModel, session: ExecSessionModel)
    requires
        workspace.app.exec_session == Some(session),
    ensures
        ({
            let pane = crate::panes::exec_pane_of(workspace);
            &&& pane is Some
            &&& pane->0.running == (session.status is None)
            &&& session.status matches Some(status) ==> pane->0.status == crate::sessions::exec_message(status)
                && pane->0.failed == crate::sessions::exec_problem(status)
            &&& session.status is None ==> !pane->0.failed
            &&& session.buffer.shown().len() == 0 ==> pane->0.body is Message
            &&& session.buffer.shown().len() > 0 ==> pane->0.body == (LinesBodyModel::List { sources: true })
            &&& pane->0.lines == crate::views::line_count_text(session.buffer)
            &&& session.buffer.matcher is Invalid ==> (pane->0.notice matches Some((_, complaint)) && complaint)
            &&& !(session.buffer.matcher is Invalid) ==> (pane->0.notice is Some <==> workspace.exec_notice is Some)
        }),
{
}

/// The headings of the sidebar are what they say.
pub proof fn headings_are_what_they_say(group: Seq<char>)
    ensures
        crate::catalog::category_title(crate::catalog::CategoryModel::Workloads) == "WORKLOADS"@,
        crate::catalog::category_title(crate::catalog::CategoryModel::Networking) == "NETWORKING"@,
        crate::catalog::category_title(crate::catalog::CategoryModel::Configuration) == "CONFIGURATION"@,
        crate::catalog::category_title(crate::catalog::CategoryModel::Storage) == "STORAGE"@,
        crate::catalog::category_title(crate::catalog::CategoryModel::AccessControl) == "ACCESS CONTROL"@,
        crate::catalog::category_title(crate::catalog::CategoryModel::Cluster) == "CLUSTER"@,
        crate::catalog::category_title(crate::catalog::CategoryModel::Custom(group)) == crate::text::uppercase(group),
        crate::catalog::category_title(crate::catalog::CategoryModel::Other) == "OTHER"@,
{
}

/// The sidebar lists what was opened recently above the sections, and the
/// sections one below the other.
pub proof fn recents_stand_above_the_sections(
    app: AppModel,
    remembered: crate::remembered::UiModel,
    found: Seq<(crate::catalog::CategoryModel, Seq<KindInfoModel>)>,
    text: Seq<char>,
)
    ensures
        ({
            let rows = crate::views::sidebar_rows(app, remembered, found, text);
            let recents = crate::views::recently_opened(app, remembered);
            let query = lowercase(crate::text::trimmed(text));
            &&& query.len() == 0 && recents.len() > 0 ==> rows.len() > 0 && (rows[0] matches SidebarRowModel::Heading {
                title,
                count,
                ..
            } && title == "RECENT"@ && count == recents.len() as usize)
            &&& app.focused().cluster is None ==> recents.len() == 0
        }),
{
    let recents = crate::views::recently_opened(app, remembered);
    let none = Seq::<char>::empty();
    let query = lowercase(crate::text::trimmed(text));
    if query.len() == 0 {
        assert(query =~= none);
        crate::seqs::filter_all(recents, crate::views::wanted_kinds(query));
    }
    let first = section_rows(
        app,
        "RECENT"@,
        recents,
        query,
        remembered.is_open("RECENT"@, true),
        true,
    );
    if query.len() == 0 && recents.len() > 0 {
        assert(crate::views::sidebar_rows(app, remembered, found, text)[0] == first[0]);
    }
}

/// The button of the forwards counts those that are open, and warns where one of
/// them is in trouble.
pub proof fn forwards_in_trouble_are_warned_of(workspace: WorkspaceModel, at: int)
    requires
        0 <= at < workspace.app.forwards.len(),
    ensures
        ({
            let shown = header_of(workspace).forwards;
            let (open, state) = (workspace.app.forwards.len(), workspace.app.forwards[at].1.state);
            &&& shown is Some
            &&& state is Degraded || state is Failed ==> shown == Some("Forwards "@ + decimal(open) + " ⚠"@)
            &&& (forall|i: int|
                0 <= i < open ==> !((#[trigger] workspace.app.forwards[i]).1.state is Degraded)
                    && !(workspace.app.forwards[i].1.state is Failed)) ==> shown == Some("Forwards "@ + decimal(open))
        }),
{
    let all = workspace.app.forwards;
    let broken = crate::app::broken_entry();
    if broken(all[at]) {
        crate::seqs::filter_target(all, broken, at);
    }
    if all.filter(broken).len() > 0 {
        crate::seqs::filter_source(all, broken, 0);
        let i = choose|i: int| 0 <= i < all.len() && all[i] == all.filter(broken)[0];
        assert(all[i].1.state is Degraded || all[i].1.state is Failed);
    }
}

/// A source is named in the legend by its pod and container, and marked where it
/// ended or failed.
pub proof fn a_source_is_named_for_what_it_does(source: crate::sessions::SourceModel, reason: Seq<char>)
    ensures
        ({
            let label = source.pod + "/"@ + source.container;
            let chip = |state: crate::sessions::LogSourceStateModel| crate::logview::chip_of((source, state));
            &&& chip(crate::sessions::LogSourceStateModel::Streaming) == (label, false)
            &&& chip(crate::sessions::LogSourceStateModel::Ended) == (label + " (ended)"@, true)
            &&& chip(crate::sessions::LogSourceStateModel::Failed { reason }) == (label + " (failed)"@, true)
        }),
{
}

/// The legend names the first twelve sources and says how many more there are.
pub proof fn the_legend_names_the_first_sources(
    sources: Seq<(crate::sessions::SourceModel, crate::sessions::LogSourceStateModel)>,
    i: int,
)
    requires
        0 <= i < sources.len(),
        i < 12,
    ensures
        crate::logview::chips_of(sources).len() <= 12,
        sources.len() <= 12 ==> crate::logview::chips_of(sources).len() == sources.len(),
        crate::logview::chips_of(sources)[i] == crate::logview::chip_of(sources[i]),
        sources.len() > 12 ==> crate::logview::overflow_of(sources.len()) == Some(
            "+"@ + decimal((sources.len() - 12) as nat) + " more"@,
        ),
        sources.len() <= 12 ==> crate::logview::overflow_of(sources.len()) is None,
{
}

/// Lines are shown with their sources where they come from several, or were
/// picked by labels; and while they wrap, so many of them from where the window
/// starts.
pub proof fn lines_of_several_sources_name_them(workspace: WorkspaceModel)
    requires
        workspace.app.logs is Some,
        0 < (workspace.app.logs->0).buffer.shown().len() <= usize::MAX,
    ensures
        ({
            let session = workspace.app.logs->0;
            let several = session.buffer.sources.len() > 1 || session.target.selector is Labels;
            let len = session.buffer.shown().len();
            let body = tail_body(workspace, session);
            &&& !workspace.log_wrap ==> body == (LinesBodyModel::List { sources: several })
            &&& workspace.log_wrap ==> {
                &&& body is Wrapped
                &&& body->Wrapped_sources == several
                &&& body->Wrapped_start == wrap_start(len as usize, workspace.log_anchor)
                &&& body->Wrapped_start < body->end <= len
                &&& body->end - body->Wrapped_start <= 500
                &&& body->end == len || body->end - body->Wrapped_start == 500
            }
        }),
{
}

/// A tail says where its lines without a timestamp went, and which lines a window
/// shows, exactly where that is so.
pub proof fn a_tail_says_what_is_not_as_usual(workspace: WorkspaceModel, buffer: crate::logs::LogModel)
    requires
        buffer.shown().len() <= usize::MAX,
    ensures
        ({
            let notes = crate::views::tail_notes(workspace, buffer);
            let said: int = if workspace.log_notice is Some {
                1
            } else {
                0
            };
            let bare: int = if buffer.order == crate::logs::LogOrder::Timestamp && buffer.untimestamped() > 0 {
                1
            } else {
                0
            };
            let start = wrap_start(buffer.shown().len() as usize, workspace.log_anchor);
            let cut: int = if workspace.log_wrap && (start > 0 || buffer.shown().len() > 500) {
                1
            } else {
                0
            };
            &&& notes.len() == said + bare + cut
            &&& workspace.log_notice matches Some(text) ==> notes[0] == text
            &&& bare == 1 ==> holds(notes[said], decimal(buffer.untimestamped()))
            &&& cut == 1 ==> holds(notes[said + bare], decimal((start + 1) as nat)) && holds(
                notes[said + bare],
                decimal(buffer.shown().len()),
            )
        }),
{
    let shown = buffer.shown().len();
    let start = wrap_start(shown as usize, workspace.log_anchor);
    let end = if start + WRAP_LIMIT < shown {
        start + WRAP_LIMIT
    } else {
        shown as int
    };
    let count = decimal(buffer.untimestamped());
    let rest = " of these lines; they are listed last, in arrival order."@;
    a_text_holds_its_parts("No timestamp on "@, count, rest);
    let (from, to, all) = (decimal((start + 1) as nat), decimal(end as nat), decimal(shown));
    let (opening, closing) = ("Wrapped: showing lines "@, ". Filter or jump to reach the rest."@);
    let text = opening + from + "–"@ + to + " of "@ + all + closing;
    assert(text =~= opening + from + ("–"@ + to + " of "@ + all + closing));
    a_text_holds_its_parts(opening, from, "–"@ + to + " of "@ + all + closing);
    assert(text =~= (opening + from + "–"@ + to + " of "@) + all + closing);
    a_text_holds_its_parts(opening + from + "–"@ + to + " of "@, all, closing);
}

/// The footer counts the kinds of the cluster on screen, the rows that are held,
/// the clusters that are connected where there are several, and what was lost.
pub proof fn the_footer_counts_what_is_held(app: AppModel)
    ensures
        ({
            let lines = crate::views::held_text(app);
            let connected = app.contexts.filter(crate::views::reachable(app)).len();
            let lost = app.focused().cluster matches Some(cluster) && lookup(app.connections, cluster) matches Some(
                connection,
            ) && connection.dropped_events > 0;
            &&& lines[0] == decimal(app.kinds_of(app.focused().cluster).len()) + " kinds"@
            &&& connected > 1 ==> lines[1] == "· "@ + decimal(connected) + " clusters warm"@
            &&& connected <= 1 ==> lines[1] == "· "@ + decimal(
                crate::model::counted(crate::model::all_held_rows(app.tables)) as nat,
            ) + " rows held"@
            &&& lines.len() == 2 + (if connected > 1 {
                1int
            } else {
                0
            }) + (if lost {
                1int
            } else {
                0
            })
        }),
{
}

/// The column of the namespace is there unless the kind is known to live outside
/// of namespaces.
pub proof fn the_namespace_has_a_column(workspace: WorkspaceModel, index: int, at: int)
    requires
        0 <= index < workspace.app.panes.len(),
        workspace.app.panes[index].kind is Some,
        0 <= at < workspace.app.kinds_of(workspace.app.focused().cluster).len(),
        workspace.app.kinds_of(workspace.app.focused().cluster)[at].id == workspace.app.panes[index].kind->0,
        forall|i: int|
            0 <= i < at ==> (#[trigger] workspace.app.kinds_of(workspace.app.focused().cluster)[i]).id
                != workspace.app.panes[index].kind->0,
    ensures
        pane_view_of(workspace, index).namespaced == workspace.app.kinds_of(
            workspace.app.focused().cluster,
        )[at].namespaced,
{
    let kinds = workspace.app.kinds_of(workspace.app.focused().cluster);
    crate::seqs::filter_first(kinds, crate::app::of_kind(workspace.app.panes[index].kind->0), at);
}

/// The sidebar lists every context in order, says something exactly where no row
/// is left, and then whether kinds are known at all.
pub proof fn the_sidebar_lists_contexts(
    workspace: WorkspaceModel,
    found: Seq<(crate::catalog::CategoryModel, Seq<crate::objects::KindInfoModel>)>,
    text: Seq<char>,
    i: int,
)
    requires
        0 <= i < workspace.app.contexts.len(),
    ensures
        ({
            let view = crate::panes::sidebar_of(workspace, found, text);
            &&& view.contexts.len() == workspace.app.contexts.len()
            &&& view.contexts[i].name == workspace.app.contexts[i].name
            &&& view.nothing is Some <==> view.rows.len() == 0
            &&& view.nothing matches Some(note) ==> (note == "connect to discover kinds"@ <==> workspace.app.kinds_of(
                workspace.app.focused().cluster,
            ).len() == 0)
            &&& view.nothing matches Some(note) ==> (note == "no kind matches that filter"@ <==> workspace.app.kinds_of(
                workspace.app.focused().cluster,
            ).len() > 0)
        }),
{
    reveal_strlit("connect to discover kinds");
    reveal_strlit("no kind matches that filter");
    assert("connect to discover kinds"@.len() != "no kind matches that filter"@.len());
}

/// The list of forwards is there where it was opened and there are any: each
/// forward once, in order, under its own cluster and number.
pub proof fn the_list_of_forwards_has_each_once(workspace: WorkspaceModel, i: int)
    requires
        0 <= i < workspace.app.forwards.len(),
    ensures
        ({
            let panel = crate::panes::forwards_panel_of(workspace);
            let ((id, cluster), info) = workspace.app.forwards[i];
            &&& panel is Some <==> workspace.forwards_open
            &&& panel matches Some(entries) ==> {
                &&& entries.len() == workspace.app.forwards.len()
                &&& entries[i].cluster == cluster
                &&& entries[i].id == info.id
                &&& entries[i].row == crate::views::forward_row((cluster, info))
            }
        }),
{
}

/// The footer tells of the change that was made last, marked unless it was
/// applied, and of what is held and how the pump is doing.
pub proof fn the_footer_tells_of_the_last_change(workspace: WorkspaceModel)
    ensures
        ({
            let footer = crate::panes::footer_of(workspace);
            let made = workspace.app.activity;
            &&& footer.activity is Some <==> made.len() > 0
            &&& footer.activity matches Some((text, failed)) ==> {
                &&& text == crate::views::activity_text(made[0])
                &&& failed <==> !(made[0].outcome is Applied)
            }
            &&& footer.held == crate::views::held_text(workspace.app)
            &&& holds(footer.pump, "flushes "@ + decimal(workspace.stats.flushes as nat))
            &&& holds(footer.pump, "coalesced "@ + decimal(workspace.stats.collapsed as nat))
            &&& holds(footer.pump, "dropped "@ + decimal(workspace.stats.dropped as nat))
        }),
{
    let stats = workspace.stats;
    let (flushes, folded, lost) = (
        decimal(stats.flushes as nat),
        decimal(stats.collapsed as nat),
        decimal(stats.dropped as nat),
    );
    let pump = crate::views::stats_text(stats);
    reveal_strlit(" · coalesced ");
    reveal_strlit(" · dropped ");
    reveal_strlit("coalesced ");
    reveal_strlit("dropped ");
    let dot = seq![' ', '·', ' '];
    assert(" · coalesced "@ =~= dot + "coalesced "@);
    assert(" · dropped "@ =~= dot + "dropped "@);
    let nothing = Seq::<char>::empty();
    let behind = " · coalesced "@ + folded + " · dropped "@ + lost;
    assert(pump =~= nothing + ("flushes "@ + flushes) + behind);
    a_text_holds_its_parts(nothing, "flushes "@ + flushes, behind);
    let before = "flushes "@ + flushes + dot;
    assert(pump =~= before + ("coalesced "@ + folded) + (" · dropped "@ + lost));
    a_text_holds_its_parts(before, "coalesced "@ + folded, " · dropped "@ + lost);
    let all = "flushes "@ + flushes + " · coalesced "@ + folded + dot;
    assert(pump =~= all + ("dropped "@ + lost) + nothing);
    a_text_holds_its_parts(all, "dropped "@ + lost, nothing);
}

/// The button of the namespaces names the one that was chosen, or all of them.
pub proof fn the_button_names_the_namespace(namespace: Seq<char>)
    ensures
        namespace.is_prefix_of(crate::views::namespace_text(Some(namespace))),
        "All namespaces"@.is_prefix_of(crate::views::namespace_text(None)),
{
    reveal_strlit("All namespaces");
    reveal_strlit("All namespaces  ▾");
    let text = crate::views::namespace_text(Some(namespace));
    assert(text.take(namespace.len() as int) =~= namespace);
    assert("All namespaces  ▾"@.take(14) =~= "All namespaces"@);
}

/// Of a command that was not accepted it is said whether to retry or to restart.
pub proof fn a_refused_command_says_what_to_do()
    ensures
        holds(crate::wording::command_error_text(CommandError::Backpressure), "Retry"@),
        holds(crate::wording::command_error_text(CommandError::Closed), "Restart"@),
        crate::wording::command_error_text(CommandError::Backpressure) != crate::wording::command_error_text(
            CommandError::Closed,
        ),
{
    reveal_strlit("The cluster runtime is saturated and did not accept the command. Retry in a moment.");
    reveal_strlit("The cluster runtime has stopped. Restart Periscope to reconnect.");
    reveal_strlit("Retry");
    reveal_strlit("Restart");
    let busy = crate::wording::command_error_text(CommandError::Backpressure);
    let stopped = crate::wording::command_error_text(CommandError::Closed);
    assert(busy.subrange(65, 65 + "Retry"@.len() as int) =~= "Retry"@);
    assert(stopped.subrange(33, 33 + "Restart"@.len() as int) =~= "Restart"@);
    assert(busy.len() != stopped.len());
}

/// A table of no kind, or of one that is not known, has a column for the
/// namespace.
pub proof fn unknown_kinds_have_a_namespace(workspace: WorkspaceModel, index: int)
    requires
        0 <= index < workspace.app.panes.len(),
        workspace.app.panes[index].kind is None || forall|i: int|
            0 <= i < workspace.app.kinds_of(workspace.app.focused().cluster).len() ==> Some(
                (#[trigger] workspace.app.kinds_of(workspace.app.focused().cluster)[i]).id,
            ) != workspace.app.panes[index].kind,
    ensures
        pane_view_of(workspace, index).namespaced,
{
    let kinds = workspace.app.kinds_of(workspace.app.focused().cluster);
    if workspace.app.panes[index].kind is Some {
        let keep = crate::app::of_kind(workspace.app.panes[index].kind->0);
        if kinds.filter(keep).len() > 0 {
            crate::seqs::filter_source(kinds, keep, 0);
            let i = choose|i: int| 0 <= i < kinds.len() && kinds[i] == kinds.filter(keep)[0];
            assert(keep(kinds[i]));
        }
    }
}

/// Beside the cluster's name stands the kind on screen; that none is chosen is
/// told apart from there being no cluster.
pub proof fn the_header_names_the_kind(workspace: WorkspaceModel)
    ensures
        ({
            let pane = workspace.app.focused();
            let said = header_of(workspace).subtitle;
            &&& pane.cluster is Some && pane.kind is Some ==> said == kind_label(pane.kind->0)
            &&& pane.cluster is Some && pane.kind is None ==> holds(said, "no kind"@)
            &&& pane.cluster is None ==> holds(said, "no cluster"@)
        }),
{
    reveal_strlit("no kind");
    reveal_strlit("no kind selected");
    reveal_strlit("no cluster");
    reveal_strlit("no cluster selected");
    assert("no kind selected"@.subrange(0, 0 + "no kind"@.len() as int) =~= "no kind"@);
    assert("no cluster selected"@.subrange(0, 0 + "no cluster"@.len() as int) =~= "no cluster"@);
}

/// Over a tail stands a complaint where it failed or its filter cannot be used,
/// and in that order; whatever else is said there is none.
pub proof fn only_failures_are_complaints(workspace: WorkspaceModel, buffer: crate::logs::LogModel)
    ensures
        ({
            let said = crate::views::tail_notice_text(workspace, buffer);
            let troubled = buffer.error is Some || buffer.matcher is Invalid;
            &&& troubled ==> (said matches Some((_, complaint)) && complaint)
            &&& !troubled ==> (said matches Some((_, complaint)) ==> !complaint)
            &&& buffer.error matches Some(error) ==> (said matches Some((text, _)) && text == error)
            &&& !troubled ==> (said is Some <==> crate::views::tail_notes(workspace, buffer).len() > 0)
            &&& !troubled && workspace.log_notice is Some && crate::views::tail_notes(workspace, buffer).len() == 1
                ==> (said matches Some((text, _)) && text == workspace.log_notice->0)
        }),
{
}

/// Where a command shows no lines, it is told apart whether none match, whether
/// it still runs, and whether it printed nothing.
pub proof fn a_silent_command_says_why(
    filtered: ExecSessionModel,
    running: ExecSessionModel,
    ended: ExecSessionModel,
)
    requires
        filtered.buffer.lines.len() > 0,
        running.buffer.lines.len() == 0 && running.status is None,
        ended.buffer.lines.len() == 0 && ended.status is Some,
    ensures
        ({
            let said = |session: ExecSessionModel| crate::views::command_empty_text(session);
            &&& holds(said(filtered), "filter"@)
            &&& holds(said(running), "Running"@)
            &&& holds(said(ended), "printed nothing"@)
            &&& said(filtered) != said(running)
            &&& said(running) != said(ended)
            &&& said(filtered) != said(ended)
        }),
{
    reveal_strlit("filter");
    reveal_strlit("Running");
    reveal_strlit("printed nothing");
    reveal_strlit("Nothing matches the current filter.");
    reveal_strlit("Running — waiting for output.");
    reveal_strlit("The command printed nothing.");
    let (none, busy, done) = (
        "Nothing matches the current filter."@,
        "Running — waiting for output."@,
        "The command printed nothing."@,
    );
    assert(none.subrange(28, 28 + "filter"@.len() as int) =~= "filter"@);
    assert(busy.subrange(0, 0 + "Running"@.len() as int) =~= "Running"@);
    assert(done.subrange(12, 12 + "printed nothing"@.len() as int) =~= "printed nothing"@);
    assert(none[0] != busy[0] && busy[0] != done[0] && none[0] != done[0]);
}

} // verus!

use periscope::clock::{Duration, Instant, SystemTime};
use periscope::events::{ClusterCommand, ClusterEvent, FlushStats};
use periscope::logview::LEGEND_LIMIT;
use periscope::mutation::{Mutation, MutationOutcome};
use periscope::objects::{
    Cell, ClusterId, ColumnSpec, ContextInfo, EventLine, KindId, KindInfo, ObjectDetail, OwnerRef, PodContainer,
    ResourceKey, ResourceRow, RowState,
};
use periscope::permissions::Permissions;
use periscope::rows::{Sort, SortKey};
use periscope::sessions::{
    ConnectionState, ExecStatus, ForwardId, ForwardInfo, ForwardState, ForwardTarget, LogLine, LogSource,
    LogSourceState,
};
use periscope::console::Lines;
use periscope::workspace::Workspace;
use periscope::wording::DetailTab;
use periscope::views::Action;
use periscope::proposal::Proposal;
use periscope::fields::{Field, Typed};
use periscope::panes::{headings, row_cells, DetailBody, DetailContent, DetailPane, LinesBody, MainPane, PALETTE_SHOWN};
use std::sync::Arc;

fn now() -> Instant {
    Instant { nanos: 1_000_000_000_000 }
}

fn cell(text: &str) -> Cell {
    let number = text.parse::<f64>().ok().map(|value| {
        let bits = value.to_bits() as i64;
        bits ^ ((((bits >> 63) as u64) >> 1) as i64)
    });
    Cell { text: String::from(text), number }
}

fn open() -> Workspace {
    Workspace::new(now())
}

fn apply(workspace: &mut Workspace, events: Vec<ClusterEvent>) {
    workspace.apply_events(&events, FlushStats { applied: 0, collapsed: 0, dropped: 0 }, now());
}

fn context(name: &str) -> ContextInfo {
    ContextInfo {
        name: String::from(name),
        cluster: String::from("cluster"),
        user: None,
        namespace: None,
    }
}

fn contexts(names: &[&str], current: &str) -> ClusterEvent {
    ClusterEvent::Contexts {
        contexts: names.iter().copied().map(context).collect(),
        current: Some(ClusterId::new(current)),
    }
}

fn pods() -> KindId {
    KindId::new("", "v1", "Pod", "pods")
}

fn deployments() -> KindId {
    KindId::new("apps", "v1", "Deployment", "deployments")
}

fn kinds_event(cluster: &str) -> ClusterEvent {
    ClusterEvent::Kinds {
        cluster: ClusterId::new(cluster),
        kinds: Arc::new(vec![
            KindInfo {
                id: pods(),
                namespaced: true,
                watchable: true,
                custom: false,
            },
            KindInfo {
                id: deployments(),
                namespaced: true,
                watchable: true,
                custom: false,
            },
        ]),
    }
}

fn row(name: &str) -> ResourceRow {
    ResourceRow {
        key: ResourceKey::new("default", name),
        uid: None,
        cells: vec![cell("Running")],
        state: RowState::Healthy,
        created: None,
    }
}

fn reset(cluster: &str, kind: KindId, names: &[&str]) -> ClusterEvent {
    ClusterEvent::ResourceReset {
        cluster: ClusterId::new(cluster),
        kind,
        columns: Arc::new(vec![ColumnSpec::fixed("STATUS", 100)]),
        rows: names.iter().map(|name| row(name)).collect(),
    }
}

fn connected(cluster: &str) -> ClusterEvent {
    ClusterEvent::Status { cluster: ClusterId::new(cluster), state: ConnectionState::Connected }
}

fn opened() -> Workspace {
    let mut workspace = open();
    apply(
        &mut workspace,
        vec![contexts(&["prod", "staging"], "prod"), kinds_event("prod"), connected("prod")],
    );
    workspace
}

fn object(name: &str, events: Vec<EventLine>, owners: Vec<OwnerRef>) -> ObjectDetail {
    ObjectDetail {
        key: ResourceKey::new("default", name),
        yaml: String::from("kind: Pod\n"),
        maskable: false,
        revealed: true,
        events,
        owners,
    }
}

fn offered(pane: &DetailPane) -> Vec<Action> {
    pane.actions.iter().map(|button| button.action).collect()
}

fn enabled(pane: &DetailPane) -> Vec<Action> {
    pane.actions.iter().filter(|button| button.refused.is_none()).map(|button| button.action).collect()
}

fn deliver(workspace: &mut Workspace, kind: KindId, detail: ObjectDetail) {
    apply(
        workspace,
        vec![ClusterEvent::Object { cluster: ClusterId::new("prod"), kind, detail: Arc::new(detail) }],
    );
}

fn line(pod: &str, at: Option<i64>, text: &str) -> LogLine {
    LogLine {
        source: LogSource::new(pod, "api"),
        timestamp: at.map(SystemTime::at),
        text: String::from(text),
    }
}

fn lines(all: Vec<LogLine>) -> ClusterEvent {
    ClusterEvent::LogBatch { cluster: ClusterId::new("prod"), lines: all }
}

#[test]
fn the_header_names_the_cluster_and_what_it_shows() {
    let fresh = open().header();
    assert_eq!(fresh.cluster, None);
    assert_eq!(fresh.subtitle, "no cluster selected");
    assert!(!fresh.read_only);
    assert_eq!(fresh.forwards, None);
    assert_eq!(fresh.split, "Split  ⌘\\");
    assert_eq!(fresh.theme, "Theme: system");

    let mut workspace = opened();
    let header = workspace.header();
    assert_eq!(header.cluster, Some((ClusterId::new("prod"), ConnectionState::Connected)));
    assert_eq!(header.subtitle, "pods");

    let mut permissions = Permissions::permissive();
    permissions.deny(ClusterId::new("prod"));
    workspace.set_permissions(permissions);
    workspace.toggle_split(now());
    workspace.focus_pane(0, now());
    workspace.cycle_theme();
    let header = workspace.header();
    assert!(header.read_only);
    assert_eq!(header.split, "Single  ⌘\\");
    assert_eq!(header.theme, "Theme: light");
}

#[test]
fn the_header_counts_forwards_and_marks_broken_ones() {
    let mut workspace = opened();
    let forward = |id: u64, state: ForwardState| ClusterEvent::ForwardChanged {
        cluster: ClusterId::new("prod"),
        forward: Arc::new(ForwardInfo {
            state,
            ..ForwardInfo::starting(ForwardId(id), ForwardTarget::new("default", "api-0", 8080))
        }),
    };
    apply(&mut workspace, vec![forward(1, ForwardState::Listening { local_port: 51234 })]);
    assert_eq!(workspace.header().forwards.as_deref(), Some("Forwards 1"));

    apply(&mut workspace, vec![forward(2, ForwardState::Failed { reason: String::from("in use") })]);
    assert_eq!(workspace.header().forwards.as_deref(), Some("Forwards 2 ⚠"));

    assert!(workspace.forwards_panel().is_none());
    workspace.toggle_forwards();
    let panel = workspace.forwards_panel().expect("the list is open");
    assert_eq!(panel.len(), 2);
    assert_eq!(panel[0].id, ForwardId(1));
    assert_eq!(panel[0].row.address.as_deref(), Some("127.0.0.1:51234"));
    assert_eq!(panel[0].row.detail, "prod · 0 connections");
    assert!(!panel[0].row.problem);
    assert_eq!(panel[1].row.detail, "in use");
    assert!(panel[1].row.problem);

    workspace.stop_forward(ClusterId::new("prod"), ForwardId(1));
    workspace.stop_forward(ClusterId::new("prod"), ForwardId(2));
    assert!(workspace.forwards_panel().is_none());
    assert_eq!(workspace.header().forwards, None);
}

#[test]
fn the_sidebar_lists_contexts_and_sections() {
    let workspace = opened();
    let sidebar = workspace.sidebar("");
    assert_eq!(sidebar.contexts.len(), 2);
    assert_eq!(sidebar.contexts[0].name, "prod");
    assert!(sidebar.contexts[0].selected);
    assert!(!sidebar.contexts[1].selected);
    assert_eq!(sidebar.rows.len(), 3);
    assert_eq!(sidebar.nothing, None);

    assert_eq!(workspace.sidebar(" DEPLOY ").rows.len(), 2);
    let none = workspace.sidebar("nonsense");
    assert!(none.rows.is_empty());
    assert_eq!(none.nothing, Some("no kind matches that filter"));
    assert_eq!(open().sidebar("").nothing, Some("connect to discover kinds"));
}

#[test]
fn headings_carry_the_arrow_of_what_is_sorted_by() {
    let mut workspace = opened();
    apply(&mut workspace, vec![reset("prod", pods(), &["b", "a"])]);
    let labels = |workspace: &Workspace| -> Vec<String> {
        workspace.pane_view(0).headings.into_iter().map(|heading| heading.label).collect()
    };
    assert_eq!(labels(&workspace), ["NAMESPACE▴", "NAME", "STATUS", "AGE"]);
    workspace.sort_by(0, SortKey::Cell(0), now());
    workspace.sort_by(0, SortKey::Cell(0), now());
    assert_eq!(labels(&workspace), ["NAMESPACE", "NAME", "STATUS▾", "AGE"]);
    assert_eq!(
        headings(&vec![], false, Sort::default()).into_iter().map(|heading| heading.width).collect::<Vec<_>>(),
        [None, Some(80)]
    );
}

#[test]
fn a_pane_without_rows_says_why() {
    let workspace = open();
    let view = workspace.pane_view(0);
    assert_eq!(view.message.as_deref(), Some("Select a context to connect."));
    assert_eq!(view.title, None);
    assert!(view.namespaced);
    assert!(view.focused);

    let mut workspace = opened();
    assert_eq!(workspace.pane_view(0).message.as_deref(), Some("No pods here."));
    apply(&mut workspace, vec![reset("prod", pods(), &["api-0"])]);
    assert_eq!(workspace.pane_view(0).message, None);

    workspace.toggle_split(now());
    assert_eq!(workspace.pane_view(0).title.as_deref(), Some("prod · pods"));
    assert!(!workspace.pane_view(0).focused);
    assert!(workspace.pane_view(1).focused);
}

#[test]
fn the_first_column_carries_the_colour_wherever_it_is() {
    let row = row("api-0");
    let columns = vec![(1, ColumnSpec::flexible("NODE")), (0, ColumnSpec::fixed("STATUS", 100))];
    assert_eq!(
        row_cells(&row, &columns, true),
        [
            (String::from("default"), false),
            (String::from("api-0"), false),
            (String::new(), false),
            (String::from("Running"), true),
        ]
    );
    assert_eq!(row_cells(&row, &vec![], false), [(String::from("api-0"), false)]);
}

#[test]
fn the_detail_pane_of_a_pod_offers_what_pods_have() {
    let mut workspace = opened();
    assert!(workspace.detail_pane().is_none());
    workspace.open_object(ResourceKey::new("default", "api-0"));

    let pane = workspace.detail_pane().expect("it opens at once");
    assert_eq!(pane.title, "pods · default/api-0");
    assert_eq!(pane.body, DetailBody::Loading);
    assert!(pane.is_pod);
    assert_eq!(pane.refused, None);
    assert_eq!(pane.container, None);
    assert_eq!(enabled(&pane), [Action::DryRun, Action::Apply, Action::Delete]);

    deliver(&mut workspace, pods(), object("api-0", vec![], vec![]));
    workspace.sync_yaml(vec![
        PodContainer { name: String::from("api"), init: false },
        PodContainer { name: String::from("envoy"), init: false },
    ]);
    assert_eq!(workspace.detail_pane().unwrap().container.as_deref(), Some("Default container"));
    workspace.pick_container(Some(String::from("envoy")));
    assert_eq!(workspace.detail_pane().unwrap().container.as_deref(), Some("envoy"));

    let mut permissions = Permissions::permissive();
    permissions.deny(ClusterId::new("prod"));
    workspace.set_permissions(permissions);
    let pane = workspace.detail_pane().unwrap();
    let reason = "`prod` is read-only. Change `[access]` in `settings.toml` to allow writes.";
    assert_eq!(offered(&pane), [Action::DryRun, Action::Apply, Action::Delete]);
    assert!(enabled(&pane).is_empty());
    assert!(pane.actions.iter().all(|button| button.refused.as_deref() == Some(reason)));
    assert_eq!(pane.refused.as_deref(), Some(reason));
    assert!(pane.is_pod);
    workspace.act(Action::Delete, "", String::new());
    assert!(workspace.pending().is_none());
}

#[test]
fn the_tabs_of_the_detail_pane_count_and_fill() {
    let mut workspace = opened();
    workspace.open_object(ResourceKey::new("default", "api-0"));
    let event = |reason: &str, count: u32, warning: bool| EventLine {
        warning,
        reason: String::from(reason),
        message: String::from("it happened"),
        count,
    };
    let owner = OwnerRef {
        api_version: String::from("apps/v1"),
        kind: String::from("ReplicaSet"),
        name: String::from("api"),
        controller: true,
    };
    deliver(
        &mut workspace,
        pods(),
        object("api-0", vec![event("Pulled", 1, false), event("BackOff", 7, true)], vec![owner]),
    );

    let tabs = |workspace: &Workspace| match workspace.detail_pane().unwrap().body {
        DetailBody::Ready { tabs, content } => (tabs, content),
        other => panic!("expected an object, got {other:?}"),
    };
    let (all, content) = tabs(&workspace);
    assert_eq!(all.iter().map(|tab| tab.label.as_str()).collect::<Vec<_>>(), ["YAML", "Events (2)", "Related (1)"]);
    assert!(all[0].active && !all[1].active && !all[2].active);
    assert_eq!(content, DetailContent::Yaml);

    workspace.show_detail_tab(DetailTab::Events);
    match tabs(&workspace).1 {
        DetailContent::Events(rows) => {
            assert_eq!(rows[0].reason, "BackOff");
            assert!(rows[0].warning);
            assert_eq!(rows[0].times.as_deref(), Some("×7"));
            assert_eq!(rows[1].times, None);
        }
        other => panic!("expected events, got {other:?}"),
    }

    workspace.show_detail_tab(DetailTab::Related);
    match tabs(&workspace).1 {
        DetailContent::Related(rows) => {
            assert_eq!(rows[0].label, "ReplicaSet/api");
            assert_eq!(rows[0].kind, KindId::new("apps", "v1", "ReplicaSet", "replicasets"));
            assert_eq!(rows[0].key, ResourceKey::new("default", "api"));
        }
        other => panic!("expected owners, got {other:?}"),
    }

    workspace.open_object(ResourceKey::new("default", "api-1"));
    deliver(&mut workspace, pods(), object("api-1", vec![], vec![]));
    workspace.show_detail_tab(DetailTab::Related);
    assert_eq!(tabs(&workspace).1, DetailContent::Nothing("Nothing owns this object."));
    workspace.show_detail_tab(DetailTab::Events);
    assert_eq!(tabs(&workspace).1, DetailContent::Nothing("Nothing has happened to this object recently."));
}

#[test]
fn hidden_values_cannot_be_edited() {
    let mut workspace = opened();
    workspace.open_object(ResourceKey::new("default", "db"));
    let mut secret = object("db", vec![], vec![]);
    secret.maskable = true;
    secret.revealed = false;
    deliver(&mut workspace, pods(), secret.clone());
    let pane = workspace.detail_pane().unwrap();
    assert_eq!(pane.note, Some("values hidden"));
    assert_eq!(pane.reveal, Some("Reveal values"));
    assert_eq!(offered(&pane), [Action::DryRun, Action::Apply, Action::Delete]);
    assert_eq!(enabled(&pane), [Action::Delete]);
    workspace.act(Action::Apply, "", String::from("kind: Secret\n"));
    assert!(workspace.pending().is_none());

    secret.revealed = true;
    deliver(&mut workspace, pods(), secret);
    let pane = workspace.detail_pane().unwrap();
    assert_eq!(pane.note, None);
    assert_eq!(pane.reveal, Some("Values shown"));
    assert_eq!(enabled(&pane), [Action::DryRun, Action::Apply, Action::Delete]);
}

#[test]
fn a_failed_fetch_is_what_the_detail_pane_shows() {
    let mut workspace = opened();
    workspace.open_object(ResourceKey::new("default", "api-0"));
    apply(
        &mut workspace,
        vec![ClusterEvent::ObjectFailed {
            cluster: ClusterId::new("prod"),
            kind: pods(),
            key: ResourceKey::new("default", "api-0"),
            reason: String::from("not found"),
        }],
    );
    assert_eq!(workspace.detail_pane().unwrap().body, DetailBody::Failed(String::from("not found")));
}

#[test]
fn actions_ask_before_anything_is_sent() {
    let mut workspace = opened();
    workspace.select_kind(deployments());
    apply(&mut workspace, vec![ClusterEvent::ResourceReset {
        cluster: ClusterId::new("prod"),
        kind: deployments(),
        columns: Arc::new(vec![ColumnSpec::fixed("READY", 60)]),
        rows: vec![ResourceRow { cells: vec![cell("2/3")], ..row("api") }],
    }]);
    workspace.open_object(ResourceKey::new("default", "api"));
    workspace.take_commands();
    assert_eq!(
        enabled(&workspace.detail_pane().unwrap()),
        [Action::Scale, Action::Restart, Action::DryRun, Action::Apply, Action::Delete]
    );

    workspace.act(Action::Scale, "many", String::new());
    assert!(workspace.pending().is_none());
    assert_eq!(workspace.last_error().map(String::as_str), Some("Type a replica count next to Scale first."));

    workspace.act(Action::Scale, " 5 ", String::new());
    assert_eq!(
        workspace.pending(),
        Some(&Proposal::Mutation {
            cluster: ClusterId::new("prod"),
            mutation: Arc::new(Mutation::Scale {
                kind: deployments(),
                key: ResourceKey::new("default", "api"),
                replicas: 5,
                current: Some(3),
            }),
        })
    );

    workspace.act(Action::DryRun, "", String::from("kind: Deployment\n"));
    let question = workspace.confirmation().expect("a question");
    assert_eq!(question.verb, "Dry run");
    assert!(!question.destructive);
    assert_eq!(question.warning, None);
    assert_eq!(question.health, None);

    workspace.act(Action::Delete, "", String::new());
    let question = workspace.confirmation().expect("a question");
    assert_eq!(question.verb, "Delete");
    assert!(question.destructive);
    assert_eq!(question.warning, Some("This cannot be undone."));
    assert_eq!(question.sentence, "Delete deployments.apps api in namespace default on cluster prod?");
    assert!(workspace.take_commands().is_empty());

    workspace.act(Action::Restart, "", String::new());
    assert_eq!(workspace.confirmation().unwrap().verb, "Restart");
    workspace.confirm_mutation(now());
    assert_eq!(workspace.take_commands().len(), 1);
    assert!(workspace.confirmation().is_none());
}

#[test]
fn nodes_are_drained_and_cordoned() {
    let nodes = KindId::new("", "v1", "Node", "nodes");
    let mut workspace = opened();
    workspace.select_kind(nodes.clone());
    let node = |status: &str| ClusterEvent::ResourceReset {
        cluster: ClusterId::new("prod"),
        kind: nodes.clone(),
        columns: Arc::new(vec![ColumnSpec::fixed("STATUS", 60)]),
        rows: vec![ResourceRow {
            key: ResourceKey::new("", "node-1"),
            uid: None,
            cells: vec![cell(status)],
            state: RowState::Healthy,
            created: None,
        }],
    };
    apply(&mut workspace, vec![node("Ready")]);
    workspace.open_object(ResourceKey::new("", "node-1"));
    assert_eq!(offered(&workspace.detail_pane().unwrap())[..2], [Action::Drain, Action::Cordon]);
    workspace.act(Action::Cordon, "", String::new());
    assert_eq!(workspace.confirmation().unwrap().verb, "Cordon");
    workspace.act(Action::Drain, "", String::new());
    assert_eq!(workspace.confirmation().unwrap().verb, "Drain");

    apply(&mut workspace, vec![node("Ready,SchedulingDisabled")]);
    assert_eq!(offered(&workspace.detail_pane().unwrap())[..2], [Action::Drain, Action::Uncordon]);
    workspace.act(Action::Uncordon, "", String::new());
    assert_eq!(workspace.confirmation().unwrap().verb, "Uncordon");
}

#[test]
fn a_question_about_a_broken_cluster_says_so() {
    let mut workspace = opened();
    workspace.open_object(ResourceKey::new("default", "api-0"));
    workspace.act(Action::Delete, "", String::new());
    apply(&mut workspace, vec![ClusterEvent::Status {
        cluster: ClusterId::new("prod"),
        state: ConnectionState::Degraded { reason: String::from("slow") },
    }]);
    let health = workspace.confirmation().unwrap().health.expect("the cluster is in trouble");
    assert!(health.starts_with("This cluster is currently "), "{health}");
}

#[test]
fn the_log_pane_says_what_it_shows() {
    let mut workspace = opened();
    assert!(workspace.log_pane().is_none());
    workspace.open_object(ResourceKey::new("default", "api-0"));
    workspace.toggle_logs();
    let pane = workspace.log_pane().expect("a tail");
    assert_eq!(pane.title, "logs · default/api-0");
    assert_eq!(pane.body, LinesBody::Message("Attaching…"));
    assert_eq!(pane.status, "0 lines · 0 streaming ");
    assert_eq!(
        (pane.following, pane.regex, pane.case, pane.version, pane.wrap, pane.order),
        ("Following", ".* off", "aa", "Current", "Wrap off", "By arrival")
    );

    apply(&mut workspace, vec![ClusterEvent::LogSourceChanged {
        cluster: ClusterId::new("prod"),
        source: LogSource::new("api-0", "api"),
        state: LogSourceState::Streaming,
    }]);
    assert_eq!(workspace.log_pane().unwrap().body, LinesBody::Message("Attached — waiting for output."));

    apply(&mut workspace, vec![lines(vec![line("api-0", Some(5), "one"), line("api-0", None, "two")])]);
    let pane = workspace.log_pane().unwrap();
    assert_eq!(pane.status, "2 lines · 1 streaming ");
    assert_eq!(pane.body, LinesBody::List { sources: false });
    assert_eq!(pane.legend, [(String::from("api-0/api"), false)]);
    assert_eq!(pane.more, None);

    workspace.toggle_order();
    let pane = workspace.log_pane().unwrap();
    assert_eq!(pane.order, "By time");
    assert_eq!(
        pane.notice,
        Some((
            String::from("No timestamp on 1 of these lines; they are listed last, in arrival order."),
            false
        ))
    );

    workspace.apply_filter(Lines::Logs, String::from("three"));
    let pane = workspace.log_pane().unwrap();
    assert_eq!(pane.body, LinesBody::Message("Nothing matches the current filter."));
    assert_eq!(pane.status, "0 of 2 lines · 1 streaming ");

    workspace.apply_filter(Lines::Logs, String::from("["));
    workspace.toggle_filter_mode(Lines::Logs, true);
    let pane = workspace.log_pane().unwrap();
    assert_eq!(pane.regex, ".* on");
    let (said, bad) = pane.notice.expect("a complaint");
    assert!(bad && said.starts_with("filter: "), "{said}");
}

#[test]
fn a_wrapped_tail_says_which_lines_it_shows() {
    let mut workspace = opened();
    workspace.open_object(ResourceKey::new("default", "api-0"));
    workspace.toggle_logs();
    let many: Vec<LogLine> = (0..600).map(|index| line("api-0", Some(index), "text")).collect();
    apply(&mut workspace, vec![lines(many)]);
    workspace.toggle_wrap();
    let pane = workspace.log_pane().unwrap();
    assert_eq!(pane.wrap, "Wrap on");
    assert_eq!(pane.body, LinesBody::Wrapped { start: 100, end: 600, sources: false });
    assert_eq!(
        pane.notice.unwrap().0,
        "Wrapped: showing lines 101–600 of 600. Filter or jump to reach the rest."
    );

    workspace.jump_to_time("1970-01-01T00:00:10Z", SystemTime::at(1_000));
    assert_eq!(workspace.log_pane().unwrap().body, LinesBody::Wrapped { start: 10, end: 510, sources: false });
    assert_eq!(
        workspace.log_pane().unwrap().notice.unwrap().0,
        "Jumped to 00:00:10 — line 11 of 600 · Wrapped: showing lines 11–510 of 600. Filter or jump to reach the rest."
    );
}

#[test]
fn the_legend_names_twelve_sources() {
    let mut workspace = opened();
    workspace.open_object(ResourceKey::new("default", "api-0"));
    workspace.toggle_logs();
    let events: Vec<ClusterEvent> = (0..14)
        .map(|index| ClusterEvent::LogSourceChanged {
            cluster: ClusterId::new("prod"),
            source: LogSource::new(&format!("api-{index:02}"), "api"),
            state: if index == 0 {
                LogSourceState::Ended
            } else if index == 1 {
                LogSourceState::Failed { reason: String::from("gone") }
            } else {
                LogSourceState::Streaming
            },
        })
        .collect();
    apply(&mut workspace, events);
    let pane = workspace.log_pane().unwrap();
    assert_eq!(pane.legend.len(), LEGEND_LIMIT);
    assert_eq!(pane.legend[0], (String::from("api-00/api (ended)"), true));
    assert_eq!(pane.legend[1], (String::from("api-01/api (failed)"), true));
    assert_eq!(pane.more.as_deref(), Some("+2 more"));
}

#[test]
fn the_command_pane_says_how_the_command_is_doing() {
    let mut workspace = opened();
    assert!(workspace.exec_pane().is_none());
    workspace.open_object(ResourceKey::new("default", "api-0"));
    workspace.run_command("dmesg");
    workspace.confirm_mutation(now());
    let pane = workspace.exec_pane().expect("a command");
    assert!(pane.title.starts_with("exec · "), "{}", pane.title);
    assert_eq!(pane.body, LinesBody::Message("Running — waiting for output."));
    assert!(pane.running && !pane.failed);
    assert_eq!(pane.lines, "0 lines");

    apply(&mut workspace, vec![ClusterEvent::ExecFinished {
        cluster: ClusterId::new("prod"),
        status: ExecStatus::Exited { code: Some(0), message: String::new() },
    }]);
    let pane = workspace.exec_pane().unwrap();
    assert_eq!(pane.body, LinesBody::Message("The command printed nothing."));
    assert!(!pane.running && !pane.failed);

    apply(&mut workspace, vec![ClusterEvent::ExecOutput {
        cluster: ClusterId::new("prod"),
        lines: vec![line("api-0", None, "one")],
    }]);
    assert_eq!(workspace.exec_pane().unwrap().body, LinesBody::List { sources: true });
    workspace.copy_lines(Lines::Command);
    let (said, bad) = workspace.exec_pane().unwrap().notice.expect("what was copied");
    assert!(said.starts_with("Copied 1 lines") && !bad, "{said}");
}

#[test]
fn the_palette_lists_twelve_results() {
    let mut workspace = opened();
    let names: Vec<String> = (0..20).map(|index| format!("api-{index:02}")).collect();
    let names: Vec<&str> = names.iter().map(String::as_str).collect();
    apply(&mut workspace, vec![reset("prod", pods(), &names)]);
    assert!(workspace.palette_overlay().is_none());
    workspace.toggle_palette();
    let results = workspace.palette_overlay().expect("the palette is open");
    assert_eq!(results.len(), PALETTE_SHOWN);
    assert_eq!(results[0].label, "prod");
    assert_eq!(results[0].detail, "cluster");
    assert!(results[0].selected && !results[1].selected);
    workspace.select_next();
    assert!(workspace.palette_overlay().unwrap()[1].selected);
    workspace.search_palette("zzzzzzzz");
    assert_eq!(workspace.palette_overlay(), Some(vec![]));
}

#[test]
fn the_footer_says_what_is_held() {
    let mut workspace = opened();
    apply(&mut workspace, vec![reset("prod", pods(), &["api-0", "api-1"])]);
    let footer = workspace.footer();
    assert_eq!(footer.held, ["2 kinds", "· 2 rows held"]);
    assert_eq!(footer.activity, None);
    assert_eq!(footer.pump, "flushes 2 · coalesced 0 · dropped 0");

    apply(
        &mut workspace,
        vec![
            connected("staging"),
            ClusterEvent::Stale { cluster: Some(ClusterId::new("prod")), dropped: 3 },
            ClusterEvent::MutationDone {
                cluster: ClusterId::new("prod"),
                mutation: Arc::new(Mutation::Restart {
                    kind: deployments(),
                    key: ResourceKey::new("payments", "api"),
                }),
                outcome: MutationOutcome::Failed { reason: String::from("forbidden") },
            },
        ],
    );
    let footer = workspace.footer();
    assert_eq!(footer.held, ["2 kinds", "· 2 clusters warm", "· 2 rows held", "· 3 events dropped"]);
    let (said, bad) = footer.activity.expect("something was done");
    assert!(said.starts_with("restart payments/api · ") && bad, "{said}");
}

#[test]
fn a_frame_scrolls_once_and_knows_what_is_on_top() {
    let mut workspace = opened();
    let flash = Duration::from_millis(900);
    let frame = workspace.frame(vec![], now(), flash);
    assert_eq!((frame.main, frame.keys), (MainPane::Tables, "Periscope"));
    assert!(frame.log_lines.is_empty() && frame.exec_lines.is_empty());

    apply(&mut workspace, vec![ClusterEvent::ResourceApplied {
        cluster: ClusterId::new("prod"),
        kind: pods(),
        row: Arc::new(row("api-0")),
    }]);
    assert_eq!(workspace.frame(vec![], now(), flash).changed.len(), 1);
    let later = Instant { nanos: now().nanos + 900_000_001 };
    assert_eq!(workspace.frame(vec![], later, flash).changed.len(), 0);

    workspace.open_object(ResourceKey::new("default", "api-0"));
    workspace.toggle_logs();
    apply(&mut workspace, vec![lines(vec![line("api-0", None, "one"), line("api-0", None, "two")])]);
    let frame = workspace.frame(vec![], now(), flash);
    assert_eq!(frame.main, MainPane::Logs);
    assert_eq!(frame.log_lines.len(), 2);
    assert_eq!(frame.scroll_logs, Some(1));
    assert_eq!(workspace.frame(vec![], now(), flash).scroll_logs, None);

    workspace.run_command("dmesg");
    workspace.confirm_mutation(now());
    apply(&mut workspace, vec![ClusterEvent::ExecOutput {
        cluster: ClusterId::new("prod"),
        lines: vec![line("api-0", None, "one")],
    }]);
    workspace.toggle_palette();
    let frame = workspace.frame(vec![], now(), flash);
    assert_eq!((frame.main, frame.keys), (MainPane::Command, "Palette"));
    assert_eq!(frame.exec_lines.len(), 1);
    assert_eq!(frame.scroll_command, Some(0));
    assert_eq!(workspace.frame(vec![], now(), flash).scroll_command, None);
}

fn nothing_typed() -> Typed {
    Typed {
        search: String::new(),
        namespace: String::new(),
        selector: String::new(),
        log_filter: String::new(),
        exec_filter: String::new(),
        log_selector: String::new(),
        log_container: String::new(),
        log_time: String::new(),
        query: String::new(),
    }
}

#[test]
fn what_is_asked_of_the_cluster_waits_for_enter() {
    let mut workspace = opened();
    workspace.take_commands();
    let typed = Typed { namespace: String::from("payments"), ..nothing_typed() };
    workspace.typed(Field::Namespace, false, &typed, SystemTime::at(0));
    assert!(workspace.take_commands().is_empty());
    assert_eq!(workspace.state().filters().namespace, None);
    workspace.typed(Field::Namespace, true, &typed, SystemTime::at(0));
    assert_eq!(workspace.state().filters().namespace.as_deref(), Some("payments"));
    assert_eq!(workspace.take_commands().len(), 1);
}

#[test]
fn what_is_held_here_is_narrowed_as_it_is_typed() {
    let mut workspace = opened();
    apply(&mut workspace, vec![reset("prod", pods(), &["api-0", "web-0"])]);
    workspace.take_commands();
    let typed = Typed { search: String::from("WEB"), query: String::from("dep"), ..nothing_typed() };
    workspace.typed(Field::Search, false, &typed, SystemTime::at(0));
    assert_eq!(workspace.state().rows().len(), 1);
    workspace.toggle_palette();
    workspace.typed(Field::Palette, false, &typed, SystemTime::at(0));
    assert_eq!(workspace.palette_overlay().unwrap()[0].label, "Deployments");
    workspace.typed(Field::Kinds, false, &typed, SystemTime::at(0));
    assert!(workspace.take_commands().is_empty());
}

#[test]
fn the_fields_of_a_tail_narrow_jump_and_retarget() {
    let mut workspace = opened();
    workspace.open_object(ResourceKey::new("default", "api-0"));
    workspace.toggle_logs();
    apply(&mut workspace, vec![lines(vec![line("api-0", Some(5), "one"), line("api-0", Some(9), "two")])]);
    workspace.take_commands();
    let typed = Typed {
        log_filter: String::from("two"),
        log_time: String::from("00:00:09"),
        log_container: String::from("envoy"),
        ..nothing_typed()
    };
    workspace.typed(Field::LogTime, true, &typed, SystemTime::at(100));
    assert_eq!(workspace.anchor(), Some(1));
    workspace.typed(Field::LogFilter, false, &typed, SystemTime::at(100));
    assert_eq!(workspace.buffer(Lines::Logs).unwrap().visible_len(), 1);
    assert!(workspace.take_commands().is_empty());
    workspace.typed(Field::LogContainer, true, &typed, SystemTime::at(100));
    match workspace.take_commands().first() {
        Some(ClusterCommand::StartLogs { target, .. }) => {
            assert_eq!(target.container.as_deref(), Some("envoy"));
        }
        other => panic!("expected another session, got {other:?}"),
    }
}

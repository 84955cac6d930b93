use periscope::catalog::{sections, Category};
use periscope::clock::{Duration, Instant, SystemTime};
use periscope::columns::Columns;
use periscope::events::{ClusterCommand, ClusterEvent, CommandError, FlushStats};
use periscope::logs::LogOrder;
use periscope::logview::{wrap_window, WRAP_LIMIT};
use periscope::model::Detail;
use periscope::mutation::{Mutation, MutationOutcome};
use periscope::objects::{
    Cell, ClusterId, ColumnSpec, ContextInfo, KindId, KindInfo, ObjectDetail, PodContainer, ResourceKey, ResourceRow,
    RowState,
};
use periscope::permissions::Permissions;
use periscope::rows::{Sort, SortKey};
use periscope::sessions::{ConnectionState, ExecStatus, LogLine, LogSource};
use periscope::console::Lines;
use periscope::workspace::Workspace;
use periscope::remembered::UiState;
use periscope::wording::DetailTab;
use periscope::views::{recent_on_screen, section_is_open};
use std::sync::Arc;

fn now() -> Instant {
    Instant { nanos: 1_000_000_000_000 }
}

fn after(start: Instant, span: Duration) -> Instant {
    Instant { nanos: start.nanos + span.nanos }
}

fn cell(text: &str) -> Cell {
    let number = text.parse::<f64>().ok().map(|value| {
        let bits = value.to_bits() as i64;
        bits ^ ((((bits >> 63) as u64) >> 1) as i64)
    });
    Cell { text: String::from(text), number }
}

fn open() -> Workspace {
    Workspace::new(now())
}

fn apply(workspace: &mut Workspace, events: Vec<ClusterEvent>) {
    workspace.apply_events(&events, FlushStats { applied: 0, collapsed: 0, dropped: 0 }, now());
}

fn context(name: &str) -> ContextInfo {
    ContextInfo {
        name: String::from(name),
        cluster: String::from("cluster"),
        user: None,
        namespace: None,
    }
}

fn contexts(names: &[&str], current: &str) -> ClusterEvent {
    ClusterEvent::Contexts {
        contexts: names.iter().copied().map(context).collect(),
        current: Some(ClusterId::new(current)),
    }
}

fn pods() -> KindId {
    KindId::new("", "v1", "Pod", "pods")
}

fn deployments() -> KindId {
    KindId::new("apps", "v1", "Deployment", "deployments")
}

fn kinds_event(cluster: &str) -> ClusterEvent {
    ClusterEvent::Kinds {
        cluster: ClusterId::new(cluster),
        kinds: Arc::new(vec![
            KindInfo {
                id: pods(),
                namespaced: true,
                watchable: true,
                custom: false,
            },
            KindInfo {
                id: deployments(),
                namespaced: true,
                watchable: true,
                custom: false,
            },
        ]),
    }
}

fn row(name: &str) -> ResourceRow {
    ResourceRow {
        key: ResourceKey::new("default", name),
        uid: None,
        cells: vec![cell("Running")],
        state: RowState::Healthy,
        created: None,
    }
}

fn reset(cluster: &str, kind: KindId, names: &[&str]) -> ClusterEvent {
    ClusterEvent::ResourceReset {
        cluster: ClusterId::new(cluster),
        kind,
        columns: Arc::new(vec![ColumnSpec::fixed("STATUS", 100)]),
        rows: names.iter().map(|name| row(name)).collect(),
    }
}

#[test]
fn the_view_asks_for_contexts_as_soon_as_it_opens() {
    let mut workspace = open();
    assert_eq!(workspace.take_commands(), vec![ClusterCommand::ListContexts]);
}

#[test]
fn the_current_context_is_connected_to_exactly_once() {
    let mut workspace = open();
    workspace.take_commands();

    apply(&mut workspace, vec![contexts(&["prod", "staging"], "prod")]);
    // A second batch must not re-issue the connect: repainting is not a
    // reason to open another set of watches.
    apply(&mut workspace, vec![contexts(&["prod", "staging"], "prod")]);

    assert_eq!(
        workspace.take_commands(),
        vec![ClusterCommand::Connect {
            cluster: ClusterId::new("prod")
        }]
    );
}

#[test]
fn discovery_starts_a_watch_on_pods() {
    let mut workspace = open();
    apply(&mut workspace, vec![contexts(&["prod"], "prod")]);
    workspace.take_commands();

    apply(&mut workspace, vec![kinds_event("prod")]);

    assert_eq!(
        workspace.take_commands(),
        vec![ClusterCommand::Watch {
            cluster: ClusterId::new("prod"),
            kind: pods(),
            namespace: None,
            selector: None,
        }]
    );
}

#[test]
fn switching_kinds_leaves_the_previous_watch_running() {
    let mut workspace = open();
    apply(&mut workspace, vec![contexts(&["prod"], "prod"), kinds_event("prod")]);
    workspace.take_commands();

    workspace.select_kind(deployments());

    // What was looked at is kept warm: switching back must not list again. Letting go is the idle sweep's job, not the switch's.
    assert_eq!(
        workspace.take_commands(),
        vec![ClusterCommand::Watch {
            cluster: ClusterId::new("prod"),
            kind: deployments(),
            namespace: None,
            selector: None,
        }]
    );

    workspace.select_kind(pods());

    assert!(
        workspace.take_commands().is_empty(),
        "going back to a warm kind should re-request nothing"
    );
}

#[test]
fn a_cluster_nobody_is_looking_at_is_let_go_after_the_idle_timeout() {
    let mut workspace = open();
    apply(&mut workspace, vec![contexts(&["prod", "staging"], "prod"), kinds_event("prod")]);
    apply(&mut workspace, vec![reset("prod", pods(), &["api-0"])]);
    workspace.take_commands();

    // Move both the pane and the clock along.
    workspace.select_cluster(ClusterId::new("staging"), now());

    workspace.take_commands();

    let later = after(now(), Duration::from_secs(3_600));
    workspace.sweep_idle_clusters(later);

    assert_eq!(
        workspace.take_commands(),
        vec![ClusterCommand::StopWatch {
            cluster: ClusterId::new("prod"),
            kind: pods(),
        }]
    );
    // Its rows go with it: warm is a memory cost, and this is where it
    // is given back.
    assert_eq!(workspace.state().cluster_rows(&ClusterId::new("prod")), 0);
}

/// A reset carrying several columns, so a choice between them is possible.
fn wide_reset(cluster: &str, kind: KindId) -> ClusterEvent {
    ClusterEvent::ResourceReset {
        cluster: ClusterId::new(cluster),
        kind,
        columns: Arc::new(vec![
            ColumnSpec::fixed("READY", 60),
            ColumnSpec::fixed("STATUS", 100),
            ColumnSpec::fixed("RESTARTS", 80),
            ColumnSpec::flexible("NODE"),
        ]),
        rows: vec![ResourceRow {
            key: ResourceKey::new("default", "api-0"),
            uid: None,
            cells: vec![cell("1/1"), cell("Running"), cell("0"), cell("node-1")],
            state: RowState::Healthy,
            created: None,
        }],
    }
}

#[test]
fn configured_columns_are_the_ones_rendered() {
    let mut workspace = open();
    apply(&mut workspace, vec![contexts(&["prod"], "prod"), kinds_event("prod")]);
    apply(&mut workspace, vec![wide_reset("prod", pods())]);

    let mut chosen = Columns::default();
    chosen.pick("pods", vec![String::from("STATUS"), String::from("NODE")]);
    workspace.set_columns(chosen);

    let columns = workspace.visible_columns(0);
    let names: Vec<_> = columns
        .iter()
        .map(|(_, spec)| spec.name.to_string())
        .collect();
    assert_eq!(names, ["STATUS", "NODE"]);

    // The cell index travels with the column: rendering STATUS must
    // read the row's second cell, not its first.
    assert_eq!(
        columns.iter().map(|(index, _)| *index).collect::<Vec<_>>(),
        [1, 3]
    );
}

#[test]
fn an_unconfigured_kind_still_shows_every_column() {
    let mut workspace = open();
    apply(&mut workspace, vec![contexts(&["prod"], "prod"), kinds_event("prod")]);
    apply(&mut workspace, vec![wide_reset("prod", pods())]);

    let mut chosen = Columns::default();
    chosen.pick("deployments.apps", vec![String::from("READY")]);
    workspace.set_columns(chosen);

    assert_eq!(workspace.visible_columns(0).len(), 4);
}

/// A discovery event with kinds spread across several sidebar sections.
fn many_kinds(cluster: &str) -> ClusterEvent {
    let kind = |group: &str, plural: &str, custom: bool| KindInfo {
        id: KindId::new(group, "v1", plural, plural),
        namespaced: true,
        watchable: true,
        custom,
    };

    ClusterEvent::Kinds {
        cluster: ClusterId::new(cluster),
        kinds: Arc::new(vec![
            kind("", "pods", false),
            kind("apps", "deployments", false),
            kind("", "services", false),
            kind("", "secrets", false),
            kind("", "nodes", false),
            kind("cert-manager.io", "certificates", true),
        ]),
    }
}

#[test]
fn clicking_a_column_sorts_the_pane_it_was_clicked_in() {
    let mut workspace = open();
    apply(&mut workspace, vec![contexts(&["prod", "staging"], "prod"), kinds_event("prod")]);
    apply(&mut workspace, vec![reset("prod", pods(), &["c-api", "a-api", "b-api"])]);
    workspace.take_commands();

    workspace.sort_by(0, SortKey::Name, now());

    let names: Vec<String> = workspace
        .state()
        .rows()
        .iter()
        .map(|row| row.key.name.to_string())
        .collect();
    // A column that was not being sorted by starts ascending.
    assert_eq!(names, ["a-api", "b-api", "c-api"]);
    assert!(!workspace.state().sort().descending);

    workspace.sort_by(0, SortKey::Name, now());

    let names: Vec<String> = workspace
        .state()
        .rows()
        .iter()
        .map(|row| row.key.name.to_string())
        .collect();
    // The same column again reverses it.
    assert_eq!(names, ["c-api", "b-api", "a-api"]);
    assert!(workspace.state().sort().descending);

    workspace.sort_by(0, SortKey::Name, now());

    // And a third click is the way back out to the default order.
    assert_eq!(
        workspace.state().sort(),
        Sort::default()
    );
}

#[test]
fn the_detail_pane_tabs_and_starts_on_yaml() {
    let mut workspace = open();
    apply(&mut workspace, vec![contexts(&["prod"], "prod"), kinds_event("prod")]);
    open_pod_detail(&mut workspace, "api-0");
    workspace.take_commands();

    assert_eq!(workspace.detail_tab(), DetailTab::Yaml);

    workspace.show_detail_tab(DetailTab::Events);

    assert_eq!(workspace.detail_tab(), DetailTab::Events);

    // Opening another object goes back to YAML: which tab you were on for
    // the last one says nothing about this one.
    open_pod_detail(&mut workspace, "api-1");
    assert_eq!(workspace.detail_tab(), DetailTab::Yaml);
}

#[test]
fn the_namespace_picker_lists_what_is_loaded_and_applies_a_choice() {
    let mut workspace = open();
    apply(&mut workspace, vec![contexts(&["prod"], "prod"), kinds_event("prod")]);
    apply(&mut workspace, vec![ClusterEvent::ResourceReset {
            cluster: ClusterId::new("prod"),
            kind: pods(),
            columns: Arc::new(vec![ColumnSpec::fixed("STATUS", 100)]),
            rows: vec![
                ResourceRow {
                    key: ResourceKey::new("payments", "api-0"),
                    uid: None,
                    cells: vec![cell("Running")],
                    state: RowState::Healthy,
                    created: None,
                },
                ResourceRow {
                    key: ResourceKey::new("kube-system", "coredns-0"),
                    uid: None,
                    cells: vec![cell("Running")],
                    state: RowState::Healthy,
                    created: None,
                },
            ],
        }],
    );
    workspace.take_commands();

    let namespaces: Vec<String> = workspace
        .state()
        .namespaces()
        .iter()
        .map(|namespace| namespace.to_string())
        .collect();
    assert_eq!(namespaces, ["kube-system", "payments"]);
    assert!(!workspace.namespace_menu_open());

    workspace.toggle_namespace_menu();
    assert!(workspace.namespace_menu_open());
    workspace.pick_namespace(Some(String::from("payments")), String::new());

    // Picking one closes the menu, filters the table, and shows the
    // choice in the field somebody could also have typed into.
    assert!(!workspace.namespace_menu_open());
    assert_eq!(
        workspace.state().filters().namespace.as_deref(),
        Some("payments")
    );
    assert_eq!(workspace.state().rows().len(), 1);

    // And it re-lists from the apiserver with the narrower scope.
    assert!(workspace.take_commands().iter().any(|command| matches!(
        command,
        ClusterCommand::Watch { namespace: Some(namespace), .. } if &**namespace == "payments"
    )));
}

#[test]
fn all_namespaces_is_a_choice_not_an_empty_field() {
    let mut workspace = open();
    apply(&mut workspace, vec![contexts(&["prod"], "prod"), kinds_event("prod")]);
    workspace.pick_namespace(Some(String::from("payments")), String::new());

    workspace.take_commands();

    workspace.pick_namespace(None, String::new());

    assert_eq!(workspace.state().filters().namespace, None);
}

#[test]
fn escape_closes_the_namespace_picker_before_anything_else() {
    let mut workspace = open();
    apply(&mut workspace, vec![contexts(&["prod"], "prod"), kinds_event("prod")]);
    open_pod_detail(&mut workspace, "api-0");
    workspace.take_commands();

    workspace.toggle_namespace_menu();

    workspace.dismiss();

    assert!(!workspace.namespace_menu_open());
    // The detail pane behind it stayed.
    assert!(workspace.state().detail().is_some());
}

#[test]
fn j_and_k_move_through_the_table_and_enter_opens_a_row() {
    let mut workspace = open();
    apply(&mut workspace, vec![contexts(&["prod"], "prod"), kinds_event("prod")]);
    apply(&mut workspace, vec![reset("prod", pods(), &["api-0", "api-1", "api-2"])]);
    workspace.take_commands();

    workspace.move_cursor(1);
    workspace.move_cursor(1);
    assert_eq!(workspace.state().cursor(), 2);

    workspace.move_cursor(-1);
    assert_eq!(workspace.state().cursor(), 1);

    workspace.open_row();
    let detail = workspace.state().detail().expect("a row opened");
    assert_eq!(&*detail.key().name, "api-1");

    // Opening it asks the cluster for the object, as a click would.
    assert!(matches!(
        workspace.take_commands().as_slice(),
        [ClusterCommand::FetchObject { .. }]
    ));
}

#[test]
fn the_arrows_do_the_same_as_j_and_k() {
    let mut workspace = open();
    apply(&mut workspace, vec![contexts(&["prod"], "prod"), kinds_event("prod")]);
    apply(&mut workspace, vec![reset("prod", pods(), &["api-0", "api-1"])]);
    workspace.take_commands();

    workspace.move_cursor(1);
    assert_eq!(workspace.state().cursor(), 1);
    workspace.move_cursor(-1);
    assert_eq!(workspace.state().cursor(), 0);
}

#[test]
fn g_and_shift_g_jump_to_the_ends() {
    let mut workspace = open();
    apply(&mut workspace, vec![contexts(&["prod"], "prod"), kinds_event("prod")]);
    apply(&mut workspace, vec![reset("prod", pods(), &["api-0", "api-1", "api-2", "api-3"])]);
    workspace.take_commands();

    workspace.row_bottom();
    assert_eq!(workspace.state().cursor(), 3);
    workspace.set_cursor(0);
    assert_eq!(workspace.state().cursor(), 0);
}

#[test]
fn moving_the_cursor_is_not_the_same_as_opening_a_row() {
    // Fetching an object on every keypress would be a request per row in a
    // list somebody is scrolling through.
    let mut workspace = open();
    apply(&mut workspace, vec![contexts(&["prod"], "prod"), kinds_event("prod")]);
    apply(&mut workspace, vec![reset("prod", pods(), &["api-0", "api-1"])]);
    workspace.take_commands();

    workspace.move_cursor(1);
    workspace.move_cursor(-1);

    assert!(workspace.take_commands().is_empty());
    assert!(workspace.state().detail().is_none());
}

#[test]
fn the_sidebar_groups_kinds_and_opens_only_workloads() {
    let mut workspace = open();
    apply(&mut workspace, vec![contexts(&["prod"], "prod")]);
    apply(&mut workspace, vec![many_kinds("prod")]);

    let sections = sections(&workspace.state().kinds());
    let titles: Vec<String> = sections
        .iter()
        .map(|(category, _)| category.title())
        .collect();

    assert_eq!(
        titles,
        [
            "WORKLOADS",
            "NETWORKING",
            "CONFIGURATION",
            "CLUSTER",
            "CERT-MANAGER.IO"
        ]
    );

    // Only workloads is open, or the sections would be a wall again.
    for (category, _) in &sections {
        assert_eq!(
            section_is_open(&workspace, category),
            category.title() == "WORKLOADS",
            "{}",
            category.title()
        );
    }
}

#[test]
fn a_section_opens_and_closes_when_its_heading_is_clicked() {
    let mut workspace = open();
    apply(&mut workspace, vec![contexts(&["prod"], "prod")]);
    apply(&mut workspace, vec![many_kinds("prod")]);

    let storage = Category::Networking;
    assert!(!section_is_open(&workspace, &storage));
    // One click opens a closed section.
    workspace.toggle_section(storage.title(), false);
    assert!(section_is_open(&workspace, &storage));

    workspace.toggle_section(storage.title(), true);
    assert!(!section_is_open(&workspace, &storage));

    // And the same for one that starts open.
    let workloads = Category::Workloads;
    assert!(section_is_open(&workspace, &workloads));
    workspace.toggle_section(workloads.title(), true);
    assert!(!section_is_open(&workspace, &workloads));
}

#[test]
fn selecting_a_kind_in_a_closed_section_still_shows_it() {
    // Opening `secrets` from the palette must not leave the selection
    // hidden behind a collapsed heading.
    let mut workspace = open();
    apply(&mut workspace, vec![contexts(&["prod"], "prod")]);
    apply(&mut workspace, vec![many_kinds("prod")]);

    workspace.select_kind(KindId::new("", "v1", "secrets", "secrets"));

    let configuration = Category::Configuration;
    // The section itself is still closed by choice...
    assert!(!section_is_open(&workspace, &configuration));
    // ...and the sidebar renders it open anyway, which is what the
    // render path asserts by holding the selection.
    let holds = sections(&workspace.state().kinds())
        .into_iter()
        .find(|(category, _)| category == &configuration)
        .is_some_and(|(_, kinds)| {
            kinds
                .iter()
                .any(|info| Some(&info.id) == workspace.state().kind())
        });
    assert!(
        holds,
        "the selected kind is not in the section it renders in"
    );
}

#[test]
fn a_section_left_open_is_still_open_next_time() {

    let mut workspace = open();
    apply(&mut workspace, vec![contexts(&["prod"], "prod")]);
    apply(&mut workspace, vec![many_kinds("prod")]);
    workspace.restore(UiState::new());

    let networking = Category::Networking;
    workspace.toggle_section(networking.title(), false);

    let remembered = workspace.remembered().clone();
    let mut workspace = open();
    workspace.restore(remembered);

    assert!(section_is_open(&workspace, &networking));
    // And a section nobody touched still follows its own default.
    assert!(section_is_open(&workspace, &Category::Workloads));
    assert!(!section_is_open(&workspace, &Category::Storage));
}

#[test]
fn opening_a_kind_puts_it_at_the_top_of_the_recent_list() {
    let mut workspace = open();
    apply(&mut workspace, vec![contexts(&["prod"], "prod"), many_kinds("prod")]);

    workspace.select_kind(KindId::new("", "v1", "secrets", "secrets"));
    workspace.select_kind(KindId::new("apps", "v1", "deployments", "deployments"));

    let recent: Vec<String> = recent_on_screen(&workspace)
        .iter()
        .map(|info| info.id.label())
        .collect();
    // Most recent first, and the kind the pane opened on by itself is
    // not on the list: recents are what somebody asked for.
    assert_eq!(recent, ["deployments.apps", "secrets"]);
}

#[test]
fn recents_belong_to_the_cluster_they_were_opened_on() {
    let mut workspace = open();
    apply(&mut workspace, vec![contexts(&["prod", "staging"], "prod"), many_kinds("prod")]);

    workspace.select_kind(
        KindId::new("cert-manager.io", "v1", "certificates", "certificates"));

    // A cluster without cert-manager must not be offered a jump that lands
    // nowhere, even though it is the last thing that was opened.
    workspace.select_cluster(ClusterId::new("staging"), now());

    apply(&mut workspace, vec![kinds_event("staging")]);

    assert!(recent_on_screen(&workspace).is_empty());
}

#[test]
fn a_pane_opens_on_the_kind_that_cluster_was_left_on() {
    let mut workspace = open();

    let mut remembered = UiState::new();
    remembered.visited(String::from("prod"), String::from("deployments.apps"));
    workspace.restore(remembered);

    apply(&mut workspace, vec![contexts(&["prod"], "prod"), kinds_event("prod")]);

    // Pods is the default; this cluster was left on deployments.
    assert!(
        workspace.take_commands().contains(&ClusterCommand::Watch {
            cluster: ClusterId::new("prod"),
            kind: deployments(),
            namespace: None,
            selector: None,
        }),
        "the remembered kind is not what the pane opened on"
    );
}

#[test]
fn a_remembered_kind_the_cluster_no_longer_serves_falls_back_to_pods() {
    // Uninstalling an operator must not leave the app opening on a kind the
    // apiserver has never heard of.
    let mut workspace = open();

    let mut remembered = UiState::new();
    remembered.visited(String::from("prod"), String::from("certificates.cert-manager.io"));
    workspace.restore(remembered);

    apply(&mut workspace, vec![contexts(&["prod"], "prod"), kinds_event("prod")]);

    assert!(workspace.take_commands().contains(&ClusterCommand::Watch {
        cluster: ClusterId::new("prod"),
        kind: pods(),
        namespace: None,
        selector: None,
    }));
}

#[test]
fn coming_back_to_a_cluster_comes_back_to_what_it_was_showing() {
    let mut workspace = open();
    workspace.restore(UiState::new());

    apply(&mut workspace, vec![
            contexts(&["prod", "staging"], "prod"),
            kinds_event("prod"),
            kinds_event("staging"),
        ],
    );

    workspace.select_kind(deployments());
    workspace.select_cluster(ClusterId::new("staging"), now());

    // Staging has never been pointed anywhere, so it opens on pods.
    assert_eq!(workspace.state().kind(), Some(&pods()));

    workspace.select_cluster(ClusterId::new("prod"), now());

    assert_eq!(workspace.state().kind(), Some(&deployments()));
}

#[test]
fn half_a_page_moves_further_than_a_row_and_comes_back() {
    let mut workspace = open();
    apply(&mut workspace, vec![contexts(&["prod"], "prod"), kinds_event("prod")]);
    let names: Vec<String> = (0..200).map(|index| format!("api-{index:03}")).collect();
    let rows: Vec<&str> = names.iter().map(String::as_str).collect();
    apply(&mut workspace, vec![reset("prod", pods(), &rows)]);
    workspace.take_commands();

    workspace.half_page(true, 40);
    let moved = workspace.state().cursor();
    assert!(moved > 1, "ctrl-d moved {moved} rows");

    workspace.half_page(false, 40);
    assert_eq!(workspace.state().cursor(), 0);

    // Moving is not opening, here as everywhere else.
    assert!(workspace.take_commands().is_empty());
}

#[test]
fn configured_limits_replace_the_built_in_ones() {
    let mut workspace = open();
    apply(&mut workspace, vec![contexts(&["prod", "staging"], "prod"), kinds_event("prod")]);
    apply(&mut workspace, vec![reset("prod", pods(), &["api-0"])]);

    workspace.set_limits(Duration::from_secs(30), 1_000, 500);
    workspace.select_cluster(ClusterId::new("staging"), now());

    workspace.take_commands();

    assert_eq!(workspace.state().budget(), 1_000);

    // A minute is past the configured 30s but well inside the five-minute
    // default, so this only passes if the setting is the one being used.
    let later = after(now(), Duration::from_secs(60));
    workspace.sweep_idle_clusters(later);

    assert_eq!(
        workspace.take_commands(),
        vec![ClusterCommand::StopWatch {
            cluster: ClusterId::new("prod"),
            kind: pods(),
        }]
    );
}

#[test]
fn a_configured_log_buffer_bounds_a_tail() {
    let mut workspace = open();
    apply(&mut workspace, vec![contexts(&["prod"], "prod"), kinds_event("prod")]);
    workspace.set_limits(Duration::from_secs(5 * 60), 200_000, 3);

    open_pod_detail(&mut workspace, "api-0");
    workspace.toggle_logs();
    workspace.take_commands();

    let lines: Vec<_> = (0..10)
        .map(|index| LogLine {
            source: LogSource::new("api-0", "api"),
            timestamp: None,
            text: format!("line {index}"),
        })
        .collect();
    apply(&mut workspace, vec![ClusterEvent::LogBatch {
            cluster: ClusterId::new("prod"),
            lines,
        }],
    );

    let buffer = &workspace.state().logs().expect("a tail").buffer;
    assert_eq!(buffer.len(), 3, "the configured cap is what bounds it");
    assert_eq!(buffer.dropped(), 7);
}

#[test]
fn splitting_opens_a_second_cluster_and_watches_it() {
    let mut workspace = open();
    apply(&mut workspace, vec![
            contexts(&["prod", "staging"], "prod"),
            kinds_event("prod"),
            kinds_event("staging"),
        ],
    );
    workspace.take_commands();

    workspace.toggle_split(now());

    let sent = workspace.take_commands();
    assert!(
        sent.contains(&ClusterCommand::Connect {
            cluster: ClusterId::new("staging")
        }),
        "the second pane's cluster should be connected: {sent:?}"
    );
    assert!(
        sent.contains(&ClusterCommand::Watch {
            cluster: ClusterId::new("staging"),
            kind: pods(),
            namespace: None,
            selector: None,
        }),
        "the second pane should be watching: {sent:?}"
    );

    assert!(workspace.state().is_split());
    assert_eq!(workspace.state().panes().len(), 2);
    assert_eq!(
        workspace.state().panes()[0].cluster(),
        Some(&ClusterId::new("prod"))
    );
    assert_eq!(
        workspace.state().panes()[1].cluster(),
        Some(&ClusterId::new("staging"))
    );

    workspace.toggle_split(now());
    assert!(!workspace.state().is_split());
}

#[test]
fn both_panes_render_their_own_cluster() {
    let mut workspace = open();
    apply(&mut workspace, vec![
            contexts(&["prod", "staging"], "prod"),
            kinds_event("prod"),
            kinds_event("staging"),
        ],
    );
    workspace.toggle_split(now());
    workspace.take_commands();

    apply(&mut workspace, vec![
            reset("prod", pods(), &["prod-a", "prod-b"]),
            reset("staging", pods(), &["staging-a"]),
        ],
    );

    let panes = workspace.state().panes();
    assert_eq!(panes[0].rows().len(), 2);
    assert_eq!(panes[1].rows().len(), 1);
}

#[test]
fn one_broken_cluster_does_not_disturb_the_other_pane() {
    let mut workspace = open();
    apply(&mut workspace, vec![
            contexts(&["prod", "staging"], "prod"),
            kinds_event("prod"),
            kinds_event("staging"),
        ],
    );
    workspace.toggle_split(now());
    workspace.take_commands();

    apply(&mut workspace, vec![
            reset("prod", pods(), &["prod-a"]),
            ClusterEvent::Status {
                cluster: ClusterId::new("staging"),
                state: ConnectionState::AuthFailed {
                    reason: "token expired".into(),
                },
            },
        ],
    );

    // The healthy pane still has its rows, and the broken one still
    // says exactly what went wrong.
    assert_eq!(workspace.state().panes()[0].rows().len(), 1);
    let staging = workspace
        .state()
        .connection(&ClusterId::new("staging"))
        .expect("tracked");
    assert_eq!(staging.state.detail(), Some("token expired"));
    let prod = workspace
        .state()
        .connection(&ClusterId::new("prod"))
        .expect("tracked");
    assert!(!prod.state.is_problem());
}

#[test]
fn the_palette_finds_objects_on_a_cluster_that_is_not_on_screen() {
    let mut workspace = open();
    apply(&mut workspace, vec![contexts(&["prod", "staging"], "prod"), kinds_event("prod")]);
    // Rows for a cluster no pane is showing.
    apply(&mut workspace, vec![reset("staging", pods(), &["needle-0"])]);
    workspace.take_commands();

    workspace.toggle_palette();
    workspace.search_palette("needle");
    workspace.confirm(now());

    // Jumping moved the pane to the cluster the object is on.
    assert_eq!(workspace.state().active(), Some(&ClusterId::new("staging")));
    let detail = workspace.state().detail().expect("the object opened");
    assert_eq!(&*detail.key().name, "needle-0");
}

#[test]
fn rows_arriving_for_the_active_kind_become_the_table() {
    let mut workspace = open();
    apply(&mut workspace, vec![contexts(&["prod"], "prod"), kinds_event("prod")]);
    apply(&mut workspace, vec![reset("prod", pods(), &["api-0", "api-1"])]);

    assert_eq!(workspace.state().rows().len(), 2);
    assert_eq!(&*workspace.state().columns()[0].name, "STATUS");
}

#[test]
fn clicking_a_row_asks_for_that_object() {
    let mut workspace = open();
    apply(&mut workspace, vec![contexts(&["prod"], "prod"), kinds_event("prod")]);
    apply(&mut workspace, vec![reset("prod", pods(), &["api-0"])]);
    workspace.take_commands();

    workspace.open_object(ResourceKey::new("default", "api-0"));

    assert_eq!(
        workspace.take_commands(),
        vec![ClusterCommand::FetchObject {
            cluster: ClusterId::new("prod"),
            kind: pods(),
            key: ResourceKey::new("default", "api-0"),
            reveal: false,
        }]
    );
    assert!(matches!(
        workspace.state().detail(),
        Some(Detail::Loading { .. })
    ));
}

#[test]
fn cmd_k_opens_the_palette_and_escape_closes_it() {
    let mut workspace = open();
    apply(&mut workspace, vec![contexts(&["prod"], "prod"), kinds_event("prod")]);
    workspace.take_commands();

    workspace.toggle_palette();
    assert!(workspace.palette_open());

    workspace.dismiss();
    assert!(!workspace.palette_open());
}

#[test]
fn the_k9s_keys_work_too() {
    // `:` for the jump prompt and `q` to go back are what the target user's
    // fingers already do.
    let mut workspace = open();
    apply(&mut workspace, vec![contexts(&["prod"], "prod"), kinds_event("prod")]);
    workspace.take_commands();

    workspace.toggle_palette();
    assert!(workspace.palette_open());

    workspace.dismiss();
    open_pod_detail(&mut workspace, "api-0");
    workspace.dismiss();
    assert!(workspace.state().detail().is_none());
}

#[test]
fn typing_in_the_palette_and_pressing_enter_switches_kinds() {
    let mut workspace = open();
    apply(&mut workspace, vec![contexts(&["prod"], "prod"), kinds_event("prod")]);
    workspace.take_commands();

    workspace.toggle_palette();
    workspace.search_palette("dep");
    workspace.confirm(now());

    assert_eq!(workspace.state().kind(), Some(&deployments()));
    assert!(!workspace.palette_open());
}

#[test]
fn arrow_keys_move_through_the_palette_results() {
    let mut workspace = open();
    apply(&mut workspace, vec![contexts(&["prod"], "prod"), kinds_event("prod")]);
    workspace.take_commands();

    workspace.toggle_palette();
    let first = workspace.palette_index();
    workspace.select_next();
    workspace.select_next();
    let moved = workspace.palette_index();
    workspace.select_previous();
    let back = workspace.palette_index();

    assert_eq!(first, 0);
    assert_eq!(moved, 2);
    assert_eq!(back, 1);
}

#[test]
fn the_palette_jumps_to_a_kind() {
    let mut workspace = open();
    apply(&mut workspace, vec![contexts(&["prod"], "prod"), kinds_event("prod")]);
    workspace.take_commands();

    workspace.toggle_palette();
    workspace.search_palette("deployments");
    workspace.confirm(now());

    assert_eq!(workspace.state().kind(), Some(&deployments()));
    assert!(!workspace.palette_open());

    assert!(workspace.take_commands().contains(&ClusterCommand::Watch {
        cluster: ClusterId::new("prod"),
        kind: deployments(),
        namespace: None,
        selector: None,
    }));
}

#[test]
fn escape_closes_the_palette_before_the_detail_pane() {
    let mut workspace = open();
    apply(&mut workspace, vec![contexts(&["prod"], "prod"), kinds_event("prod")]);

    workspace.open_object(ResourceKey::new("default", "api-0"));
    workspace.toggle_palette();

    workspace.dismiss();
    assert!(!workspace.palette_open());
    // The detail pane is still open: one Escape, one dismissal.
    assert!(workspace.state().detail().is_some());

    workspace.dismiss();
    assert!(workspace.state().detail().is_none());
}

fn open_pod_detail(workspace: &mut Workspace, name: &str) {
    workspace.open_object(ResourceKey::new("default", name));
}

/// Answers the detail fetch and shows what came.
fn deliver_pod(workspace: &mut Workspace, name: &str) {
    apply(workspace, vec![ClusterEvent::Object {
            cluster: ClusterId::new("prod"),
            kind: pods(),
            detail: Arc::new(ObjectDetail {
                key: ResourceKey::new("default", name),
                yaml: String::from("kind: Pod\n"),
                maskable: false,
                revealed: true,
                events: vec![],
                owners: vec![],
            }),
        }],
    );
    let containers = vec![
        PodContainer { name: String::from("api"), init: false },
        PodContainer { name: String::from("envoy"), init: false },
        PodContainer { name: String::from("migrate"), init: true },
    ];
    workspace.sync_yaml(containers);
}

/// A connected cluster with a pod open and its object delivered.
fn workspace_with_pod(name: &str) -> Workspace {
    let mut workspace = open();
    apply(&mut workspace, vec![contexts(&["prod"], "prod"), kinds_event("prod")]);
    apply(&mut workspace, vec![ClusterEvent::Status {
            cluster: ClusterId::new("prod"),
            state: ConnectionState::Connected,
        }],
    );
    open_pod_detail(&mut workspace, name);
    deliver_pod(&mut workspace, name);
    workspace
}

#[test]
fn tailing_a_pod_starts_a_session_for_that_pod() {
    let mut workspace = open();
    apply(&mut workspace, vec![contexts(&["prod"], "prod"), kinds_event("prod")]);
    open_pod_detail(&mut workspace, "api-0");
    workspace.take_commands();

    workspace.toggle_logs();

    let sent = workspace.take_commands();
    assert_eq!(sent.len(), 1, "{sent:?}");
    match &sent[0] {
        ClusterCommand::StartLogs { cluster, target } => {
            assert_eq!(cluster, &ClusterId::new("prod"));
            assert_eq!(target.label(), "default/api-0");
        }
        other => panic!("expected a log session, got {other:?}"),
    }
    assert!(workspace.state().logs().is_some());
}

#[test]
fn tailing_without_a_pod_or_a_selector_explains_what_is_missing() {
    let mut workspace = open();
    apply(&mut workspace, vec![contexts(&["prod"], "prod"), kinds_event("prod")]);
    workspace.take_commands();

    workspace.toggle_logs();

    // Nothing was sent, and the reason is on screen rather than nowhere.
    assert!(workspace.take_commands().is_empty());
    assert!(workspace.state().logs().is_none());
    let notice = workspace.notice(Lines::Logs).expect("a reason is shown");
    assert!(notice.contains("namespace"), "{notice}");
}

#[test]
fn a_namespace_and_selector_tail_every_matching_pod() {
    let mut workspace = open();
    apply(&mut workspace, vec![contexts(&["prod"], "prod"), kinds_event("prod")]);
    workspace.apply_server_filters(String::from("payments"), String::from("app=api"));

    workspace.take_commands();

    workspace.toggle_logs();

    match workspace.take_commands().first() {
        Some(ClusterCommand::StartLogs { target, .. }) => {
            assert_eq!(target.label(), "payments/app=api");
        }
        other => panic!("expected a selector-based session, got {other:?}"),
    }
}

#[test]
fn log_lines_reach_the_buffer_and_the_filter_applies_without_restarting() {
    let mut workspace = open();
    apply(&mut workspace, vec![contexts(&["prod"], "prod"), kinds_event("prod")]);
    open_pod_detail(&mut workspace, "api-0");
    workspace.toggle_logs();
    workspace.take_commands();

    let lines = |texts: &[&str]| ClusterEvent::LogBatch {
        cluster: ClusterId::new("prod"),
        lines: texts
            .iter()
            .map(|text| LogLine {
                source: LogSource::new("api-0", "api"),
                timestamp: None,
                text: String::from(*text),
            })
            .collect(),
    };

    apply(&mut workspace, vec![lines(&["starting", "an error", "done"])]);
    assert_eq!(
        workspace
            .state()
            .logs()
            .unwrap()
            .buffer
            .visible_len(),
        3
    );

    workspace.apply_filter(Lines::Logs, "error".to_owned());

    let buffer = &workspace.state().logs().unwrap().buffer;
    assert_eq!(buffer.visible_len(), 1);
    assert_eq!(buffer.len(), 3);

    // Filtering is local: nothing was re-requested from the cluster.
    assert!(workspace.take_commands().is_empty());
}

#[test]
fn following_can_be_paused() {
    let mut workspace = open();
    apply(&mut workspace, vec![contexts(&["prod"], "prod"), kinds_event("prod")]);
    open_pod_detail(&mut workspace, "api-0");
    workspace.toggle_logs();
    workspace.take_commands();

    assert!(workspace.state().logs().unwrap().following);

    workspace.toggle_follow();
    assert!(!workspace.state().logs().unwrap().following);
}

#[test]
fn escape_closes_the_tail_and_stops_the_session() {
    let mut workspace = open();
    apply(&mut workspace, vec![contexts(&["prod"], "prod"), kinds_event("prod")]);
    open_pod_detail(&mut workspace, "api-0");
    workspace.toggle_logs();
    workspace.take_commands();

    workspace.dismiss();

    assert!(workspace.state().logs().is_none());
    assert_eq!(
        workspace.take_commands(),
        vec![ClusterCommand::StopLogs {
            cluster: ClusterId::new("prod")
        }]
    );
}

#[test]
fn switching_to_previous_logs_restarts_the_session() {
    let mut workspace = open();
    apply(&mut workspace, vec![contexts(&["prod"], "prod"), kinds_event("prod")]);
    open_pod_detail(&mut workspace, "api-0");
    workspace.toggle_logs();
    workspace.take_commands();

    workspace.toggle_previous();

    match workspace.take_commands().first() {
        Some(ClusterCommand::StartLogs { target, .. }) => {
            assert!(target.previous);
            assert_eq!(target.label(), "default/api-0 (previous)");
        }
        other => panic!("expected a restarted session, got {other:?}"),
    }
}

/// What the clock on the wall says, in seconds.
const WALL: i64 = 1_787_047_200;

/// Opens a tail on `api-0` and feeds it lines with the given ages, in
/// seconds before now, in the order they are listed.
fn tail_with_ages(
    workspace: &mut Workspace,
    ages: &[(&str, i64)],
) {
    apply(workspace, vec![contexts(&["prod"], "prod"), kinds_event("prod")]);
    open_pod_detail(workspace, "api-0");
    workspace.toggle_logs();

    apply(workspace, vec![ClusterEvent::LogBatch {
            cluster: ClusterId::new("prod"),
            lines: ages
                .iter()
                .map(|(pod, age)| LogLine {
                    source: LogSource::new(pod, "api"),
                    timestamp: Some(SystemTime::at(WALL - *age)),
                    text: format!("{pod} at -{age}s"),
                })
                .collect(),
        }],
    );
}

#[test]
fn a_relative_time_scrolls_to_five_minutes_ago() {
    let mut workspace = open();
    // Ten minutes back, four minutes back, one minute back. "-5m" lands on
    // the four-minute line: the first one at or after the time asked for.
    tail_with_ages(&mut workspace, &vec![("api-0", 600), ("api-0", 240), ("api-0", 60)]);

    workspace.jump_to_time("-5m", SystemTime::at(WALL));

    assert_eq!(workspace.anchor(), Some(1));
    // Following would scroll straight back to the newest line on the
    // next batch, undoing the jump the user just asked for.
    assert!(!workspace.state().logs().expect("a tail").following);
    let notice = workspace.notice(Lines::Logs).expect("a notice");
    assert!(notice.contains("line 2 of 3"), "{notice}");
}

#[test]
fn a_time_after_everything_held_says_so_rather_than_moving() {
    let mut workspace = open();
    tail_with_ages(&mut workspace, &vec![("api-0", 600), ("api-0", 300)]);

    workspace.jump_to_time("-1s", SystemTime::at(WALL));

    assert_eq!(workspace.anchor(), None);
    // A jump that found nothing must not pause a tail that was running.
    assert!(workspace.state().logs().expect("a tail").following);
    let notice = workspace.notice(Lines::Logs).expect("a notice");
    assert!(notice.contains("No line at or after"), "{notice}");
}

#[test]
fn a_time_that_is_not_a_time_is_reported_in_the_pane() {
    let mut workspace = open();
    tail_with_ages(&mut workspace, &vec![("api-0", 60)]);

    workspace.jump_to_time("half past four", SystemTime::at(WALL));

    assert_eq!(workspace.anchor(), None);
    let notice = workspace.notice(Lines::Logs).expect("a notice");
    assert!(notice.contains("not a time"), "{notice}");
}

#[test]
fn ordering_by_timestamp_interleaves_two_pods_backlogs() {
    let mut workspace = open();
    // One pod's backlog, then the other's: what `kubectl logs` gives, and
    // what makes a merged tail hard to read.
    tail_with_ages(&mut workspace, &vec![
            ("api-0", 300),
            ("api-0", 100),
            ("api-1", 200),
            ("api-1", 50),
        ],
    );

    workspace.toggle_order();

    let buffer = &workspace.state().logs().expect("a tail").buffer;
    assert_eq!(buffer.order(), LogOrder::Timestamp);
    let texts: Vec<_> = buffer.visible().iter().map(|line| line.text.to_string()).collect();
    assert_eq!(
        texts,
        [
            "api-0 at -300s",
            "api-1 at -200s",
            "api-0 at -100s",
            "api-1 at -50s"
        ]
    );

    workspace.toggle_order();
    assert_eq!(
        workspace
            .state()
            .logs()
            .expect("a tail")
            .buffer
            .order(),
        LogOrder::Arrival
    );
}

#[test]
fn wrapping_shows_a_window_of_the_buffer_rather_than_all_of_it() {
    let mut workspace = open();
    apply(&mut workspace, vec![contexts(&["prod"], "prod"), kinds_event("prod")]);
    open_pod_detail(&mut workspace, "api-0");
    workspace.toggle_logs();

    let count = WRAP_LIMIT * 4;
    apply(&mut workspace, vec![ClusterEvent::LogBatch {
            cluster: ClusterId::new("prod"),
            lines: (0..count)
                .map(|index| LogLine {
                    source: LogSource::new("api-0", "api"),
                    timestamp: None,
                    text: format!("line-{index}"),
                })
                .collect(),
        }],
    );

    workspace.toggle_wrap();

    assert!(workspace.wraps());
    let visible = workspace
        .state()
        .logs()
        .expect("a tail")
        .buffer
        .visible_len();
    assert_eq!(visible, count);
    // The whole point of the cap: an unvirtualised body must never be
    // handed the whole buffer, however many lines that is.
    let window = wrap_window(visible, workspace.anchor());
    assert_eq!(window, (count - WRAP_LIMIT)..count);
}

#[test]
fn a_confirmed_mutation_goes_to_the_cluster_the_sentence_named() {
    // The palette is reachable while a proposal is open, and it changes the
    // active cluster.
    let mut workspace = open();
    apply(&mut workspace, vec![contexts(&["prod", "staging"], "prod"), kinds_event("prod")]);
    apply(&mut workspace, vec![
            ClusterEvent::Status {
                cluster: ClusterId::new("prod"),
                state: ConnectionState::Connected,
            },
            ClusterEvent::Status {
                cluster: ClusterId::new("staging"),
                state: ConnectionState::Connected,
            },
        ],
    );
    workspace.take_commands();

    workspace.propose(
        Mutation::Delete {
            kind: pods(),
            key: ResourceKey::new("default", "api-0"),
            grace_period: None,
        });
    // The user wanders off to another cluster with the dialog open.
    workspace.select_cluster(ClusterId::new("staging"), now());

    workspace.take_commands();

    let sentence = workspace.pending()
        .expect("still pending")
        .confirmation();
    assert!(sentence.contains("prod"), "{sentence}");
    assert!(!sentence.contains("staging"), "{sentence}");

    workspace.confirm_mutation(now());

    match workspace.take_commands().as_slice() {
        [ClusterCommand::Mutate { cluster, .. }] => {
            assert_eq!(
                cluster,
                &ClusterId::new("prod"),
                "sent to the wrong cluster"
            );
        }
        other => panic!("expected one mutation, got {other:?}"),
    }
}

#[test]
fn a_mutation_is_not_sent_until_it_is_confirmed() {
    let mut workspace = open();
    apply(&mut workspace, vec![contexts(&["prod"], "prod"), kinds_event("prod")]);
    apply(&mut workspace, vec![ClusterEvent::Status {
            cluster: ClusterId::new("prod"),
            state: ConnectionState::Connected,
        }],
    );
    workspace.take_commands();

    let delete = Mutation::Delete {
        kind: pods(),
        key: ResourceKey::new("default", "api-0"),
        grace_period: None,
    };
    workspace.propose(delete);

    // Proposing sends nothing at all.
    assert!(workspace.take_commands().is_empty());
    assert!(workspace.pending().is_some());

    workspace.confirm_mutation(now());

    match workspace.take_commands().as_slice() {
        [ClusterCommand::Mutate { cluster, mutation }] => {
            assert_eq!(cluster, &ClusterId::new("prod"));
            assert_eq!(mutation.verb(), "delete");
        }
        other => panic!("expected one mutation, got {other:?}"),
    }
}

#[test]
fn cancelling_sends_nothing() {
    let mut workspace = open();
    apply(&mut workspace, vec![contexts(&["prod"], "prod"), kinds_event("prod")]);
    workspace.take_commands();

    workspace.propose(
        Mutation::Delete {
            kind: pods(),
            key: ResourceKey::new("default", "api-0"),
            grace_period: None,
        });

    workspace.dismiss();

    assert!(workspace.pending().is_none());
    assert!(workspace.take_commands().is_empty());
}

#[test]
fn escape_cancels_a_mutation_before_anything_else() {
    let mut workspace = open();
    apply(&mut workspace, vec![contexts(&["prod"], "prod"), kinds_event("prod")]);
    workspace.open_object(ResourceKey::new("default", "api-0"));
    workspace.propose(
        Mutation::Delete {
            kind: pods(),
            key: ResourceKey::new("default", "api-0"),
            grace_period: None,
        });

    workspace.take_commands();

    workspace.dismiss();
    // The dialog went; the detail pane behind it stayed.
    assert!(workspace.pending().is_none());
    assert!(workspace.state().detail().is_some());
}

#[test]
fn a_command_is_not_run_until_it_is_confirmed() {
    let mut workspace = open();
    apply(&mut workspace, vec![contexts(&["prod"], "prod"), kinds_event("prod")]);
    apply(&mut workspace, vec![ClusterEvent::Status {
            cluster: ClusterId::new("prod"),
            state: ConnectionState::Connected,
        }],
    );
    open_pod_detail(&mut workspace, "api-0");
    workspace.take_commands();

    workspace.run_command("ls -la /etc");

    // A command is a change, so it waits behind the same dialog as one.
    assert!(workspace.take_commands().is_empty());
    let sentence = workspace.pending()
        .expect("a command is waiting")
        .confirmation();
    assert!(sentence.contains("prod"), "{sentence}");
    assert!(sentence.contains("api-0"), "{sentence}");
    assert!(sentence.contains("ls -la /etc"), "{sentence}");

    workspace.confirm_mutation(now());

    match workspace.take_commands().as_slice() {
        [ClusterCommand::Exec { cluster, target }] => {
            assert_eq!(cluster, &ClusterId::new("prod"));
            assert_eq!(target.command_line(), "ls -la /etc");
            assert_eq!(&*target.pod, "api-0");
        }
        other => panic!("expected one exec, got {other:?}"),
    }
    // The pane opens straight away: a command that prints nothing still ran.
    assert!(workspace.state().exec_session().is_some());
}

#[test]
fn command_output_and_its_exit_status_reach_the_pane() {
    let mut workspace = open();
    apply(&mut workspace, vec![contexts(&["prod"], "prod"), kinds_event("prod")]);
    apply(&mut workspace, vec![ClusterEvent::Status {
            cluster: ClusterId::new("prod"),
            state: ConnectionState::Connected,
        }],
    );
    open_pod_detail(&mut workspace, "api-0");
    workspace.run_command("cat /missing");
    workspace.confirm_mutation(now());

    workspace.take_commands();

    apply(&mut workspace, vec![
            ClusterEvent::ExecOutput {
                cluster: ClusterId::new("prod"),
                lines: vec![LogLine {
                    source: LogSource::new("api-0", "stderr"),
                    timestamp: None,
                    text: String::from("cat: /missing: No such file or directory"),
                }],
            },
            ClusterEvent::ExecFinished {
                cluster: ClusterId::new("prod"),
                status: ExecStatus::Exited {
                    code: Some(1),
                    message: "command terminated with exit code 1".to_owned(),
                },
            },
        ],
    );

    let session = workspace.state().exec_session().expect("a session");
    assert_eq!(session.buffer.len(), 1);
    assert!(!session.is_running());
    // A non-zero exit is a result the user must be able to see.
    assert!(
        session.summary().contains("exited 1"),
        "{}",
        session.summary()
    );
}

#[test]
fn stopping_a_command_cancels_it_and_says_so() {
    let mut workspace = open();
    apply(&mut workspace, vec![contexts(&["prod"], "prod"), kinds_event("prod")]);
    apply(&mut workspace, vec![ClusterEvent::Status {
            cluster: ClusterId::new("prod"),
            state: ConnectionState::Connected,
        }],
    );
    open_pod_detail(&mut workspace, "api-0");
    workspace.run_command("sleep 600");
    workspace.confirm_mutation(now());

    workspace.take_commands();

    workspace.stop_command();

    match workspace.take_commands().as_slice() {
        [ClusterCommand::CancelExec { cluster }] => {
            assert_eq!(cluster, &ClusterId::new("prod"));
        }
        other => panic!("expected a cancel, got {other:?}"),
    }
    // The pane does not sit on "running…" waiting for the cluster to agree.
    let session = workspace.state().exec_session().expect("a session");
    assert!(!session.is_running());
    assert_eq!(session.summary(), "cancelled");
}

#[test]
fn a_read_only_cluster_runs_no_command_and_sends_nothing() {
    let mut workspace = open();
    apply(&mut workspace, vec![contexts(&["prod"], "prod"), kinds_event("prod")]);
    apply(&mut workspace, vec![ClusterEvent::Status {
            cluster: ClusterId::new("prod"),
            state: ConnectionState::Connected,
        }],
    );
    open_pod_detail(&mut workspace, "api-0");
    workspace.take_commands();

    let mut permissions = Permissions::permissive();
    permissions.deny(ClusterId::new("prod"));
    workspace.set_permissions(permissions);

    workspace.run_command("rm -rf /data");
    // Confirmed anyway: the store is what refuses, not the dialog.
    workspace.confirm_mutation(now());

    assert!(workspace.take_commands().is_empty());
    assert!(workspace.state().exec_session().is_none());
    let error = workspace.last_error().expect("the refusal is shown");
    assert!(error.contains("read-only"), "{error}");
}

#[test]
fn an_empty_command_says_what_to_type_rather_than_running_nothing() {
    let mut workspace = open();
    apply(&mut workspace, vec![contexts(&["prod"], "prod"), kinds_event("prod")]);
    open_pod_detail(&mut workspace, "api-0");
    workspace.take_commands();

    workspace.run_command("");

    assert!(workspace.take_commands().is_empty());
    assert!(workspace.pending().is_none());
    assert!(workspace.last_error().is_some());
}

#[test]
fn escape_closes_the_command_pane_and_stops_it() {
    let mut workspace = open();
    apply(&mut workspace, vec![contexts(&["prod"], "prod"), kinds_event("prod")]);
    apply(&mut workspace, vec![ClusterEvent::Status {
            cluster: ClusterId::new("prod"),
            state: ConnectionState::Connected,
        }],
    );
    open_pod_detail(&mut workspace, "api-0");
    workspace.run_command("sleep 600");
    workspace.confirm_mutation(now());

    workspace.take_commands();

    workspace.dismiss();

    // Closing the pane must not leave a command running with nowhere to
    // report to.
    match workspace.take_commands().as_slice() {
        [ClusterCommand::CancelExec { .. }] => {}
        other => panic!("expected a cancel, got {other:?}"),
    }
    assert!(workspace.state().exec_session().is_none());
    // The detail pane behind it stayed.
    assert!(workspace.state().detail().is_some());
}

#[test]
fn the_containers_offered_come_from_the_object_the_pane_already_fetched() {
    let mut workspace = open();
    apply(&mut workspace, vec![contexts(&["prod"], "prod"), kinds_event("prod")]);
    open_pod_detail(&mut workspace, "api-0");
    workspace.take_commands();

    deliver_pod(&mut workspace, "api-0");

    let names: Vec<_> = workspace.exec_containers()
        .iter()
        .map(|container| &*container.name)
        .collect();
    // The pod's own containers first, then the init container, which is
    // the order the apiserver's default makes sense in.
    assert_eq!(names, ["api", "envoy", "migrate"]);
    assert!(workspace.exec_containers()[2].init);
    // Nothing is chosen until somebody chooses.
    assert!(workspace.exec_container().is_none());

    // And it cost no request: the object was already here.
    assert!(workspace.take_commands().is_empty());
}

#[test]
fn a_picked_container_is_named_in_the_confirmation_and_in_what_is_sent() {
    let mut workspace = workspace_with_pod("api-0");
    workspace.take_commands();

    workspace.pick_container(Some(String::from("envoy")));
    workspace.run_command("ps");

    // Which container a command runs in changes what is being run, so the
    // sentence the user agrees to has to say it.
    let sentence = workspace.pending()
        .expect("a command is waiting")
        .confirmation();
    assert!(sentence.contains("container envoy"), "{sentence}");

    workspace.confirm_mutation(now());

    match workspace.take_commands().as_slice() {
        [ClusterCommand::Exec { target, .. }] => {
            assert_eq!(target.container.as_deref(), Some("envoy"));
        }
        other => panic!("expected one exec, got {other:?}"),
    }
}

#[test]
fn no_container_picked_leaves_the_choice_to_the_apiserver() {
    let mut workspace = workspace_with_pod("api-0");
    workspace.take_commands();

    workspace.run_command("ps");
    workspace.confirm_mutation(now());

    match workspace.take_commands().as_slice() {
        [ClusterCommand::Exec { target, .. }] => assert!(target.container.is_none()),
        other => panic!("expected one exec, got {other:?}"),
    }
}

#[test]
fn opening_another_pod_forgets_the_container_that_was_picked() {
    let mut workspace = workspace_with_pod("api-0");

    workspace.pick_container(Some(String::from("envoy")));

    open_pod_detail(&mut workspace, "api-1");
    // Before the new object has even arrived: Run is on screen throughout,
    // and a name that meant a sidecar in the last pod is a way to run a
    // command in the wrong place in this one.
    assert!(workspace.exec_container().is_none());
    assert!(workspace.exec_containers().is_empty());

    deliver_pod(&mut workspace, "api-1");
    assert!(workspace.exec_container().is_none());
}

#[test]
fn escape_puts_the_container_list_away_before_anything_else() {
    let mut workspace = workspace_with_pod("api-0");

    workspace.toggle_container_menu();

    workspace.dismiss();

    assert!(!workspace.container_menu_open());
    // The pane the button belongs to stayed.
    assert!(workspace.state().detail().is_some());
}

/// A session with three lines of output in it.
fn command_with_output() -> Workspace {
    let mut workspace = workspace_with_pod("api-0");
    workspace.run_command("dmesg");
    workspace.confirm_mutation(now());

    apply(&mut workspace, vec![ClusterEvent::ExecOutput {
            cluster: ClusterId::new("prod"),
            lines: ["starting", "an error", "done"]
                .iter()
                .map(|text| LogLine {
                    source: LogSource::new("api-0", "stdout"),
                    timestamp: None,
                    text: String::from(*text),
                })
                .collect(),
        }],
    );
    workspace.take_commands();
    workspace
}

#[test]
fn filtering_command_output_narrows_it_without_re_running_anything() {
    let mut workspace = command_with_output();

    workspace.apply_filter(Lines::Command, "error".to_owned());

    let buffer = &workspace.state().exec_session().expect("a session").buffer;
    assert_eq!(buffer.visible_len(), 1);
    assert_eq!(buffer.len(), 3);

    // The output is held here; narrowing it is not a reason to run the
    // command again.
    assert!(workspace.take_commands().is_empty());
}

#[test]
fn a_filter_that_will_not_compile_says_so_rather_than_showing_nothing() {
    let mut workspace = command_with_output();

    workspace.toggle_filter_mode(Lines::Command, true);
    workspace.apply_filter(Lines::Command, "err(".to_owned());

    let buffer = &workspace.state().exec_session().expect("a session").buffer;
    assert!(buffer.filter_error().is_some());
}

#[test]
fn copying_command_output_takes_what_is_on_screen_and_says_how_much() {
    let mut workspace = command_with_output();

    workspace.apply_filter(Lines::Command, "error".to_owned());
    let copied = workspace.copy_lines(Lines::Command).expect("something to copy");

    let said = workspace.notice(Lines::Command).expect("it says what it did");
    // The filtered lines, not the whole buffer: what is copied is what
    // is being read.
    assert!(said.contains("Copied 1 lines"), "{said}");
    // And the log view, which has its own notice, said nothing.
    assert!(workspace.notice(Lines::Logs).is_none());

    assert!(copied.contains("an error"), "{copied}");
    assert!(!copied.contains("starting"), "{copied}");
}

#[test]
fn running_a_second_command_keeps_the_filter_the_first_was_read_through() {
    let mut workspace = command_with_output();

    workspace.apply_filter(Lines::Command, String::from("error"));
    workspace.run_command("dmesg");
    workspace.confirm_mutation(now());

    workspace.take_commands();

    let buffer = &workspace.state().exec_session().expect("a session").buffer;
    assert_eq!(buffer.filter().pattern, "error");
}

#[test]
fn a_read_only_cluster_refuses_in_the_ui_and_sends_nothing() {
    let mut workspace = open();
    apply(&mut workspace, vec![contexts(&["prod"], "prod"), kinds_event("prod")]);
    apply(&mut workspace, vec![ClusterEvent::Status {
            cluster: ClusterId::new("prod"),
            state: ConnectionState::Connected,
        }],
    );
    workspace.take_commands();

    let mut permissions = Permissions::permissive();
    permissions.deny(ClusterId::new("prod"));
    workspace.set_permissions(permissions);

    workspace.propose(
        Mutation::Delete {
            kind: pods(),
            key: ResourceKey::new("default", "api-0"),
            grace_period: None,
        });
    workspace.confirm_mutation(now());

    // Confirmed, and still nothing went out.
    assert!(workspace.take_commands().is_empty());
    let last = workspace.state().last_activity().expect("recorded");
    assert!(last.outcome.is_problem());
    assert!(last.outcome.message().contains("read-only"));
}

#[test]
fn a_confirmation_sentence_names_the_cluster_and_the_object() {
    let mut workspace = open();
    apply(&mut workspace, vec![contexts(&["prod"], "prod"), kinds_event("prod")]);

    workspace.propose(
        Mutation::Scale {
            kind: deployments(),
            key: ResourceKey::new("payments", "api"),
            replicas: 0,
            current: Some(3),
        });

    let sentence = workspace.pending().unwrap().confirmation();

    assert!(sentence.contains("prod"), "{sentence}");
    assert!(sentence.contains("payments"), "{sentence}");
    assert!(sentence.contains("api"), "{sentence}");
    assert!(sentence.contains("from 3"), "{sentence}");
    assert!(sentence.contains("to 0"), "{sentence}");
}

#[test]
fn an_outcome_from_the_cluster_reaches_the_activity_line() {
    let mut workspace = open();
    apply(&mut workspace, vec![contexts(&["prod"], "prod"), kinds_event("prod")]);

    apply(&mut workspace, vec![ClusterEvent::MutationDone {
            cluster: ClusterId::new("prod"),
            mutation: Arc::new(Mutation::Restart {
                kind: deployments(),
                key: ResourceKey::new("payments", "api"),
            }),
            outcome: MutationOutcome::Applied {
                detail: "api restarting".into(),
            },
        }],
    );

    let last = workspace.state().last_activity().expect("recorded");
    assert_eq!(last.outcome.message(), "api restarting");
}

#[test]
fn revealing_a_secret_re_fetches_it_with_the_values() {
    let mut workspace = open();
    apply(&mut workspace, vec![contexts(&["prod"], "prod"), kinds_event("prod")]);

    let key = ResourceKey::new("default", "db");
    workspace.open_object(key.clone());

    // Opening never asks for the values.
    assert!(workspace.take_commands().contains(&ClusterCommand::FetchObject {
        cluster: ClusterId::new("prod"),
        kind: pods(),
        key: key.clone(),
        reveal: false,
    }));

    workspace.reveal_values();

    assert_eq!(
        workspace.take_commands(),
        vec![ClusterCommand::FetchObject {
            cluster: ClusterId::new("prod"),
            kind: pods(),
            key,
            reveal: true,
        }]
    );
}

#[test]
fn an_auth_failure_is_offered_with_a_retry() {
    let mut workspace = open();
    apply(&mut workspace, vec![contexts(&["prod"], "prod")]);
    apply(&mut workspace, vec![ClusterEvent::Status {
            cluster: ClusterId::new("prod"),
            state: ConnectionState::AuthFailed {
                reason: "exec plugin `aws` exited 255".into(),
            },
        }],
    );
    workspace.take_commands();

    workspace.reconnect();

    assert_eq!(
        workspace.take_commands(),
        vec![ClusterCommand::Connect {
            cluster: ClusterId::new("prod")
        }]
    );
}

#[test]
fn a_kubeconfig_failure_is_reported_verbatim() {
    let mut workspace = open();
    apply(&mut workspace, vec![ClusterEvent::ConfigFailed {
            reason: "open /home/x/.kube/config: permission denied".into(),
        }],
    );

    assert_eq!(
        workspace.state().config_error(),
        Some("open /home/x/.kube/config: permission denied")
    );
}

#[test]
fn a_dead_runtime_surfaces_an_error_rather_than_doing_nothing() {
    let mut workspace = open();
    workspace.take_commands();

    workspace.reload_contexts();
    assert_eq!(workspace.take_commands(), vec![ClusterCommand::ListContexts]);
    workspace.delivered(Err(CommandError::Closed));

    let message = workspace.last_error().expect("error surfaced");
    assert!(message.contains("Restart Periscope"), "{message}");
}

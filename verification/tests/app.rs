use periscope::app::{AppState, DEFAULT_IDLE_TIMEOUT};
use periscope::clock::{Duration, Instant, SystemTime};
use periscope::events::ClusterEvent;
use periscope::logs::DEFAULT_CAPACITY;
use periscope::model::{Detail, ACTIVITY_LIMIT, DEFAULT_ROW_BUDGET};
use periscope::mutation::{Mutation, MutationOutcome};
use periscope::objects::{
    Cell, ClusterId, ColumnSpec, ContextInfo, KindId, KindInfo, ObjectDetail, ResourceKey, ResourceRow, RowState,
};
use periscope::permissions::{Permissions, Refusal};
use periscope::rows::{Sort, SortKey};
use periscope::sessions::{
    ConnectionState, ExecStatus, ExecTarget, ForwardId, ForwardInfo, ForwardState, ForwardTarget, LogLine, LogSource,
    LogSourceState, LogTarget,
};
use std::sync::Arc;

fn now() -> Instant {
    Instant { nanos: 1_000_000_000_000 }
}

fn after(start: Instant, span: Duration) -> Instant {
    Instant { nanos: start.nanos + span.nanos }
}

fn cell(text: &str) -> Cell {
    let number = text.parse::<f64>().ok().map(|value| {
        let bits = value.to_bits() as i64;
        bits ^ ((((bits >> 63) as u64) >> 1) as i64)
    });
    Cell { text: String::from(text), number }
}

fn context(name: &str) -> ContextInfo {
    ContextInfo {
        name: String::from(name),
        cluster: format!("{name}-cluster"),
        user: None,
        namespace: None,
    }
}

fn contexts_event(names: &[&str], current: Option<&str>) -> ClusterEvent {
    ClusterEvent::Contexts {
        contexts: names.iter().copied().map(context).collect(),
        current: current.map(ClusterId::new),
    }
}

fn pods() -> KindId {
    KindId::new("", "v1", "Pod", "pods")
}

fn deployments() -> KindId {
    KindId::new("apps", "v1", "Deployment", "deployments")
}

fn columns() -> Arc<Vec<ColumnSpec>> {
    Arc::new(vec![ColumnSpec::fixed("STATUS", 100)])
}

fn row(namespace: &str, name: &str) -> ResourceRow {
    ResourceRow {
        key: ResourceKey::new(namespace, name),
        uid: None,
        cells: vec![cell("Running")],
        state: RowState::Healthy,
        created: None,
    }
}

fn reset(cluster: &str, kind: KindId, rows: &[ResourceRow]) -> ClusterEvent {
    ClusterEvent::ResourceReset {
        cluster: ClusterId::new(cluster),
        kind,
        columns: columns(),
        rows: rows.to_vec(),
    }
}

fn state_with_contexts() -> AppState {
    let mut state = AppState::new();
    state.apply_batch(
        &vec![contexts_event(&vec!["prod", "staging"], Some("prod"))],
        now(),
    );
    state.select_kind(pods());
    state
}

fn row_names(state: &AppState) -> Vec<String> {
    state.rows().iter().map(|row| row.key.to_text()).collect()
}

#[test]
fn reading_kubeconfig_selects_the_current_context() {
    let state = state_with_contexts();

    assert_eq!(state.contexts().len(), 2);
    assert_eq!(state.active(), Some(&ClusterId::new("prod")));
    // Every context is listed as idle so the picker can render it.
    assert_eq!(
        state.connection(&ClusterId::new("staging")).unwrap().state,
        ConnectionState::Idle
    );
}

#[test]
fn re_reading_kubeconfig_does_not_move_the_user_off_their_cluster() {
    let mut state = state_with_contexts();
    state.select_cluster(ClusterId::new("staging"), now());

    state.apply_batch(
        &vec![contexts_event(&vec!["prod", "staging"], Some("prod"))],
        now(),
    );

    assert_eq!(state.active(), Some(&ClusterId::new("staging")));
}

#[test]
fn a_kubeconfig_failure_keeps_the_last_good_contexts_and_explains_itself() {
    let mut state = state_with_contexts();

    state.apply_batch(
        &vec![ClusterEvent::ConfigFailed {
            reason: "permission denied".into(),
        }],
        now(),
    );

    assert_eq!(state.config_error(), Some("permission denied"));
    assert_eq!(state.contexts().len(), 2);
}

#[test]
fn discovered_kinds_belong_to_their_cluster() {
    let mut state = state_with_contexts();
    let kinds: Arc<Vec<KindInfo>> = Arc::new(vec![KindInfo {
        id: deployments(),
        namespaced: true,
        watchable: true,
        custom: false,
    }]);

    state.apply_batch(
        &vec![ClusterEvent::Kinds {
            cluster: ClusterId::new("staging"),
            kinds: Arc::clone(&kinds),
        }],
        now(),
    );

    // Discovered for staging, so the prod picker must not show them.
    assert!(state.kinds().is_empty());
    state.select_cluster(ClusterId::new("staging"), now());
    assert_eq!(state.kinds().len(), 1);
    assert!(state.kind_info(&deployments()).is_some());
}

#[test]
fn rows_for_the_active_cluster_and_kind_become_the_table() {
    let mut state = state_with_contexts();

    state.apply_batch(
        &vec![reset(
            "prod",
            pods(),
            &vec![row("default", "web"), row("default", "api")],
        )],
        now(),
    );

    assert_eq!(row_names(&state), ["default/api", "default/web"]);
    assert_eq!(state.counts(), (2, 2));
    assert_eq!(&*state.columns()[0].name, "STATUS");
}

#[test]
fn rows_for_another_kind_are_kept_but_not_rendered() {
    let mut state = state_with_contexts();

    let changed = state.apply_batch(
        &vec![reset("prod", deployments(), &vec![row("default", "web")])],
        now(),
    );

    // Nothing visible changed, so no repaint; the data is still there for
    // when the user switches kinds.
    assert!(!changed);
    assert!(state.rows().is_empty());
    assert_eq!(state.row_count(&deployments()), 1);
}

#[test]
fn switching_kinds_shows_the_other_table_without_refetching() {
    let mut state = state_with_contexts();
    state.apply_batch(
        &vec![
            reset("prod", pods(), &vec![row("default", "api-0")]),
            reset("prod", deployments(), &vec![row("default", "api")]),
        ],
        now(),
    );

    state.select_kind(deployments());
    assert_eq!(row_names(&state), ["default/api"]);

    state.select_kind(pods());
    assert_eq!(row_names(&state), ["default/api-0"]);
}

#[test]
fn switching_clusters_shows_that_clusters_rows() {
    let mut state = state_with_contexts();
    state.apply_batch(
        &vec![
            reset("prod", pods(), &vec![row("default", "prod-pod")]),
            reset("staging", pods(), &vec![row("default", "staging-pod")]),
        ],
        now(),
    );

    state.select_cluster(ClusterId::new("staging"), now());
    assert_eq!(row_names(&state), ["default/staging-pod"]);
}

#[test]
fn a_namespace_filter_hides_rows_immediately() {
    let mut state = state_with_contexts();
    state.apply_batch(
        &vec![reset(
            "prod",
            pods(),
            &vec![row("default", "api"), row("kube-system", "coredns")],
        )],
        now(),
    );

    state.set_namespace(Some(String::from("kube-system")));
    assert_eq!(row_names(&state), ["kube-system/coredns"]);
    // The unfiltered count stays visible, so the user can see what is hidden.
    assert_eq!(state.counts(), (2, 1));

    state.set_namespace(None);
    assert_eq!(state.counts(), (2, 2));
}

#[test]
fn an_empty_namespace_filter_is_treated_as_no_filter() {
    let mut state = state_with_contexts();
    state.apply_batch(
        &vec![reset("prod", pods(), &vec![row("default", "api")])],
        now(),
    );

    state.set_namespace(Some(String::from("")));
    assert_eq!(state.filters().namespace, None);
    assert_eq!(state.rows().len(), 1);
}

#[test]
fn a_search_matches_name_namespace_and_cells() {
    let mut state = state_with_contexts();
    let mut failing = row("default", "worker");
    failing.cells = vec![cell("CrashLoopBackOff")];

    state.apply_batch(
        &vec![reset("prod", pods(), &vec![row("default", "api"), failing])],
        now(),
    );

    state.set_search(Some(String::from("crash")));
    assert_eq!(row_names(&state), ["default/worker"]);

    state.set_search(Some(String::from("API")));
    assert_eq!(row_names(&state), ["default/api"]);

    state.set_search(None);
    assert_eq!(state.rows().len(), 2);
}

#[test]
fn namespaces_come_from_the_rows_the_table_holds() {
    let mut state = state_with_contexts();
    state.apply_batch(
        &vec![reset(
            "prod",
            pods(),
            &vec![row("default", "api"), row("kube-system", "coredns")],
        )],
        now(),
    );

    let namespaces: Vec<_> = state
        .namespaces()
        .iter()
        .map(|namespace| namespace.to_string())
        .collect();
    assert_eq!(namespaces, ["default", "kube-system"]);
}

#[test]
fn a_resync_that_changes_nothing_does_not_repaint() {
    let mut state = state_with_contexts();
    let event = reset("prod", pods(), &vec![row("default", "api")]);

    assert!(state.apply_batch(&vec![event.clone()], now()));
    assert!(!state.apply_batch(&vec![event.clone()], now()));
}

#[test]
fn a_resync_clears_the_stale_marker() {
    let mut state = state_with_contexts();
    let now = now();
    state.apply_batch(
        &vec![ClusterEvent::Stale {
            cluster: Some(ClusterId::new("prod")),
            dropped: 42,
        }],
        now,
    );
    assert!(
        state
            .connection(&ClusterId::new("prod"))
            .unwrap()
            .is_stale()
    );

    state.apply_batch(&vec![reset("prod", pods(), &vec![row("default", "api")])], now);

    // The table was just rebuilt from a fresh listing, so whatever was
    // dropped no longer matters.
    assert!(
        !state
            .connection(&ClusterId::new("prod"))
            .unwrap()
            .is_stale()
    );
}

#[test]
fn a_detail_fetch_is_shown_only_while_it_is_still_wanted() {
    let mut state = state_with_contexts();
    let key = ResourceKey::new("default", "api-0");
    state.open_detail(ClusterId::new("prod"), pods(), key.clone());

    let object = Arc::new(ObjectDetail {
        key: key.clone(),
        yaml: String::from("kind: Pod"),
        maskable: false,
        revealed: true,
        events: vec![],
        owners: vec![],
    });

    // An answer for something else must not replace what is on screen.
    state.apply_batch(
        &vec![ClusterEvent::Object {
            cluster: ClusterId::new("prod"),
            kind: deployments(),
            detail: Arc::clone(&object),
        }],
        now(),
    );
    assert!(matches!(state.detail(), Some(Detail::Loading { .. })));

    state.apply_batch(
        &vec![ClusterEvent::Object {
            cluster: ClusterId::new("prod"),
            kind: pods(),
            detail: object,
        }],
        now(),
    );
    assert!(matches!(state.detail(), Some(Detail::Ready { .. })));
}

#[test]
fn a_forbidden_kind_says_so_instead_of_looking_empty() {
    // "No pods here" and "you may not list pods" are different facts, and
    // only one of them means the namespace is safe to walk away from.
    let mut state = state_with_contexts();
    state.apply_batch(
        &vec![reset("prod", pods(), &vec![row("default", "api-0")])],
        now(),
    );
    assert_eq!(row_names(&state).len(), 1);

    state.apply_batch(
        &vec![ClusterEvent::KindFailed {
            cluster: ClusterId::new("prod"),
            kind: pods(),
            reason: "pods is forbidden: User \"dev\" cannot list resource".to_owned(),
        }],
        now(),
    );

    // The rows are gone — nobody may refresh them, so keeping them would be
    // showing a listing that quietly stops being true.
    assert!(row_names(&state).is_empty());
    let reason = state.panes()[0]
        .unavailable()
        .expect("the pane says why it is empty");
    assert!(reason.contains("forbidden"), "{reason}");

    // And a kind that becomes readable again stops explaining itself.
    state.apply_batch(
        &vec![reset("prod", pods(), &vec![row("default", "api-0")])],
        now(),
    );
    assert!(state.panes()[0].unavailable().is_none());
    assert_eq!(row_names(&state).len(), 1);
}

#[test]
fn a_forbidden_kind_does_not_report_the_cluster_as_broken() {
    // The point of the whole split: one denied kind must leave the
    // connection exactly as it was.
    let mut state = state_with_contexts();
    state.apply_batch(
        &vec![ClusterEvent::Status {
            cluster: ClusterId::new("prod"),
            state: ConnectionState::Connected,
        }],
        now(),
    );

    state.apply_batch(
        &vec![ClusterEvent::KindFailed {
            cluster: ClusterId::new("prod"),
            kind: pods(),
            reason: "secrets is forbidden".to_owned(),
        }],
        now(),
    );

    let connection = state
        .connection(&ClusterId::new("prod"))
        .expect("the cluster is still known");
    assert_eq!(connection.state, ConnectionState::Connected);
}

#[test]
fn a_failed_fetch_replaces_the_spinner_with_the_reason() {
    let mut state = state_with_contexts();
    let key = ResourceKey::new("default", "api-0");
    state.open_detail(ClusterId::new("prod"), pods(), key.clone());

    state.apply_batch(
        &vec![ClusterEvent::ObjectFailed {
            cluster: ClusterId::new("prod"),
            kind: pods(),
            key,
            reason: "pods \"api-0\" not found".into(),
        }],
        now(),
    );

    match state.detail() {
        Some(Detail::Failed { reason, .. }) => assert!(reason.contains("not found")),
        other => panic!("expected a failure, got {other:?}"),
    }
}

#[test]
fn changing_what_is_being_viewed_closes_the_detail_pane() {
    let mut state = state_with_contexts();
    state.open_detail(
        ClusterId::new("prod"),
        pods(),
        ResourceKey::new("default", "api-0"),
    );

    state.select_kind(deployments());
    assert!(state.detail().is_none());

    state.open_detail(
        ClusterId::new("prod"),
        deployments(),
        ResourceKey::new("default", "api"),
    );
    state.select_cluster(ClusterId::new("staging"), now());
    assert!(state.detail().is_none());
}

#[test]
fn log_lines_land_in_the_open_session() {
    let mut state = state_with_contexts();
    state.open_logs(
        ClusterId::new("prod"),
        Arc::new(LogTarget::pod("default", "api-0")),
        DEFAULT_CAPACITY,
    );

    let batch = ClusterEvent::LogBatch {
        cluster: ClusterId::new("prod"),
        lines: vec![LogLine {
            source: LogSource::new("api-0", "api"),
            timestamp: None,
            text: String::from("hello"),
        }],
    };
    assert!(state.apply_batch(&vec![batch.clone()], now()));
    assert_eq!(state.logs().unwrap().buffer.visible_len(), 1);

    state.apply_batch(
        &vec![ClusterEvent::LogSourceChanged {
            cluster: ClusterId::new("prod"),
            source: LogSource::new("api-0", "api"),
            state: LogSourceState::Streaming,
        }],
        now(),
    );
    assert_eq!(state.logs().unwrap().buffer.streaming(), 1);
}

#[test]
fn lines_for_another_cluster_are_ignored() {
    let mut state = state_with_contexts();
    state.open_logs(
        ClusterId::new("prod"),
        Arc::new(LogTarget::pod("default", "api-0")),
        DEFAULT_CAPACITY,
    );

    let changed = state.apply_batch(
        &vec![ClusterEvent::LogBatch {
            cluster: ClusterId::new("staging"),
            lines: vec![LogLine {
                source: LogSource::new("api-0", "api"),
                timestamp: None,
                text: String::from("not mine"),
            }],
        }],
        now(),
    );

    assert!(!changed);
    assert_eq!(state.logs().unwrap().buffer.visible_len(), 0);
}

#[test]
fn switching_clusters_closes_the_tail() {
    let mut state = state_with_contexts();
    state.open_logs(
        ClusterId::new("prod"),
        Arc::new(LogTarget::pod("default", "api-0")),
        DEFAULT_CAPACITY,
    );

    state.select_cluster(ClusterId::new("staging"), now());
    assert!(state.logs().is_none());
}

#[test]
fn a_failed_session_says_why() {
    let mut state = state_with_contexts();
    state.open_logs(
        ClusterId::new("prod"),
        Arc::new(LogTarget::pod("default", "api-0")),
        DEFAULT_CAPACITY,
    );

    state.apply_batch(
        &vec![ClusterEvent::LogsFailed {
            cluster: ClusterId::new("prod"),
            reason: "container \"api\" in pod \"api-0\" is waiting to start".into(),
        }],
        now(),
    );

    assert!(
        state
            .logs()
            .unwrap()
            .buffer
            .error()
            .is_some_and(|reason| reason.contains("waiting to start"))
    );
}

#[test]
fn splitting_opens_a_second_pane_on_another_cluster() {
    let mut state = state_with_contexts();

    assert!(!state.is_split());
    assert!(state.split(now()));
    assert!(state.is_split());

    // Two panes showing the same cluster is never what split means.
    assert_eq!(state.panes()[0].cluster(), Some(&ClusterId::new("prod")));
    assert_eq!(state.panes()[1].cluster(), Some(&ClusterId::new("staging")));
    // Commands go to the new pane.
    assert_eq!(state.focus(), 1);
    assert_eq!(state.active(), Some(&ClusterId::new("staging")));

    assert!(!state.split(now()), "splitting twice does nothing");
    assert!(state.unsplit(now()));
    assert_eq!(state.focus(), 0);
    assert_eq!(state.active(), Some(&ClusterId::new("prod")));
}

#[test]
fn each_pane_keeps_its_own_kind_and_filters() {
    let mut state = state_with_contexts();
    state.split(now());

    state.focus_pane(0, now());
    state.select_kind(pods());
    state.set_namespace(Some(String::from("payments")));

    state.focus_pane(1, now());
    state.select_kind(deployments());

    assert_eq!(state.panes()[0].kind(), Some(&pods()));
    assert_eq!(
        state.panes()[0].filters().namespace.as_deref(),
        Some("payments")
    );
    assert_eq!(state.panes()[1].kind(), Some(&deployments()));
    assert_eq!(state.panes()[1].filters().namespace, None);
}

#[test]
fn both_panes_update_from_one_batch() {
    let mut state = state_with_contexts();
    state.split(now());
    state.focus_pane(0, now());
    state.select_kind(pods());
    state.focus_pane(1, now());
    state.select_kind(pods());

    let changed = state.apply_batch(
        &vec![
            reset("prod", pods(), &vec![row("default", "prod-a")]),
            reset(
                "staging",
                pods(),
                &vec![row("default", "staging-a"), row("default", "staging-b")],
            ),
        ],
        now(),
    );

    assert!(changed);
    assert_eq!(state.panes()[0].rows().len(), 1);
    assert_eq!(state.panes()[1].rows().len(), 2);
}

#[test]
fn a_cluster_no_pane_shows_still_holds_its_rows() {
    let mut state = state_with_contexts();
    state.apply_batch(
        &vec![
            reset("prod", pods(), &vec![row("default", "prod-a")]),
            reset("staging", pods(), &vec![row("default", "staging-a")]),
        ],
        now(),
    );

    // Switching away and back must not re-fetch: that is what "warm" means.
    state.select_cluster(ClusterId::new("staging"), now());
    assert_eq!(state.rows().len(), 1);
    state.select_cluster(ClusterId::new("prod"), now());
    assert_eq!(state.rows().len(), 1);
    assert_eq!(state.total_rows(), 2);
}

#[test]
fn a_cluster_out_of_view_goes_idle_and_is_released() {
    let mut state = state_with_contexts();
    let now = now();
    state.apply_batch(
        &vec![
            reset("prod", pods(), &vec![row("default", "prod-a")]),
            reset("staging", pods(), &vec![row("default", "staging-a")]),
        ],
        now,
    );
    state.touch_cluster(&ClusterId::new("staging"), now);

    let timeout = Duration::from_secs(300);
    // Nothing is idle while it is still being looked at.
    assert!(state.idle_clusters(now, timeout).is_empty());

    let later = after(now, Duration::from_secs(301));
    let idle = state.idle_clusters(later, timeout);
    assert_eq!(idle, vec![ClusterId::new("staging")]);
    // The cluster in a pane is never idle, however long it has been open.
    assert!(!idle.contains(&ClusterId::new("prod")));

    state.release(&ClusterId::new("staging"));
    assert_eq!(state.cluster_rows(&ClusterId::new("staging")), 0);
    assert_eq!(state.cluster_rows(&ClusterId::new("prod")), 1);
}

#[test]
fn releasing_a_cluster_a_pane_shows_empties_that_pane() {
    let mut state = state_with_contexts();
    state.apply_batch(
        &vec![reset("prod", pods(), &vec![row("default", "api")])],
        now(),
    );
    assert_eq!(state.rows().len(), 1);

    state.release(&ClusterId::new("prod"));
    assert!(state.rows().is_empty());
}

#[test]
fn a_cluster_over_budget_releases_the_tables_no_pane_is_showing() {
    let mut state = state_with_contexts();
    state.set_budget(10);

    let many: Vec<_> = (0..8)
        .map(|index| row("default", &format!("dep-{index}")))
        .collect();
    state.apply_batch(&vec![reset("prod", deployments(), &many)], now());
    assert_eq!(state.cluster_rows(&ClusterId::new("prod")), 8);

    // Pods are what the pane shows, so pods survive and the deployments
    // table is what gets released.
    let pods_rows: Vec<_> = (0..6)
        .map(|index| row("default", &format!("pod-{index}")))
        .collect();
    state.apply_batch(&vec![reset("prod", pods(), &pods_rows)], now());

    assert_eq!(state.row_count(&pods()), 6);
    assert_eq!(state.row_count(&deployments()), 0);
    assert!(state.cluster_rows(&ClusterId::new("prod")) <= state.budget());
}

#[test]
fn one_cluster_over_budget_does_not_touch_another() {
    let mut state = state_with_contexts();
    state.set_budget(5);

    state.apply_batch(
        &vec![reset("staging", pods(), &vec![row("default", "keep-me")])],
        now(),
    );

    let many: Vec<_> = (0..20)
        .map(|index| row("default", &format!("dep-{index}")))
        .collect();
    state.apply_batch(&vec![reset("prod", deployments(), &many)], now());

    // The budget is per cluster: staging's row is untouched.
    assert_eq!(state.cluster_rows(&ClusterId::new("staging")), 1);
}

#[test]
fn cross_cluster_search_sees_every_cluster_held() {
    let mut state = state_with_contexts();
    state.apply_batch(
        &vec![
            reset("prod", pods(), &vec![row("default", "api-0")]),
            reset("staging", deployments(), &vec![row("default", "api")]),
        ],
        now(),
    );

    let found: Vec<_> = state
        .all_rows()
        .into_iter()
        .map(|(cluster, kind, row)| format!("{}/{}/{}", cluster.as_str(), kind.label(), row.key.name))
        .collect();

    assert!(found.contains(&"prod/pods/api-0".to_owned()), "{found:?}");
    assert!(
        found.contains(&"staging/deployments.apps/api".to_owned()),
        "{found:?}"
    );
}

#[test]
fn watch_targets_cover_every_pane() {
    let mut state = state_with_contexts();
    state.select_kind(pods());
    state.split(now());
    state.select_kind(deployments());

    let targets = state.watch_targets();
    assert_eq!(targets.len(), 2);
    assert_eq!(targets[0].0, ClusterId::new("prod"));
    assert_eq!(targets[0].1, pods());
    assert_eq!(targets[1].0, ClusterId::new("staging"));
    assert_eq!(targets[1].1, deployments());
}

fn connected(state: &mut AppState, cluster: &str) {
    state.apply_batch(
        &vec![ClusterEvent::Status {
            cluster: ClusterId::new(cluster),
            state: ConnectionState::Connected,
        }],
        now(),
    );
}

fn delete_api() -> Arc<Mutation> {
    Arc::new(Mutation::Delete {
        kind: pods(),
        key: ResourceKey::new("default", "api-0"),
        grace_period: None,
    })
}

#[test]
fn the_built_in_limits_match_what_settings_default_to() {
    assert_eq!(DEFAULT_ROW_BUDGET, 200_000);
    assert_eq!(DEFAULT_IDLE_TIMEOUT, Duration::from_secs(5 * 60).nanos);
    assert_eq!(DEFAULT_CAPACITY, 100_000);
}

/// A row carrying a cell value and an age.
fn row_with(name: &str, text: &str, created: Option<SystemTime>) -> ResourceRow {
    ResourceRow {
        key: ResourceKey::new("default", name),
        uid: None,
        cells: vec![cell(text)],
        state: RowState::Healthy,
        created,
    }
}

fn names(state: &AppState) -> Vec<String> {
    state
        .rows()
        .iter()
        .map(|row| row.key.name.to_string())
        .collect()
}

#[test]
fn a_column_sorts_numerically_when_it_holds_numbers() {
    // Sorting RESTARTS as text puts 10 before 2, which is the kind of wrong
    // that makes people stop trusting a column.
    let mut state = state_with_contexts();
    state.apply_batch(
        &vec![reset(
            "prod",
            pods(),
            &vec![
                row_with("a", "2", None),
                row_with("b", "10", None),
                row_with("c", "1", None),
            ],
        )],
        now(),
    );

    state.sort_by(SortKey::Cell(0));
    assert_eq!(names(&state), ["c", "a", "b"]);
}

#[test]
fn clicking_a_column_cycles_ascending_descending_and_back() {
    let mut state = state_with_contexts();
    state.apply_batch(
        &vec![reset(
            "prod",
            pods(),
            &vec![
                row_with("a", "2", None),
                row_with("b", "10", None),
                row_with("c", "1", None),
            ],
        )],
        now(),
    );

    state.sort_by(SortKey::Cell(0));
    assert_eq!(names(&state), ["c", "a", "b"]);

    state.sort_by(SortKey::Cell(0));
    assert!(state.sort().descending);
    assert_eq!(names(&state), ["b", "a", "c"]);

    // A third click is the way out, back to the order rows arrive in.
    state.sort_by(SortKey::Cell(0));
    assert_eq!(state.sort(), Sort::default());
    assert_eq!(names(&state), ["a", "b", "c"]);
}

#[test]
fn sorting_by_age_puts_unknown_ages_last_either_way() {
    let old = SystemTime::at(1_000);
    let new = SystemTime::at(9_000);
    let mut state = state_with_contexts();
    state.apply_batch(
        &vec![reset(
            "prod",
            pods(),
            &vec![
                row_with("young", "0", Some(new)),
                row_with("unknown", "0", None),
                row_with("old", "0", Some(old)),
            ],
        )],
        now(),
    );

    state.sort_by(SortKey::Age);
    assert_eq!(names(&state), ["old", "young", "unknown"]);

    state.sort_by(SortKey::Age);
    // Reversed among the known ones; the unknown is still not claiming to
    // be the oldest or the youngest.
    assert_eq!(names(&state), ["unknown", "young", "old"]);
}

#[test]
fn a_sort_survives_new_rows_arriving() {
    let mut state = state_with_contexts();
    state.apply_batch(
        &vec![reset(
            "prod",
            pods(),
            &vec![row_with("a", "2", None), row_with("b", "1", None)],
        )],
        now(),
    );
    state.sort_by(SortKey::Cell(0));
    assert_eq!(names(&state), ["b", "a"]);

    state.apply_batch(
        &vec![ClusterEvent::ResourceApplied {
            cluster: ClusterId::new("prod"),
            kind: pods(),
            row: Arc::new(row_with("c", "0", None)),
        }],
        now(),
    );

    assert_eq!(names(&state), ["c", "b", "a"]);
}

#[test]
fn sorting_by_a_column_the_next_kind_does_not_have_falls_back_to_the_name() {
    // The sort belongs to the pane, not to the kind, so switching kinds
    // carries `Cell(3)` onto a table whose rows have one cell. Every cell
    // reads empty, every comparison ties, and the tie-break is the name —
    // the only order left that means anything.
    let mut state = state_with_contexts();
    state.apply_batch(
        &vec![
            reset(
                "prod",
                pods(),
                &vec![row_with("a", "1", None), row_with("b", "2", None)],
            ),
            reset(
                "prod",
                deployments(),
                &vec![
                    row_with("zebra", "x", None),
                    row_with("aardvark", "y", None),
                ],
            ),
        ],
        now(),
    );

    state.sort_by(SortKey::Cell(3));
    state.select_kind(deployments());

    assert_eq!(state.sort().key, SortKey::Cell(3));
    assert_eq!(names(&state), ["aardvark", "zebra"]);
}

#[test]
fn a_filter_that_matches_nothing_empties_the_table_and_takes_the_cursor_with_it() {
    // A cursor left pointing at row 2 of a list with no rows is how
    // `current_row` starts handing out something that is not on screen.
    let mut state = state_with_contexts();
    state.apply_batch(
        &vec![reset(
            "prod",
            pods(),
            &vec![
                row("default", "api-0"),
                row("default", "api-1"),
                row("default", "api-2"),
            ],
        )],
        now(),
    );
    state.cursor_to_end();
    assert_eq!(state.cursor(), 2);

    state.set_search(Some(String::from("nothing-is-called-this")));
    assert!(state.rows().is_empty());
    assert_eq!(state.cursor(), 0);
    assert!(state.current_row().is_none());

    // Clearing it brings the rows back; the cursor stays where the empty
    // table left it rather than pretending to remember.
    state.set_search(None);
    assert_eq!(row_names(&state).len(), 3);
    assert_eq!(state.cursor(), 0);
}

#[test]
fn sorting_puts_the_cursor_back_at_the_top() {
    // The row under it means something different once the order changes.
    let mut state = state_with_contexts();
    state.apply_batch(
        &vec![reset(
            "prod",
            pods(),
            &vec![row_with("a", "2", None), row_with("b", "1", None)],
        )],
        now(),
    );
    state.cursor_to_end();

    state.sort_by(SortKey::Cell(0));
    assert_eq!(state.cursor(), 0);
}

#[test]
fn the_cursor_moves_through_the_rows_and_stops_at_both_ends() {
    let mut state = state_with_contexts();
    state.apply_batch(
        &vec![reset(
            "prod",
            pods(),
            &vec![
                row("default", "a"),
                row("default", "b"),
                row("default", "c"),
            ],
        )],
        now(),
    );

    assert_eq!(state.cursor(), 0);
    assert!(state.move_cursor(1));
    assert_eq!(
        state
            .current_row()
            .map(|row| row.key.name.to_string())
            .as_deref(),
        Some("b")
    );

    assert!(state.cursor_to_end());
    assert_eq!(state.cursor(), 2);
    // Stopping rather than wrapping: in ten thousand pods, wrapping loses
    // your place and is never what was meant.
    assert!(!state.move_cursor(1));
    assert_eq!(state.cursor(), 2);

    assert!(state.move_cursor(-10));
    assert_eq!(state.cursor(), 0);
    assert!(!state.move_cursor(-1));
}

#[test]
fn a_row_disappearing_under_the_cursor_moves_it_rather_than_stranding_it() {
    // Exactly what a watch stream does while somebody is reading.
    let mut state = state_with_contexts();
    state.apply_batch(
        &vec![reset(
            "prod",
            pods(),
            &vec![
                row("default", "a"),
                row("default", "b"),
                row("default", "c"),
            ],
        )],
        now(),
    );
    state.cursor_to_end();
    assert_eq!(state.cursor(), 2);

    state.apply_batch(
        &vec![reset("prod", pods(), &vec![row("default", "a")])],
        now(),
    );

    assert_eq!(state.cursor(), 0);
    assert_eq!(
        state
            .current_row()
            .map(|row| row.key.name.to_string())
            .as_deref(),
        Some("a")
    );
}

#[test]
fn changing_what_the_table_shows_puts_the_cursor_back_at_the_top() {
    let mut state = state_with_contexts();
    state.apply_batch(
        &vec![reset(
            "prod",
            pods(),
            &vec![
                row("default", "a"),
                row("default", "b"),
                row("default", "c"),
            ],
        )],
        now(),
    );
    state.cursor_to_end();
    assert_eq!(state.cursor(), 2);

    // A different kind is a different table: row 3 of pods says nothing
    // about row 3 of deployments.
    state.select_kind(deployments());
    assert_eq!(state.cursor(), 0);
}

#[test]
fn half_a_page_is_half_of_what_fits_on_screen() {
    let mut state = state_with_contexts();
    let rows: Vec<ResourceRow> = (0..100)
        .map(|index| row("default", &index.to_string()))
        .collect();
    state.apply_batch(&vec![reset("prod", pods(), &rows)], now());

    assert!(state.move_cursor_half_page(true, 20));
    assert_eq!(state.cursor(), 10);
    assert!(state.move_cursor_half_page(false, 20));
    assert_eq!(state.cursor(), 0);

    // Before the first layout nothing has been measured, and a key that
    // did nothing at all would read as broken.
    assert!(state.move_cursor_half_page(true, 0));
    assert_eq!(state.cursor(), 1);

    // It stops at the ends like every other cursor move.
    assert!(state.move_cursor_half_page(true, 1_000));
    assert_eq!(state.cursor(), 99);
    assert!(!state.move_cursor_half_page(true, 20));
}

#[test]
fn an_empty_table_has_nowhere_to_move_and_says_so() {
    let mut state = state_with_contexts();

    assert!(!state.move_cursor(1));
    assert!(state.current_row().is_none());
}

#[test]
fn each_pane_keeps_its_own_place() {
    let mut state = state_with_contexts();
    state.apply_batch(
        &vec![reset(
            "prod",
            pods(),
            &vec![
                row("default", "a"),
                row("default", "b"),
                row("default", "c"),
            ],
        )],
        now(),
    );
    state.cursor_to_end();

    state.split(now());
    state.focus_pane(1, now());
    // A fresh pane starts at the top, not wherever the other one was.
    assert_eq!(state.cursor(), 0);

    state.focus_pane(0, now());
    assert_eq!(state.cursor(), 2);
}

#[test]
fn an_object_from_another_cluster_never_lands_in_the_detail_pane() {
    // Two clusters routinely hold the same namespace and name — that is
    // what `default/api-0` and `kube-root-ca.crt` are. Matching an answer on
    // kind and key alone showed one cluster's object, and one cluster's
    // revealed Secret, under the other's heading.
    let mut state = state_with_contexts();
    let key = ResourceKey::new("default", "api-0");
    state.open_detail(ClusterId::new("prod"), pods(), key.clone());

    let intruder = ClusterEvent::Object {
        cluster: ClusterId::new("staging"),
        kind: pods(),
        detail: Arc::new(ObjectDetail {
            key: key.clone(),
            yaml: String::from("kind: Pod\n"),
            maskable: false,
            revealed: false,
            events: vec![],
            owners: vec![],
        }),
    };
    state.apply(&intruder, now());

    assert!(
        matches!(state.detail(), Some(Detail::Loading { .. })),
        "an answer from another cluster replaced the pane"
    );
}

#[test]
fn a_failure_from_another_cluster_does_not_replace_the_pane_either() {
    let mut state = state_with_contexts();
    let key = ResourceKey::new("default", "api-0");
    state.open_detail(ClusterId::new("prod"), pods(), key.clone());

    state.apply(
        &ClusterEvent::ObjectFailed {
            cluster: ClusterId::new("staging"),
            kind: pods(),
            key,
            reason: "not found".to_owned(),
        },
        now(),
    );

    assert!(matches!(state.detail(), Some(Detail::Loading { .. })));
}

#[test]
fn a_read_only_cluster_rejects_mutations_at_the_store_layer() {
    // The refusal happens here, not in the window, and not only where the
    // request is made.
    let mut state = state_with_contexts();
    connected(&mut state, "prod");

    let mut permissions = Permissions::permissive();
    permissions.deny(ClusterId::new("prod"));
    state.set_permissions(permissions);

    let refusal = state
        .authorize(&ClusterId::new("prod"), delete_api())
        .expect_err("a read-only cluster must refuse");

    assert_eq!(
        refusal,
        Refusal::ReadOnly {
            cluster: ClusterId::new("prod")
        }
    );
    assert!(!state.may_mutate(&ClusterId::new("prod")));
    assert!(
        refusal.reason().contains("read-only"),
        "{}",
        refusal.reason()
    );
}

fn command(command: &str) -> Arc<ExecTarget> {
    Arc::new(ExecTarget::parse("default", "api-0", None, command).expect("a command to run"))
}

fn exec_line(text: &str) -> LogLine {
    LogLine {
        source: LogSource::new("api-0", "stdout"),
        timestamp: None,
        text: String::from(text),
    }
}

#[test]
fn a_read_only_cluster_refuses_to_run_a_command() {
    // Running a command is a write: `kubectl exec` needs `create` on
    // `pods/exec`, and `rm -rf` is a perfectly ordinary command.
    let mut state = state_with_contexts();
    connected(&mut state, "prod");

    let mut permissions = Permissions::permissive();
    permissions.deny(ClusterId::new("prod"));
    state.set_permissions(permissions);

    let refusal = state
        .authorize_exec(&ClusterId::new("prod"), command("rm -rf /data"))
        .expect_err("a read-only cluster must refuse");

    assert_eq!(
        refusal,
        Refusal::ReadOnly {
            cluster: ClusterId::new("prod")
        }
    );
}

#[test]
fn a_command_on_a_cluster_that_is_not_connected_is_refused_before_the_api_can() {
    let state = state_with_contexts();

    assert_eq!(
        state
            .authorize_exec(&ClusterId::new("prod"), command("ls"))
            .expect_err("nothing to act on"),
        Refusal::NotConnected {
            cluster: ClusterId::new("prod")
        }
    );
}

#[test]
fn a_writable_cluster_authorizes_a_command() {
    let mut state = state_with_contexts();
    connected(&mut state, "prod");

    let authorized = state
        .authorize_exec(&ClusterId::new("prod"), command("ls -la"))
        .expect("a writable, connected cluster authorizes");

    assert_eq!(authorized.cluster(), &ClusterId::new("prod"));
    assert_eq!(authorized.target().command_line(), "ls -la");
}

#[test]
fn command_output_lands_in_the_session_and_the_exit_status_ends_it() {
    let mut state = state_with_contexts();
    state.open_exec(ClusterId::new("prod"), command("ls"), 100);
    assert!(state.exec_session().expect("open").is_running());

    state.apply(
        &ClusterEvent::ExecOutput {
            cluster: ClusterId::new("prod"),
            lines: vec![exec_line("bin"), exec_line("etc")],
        },
        now(),
    );
    state.apply(
        &ClusterEvent::ExecFinished {
            cluster: ClusterId::new("prod"),
            status: ExecStatus::Exited {
                code: Some(0),
                message: String::new(),
            },
        },
        now(),
    );

    let session = state.exec_session().expect("still open after the command ended");
    assert_eq!(session.buffer.len(), 2);
    assert!(!session.is_running());
    assert_eq!(session.summary(), "exited 0");
}

#[test]
fn output_from_another_cluster_never_reaches_the_session() {
    // Two clusters can be on screen; output belongs to exactly one of them.
    let mut state = state_with_contexts();
    state.open_exec(ClusterId::new("prod"), command("ls"), 100);

    state.apply(
        &ClusterEvent::ExecOutput {
            cluster: ClusterId::new("staging"),
            lines: vec![exec_line("not yours")],
        },
        now(),
    );

    assert!(state.exec_session().expect("open").buffer.is_empty());
}

#[test]
fn cancelling_says_so_rather_than_leaving_it_running_forever() {
    let mut state = state_with_contexts();
    state.open_exec(ClusterId::new("prod"), command("sleep 600"), 100);

    assert!(state.cancel_exec());
    assert_eq!(state.exec_session().expect("open").summary(), "cancelled");
    // Nothing is running any more, so a second stop is a no-op.
    assert!(!state.cancel_exec());
}

#[test]
fn switching_cluster_drops_a_command_that_belonged_to_the_old_one() {
    let mut state = state_with_contexts();
    state.open_exec(ClusterId::new("prod"), command("ls"), 100);

    state.select_cluster(ClusterId::new("staging"), now());

    assert!(state.exec_session().is_none());
}

#[test]
fn a_writable_cluster_authorizes() {
    let mut state = state_with_contexts();
    connected(&mut state, "prod");

    let authorized = state
        .authorize(&ClusterId::new("prod"), delete_api())
        .expect("a writable, connected cluster authorizes");

    assert_eq!(authorized.cluster(), &ClusterId::new("prod"));
    assert_eq!(authorized.mutation().verb(), "delete");
}

#[test]
fn a_cluster_that_is_not_connected_refuses_before_the_api_can() {
    let state = state_with_contexts();

    let refusal = state
        .authorize(&ClusterId::new("prod"), delete_api())
        .expect_err("nothing to act on");
    assert_eq!(
        refusal,
        Refusal::NotConnected {
            cluster: ClusterId::new("prod")
        }
    );
}

#[test]
fn read_only_by_default_refuses_everything_not_named() {
    let mut state = state_with_contexts();
    connected(&mut state, "prod");
    connected(&mut state, "staging");
    state.set_permissions(Permissions::read_only_except(&vec![ClusterId::new(
        "staging",
    )]));

    assert!(
        state
            .authorize(&ClusterId::new("prod"), delete_api())
            .is_err()
    );
    assert!(
        state
            .authorize(&ClusterId::new("staging"), delete_api())
            .is_ok()
    );
}

#[test]
fn a_refusal_is_recorded_where_the_user_can_see_it() {
    let mut state = state_with_contexts();
    connected(&mut state, "prod");
    let mut permissions = Permissions::permissive();
    permissions.deny(ClusterId::new("prod"));
    state.set_permissions(permissions);

    let mutation = delete_api();
    let refusal = state
        .authorize(&ClusterId::new("prod"), Arc::clone(&mutation))
        .expect_err("refused");
    state.record_refusal(ClusterId::new("prod"), mutation, &refusal, now());

    let last = state.last_activity().expect("recorded");
    assert!(last.outcome.is_problem());
    assert!(last.outcome.message().contains("read-only"));
}

#[test]
fn outcomes_arriving_from_the_cluster_join_the_activity_list() {
    let mut state = state_with_contexts();

    state.apply_batch(
        &vec![ClusterEvent::MutationDone {
            cluster: ClusterId::new("prod"),
            mutation: delete_api(),
            outcome: MutationOutcome::Applied {
                detail: "pod \"api-0\" deleted".into(),
            },
        }],
        now(),
    );

    let last = state.last_activity().expect("recorded");
    assert!(!last.outcome.is_problem());
    assert_eq!(last.outcome.message(), "pod \"api-0\" deleted");
    assert_eq!(state.activity().len(), 1);
}

#[test]
fn the_activity_list_keeps_the_newest_actions_first_and_is_bounded() {
    let mut state = state_with_contexts();
    for index in 0..60 {
        state.apply_batch(
            &vec![ClusterEvent::MutationDone {
                cluster: ClusterId::new("prod"),
                mutation: Arc::new(Mutation::Scale {
                    kind: deployments(),
                    key: ResourceKey::new("default", "api"),
                    replicas: index,
                    current: None,
                }),
                outcome: MutationOutcome::Applied {
                    detail: format!("scaled to {index}"),
                },
            }],
            now(),
        );
    }

    assert_eq!(state.activity().len(), ACTIVITY_LIMIT);
    assert_eq!(state.activity()[0].outcome.message(), "scaled to 59");
}

fn forward_event(
    cluster: &str,
    id: u64,
    state: ForwardState,
) -> ClusterEvent {
    ClusterEvent::ForwardChanged {
        cluster: ClusterId::new(cluster),
        forward: Arc::new(ForwardInfo {
            state,
            ..ForwardInfo::starting(
                ForwardId(id),
                ForwardTarget::new("default", "api-0", 8080),
            )
        }),
    }
}

#[test]
fn forward_ids_are_unique() {
    let mut state = AppState::new();
    assert_ne!(state.next_forward_id(), state.next_forward_id());
}

#[test]
fn a_forward_appears_and_shows_its_address() {
    let mut state = state_with_contexts();

    state.apply_batch(
        &vec![forward_event(
            "prod",
            1,
            ForwardState::Listening { local_port: 51234 },
        )],
        now(),
    );

    assert_eq!(state.forward_count(), 1);
    let (cluster, forward) = state.forwards()[0];
    assert_eq!(cluster, &ClusterId::new("prod"));
    assert_eq!(forward.address().as_deref(), Some("127.0.0.1:51234"));
    assert_eq!(state.broken_forwards(), 0);
}

#[test]
fn a_failed_forward_stays_in_the_list_with_its_reason() {
    let mut state = state_with_contexts();

    state.apply_batch(
        &vec![forward_event(
            "prod",
            1,
            ForwardState::Failed {
                reason: "address already in use".into(),
            },
        )],
        now(),
    );

    // Removing it would hide the only explanation of what went wrong.
    assert_eq!(state.forward_count(), 1);
    assert_eq!(state.broken_forwards(), 1);
}

#[test]
fn a_stopped_forward_leaves_the_list() {
    let mut state = state_with_contexts();
    state.apply_batch(
        &vec![forward_event(
            "prod",
            1,
            ForwardState::Listening { local_port: 51234 },
        )],
        now(),
    );

    state.apply_batch(
        &vec![forward_event(
            "prod",
            1,
            ForwardState::Stopped,
        )],
        now(),
    );
    assert_eq!(state.forward_count(), 0);
}

#[test]
fn a_forward_that_recovers_stops_being_a_problem() {
    let mut state = state_with_contexts();
    state.apply_batch(
        &vec![forward_event(
            "prod",
            1,
            ForwardState::Degraded {
                local_port: 51234,
                reason: "connection refused".into(),
            },
        )],
        now(),
    );
    assert_eq!(state.broken_forwards(), 1);

    state.apply_batch(
        &vec![forward_event(
            "prod",
            1,
            ForwardState::Listening { local_port: 51234 },
        )],
        now(),
    );
    assert_eq!(state.broken_forwards(), 0);
    assert_eq!(state.forward_count(), 1);
}

#[test]
fn with_no_kind_selected_there_are_no_rows() {
    let mut state = AppState::new();
    state.apply_batch(&vec![contexts_event(&vec!["prod"], Some("prod"))], now());

    assert_eq!(state.kind(), None);
    assert!(state.rows().is_empty());
    assert_eq!(state.counts(), (0, 0));
}

use periscope::app::AppState;
use periscope::catalog::{sections, Category};
use periscope::clock::{Duration, Instant, SystemTime};
use periscope::columns::{Columns, Layout};
use periscope::connections::ConnectionRegistry;
use periscope::events::{ClusterCommand, ClusterEvent, FlushStats};
use periscope::filter::{contains_ignoring_case, FilterSpec};
use periscope::keyed::{OrdMap, OrdSet};
use periscope::keys::{context_of, plan_bindings, validate, Command, Keystroke, TypedKey};
use periscope::logs::{LogBuffer, LogOrder};
use periscope::logview::{format_time, source_colour};
use periscope::model::{Detail, ACTIVITY_LIMIT};
use periscope::mutation::{Mutation, MutationOutcome};
use periscope::objects::{
    Cell, ClusterId, ColumnSpec, ContextInfo, KindId, KindInfo, ObjectDetail, ResourceKey, ResourceRow, RowState,
};
use periscope::palette::{rank, Candidate, Match, Palette, Target, MAX_RESULTS};
use periscope::perf::{FrameMeter, REPORT_EVERY};
use periscope::permissions::{Permissions, Refusal};
use periscope::remembered::{UiState, VISITS_KEPT};
use periscope::rows::{compare_cells, sort_rows, Sort, SortKey};
use periscope::sessions::{
    ConnectionState, ExecTarget, ForwardId, ForwardInfo, ForwardTarget, LogLine, LogSource, LogTarget,
};
use periscope::table::ResourceTable;
use periscope::text::{is_white, to_ascii_lower};
use periscope::times::{days_from_civil, days_in_month, parse_time, TimeError};
use periscope::wording::{export_name, matches_filter, replicas_in, typed_port, typed_replicas};
use periscope::workspace::Workspace;
use std::cmp::Ordering;
use std::sync::Arc;

fn now() -> Instant {
    Instant { nanos: 1_000_000_000_000 }
}

fn later(seconds: u128) -> Instant {
    Instant { nanos: 1_000_000_000_000 + seconds * 1_000_000_000 }
}

fn prod() -> ClusterId {
    ClusterId::new("prod")
}

fn staging() -> ClusterId {
    ClusterId::new("staging")
}

fn pods() -> KindId {
    KindId::new("", "v1", "Pod", "pods")
}

fn deployments() -> KindId {
    KindId::new("apps", "v1", "Deployment", "deployments")
}

fn info(id: KindId) -> KindInfo {
    KindInfo { id, namespaced: true, watchable: true, custom: false }
}

fn number(text: &str) -> Cell {
    let number = text.parse::<f64>().ok().map(|value| {
        let bits = value.to_bits() as i64;
        bits ^ ((((bits >> 63) as u64) >> 1) as i64)
    });
    Cell { text: String::from(text), number }
}

fn row(namespace: &str, name: &str, text: &str) -> ResourceRow {
    ResourceRow {
        key: ResourceKey::new(namespace, name),
        uid: None,
        cells: vec![number(text)],
        state: RowState::Healthy,
        created: None,
    }
}

fn columns() -> Arc<Vec<ColumnSpec>> {
    Arc::new(vec![ColumnSpec::fixed("STATUS", 100)])
}

fn listing(cluster: &str, kind: KindId, names: &[&str]) -> ClusterEvent {
    ClusterEvent::ResourceReset {
        cluster: ClusterId::new(cluster),
        kind,
        columns: columns(),
        rows: names.iter().map(|name| row("default", name, "Running")).collect(),
    }
}

fn contexts() -> ClusterEvent {
    let context = |name: &str| ContextInfo {
        name: String::from(name),
        cluster: String::from("cluster"),
        user: None,
        namespace: None,
    };
    ClusterEvent::Contexts { contexts: vec![context("prod"), context("staging")], current: Some(prod()) }
}

fn status(cluster: &str, state: ConnectionState) -> ClusterEvent {
    ClusterEvent::Status { cluster: ClusterId::new(cluster), state }
}

fn state() -> AppState {
    let mut state = AppState::new();
    state.apply_batch(&vec![contexts()], now());
    state.select_kind(pods());
    state
}

fn console() -> Workspace {
    let mut workspace = Workspace::new(now());
    let kinds = ClusterEvent::Kinds {
        cluster: prod(),
        kinds: Arc::new(vec![info(pods()), info(deployments())]),
    };
    apply(&mut workspace, vec![contexts(), kinds, status("prod", ConnectionState::Connected)]);
    workspace.take_commands();
    workspace
}

fn apply(workspace: &mut Workspace, events: Vec<ClusterEvent>) {
    workspace.apply_events(&events, FlushStats { applied: 0, collapsed: 0, dropped: 0 }, now());
}

fn line(at: Option<i64>, text: &str) -> LogLine {
    LogLine {
        source: LogSource::new("api-0", "api"),
        timestamp: at.map(SystemTime::at),
        text: String::from(text),
    }
}

fn texts(buffer: &LogBuffer) -> Vec<String> {
    buffer.visible().iter().map(|line| line.text.clone()).collect()
}

fn delete() -> Arc<Mutation> {
    Arc::new(Mutation::Delete { kind: pods(), key: ResourceKey::new("default", "api-0"), grace_period: None })
}

#[test]
fn a_detail_from_elsewhere_changes_nothing() {
    let mut state = state();
    let key = ResourceKey::new("default", "api-0");
    state.open_detail(prod(), pods(), key.clone());
    let object = Arc::new(ObjectDetail {
        key,
        yaml: String::from("kind: Pod"),
        maskable: false,
        revealed: true,
        events: vec![],
        owners: vec![],
    });
    let answer = |cluster: ClusterId| ClusterEvent::Object { cluster, kind: pods(), detail: Arc::clone(&object) };
    assert!(!state.apply(&answer(staging()), now()));
    assert!(matches!(state.detail(), Some(Detail::Loading { .. })));
    assert!(state.apply(&answer(prod()), now()));
    assert!(matches!(state.detail(), Some(Detail::Ready { .. })));
}

#[test]
fn lines_from_elsewhere_are_dropped() {
    let mut state = state();
    state.open_logs(prod(), Arc::new(LogTarget::pod("default", "api-0")), 10);
    let batch = |cluster: ClusterId| ClusterEvent::LogBatch { cluster, lines: vec![line(None, "one")] };
    state.apply_batch(&vec![batch(staging())], now());
    assert_eq!(state.logs().unwrap().buffer.len(), 0);
    state.apply_batch(&vec![batch(prod())], now());
    assert_eq!(state.logs().unwrap().buffer.len(), 1);
}

#[test]
fn a_listing_leaves_other_clusters_alone() {
    let mut state = state();
    state.apply_batch(&vec![listing("prod", pods(), &["a"]), listing("staging", pods(), &["b", "c"])], now());
    state.apply_batch(&vec![listing("prod", pods(), &[])], now());
    assert_eq!(state.cluster_rows(&prod()), 0);
    assert_eq!(state.cluster_rows(&staging()), 2);
}

#[test]
fn the_budget_spares_what_is_on_screen() {
    let mut state = state();
    state.set_budget(3);
    state.apply_batch(
        &vec![listing("prod", pods(), &["a", "b"]), listing("staging", pods(), &["x", "y", "z"])],
        now(),
    );
    assert_eq!(state.total_rows(), 5);
    state.apply_batch(&vec![listing("prod", deployments(), &["c", "d"])], now());
    assert_eq!(state.row_count(&deployments()), 0);
    assert_eq!(state.row_count(&pods()), 2);
    assert_eq!(state.cluster_rows(&staging()), 3);
}

#[test]
fn an_over_full_pane_keeps_what_it_shows() {
    let mut state = state();
    state.set_budget(1);
    state.apply_batch(&vec![listing("prod", pods(), &["a", "b"])], now());
    assert_eq!(state.rows().len(), 2);
}

#[test]
fn panes_follow_their_tables() {
    let mut state = state();
    state.apply_batch(&vec![listing("prod", pods(), &["a", "b"])], now());
    state.set_search(Some(String::from("B")));
    let shown: Vec<&str> = state.rows().iter().map(|row| row.key.name.as_str()).collect();
    assert_eq!(shown, ["b"]);
    state.apply_batch(&vec![listing("prod", pods(), &["bb", "c", "b"])], now());
    let shown: Vec<&str> = state.rows().iter().map(|row| row.key.name.as_str()).collect();
    assert_eq!(shown, ["b", "bb"]);
}

#[test]
fn no_repaint_means_nothing_to_repaint() {
    let mut state = state();
    state.apply_batch(&vec![listing("prod", pods(), &["a"])], now());
    let before: Vec<String> = state.rows().iter().map(|row| row.key.to_text()).collect();
    assert!(!state.apply_batch(&vec![listing("prod", pods(), &["a"])], now()));
    assert!(!state.apply_batch(&vec![listing("staging", pods(), &["b"])], now()));
    let after: Vec<String> = state.rows().iter().map(|row| row.key.to_text()).collect();
    assert_eq!(before, after);
}

#[test]
fn a_split_is_undone() {
    let mut state = state();
    state.split(now());
    assert_eq!(state.panes()[1].cluster(), Some(&staging()));
    state.unsplit(now());
    assert_eq!(state.panes().len(), 1);
    assert_eq!(state.active(), Some(&prod()));
    assert_eq!(state.kind(), Some(&pods()));
}

#[test]
fn the_cursor_is_kept_on_a_row() {
    let mut state = state();
    state.apply_batch(&vec![listing("prod", pods(), &["a", "b", "c"])], now());
    state.set_cursor(99);
    assert_eq!(state.cursor(), 2);
    state.move_cursor(isize::MIN);
    assert_eq!(state.cursor(), 0);
    state.move_cursor(isize::MAX);
    assert_eq!(state.cursor(), 2);
}

#[test]
fn a_change_needs_permission_before_a_connection() {
    let mut state = state();
    assert_eq!(state.authorize(&prod(), delete()).err(), Some(Refusal::NotConnected { cluster: prod() }));
    let mut permissions = Permissions::permissive();
    permissions.deny(prod());
    state.set_permissions(permissions);
    assert_eq!(state.authorize(&prod(), delete()).err(), Some(Refusal::ReadOnly { cluster: prod() }));
    state.apply_batch(&vec![status("prod", ConnectionState::Connected)], now());
    assert_eq!(state.authorize(&prod(), delete()).err(), Some(Refusal::ReadOnly { cluster: prod() }));
    state.set_permissions(Permissions::permissive());
    assert!(state.authorize(&prod(), delete()).is_ok());
    let target = ExecTarget::parse("default", "api-0", None, "ls").unwrap();
    assert!(state.authorize_exec(&prod(), Arc::new(target)).is_ok());
}

#[test]
fn recent_actions_are_bounded() {
    let mut state = state();
    for index in 0..ACTIVITY_LIMIT + 5 {
        let outcome = MutationOutcome::Applied { detail: format!("{index}") };
        state.apply_batch(
            &vec![ClusterEvent::MutationDone { cluster: prod(), mutation: delete(), outcome }],
            now(),
        );
    }
    assert_eq!(state.activity().len(), ACTIVITY_LIMIT);
    assert_eq!(state.activity()[0].outcome.message(), format!("{}", ACTIVITY_LIMIT + 4));
    assert_eq!(state.activity()[1].outcome.message(), format!("{}", ACTIVITY_LIMIT + 3));
}

#[test]
fn what_is_on_screen_is_never_idle() {
    let mut state = state();
    state.touch_cluster(&staging(), now());
    assert_eq!(state.idle_clusters(later(301), Duration::from_secs(300)), vec![staging()]);
    state.split(now());
    assert!(state.idle_clusters(later(301), Duration::from_secs(300)).is_empty());
}

#[test]
fn forwards_are_listed_as_they_were_started() {
    let mut state = state();
    let forward = |cluster: ClusterId, id: u64| ClusterEvent::ForwardChanged {
        cluster,
        forward: Arc::new(ForwardInfo::starting(ForwardId(id), ForwardTarget::new("default", "api-0", 8080))),
    };
    state.apply_batch(&vec![forward(staging(), 1), forward(prod(), 2), forward(prod(), 0)], now());
    let ids: Vec<u64> = state.forwards().iter().map(|(_, forward)| forward.id.0).collect();
    assert_eq!(ids, [0, 1, 2]);
    assert_eq!(state.next_forward_id(), ForwardId(1));
    assert_eq!(state.next_forward_id(), ForwardId(2));
}

#[test]
fn a_map_gives_back_what_was_put() {
    let mut map: OrdMap<String, u64> = OrdMap::new();
    map.put(String::from("b"), 1);
    map.put(String::from("a"), 2);
    map.put(String::from("b"), 3);
    assert_eq!(map.len(), 2);
    assert_eq!(map.key_at(0), "a");
    assert_eq!(map.get(&String::from("b")), Some(&3));
    map.take(&String::from("a"));
    assert_eq!(map.get(&String::from("a")), None);
    assert_eq!(map.get(&String::from("b")), Some(&3));
}

#[test]
fn a_set_holds_each_member_once() {
    let mut set: OrdSet<ClusterId> = OrdSet::new();
    set.insert(staging());
    set.insert(prod());
    set.insert(prod());
    assert_eq!(set.members(), vec![prod(), staging()]);
    set.remove(&prod());
    assert!(!set.contains(&prod()));
}

#[test]
fn a_denial_is_final() {
    let mut permissions = Permissions::read_only_except(&vec![prod()]);
    assert!(permissions.may_mutate(&prod()));
    permissions.deny(prod());
    permissions.deny(prod());
    assert!(!permissions.may_mutate(&prod()));
    assert!(permissions.is_read_only_by_default());
    assert_eq!(permissions.read_only_clusters(), vec![prod()]);
}

#[test]
fn a_state_leaves_other_connections_alone() {
    let mut registry = ConnectionRegistry::new();
    registry.apply(&status("prod", ConnectionState::Connected), now());
    registry.apply(&status("staging", ConnectionState::Connecting), later(1));
    assert_eq!(registry.get(&prod()).unwrap().since, now());
    assert!(!registry.apply(&status("prod", ConnectionState::Connected), later(2)));
    assert_eq!(registry.get(&prod()).unwrap().since, now());
    registry.apply(&ClusterEvent::Stale { cluster: Some(prod()), dropped: 2 }, later(3));
    assert!(registry.get(&prod()).unwrap().is_stale());
    registry.mark_fresh(&prod());
    assert!(!registry.get(&prod()).unwrap().is_stale());
    assert!(registry.problems().is_empty());
}

#[test]
fn a_listing_is_what_a_table_holds() {
    let mut table = ResourceTable::new();
    table.apply(Arc::new(row("default", "gone", "1")), now());
    let rows = vec![row("b", "x", "1"), row("a", "y", "2"), row("b", "x", "3")];
    assert!(table.reset(columns(), &rows));
    let keys: Vec<String> = table.rows().iter().map(|row| row.key.to_text()).collect();
    assert_eq!(keys, ["a/y", "b/x"]);
    assert_eq!(table.row_at(1).cell(0), "3");
    assert!(!table.reset(columns(), &rows));
    assert!(table.refuse("forbidden"));
    assert_eq!(table.unavailable().map(String::as_str), Some("forbidden"));
    assert!(table.is_empty());
    assert!(table.reset(columns(), &rows));
    assert_eq!(table.unavailable(), None);
}

#[test]
fn every_kind_is_in_one_section() {
    let kinds = vec![
        info(deployments()),
        KindInfo { custom: true, ..info(KindId::new("cert-manager.io", "v1", "Certificate", "certificates")) },
        info(KindId::new("", "v1", "Secret", "secrets")),
        KindInfo { watchable: false, ..info(KindId::new("", "v1", "Binding", "bindings")) },
        info(pods()),
    ];
    let found = sections(&kinds);
    let listed: usize = found.iter().map(|(_, kinds)| kinds.len()).sum();
    assert_eq!(listed, 4);
    let all = [
        Category::Workloads,
        Category::Networking,
        Category::Configuration,
        Category::Storage,
        Category::AccessControl,
        Category::Cluster,
        Category::Other,
    ];
    for left in &all {
        for right in &all {
            assert_eq!(left == right, left.rank() == right.rank());
        }
    }
}

#[test]
fn chosen_columns_are_among_the_kinds() {
    let mut columns = Columns::new();
    columns.pick("pods", vec![String::from("node"), String::from("none"), String::from("STATUS")]);
    let layout = Layout::new(columns);
    let specs = vec![ColumnSpec::fixed("STATUS", 100), ColumnSpec::flexible("NODE")];
    assert_eq!(layout.indices(&pods(), &specs), Some(vec![1, 0]));
    assert_eq!(layout.indices(&deployments(), &specs), None);
}

#[test]
fn a_ring_keeps_the_latest_lines_and_their_numbers() {
    let mut ring = LogBuffer::new(2);
    ring.extend(&vec![line(None, "a"), line(None, "b"), line(None, "c")]);
    let mut split = LogBuffer::new(2);
    split.extend(&vec![line(None, "a")]);
    split.extend(&vec![line(None, "b"), line(None, "c")]);
    assert_eq!(texts(&ring), ["b", "c"]);
    assert_eq!(texts(&ring), texts(&split));
    assert_eq!(ring.dropped(), 1);
    assert_eq!(ring.sequence_at(0), Some(1));
    assert_eq!(ring.sequence_at(1), Some(2));
    assert_eq!(ring.sequence_at(2), None);
    assert_eq!(ring.index_of(2), Some(1));
    assert_eq!(ring.index_of(0), None);
    assert_eq!(LogBuffer::new(0).len(), 0);
}

#[test]
fn a_filter_loses_nothing() {
    let mut buffer = LogBuffer::new(10);
    buffer.extend(&vec![line(Some(9), "Late"), line(None, "none"), line(Some(3), "early")]);
    buffer.set_order(LogOrder::Timestamp);
    assert_eq!(texts(&buffer), ["early", "Late", "none"]);
    buffer.set_filter(FilterSpec { pattern: String::from("LATE"), ..FilterSpec::default() });
    assert_eq!(texts(&buffer), ["Late"]);
    assert_eq!(buffer.index_of(0), Some(0));
    assert_eq!(buffer.index_of(1), None);
    assert_eq!(buffer.seek(SystemTime::at(4)), Some(0));
    assert!(!buffer.set_filter(FilterSpec { pattern: String::from("LATE"), ..FilterSpec::default() }));
    buffer.set_filter(FilterSpec::default());
    assert_eq!(texts(&buffer), ["early", "Late", "none"]);
    assert_eq!(buffer.seek(SystemTime::at(4)), Some(1));
    assert_eq!(buffer.seek(SystemTime::at(10)), None);
}

#[test]
fn a_pattern_is_a_pattern_only_if_asked() {
    let mut buffer = LogBuffer::new(10);
    buffer.extend(&vec![line(None, "a.b"), line(None, "axb"), line(None, "AXB")]);
    let spec = |pattern: &str, regex: bool, case_sensitive: bool| FilterSpec {
        pattern: String::from(pattern),
        regex,
        case_sensitive,
    };
    buffer.set_filter(spec("a.b", false, false));
    assert_eq!(texts(&buffer), ["a.b"]);
    buffer.set_filter(spec("a.b", true, false));
    assert_eq!(texts(&buffer), ["a.b", "axb", "AXB"]);
    buffer.set_filter(spec("a.b", true, true));
    assert_eq!(texts(&buffer), ["a.b", "axb"]);
    buffer.set_filter(spec("axb", false, true));
    assert_eq!(texts(&buffer), ["axb"]);
    buffer.set_filter(spec("(", true, true));
    assert!(texts(&buffer).is_empty());
    let reason = buffer.filter_error().expect("why it is no pattern");
    assert!(reason.contains("unclosed group"), "{reason}");
}

#[test]
fn typed_times_follow_the_clock() {
    let now = SystemTime { secs: 90_000, nanos: 5 };
    assert_eq!(parse_time("-1h", now), Ok(SystemTime::at(86_400)));
    assert_eq!(parse_time("-0s", now), Ok(SystemTime::at(90_000)));
    assert_eq!(parse_time("23:59:59", now), Ok(SystemTime::at(2 * 86_400 - 1)));
    assert_eq!(parse_time("1970-01-01T00:00:00Z", now), Ok(SystemTime::at(0)));
    assert_eq!(parse_time("1970-01-01T00:00:00+00:01", now), Err(TimeError::OutOfRange));
    assert_eq!(parse_time("2000-03-01", now), Err(TimeError::Unrecognised));
    assert_eq!(parse_time("-99999999999999999999s", now), Err(TimeError::Unrecognised));
}

#[test]
fn every_time_error_says_what_to_type() {
    assert_eq!(parse_time("", SystemTime::at(0)), Err(TimeError::Empty));
    assert!(!TimeError::Empty.to_string().is_empty());
    assert!(TimeError::Unrecognised.to_string().contains("not a time"));
    assert_ne!(TimeError::OutOfRange.to_string(), TimeError::Unrecognised.to_string());
}

#[test]
fn days_follow_each_other() {
    assert_eq!(days_from_civil(1970, 1, 1), 0);
    assert_eq!(days_from_civil(1969, 12, 31), -1);
    assert_eq!(days_from_civil(2000, 3, 1), 11_017);
    assert_eq!(days_from_civil(2000, 2, 29) + 1, days_from_civil(2000, 3, 1));
    assert_eq!(days_from_civil(1900, 2, 28) + 1, days_from_civil(1900, 3, 1));
    assert_eq!(days_in_month(2024, 2), 29);
    assert_eq!(days_in_month(1900, 2), 28);
    assert_eq!(days_in_month(2023, 4), 30);
}

#[test]
fn three_clicks_lead_back() {
    let sort = Sort::default();
    let once = sort.clicked(SortKey::Age);
    assert_eq!(once, Sort { key: SortKey::Age, descending: false });
    let twice = once.clicked(SortKey::Age);
    assert_eq!(twice, Sort { key: SortKey::Age, descending: true });
    assert_eq!(twice.clicked(SortKey::Age), Sort::default());
    assert_eq!(once.marker(SortKey::Age), Some("▴"));
    assert_eq!(twice.marker(SortKey::Age), Some("▾"));
    assert_eq!(twice.marker(SortKey::Name), None);
}

#[test]
fn rows_are_ordered_and_none_is_lost() {
    let rows = || -> Vec<Arc<ResourceRow>> {
        vec![
            Arc::new(row("a", "x", "10")),
            Arc::new(row("a", "z", "2")),
            Arc::new(row("b", "x", "-1")),
            Arc::new(row("b", "y", "2")),
        ]
    };
    let sorted = |sort: Sort| -> Vec<String> {
        let mut rows = rows();
        sort_rows(&mut rows, sort);
        rows.iter().map(|row| row.key.to_text()).collect()
    };
    assert_eq!(sorted(Sort::default()), ["a/x", "a/z", "b/x", "b/y"]);
    assert_eq!(sorted(Sort { key: SortKey::Namespace, descending: true }), ["b/y", "b/x", "a/z", "a/x"]);
    assert_eq!(sorted(Sort { key: SortKey::Name, descending: false }), ["a/x", "b/x", "b/y", "a/z"]);
    assert_eq!(sorted(Sort { key: SortKey::Cell(0), descending: false }), ["b/x", "b/y", "a/z", "a/x"]);
    assert_eq!(sorted(Sort { key: SortKey::Cell(9), descending: false }), ["a/x", "b/x", "b/y", "a/z"]);
}

#[test]
fn cells_compare_as_numbers_where_both_are() {
    assert_eq!(compare_cells(&number("2"), &number("10")), Ordering::Less);
    assert_eq!(compare_cells(&number("-2.5"), &number("-10")), Ordering::Greater);
    assert_eq!(compare_cells(&number("2"), &number("2.0")), Ordering::Equal);
    assert_eq!(compare_cells(&number("10"), &number("2x")), Ordering::Less);
    assert_eq!(compare_cells(&number("Ready"), &number("ready")), Ordering::Equal);
}

#[test]
fn reports_are_in_order() {
    let mut meter = FrameMeter::new(true);
    let mut at = now();
    let mut report = None;
    for index in 0..=REPORT_EVERY {
        let started = meter.start(at);
        report = meter.finish(started, at).or(report);
        at = Instant { nanos: at.nanos + 1_000_000 * (1 + index as u128) };
    }
    let report = report.expect("a report");
    assert!(report.p50 <= report.p95 && report.p95 <= report.max);
    assert_eq!(report.max, Duration::from_millis(REPORT_EVERY as u64));
}

#[test]
fn a_pod_has_one_colour() {
    assert_eq!(
        source_colour(&LogSource::new("api-0", "api")),
        source_colour(&LogSource::new("api-0", "envoy"))
    );
    assert_eq!(source_colour(&LogSource::new("", "x")), 0x7aa2f7);
    assert_eq!(source_colour(&LogSource::new("a", "x")), 0x9ece6a);
}

#[test]
fn the_best_results_are_kept() {
    let found = |label: &str, score: u32| Match {
        candidate: Arc::new(Candidate {
            target: Target::Cluster(String::from(label)),
            label: String::from(label),
            detail: String::from("cluster"),
        }),
        score,
    };
    let best = rank(&vec![found("bb", 5), found("a", 5), found("c", 9), found("ab", 5)]);
    let labels: Vec<&str> = best.iter().map(|found| found.candidate.label.as_str()).collect();
    assert_eq!(labels, ["c", "a", "ab", "bb"]);
    let many: Vec<Match> = (0..60).map(|score| found("x", score)).collect();
    let best = rank(&many);
    assert_eq!(best.len(), MAX_RESULTS);
    assert_eq!(best[0].score, 59);
    assert_eq!(best[49].score, 10);
}

#[test]
fn a_search_ignores_case_until_a_capital_is_typed() {
    let mut palette = Palette::new();
    palette.rebuild(&vec![String::from("Prod"), String::from("dev")], &vec![], &vec![], None);
    assert_eq!(palette.search("prod").len(), 1);
    assert_eq!(palette.search("Prod").len(), 1);
    assert_eq!(palette.search("PROD").len(), 0);
    assert_eq!(palette.search("  ").len(), 2);
}

#[test]
fn exports_are_told_apart() {
    let first = export_name("default/api-0 $ ls", 1);
    assert_eq!(first, "periscope-default-api-0---ls-1.log");
    assert_ne!(first, export_name("default/api-0 $ ls", 2));
}

#[test]
fn letters_stay_in_fields() {
    let key = |text: &str, control: bool| Keystroke {
        control,
        alt: false,
        platform: false,
        function: false,
        key: String::from(text),
    };
    let outside = Some("!Input && !NumberInput && !SearchPanel");
    let table = Some("Periscope && !Input && !NumberInput && !SearchPanel");
    assert_eq!(context_of(Command::Logs, Some(&key("l", false))), outside);
    assert_eq!(context_of(Command::Logs, Some(&key("l", true))), None);
    assert_eq!(context_of(Command::Dismiss, Some(&key("escape", false))), None);
    assert_eq!(context_of(Command::RowDown, Some(&key("j", false))), table);
    assert_eq!(context_of(Command::RowDown, Some(&key("down", false))), Some("Periscope"));
    assert_eq!(context_of(Command::HalfPageDown, Some(&key("d", true))), table);
    assert_eq!(context_of(Command::Confirm, Some(&key("enter", false))), Some("Palette"));
    assert_eq!(context_of(Command::Split, None), None);
}

#[test]
fn every_key_is_bound_or_reported() {
    let key = |command: Command, text: &str, error: Option<&str>| TypedKey {
        command,
        text: String::from(text),
        whole: None,
        error: error.map(String::from),
    };
    let (bindings, problems) = plan_bindings(&vec![
        key(Command::Palette, "cmd-k", None),
        key(Command::Logs, "ctrl-shift-nonsense-key", Some("no such key")),
        key(Command::Next, "down", None),
    ]);
    assert_eq!(bindings.len(), 2);
    assert_eq!(bindings[1].context, Some("Palette"));
    assert_eq!(
        problems,
        ["`ctrl-shift-nonsense-key` is not a key (logs in settings.toml): no such key"]
    );
    assert_eq!(validate("  ", &vec![]).as_deref(), Some("it is empty"));
    assert_eq!(validate("a b", &vec![None, Some(String::from("bad"))]).as_deref(), Some("bad"));
    assert_eq!(validate("a b", &vec![None, None]), None);
}

#[test]
fn visits_and_sections_are_remembered() {
    let mut remembered = UiState::new();
    remembered.visited(String::from("prod"), String::from("pods"));
    remembered.visited(String::from("prod"), String::from("secrets"));
    remembered.visited(String::from("prod"), String::from("pods"));
    assert_eq!(remembered.recent_kinds(&String::from("prod")), ["pods", "secrets"]);
    assert_eq!(remembered.last_kind(&String::from("prod")).as_deref(), Some("pods"));
    assert_eq!(remembered.last_kind(&String::from("staging")), None);
    for index in 0..VISITS_KEPT {
        remembered.visited(String::from("staging"), format!("kind{index}"));
    }
    assert_eq!(remembered.visits().len(), VISITS_KEPT);
    assert!(remembered.recent_kinds(&String::from("prod")).is_empty());
    let written = UiState::of_visits(remembered.visits().clone());
    assert_eq!(written.last_kind(&String::from("staging")), Some(format!("kind{}", VISITS_KEPT - 1)));
    remembered.set_section(String::from("STORAGE"), true);
    assert_eq!(remembered.sections().len(), 1);
    assert_eq!(remembered.section(&String::from("STORAGE")), Some(true));
    assert_eq!(remembered.section(&String::from("CLUSTER")), None);
}

#[test]
fn agreeing_sends_what_was_said_where_it_was_said() {
    let mut workspace = console();
    workspace.propose(Mutation::Restart { kind: deployments(), key: ResourceKey::new("default", "api") });
    workspace.select_cluster(staging(), now());
    workspace.take_commands();
    assert_eq!(workspace.pending().map(|proposal| proposal.cluster().clone()), Some(prod()));
    workspace.confirm_mutation(now());
    match workspace.take_commands().as_slice() {
        [ClusterCommand::Mutate { cluster, .. }] => assert_eq!(cluster, &prod()),
        other => panic!("expected one change, got {other:?}"),
    }
    workspace.confirm_mutation(now());
    assert!(workspace.take_commands().is_empty());
}

#[test]
fn a_refused_change_is_left_for_the_audit_log() {
    let mut workspace = console();
    workspace.propose(Mutation::Restart { kind: deployments(), key: ResourceKey::new("default", "api") });
    workspace.set_permissions(Permissions::read_only_except(&vec![]));
    workspace.confirm_mutation(now());
    assert!(workspace.take_commands().is_empty());
    let refused = workspace.take_refusals();
    assert_eq!(refused.len(), 1);
    assert_eq!(refused[0].cluster, prod());
    assert_eq!(refused[0].key, ResourceKey::new("default", "api"));
    assert_eq!(refused[0].kind, "deployments.apps");
    assert_eq!(refused[0].verb, "restart");
    assert!(refused[0].reason.contains("read-only"), "{}", refused[0].reason);
    assert!(workspace.take_refusals().is_empty());
}

#[test]
fn opening_asks_for_hidden_values_only_when_told_to() {
    let mut workspace = console();
    workspace.open_object(ResourceKey::new("default", "db"));
    workspace.reveal_values();
    let asked: Vec<bool> = workspace
        .take_commands()
        .iter()
        .map(|command| match command {
            ClusterCommand::FetchObject { reveal, .. } => *reveal,
            other => panic!("expected a fetch, got {other:?}"),
        })
        .collect();
    assert_eq!(asked, [false, true]);
}

#[test]
fn escape_closes_one_thing_at_a_time() {
    let mut workspace = console();
    workspace.open_object(ResourceKey::new("default", "api-0"));
    workspace.toggle_logs();
    workspace.toggle_palette();
    workspace.toggle_namespace_menu();
    let closed = |workspace: &Workspace| {
        (
            workspace.palette_open(),
            workspace.namespace_menu_open(),
            workspace.state().logs().is_some(),
            workspace.state().detail().is_some(),
        )
    };
    let open = |state: (bool, bool, bool, bool)| {
        [state.0, state.1, state.2, state.3].iter().filter(|open| **open).count()
    };
    for left in [3, 2, 1, 0, 0] {
        workspace.dismiss();
        assert_eq!(open(closed(&workspace)), left);
    }
}

#[test]
fn letting_go_of_a_cluster_stops_its_watches() {
    let mut workspace = console();
    apply(&mut workspace, vec![listing("prod", pods(), &["a"])]);
    workspace.select_cluster(staging(), now());
    workspace.take_commands();
    workspace.sweep_idle_clusters(later(10_000));
    assert_eq!(workspace.take_commands(), vec![ClusterCommand::StopWatch { cluster: prod(), kind: pods() }]);
    workspace.sweep_idle_clusters(later(20_000));
    assert!(workspace.take_commands().is_empty());

    workspace.select_cluster(prod(), later(20_001));
    let sent = workspace.take_commands();
    assert!(sent.iter().all(|command| !matches!(command, ClusterCommand::Connect { .. })), "{sent:?}");
    assert!(sent.iter().any(|command| matches!(command, ClusterCommand::Watch { .. })), "{sent:?}");
}

#[test]
fn numbers_somebody_types_are_read_whole() {
    assert_eq!(typed_replicas(" 3 "), Some(3));
    assert_eq!(typed_replicas("+3"), Some(3));
    assert_eq!(typed_replicas("3.5"), None);
    assert_eq!(typed_replicas("-1"), None);
    assert_eq!(typed_replicas("4294967295"), Some(4_294_967_295));
    assert_eq!(typed_replicas("4294967296"), None);
    assert_eq!(typed_port("8080"), Some(8080));
    assert_eq!(typed_port("0"), None);
    assert_eq!(typed_port("65536"), None);
    assert_eq!(replicas_in("2/3"), Some(3));
    assert_eq!(replicas_in("2"), None);
}

#[test]
fn texts_are_compared_without_case_in_any_script() {
    assert!(matches_filter(&info(KindId::new("", "v1", "Ärger", "ÄRGER")), "ärger"));
    assert!(!matches_filter(&info(pods()), "services"));
    assert!(matches_filter(&info(pods()), ""));
    assert_eq!(Category::Custom(String::from("straße.io")).title(), "STRASSE.IO");
    let target = ExecTarget::parse("default", "api-0", None, "  ls\t-la\u{3000}/etc ").unwrap();
    assert_eq!(target.command_line(), "ls -la /etc");
    assert_eq!(ExecTarget::parse("default", "api-0", None, " \u{2003} "), None);
}

#[test]
fn a_confirmation_names_the_operation_the_object_and_the_cluster() {
    let key = ResourceKey::new("payments", "api");
    let delete = Mutation::Delete { kind: deployments(), key: key.clone(), grace_period: None };
    assert_eq!(
        delete.confirmation(&prod()),
        "Delete deployments.apps api in namespace payments on cluster prod?"
    );
    let scale = Mutation::Scale { kind: deployments(), key, replicas: 0, current: Some(3) };
    assert_eq!(
        scale.confirmation(&prod()),
        "Scale deployments.apps api in namespace payments on cluster prod from 3 to 0?"
    );
    let drain = Mutation::Drain { node: String::from("node-1"), grace_period: None };
    assert_eq!(drain.confirmation(&prod()), "Drain nodes node-1 on cluster prod?");
    let command = ExecTarget::parse("payments", "api-0", Some(String::from("envoy")), "ls  -la").unwrap();
    assert_eq!(
        command.confirmation(&prod()),
        "Run `ls -la` in pod api-0, container envoy, in namespace payments on cluster prod?"
    );
}

#[test]
fn a_line_holds_its_own_lowercase_whatever_the_alphabet() {
    for text in ["\u{130}", "STRASSE Ärger", "ΣΊΣΥΦΟΣ", "K\u{130}NG", "plain"] {
        assert!(contains_ignoring_case(text, &text.to_lowercase()), "{text}");
    }
    assert!(contains_ignoring_case("\u{130}", "i\u{307}"));
    assert!(contains_ignoring_case("abc", ""));
    assert!(contains_ignoring_case("xABCx", "bc"));
    assert!(!contains_ignoring_case("ab", "abc"));
    assert!(!contains_ignoring_case("ä", "äb"));
}

#[test]
fn no_structure_is_left_in_the_name_of_an_export() {
    assert_eq!(export_name("a|b;c", 0), "periscope-a-b-c-0.log");
    assert_eq!(export_name("a\tb\nc`d`", 7), "periscope-a-b-c-d--7.log");
    assert_eq!(export_name("payments/app=api,tier!=x", 1), "periscope-payments-app=api,tier-=x-1.log");
    let every: String = (0u8..128).map(char::from).collect();
    for start in [0, 64] {
        let name = export_name(&every[start..], 0);
        for sign in "/ []()$*\"'\\|;&<>`?#~!{}:^%\t\n\r\0".chars() {
            assert!(!name.contains(sign), "{sign:?} in {name}");
        }
    }
}

#[test]
fn a_filter_reports_whether_other_lines_are_visible() {
    let typed = |pattern: &str| FilterSpec { pattern: String::from(pattern), ..FilterSpec::default() };
    let mut buffer = LogBuffer::new(3);
    assert!(!buffer.set_filter(typed("x")));
    assert_eq!(buffer.filter().pattern, "x");
    buffer.extend(&vec![line(Some(2), "xa"), line(Some(1), "xb")]);
    buffer.set_order(LogOrder::Timestamp);
    assert!(!buffer.set_filter(typed("X")));
    assert!(buffer.set_filter(typed("xa")));
    assert!(buffer.set_filter(FilterSpec::default()));
    assert_eq!(texts(&buffer), ["xb", "xa"]);
}

#[test]
fn narrowing_and_adding_commute() {
    let typed = || FilterSpec { pattern: String::from("a"), ..FilterSpec::default() };
    let mut first = LogBuffer::new(3);
    first.set_filter(typed());
    first.extend(&vec![line(None, "a1"), line(None, "b"), line(None, "a2"), line(None, "a3")]);
    let mut second = LogBuffer::new(3);
    second.extend(&vec![line(None, "a1"), line(None, "b"), line(None, "a2"), line(None, "a3")]);
    second.set_filter(typed());
    assert_eq!(texts(&first), ["a2", "a3"]);
    assert_eq!(texts(&first), texts(&second));
    assert_eq!((first.len(), first.dropped()), (3, 1));
    first.set_filter(FilterSpec::default());
    assert_eq!(texts(&first), ["b", "a2", "a3"]);
}

#[test]
fn a_number_keeps_naming_its_line() {
    let mut buffer = LogBuffer::new(3);
    buffer.extend(&vec![line(Some(30), "late"), line(Some(20), "early")]);
    buffer.set_order(LogOrder::Timestamp);
    let number = buffer.sequence_at(0).unwrap();
    assert_eq!(buffer.index_of(number), Some(0));
    buffer.extend(&vec![line(Some(10), "first")]);
    let place = buffer.index_of(number).unwrap();
    assert_eq!(place, 1);
    assert_eq!(buffer.visible_line(place).unwrap().text, "early");
    buffer.extend(&vec![line(None, "x"), line(None, "y"), line(None, "z")]);
    assert_eq!(buffer.index_of(number), None);
}

#[test]
fn a_cluster_is_idle_by_the_time_it_was_out_of_view() {
    let mut state = state();
    let timeout = Duration::from_secs(300);
    state.select_cluster(staging(), later(600));
    assert!(state.idle_clusters(later(601), timeout).is_empty());
    assert!(state.idle_clusters(later(900), timeout).is_empty());
    assert_eq!(state.idle_clusters(later(901), timeout), vec![prod()]);

    let mut state = self::state();
    state.split(now());
    state.unsplit(later(600));
    assert!(state.idle_clusters(later(900), timeout).is_empty());
    assert_eq!(state.idle_clusters(later(901), timeout), vec![staging()]);
}

#[test]
fn a_forward_is_refused_where_a_change_is() {
    let mut workspace = console();
    workspace.open_object(ResourceKey::new("default", "api-0"));
    workspace.take_commands();
    let mut permissions = Permissions::permissive();
    permissions.deny(prod());
    workspace.set_permissions(permissions);
    workspace.start_forward(" 8080 ");
    assert!(workspace.take_commands().is_empty());
    let reason = workspace.last_error().expect("the refusal is shown");
    assert!(reason.contains("read-only"), "{reason}");
    let refused = workspace.take_refusals();
    assert_eq!(refused.len(), 1);
    assert_eq!((refused[0].verb.as_str(), refused[0].detail.as_str()), ("port-forward", "8080"));

    workspace.set_permissions(Permissions::permissive());
    workspace.start_forward("8080");
    match workspace.take_commands().as_slice() {
        [ClusterCommand::StartForward { cluster, target, .. }] => {
            assert_eq!(cluster, &prod());
            assert_eq!(target.port, 8080);
        }
        other => panic!("expected one forward, got {other:?}"),
    }
    workspace.start_forward("none");
    assert!(workspace.take_commands().is_empty());
    apply(&mut workspace, vec![status("prod", ConnectionState::Connecting)]);
    workspace.start_forward("8080");
    assert!(workspace.take_commands().is_empty());
}

fn palette_of(names: &[&str]) -> Palette {
    let mut palette = Palette::new();
    palette.rebuild(&names.iter().map(|name| String::from(*name)).collect(), &vec![], &vec![], None);
    palette
}

fn labels_found(palette: &mut Palette, query: &str) -> Vec<String> {
    assert!(palette.can_search(query), "{query}");
    palette.search(query).iter().map(|found| found.candidate.label.clone()).collect()
}

#[test]
fn every_candidate_the_matcher_can_score_is_scored() {
    let mut palette = palette_of(&["éſ", "aé"]);
    assert_eq!(labels_found(&mut palette, "é"), ["éſ", "aé"]);
    let mut palette = palette_of(&["ſä", "ſbc", "sxä", "aſbä", "sſä", "münchen-ſ"]);
    assert_eq!(labels_found(&mut palette, "sä"), ["ſä", "sxä", "sſä"]);
    assert_eq!(labels_found(&mut palette, "'ſä"), ["ſä"]);
    assert_eq!(labels_found(&mut palette, "münch"), ["münchen-ſ"]);
    assert_eq!(labels_found(&mut palette, "munch"), ["münchen-ſ"]);
    let mut palette = palette_of(&["ςσxä", "ſsxä"]);
    assert_eq!(labels_found(&mut palette, "σx"), ["ςσxä"]);
    assert_eq!(labels_found(&mut palette, "xä"), ["ſsxä", "ςσxä"]);
}

#[test]
fn a_search_the_matcher_would_stumble_over_is_told_apart() {
    assert!(!palette_of(&["a", "ſsxä"]).can_search("sä"));
    assert!(!palette_of(&["ςσxä"]).can_search("b σä"));
    assert!(palette_of(&["ſsxä"]).can_search("'sä"));
    assert!(palette_of(&["ſsxä"]).can_search("sx"));
    assert!(palette_of(&["ſsxä"]).can_search("ſx"));
    assert!(palette_of(&["ſsxä"]).can_search("Sä"));
    assert!(palette_of(&["ſsxb"]).can_search("sä"));
    assert!(palette_of(&["sſsxä"]).can_search("sä"));
    assert!(palette_of(&[]).can_search("sä"));
    let far = format!("ſsx{}ä", "y".repeat(60_000));
    assert!(palette_of(&[far.as_str()]).can_search("sä"));
    assert_eq!(labels_found(&mut palette_of(&[far.as_str()]), "sä"), [far]);
}

#[test]
fn a_query_is_too_long_only_where_its_score_may_not_fit() {
    let long = "a".repeat(2_521);
    assert!(!palette_of(&[long.as_str()]).can_search(&long));
    assert!(!palette_of(&[long.to_uppercase().as_str()]).can_search(&long));
    let mut palette = palette_of(&["a", &long[1..], &"b".repeat(3_000)]);
    assert!(labels_found(&mut palette, &long).is_empty());
    assert_eq!(labels_found(&mut palette, &long[1..]), [&long[1..]]);
    assert_eq!(palette.search(&long[1..])[0].score, 36 + 2_519 * 26);

    let slashes = "\\".repeat(1_400);
    let doubled = format!("{slashes}{slashes}ж");
    assert!(!palette_of(&[doubled.as_str()]).can_search(&format!("{slashes}ж")));
    let mut palette = palette_of(&["ж", slashes.as_str()]);
    assert!(labels_found(&mut palette, &format!("{slashes}ж")).is_empty());
    let words = "ж ".repeat(3_000);
    assert_eq!(labels_found(&mut palette, &words), ["ж"]);
    assert_eq!(palette.search(&words)[0].score, 3_000 * 36);
}

#[test]
fn a_query_that_cannot_be_searched_leaves_the_palette_as_it_was() {
    let mut workspace = console();
    apply(&mut workspace, vec![listing("prod", pods(), &["ſsxä", "other"])]);
    workspace.toggle_palette();
    assert!(workspace.search_palette("other"));
    let before = workspace.palette_matches().clone();
    assert_eq!(before[0].candidate.label, "default/other");
    assert!(!workspace.search_palette("sä"));
    assert_eq!(workspace.palette_matches(), &before);
    assert!(workspace.search_palette("ſsx"));
    assert_eq!(workspace.palette_matches()[0].candidate.label, "default/ſsxä");
}

#[test]
fn the_reason_is_that_of_the_expression_that_was_typed() {
    let mut buffer = LogBuffer::new(3);
    let mut reason = |pattern: &str| -> String {
        buffer.set_filter(FilterSpec { pattern: String::from(pattern), regex: true, case_sensitive: false });
        buffer.filter_error().map(String::from).unwrap_or_default()
    };
    assert!(reason("(").contains("unclosed group"));
    assert!(reason("[a").contains("unclosed character class"));
    assert!(reason("\\w{1000}{1000}").contains("exceeds size limit"));
    assert_eq!(reason("a+"), "");
}

#[test]
fn white_space_and_ascii_case_are_those_of_characters() {
    for c in '\0'..=char::MAX {
        assert_eq!(is_white(c), c.is_whitespace(), "{c:?}");
        assert_eq!(to_ascii_lower(c), c.to_ascii_lowercase(), "{c:?}");
    }
}

#[test]
fn the_time_that_is_shown_can_be_typed() {
    for secs in [0, 1, 59, 60, 3_599, 3_600, 86_399, 86_400, 1_787_047_210] {
        let time = SystemTime { secs, nanos: 5 };
        assert_eq!(parse_time(&format_time(time), time), Ok(SystemTime::at(secs)));
    }
    let noon = SystemTime::at(86_400 + 43_200);
    assert_eq!(parse_time(&format_time(SystemTime::at(86_401)), noon), Ok(SystemTime::at(86_401)));
}

#[test]
fn a_meter_that_is_off_stays_empty() {
    let mut meter = FrameMeter::new(false);
    for index in 0..300 {
        let started = meter.start(later(index));
        assert_eq!(started, None);
        assert!(meter.finish(started, later(index)).is_none());
        assert!(meter.finish(Some(now()), later(index)).is_none());
        assert_eq!(meter.total(), 0);
    }
}

#[test]
fn reports_come_every_so_many_intervals() {
    let mut meter = FrameMeter::new(true);
    let mut reported = Vec::new();
    for index in 0..3 * REPORT_EVERY + 1 {
        let started = meter.start(later(index as u128));
        if let Some(report) = meter.finish(started, later(index as u128)) {
            assert_eq!(report.frames, REPORT_EVERY);
            reported.push(index);
        }
    }
    assert_eq!(reported, [REPORT_EVERY, 2 * REPORT_EVERY, 3 * REPORT_EVERY]);
    assert_eq!(meter.total(), 3 * REPORT_EVERY as u64 + 1);
    assert!(meter.can_start());
}

#[test]
fn a_batch_leaves_panes_showing_what_is_held() {
    let mut state = state();
    state.apply_batch(&vec![listing("prod", pods(), &["a", "b", "c"])], now());
    state.sort_by(SortKey::Name);
    state.sort_by(SortKey::Name);
    state.set_cursor(2);
    state.apply_batch(
        &vec![
            ClusterEvent::ResourceDeleted {
                cluster: prod(),
                kind: pods(),
                key: ResourceKey::new("default", "a"),
            },
            ClusterEvent::ResourceApplied {
                cluster: prod(),
                kind: pods(),
                row: Arc::new(row("default", "d", "Running")),
            },
            listing("prod", deployments(), &["x"]),
        ],
        now(),
    );
    let shown: Vec<&str> = state.rows().iter().map(|row| row.key.name.as_str()).collect();
    assert_eq!(shown, ["d", "c", "b"]);
    assert_eq!(state.cursor(), 2);
    state.release(&prod());
    assert!(state.rows().is_empty());
    assert_eq!(state.cursor(), 0);
}

#[test]
fn an_event_that_tells_nothing_new_changes_nothing() {
    let pong = |millis: u128| ClusterEvent::Pong {
        cluster: prod(),
        nonce: 1,
        elapsed: Duration { nanos: millis * 1_000_000 },
    };
    let stale = |cluster: Option<ClusterId>| ClusterEvent::Stale { cluster, dropped: 3 };
    let mut registry = ConnectionRegistry::new();
    assert!(!registry.apply(&stale(None), now()));
    assert!(registry.is_empty());
    assert!(registry.apply(&pong(12), now()));
    assert!(!registry.apply(&pong(12), later(1)));
    assert!(registry.apply(&pong(13), later(1)));
    assert!(registry.apply(&stale(None), later(2)));
    assert!(registry.apply(&stale(Some(staging())), later(2)));
    let lost: Vec<usize> = registry.iter().iter().map(|(_, connection)| connection.dropped_events).collect();
    assert_eq!(lost, [3, 3]);
}

use periscope::clock::{Duration, Instant};
use periscope::objects::{Cell, ColumnSpec, ResourceKey, ResourceRow, RowState};
use periscope::table::ResourceTable;
use std::sync::Arc;

fn now() -> Instant {
    Instant { nanos: 1_000_000_000_000 }
}

fn after(start: Instant, span: Duration) -> Instant {
    Instant { nanos: start.nanos + span.nanos }
}

fn cell(text: &str) -> Cell {
    let number = text.parse::<f64>().ok().map(|value| {
        let bits = value.to_bits() as i64;
        bits ^ ((((bits >> 63) as u64) >> 1) as i64)
    });
    Cell { text: String::from(text), number }
}

fn row_named(name: &str, text: &str) -> Arc<ResourceRow> {
    Arc::new(ResourceRow {
        key: ResourceKey::new("default", name),
        uid: None,
        cells: vec![cell(text)],
        state: RowState::Healthy,
        created: None,
    })
}

#[test]
fn a_changed_row_is_marked_and_then_forgotten() {
    let mut table = ResourceTable::new();
    let start = now();
    let window = Duration::from_millis(900);

    table.apply_at(row_named("api-0", "1"), start);
    assert!(
        table
            .changed_since(start, window)
            .contains_key(&ResourceKey::new("default", "api-0"))
    );

    // The mark is what makes a live change visible; it has to expire, or
    // the table ends up permanently highlighted.
    let later = after(after(start, window), Duration::from_millis(1));
    assert!(table.changed_since(later, window).is_empty());
}

#[test]
fn a_row_that_did_not_change_is_not_marked() {
    // The same object arriving again is what a watch does constantly; only
    // a difference is news.
    let mut table = ResourceTable::new();
    let start = now();

    table.apply_at(row_named("api-0", "1"), start);
    table.changed_since(after(start, Duration::from_secs(5)), Duration::from_millis(900));

    assert!(!table.apply_at(row_named("api-0", "1"), start));
    assert!(
        table
            .changed_since(start, Duration::from_millis(900))
            .is_empty()
    );
}

#[test]
fn a_resync_marks_nothing() {
    // Everything arriving at once means the watch reconnected, not that
    // every object in the cluster just moved.
    let mut table = ResourceTable::new();
    let now = now();

    table.reset(
        Arc::new(vec![ColumnSpec::fixed("DATA", 60)]),
        &vec![
            (*row_named("api-0", "1")).clone(),
            (*row_named("api-1", "2")).clone(),
        ],
    );

    assert!(
        table
            .changed_since(now, Duration::from_millis(900))
            .is_empty()
    );
}

#[test]
fn the_shared_map_is_not_rebuilt_when_nothing_moved() {
    // It is read once per frame; rebuilding it each time would copy a map
    // of every row a busy cluster touched in the last second, sixty times
    // a second.
    let mut table = ResourceTable::new();
    let now = now();
    table.apply_at(row_named("api-0", "1"), now);

    let first = table.changed_since(now, Duration::from_secs(5));
    let second = table.changed_since(now, Duration::from_secs(5));

    assert!(Arc::ptr_eq(&first, &second));
}


fn columns() -> Arc<Vec<ColumnSpec>> {
    Arc::new(vec![ColumnSpec::fixed("STATUS", 100)])
}

fn row(namespace: &str, name: &str, status: &str) -> ResourceRow {
    ResourceRow {
        key: ResourceKey::new(namespace, name),
        uid: None,
        cells: vec![cell(status)],
        state: RowState::Healthy,
        created: None,
    }
}

fn names(table: &ResourceTable) -> Vec<String> {
    table.iter().into_iter().map(|row| row.key.to_text()).collect()
}

#[test]
fn table_rows_come_back_sorted_by_namespace_then_name() {
    let mut table = ResourceTable::new();
    for (namespace, name) in [
        ("kube-system", "coredns"),
        ("default", "web"),
        ("default", "api"),
    ] {
        table.apply(Arc::new(row(namespace, name, "Running")), now());
    }

    assert_eq!(
        names(&table),
        ["default/api", "default/web", "kube-system/coredns"]
    );
}

#[test]
fn applying_an_identical_row_is_not_a_change() {
    let mut table = ResourceTable::new();
    assert!(table.apply(Arc::new(row("default", "api", "Running")), now()));
    // The apiserver resends objects on resync; repainting for those would
    // burn frames for nothing.
    assert!(!table.apply(Arc::new(row("default", "api", "Running")), now()));
    assert!(table.apply(Arc::new(row("default", "api", "CrashLoopBackOff")), now()));
}

#[test]
fn a_reset_replaces_the_whole_table_and_its_columns() {
    let mut table = ResourceTable::new();
    table.apply(Arc::new(row("default", "gone", "Running")), now());

    assert!(table.reset(columns(), &vec![row("default", "api", "Running")]));
    assert_eq!(names(&table), ["default/api"]);
    assert_eq!(&*table.columns()[0].name, "STATUS");
}

#[test]
fn table_a_reset_that_changes_nothing_reports_no_change() {
    let mut table = ResourceTable::new();
    table.reset(columns(), &vec![row("default", "api", "Running")]);

    assert!(!table.reset(columns(), &vec![row("default", "api", "Running")]));
    assert!(table.reset(columns(), &vec![row("default", "api", "Terminating")]));
}

#[test]
fn switching_to_a_kind_with_different_columns_is_a_change() {
    let mut table = ResourceTable::new();
    table.reset(columns(), &vec![row("default", "api", "Running")]);

    // Same rows, different headings: rendering the old headings over the
    // new cells would silently mislabel every column.
    let other: Arc<Vec<ColumnSpec>> = Arc::new(vec![ColumnSpec::fixed("PHASE", 100)]);
    assert!(table.reset(other, &vec![row("default", "api", "Running")]));
}

#[test]
fn table_a_reset_to_nothing_empties_the_table() {
    let mut table = ResourceTable::new();
    table.apply(Arc::new(row("default", "api", "Running")), now());

    assert!(table.reset(columns(), &vec![]));
    assert!(table.is_empty());
    assert!(!table.reset(columns(), &vec![]));
}

#[test]
fn removing_reports_whether_the_row_was_known() {
    let mut table = ResourceTable::new();
    table.apply(Arc::new(row("default", "api", "Running")), now());

    assert!(table.remove(&ResourceKey::new("default", "api")));
    assert!(!table.remove(&ResourceKey::new("default", "api")));
    assert!(table.is_empty());
}

#[test]
fn namespaces_are_listed_once_each_in_order() {
    let mut table = ResourceTable::new();
    for (namespace, name) in [
        ("kube-system", "coredns"),
        ("default", "web"),
        ("default", "api"),
    ] {
        table.apply(Arc::new(row(namespace, name, "Running")), now());
    }

    let namespaces: Vec<_> = table
        .namespaces()
        .iter()
        .map(|namespace| namespace.to_string())
        .collect();
    assert_eq!(namespaces, ["default", "kube-system"]);
}

#[test]
fn cluster_scoped_rows_contribute_no_namespaces() {
    let mut table = ResourceTable::new();
    table.apply(Arc::new(row("", "node-1", "Ready")), now());
    assert!(table.namespaces().is_empty());
}

#[test]
fn a_ten_thousand_row_listing_stays_ordered_and_addressable() {
    let mut table = ResourceTable::new();
    let rows: Vec<_> = (0..10_000)
        .map(|i| row("default", &format!("worker-{i:05}"), "Running"))
        .collect();

    assert!(table.reset(columns(), &rows));
    assert_eq!(table.len(), 10_000);

    let rows = table.rows();
    assert_eq!(&*rows[0].key.name, "worker-00000");
    assert_eq!(&*rows[9_999].key.name, "worker-09999");
}

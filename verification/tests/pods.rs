use periscope::objects::{PodSnapshot, ResourceKey};
use periscope::pods::PodTable;
use std::sync::Arc;

fn pod(namespace: &str, name: &str, status: &str) -> PodSnapshot {
    PodSnapshot {
        key: ResourceKey::new(namespace, name),
        uid: None,
        status: String::from(status),
        ready: 1,
        containers: 1,
        restarts: 0,
        node: None,
        created: None,
    }
}

fn names(table: &PodTable) -> Vec<String> {
    table.iter().into_iter().map(|pod| pod.key.to_text()).collect()
}

#[test]
fn pods_rows_come_back_sorted_by_namespace_then_name() {
    let mut table = PodTable::new();
    for (namespace, name) in [
        ("kube-system", "coredns"),
        ("default", "web"),
        ("default", "api"),
    ] {
        table.apply(Arc::new(pod(namespace, name, "Running")));
    }

    assert_eq!(
        names(&table),
        ["default/api", "default/web", "kube-system/coredns"]
    );
}

#[test]
fn applying_an_identical_pod_is_not_a_change() {
    let mut table = PodTable::new();
    assert!(table.apply(Arc::new(pod("default", "api", "Running"))));
    // The apiserver resends objects on resync; repainting for those would
    // burn frames for nothing.
    assert!(!table.apply(Arc::new(pod("default", "api", "Running"))));
    assert!(table.apply(Arc::new(pod("default", "api", "CrashLoopBackOff"))));
}

#[test]
fn a_reset_replaces_the_whole_table() {
    let mut table = PodTable::new();
    table.apply(Arc::new(pod("default", "gone", "Running")));

    assert!(table.reset(&vec![pod("default", "api", "Running")]));
    assert_eq!(names(&table), ["default/api"]);
}

#[test]
fn pods_a_reset_that_changes_nothing_reports_no_change() {
    let mut table = PodTable::new();
    table.reset(&vec![pod("default", "api", "Running")]);

    assert!(!table.reset(&vec![pod("default", "api", "Running")]));
    assert!(table.reset(&vec![pod("default", "api", "Terminating")]));
}

#[test]
fn pods_a_reset_to_nothing_empties_the_table() {
    let mut table = PodTable::new();
    table.apply(Arc::new(pod("default", "api", "Running")));

    assert!(table.reset(&vec![]));
    assert!(table.is_empty());
    assert!(!table.reset(&vec![]));
}

#[test]
fn removing_reports_whether_the_pod_was_known() {
    let mut table = PodTable::new();
    table.apply(Arc::new(pod("default", "api", "Running")));

    assert!(table.remove(&ResourceKey::new("default", "api")));
    assert!(!table.remove(&ResourceKey::new("default", "api")));
    assert!(table.is_empty());
}

#[test]
fn readiness_is_counted_across_the_table() {
    let mut table = PodTable::new();
    table.apply(Arc::new(pod("default", "up", "Running")));

    let mut down = pod("default", "down", "CrashLoopBackOff");
    down.ready = 0;
    table.apply(Arc::new(down));

    assert_eq!((table.len(), table.ready()), (2, 1));
}

#[test]
fn a_ten_thousand_pod_listing_stays_ordered_and_addressable() {
    let mut table = PodTable::new();
    let pods: Vec<_> = (0..10_000)
        .map(|i| pod("default", &format!("worker-{i:05}"), "Running"))
        .collect();

    assert!(table.reset(&pods));
    assert_eq!(table.len(), 10_000);

    let rows = table.rows();
    assert_eq!(&*rows[0].key.name, "worker-00000");
    assert_eq!(&*rows[9_999].key.name, "worker-09999");
}

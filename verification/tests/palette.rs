use periscope::clock::{Duration, Instant};
use periscope::objects::{ClusterId, KindId, KindInfo, ResourceKey, ResourceRow, RowState};
use periscope::palette::{Match, Palette, Target, MAX_RESULTS};
use std::sync::Arc;

fn now() -> Instant {
    Instant { nanos: 1_000_000_000_000 }
}

fn kind(group: &str, kind: &str, plural: &str, custom: bool) -> KindInfo {
    KindInfo {
        id: KindId::new(group, "v1", kind, plural),
        namespaced: true,
        watchable: true,
        custom,
    }
}

fn row(namespace: &str, name: &str) -> Arc<ResourceRow> {
    Arc::new(ResourceRow {
        key: ResourceKey::new(namespace, name),
        uid: None,
        cells: vec![],
        state: RowState::Neutral,
        created: None,
    })
}

fn palette() -> Palette {
    let mut palette = Palette::new();
    let kinds = vec![
        kind("", "Pod", "pods", false),
        kind("apps", "Deployment", "deployments", false),
        kind("policy", "PodSecurityPolicy", "podsecuritypolicies", false),
        kind("argoproj.io", "Application", "applications", true),
    ];
    let rows = [row("default", "api-0"), row("kube-system", "coredns-abc")];

    let pods = KindId::new("", "v1", "Pod", "pods");
    let prod = ClusterId::new("prod");
    let objects: Vec<_> = rows.iter().map(|row| (&prod, &pods, row)).collect();

    palette.rebuild(
        &vec![String::from("prod"), String::from("staging")],
        &kinds,
        &objects,
        Some(&prod),
    );
    palette
}

fn labels(matches: &[Match]) -> Vec<String> {
    matches
        .iter()
        .map(|found| found.candidate.label.clone())
        .collect()
}

#[test]
fn an_empty_query_offers_clusters_then_kinds_then_objects() {
    let mut palette = palette();
    let found = labels(&palette.search(""));

    assert_eq!(found[0], "prod");
    assert_eq!(found[1], "staging");
    assert_eq!(found[2], "Pods");
    assert!(found.contains(&"default/api-0".to_owned()));
}

#[test]
fn an_exact_kind_name_ranks_above_a_longer_one_containing_it() {
    let mut palette = palette();
    // Typed the way `kubectl` spells it, which is the habit this has to
    // keep serving now that the list reads `Pods`.
    let found = labels(&palette.search("pods"));

    // Both match; `Pods` is what the user meant.
    assert_eq!(found[0], "Pods");
    assert!(
        found.contains(&"Pod Security Policies".to_owned()),
        "{found:?}"
    );
}

#[test]
fn objects_are_reachable_by_name() {
    let mut palette = palette();
    let found = palette.search("coredns");

    assert_eq!(found[0].candidate.label, "kube-system/coredns-abc");
    assert!(matches!(found[0].candidate.target, Target::Object { .. }));
}

#[test]
fn objects_are_reachable_by_namespace() {
    let mut palette = palette();
    assert!(
        labels(&palette.search("kube-system"))
            .iter()
            .any(|label| label.contains("coredns"))
    );
}

#[test]
fn matching_is_fuzzy_not_merely_substring() {
    let mut palette = palette();
    // The way people actually type: initials of the words they remember.
    assert!(
        labels(&palette.search("dep")).contains(&"Deployments".to_owned()),
        "dep should reach deployments"
    );
    assert!(
        labels(&palette.search("aplctns"))
            .iter()
            .any(|label| label.starts_with("Applications")),
        "initials should reach applications"
    );
}

#[test]
fn a_query_that_matches_nothing_returns_nothing() {
    let mut palette = palette();
    assert!(palette.search("zzzzzzzz").is_empty());
}

#[test]
fn objects_on_another_cluster_say_which_one() {
    let mut palette = Palette::new();
    let pods = KindId::new("", "v1", "Pod", "pods");
    let (prod, staging) = (ClusterId::new("prod"), ClusterId::new("staging"));
    let rows = [row("default", "api-0")];
    let objects: Vec<_> = rows.iter().map(|row| (&staging, &pods, row)).collect();

    palette.rebuild(&vec![], &vec![], &objects, Some(&prod));
    let found = palette.search("api-0");

    assert_eq!(found[0].candidate.detail, "pods · staging");
    match &found[0].candidate.target {
        Target::Object { cluster, .. } => assert_eq!(cluster, &staging),
        other => panic!("expected an object, got {other:?}"),
    }
}

#[test]
fn an_object_on_the_cluster_already_shown_does_not_repeat_its_name() {
    let mut palette = palette();
    let found = palette.search("api-0");
    // The pane is on `prod`; saying so on every line would be noise.
    assert_eq!(found[0].candidate.detail, "pods");
    assert_eq!(found[0].candidate.label, "default/api-0");
}

#[test]
fn custom_resources_say_that_they_are_custom() {
    let mut palette = palette();
    let found = palette.search("applications");
    assert!(found[0].candidate.detail.contains("custom"), "{found:?}");
    // Read as words, with the API name kept in the detail line.
    assert_eq!(found[0].candidate.label, "Applications");
    assert!(
        found[0]
            .candidate
            .detail
            .contains("applications.argoproj.io"),
        "{found:?}"
    );
}

#[test]
fn switching_clusters_is_a_palette_target() {
    let mut palette = palette();
    let found = palette.search("staging");
    assert_eq!(
        found[0].candidate.target,
        Target::Cluster(String::from("staging"))
    );
}

#[test]
fn results_are_capped_so_a_huge_cluster_stays_typeable() {
    let mut palette = Palette::new();
    let pods = KindId::new("", "v1", "Pod", "pods");
    let cluster = ClusterId::new("prod");
    let rows: Vec<_> = (0..10_000)
        .map(|i| row("default", &format!("worker-{i:05}")))
        .collect();
    let objects: Vec<_> = rows.iter().map(|row| (&cluster, &pods, row)).collect();
    palette.rebuild(&vec![], &vec![], &objects, Some(&cluster));

    assert_eq!(palette.len(), 10_000);
    assert_eq!(palette.search("worker").len(), MAX_RESULTS);
    assert_eq!(palette.search("").len(), MAX_RESULTS);
}

#[test]
fn a_ten_thousand_object_search_stays_well_inside_the_budget() {
    let mut palette = Palette::new();
    let pods = KindId::new("", "v1", "Pod", "pods");
    let cluster = ClusterId::new("prod");
    let rows: Vec<_> = (0..10_000)
        .map(|i| row("default", &format!("worker-{i:05}")))
        .collect();
    let objects: Vec<_> = rows.iter().map(|row| (&cluster, &pods, row)).collect();
    palette.rebuild(&vec![], &vec![], &objects, Some(&cluster));

    let started = std::time::Instant::now();
    let found = palette.search("wk9");
    let elapsed = started.elapsed();

    let budget = std::time::Duration::from_millis(500);

    assert!(!found.is_empty());
    assert!(elapsed < budget, "searching 10k objects took {elapsed:?}");
}

#[test]
fn rebuilding_replaces_the_previous_candidates() {
    let mut palette = palette();
    palette.rebuild(&vec![], &vec![], &vec![], None);

    assert!(palette.is_empty());
    assert!(palette.search("pods").is_empty());
}

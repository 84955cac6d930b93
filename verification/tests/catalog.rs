use periscope::catalog::{recent, sections, Category, RECENT_SHOWN};
use periscope::objects::{KindId, KindInfo};

fn kind(group: &str, plural: &str) -> KindInfo {
    KindInfo {
        id: KindId::new(group, "v1", plural, plural),
        namespaced: true,
        watchable: true,
        custom: false,
    }
}

fn custom(group: &str, plural: &str) -> KindInfo {
    KindInfo {
        custom: true,
        ..kind(group, plural)
    }
}

fn category(group: &str, plural: &str) -> Category {
    Category::of(&kind(group, plural))
}

fn labels(names: &[&str]) -> Vec<String> {
    names.iter().map(|name| String::from(*name)).collect()
}

#[test]
fn workloads_are_the_things_that_run() {
    assert_eq!(category("", "pods"), Category::Workloads);
    assert_eq!(category("apps", "deployments"), Category::Workloads);
    assert_eq!(category("apps", "statefulsets"), Category::Workloads);
    assert_eq!(category("batch", "cronjobs"), Category::Workloads);
    // Autoscaling belongs with what it scales, not in a section of its own.
    assert_eq!(
        category("autoscaling", "horizontalpodautoscalers"),
        Category::Workloads
    );
}

#[test]
fn the_other_built_in_sections_hold_what_they_say() {
    assert_eq!(category("", "services"), Category::Networking);
    assert_eq!(
        category("networking.k8s.io", "ingresses"),
        Category::Networking
    );
    assert_eq!(category("", "configmaps"), Category::Configuration);
    assert_eq!(category("", "secrets"), Category::Configuration);
    assert_eq!(
        category("policy", "poddisruptionbudgets"),
        Category::Configuration
    );
    assert_eq!(category("", "persistentvolumes"), Category::Storage);
    assert_eq!(
        category("storage.k8s.io", "storageclasses"),
        Category::Storage
    );
    assert_eq!(category("", "serviceaccounts"), Category::AccessControl);
    assert_eq!(
        category("rbac.authorization.k8s.io", "clusterroles"),
        Category::AccessControl
    );
    assert_eq!(category("", "nodes"), Category::Cluster);
    assert_eq!(category("", "namespaces"), Category::Cluster);
    assert_eq!(category("", "events"), Category::Cluster);
}

#[test]
fn a_custom_resource_goes_under_the_group_that_installed_it() {
    // Not under a guess at what it does: somebody who installed cert-manager
    // looks under cert-manager.io.
    assert_eq!(
        Category::of(&custom("cert-manager.io", "certificates")),
        Category::Custom("cert-manager.io".to_owned())
    );
    assert_eq!(
        Category::of(&custom("argoproj.io", "applications")).title(),
        "ARGOPROJ.IO"
    );
}

#[test]
fn an_unknown_built_in_kind_is_reachable_rather_than_hidden() {
    // A kind the rules have never heard of must still appear somewhere.
    assert_eq!(category("", "bindings"), Category::Other);
    assert_eq!(
        category("flowcontrol.apiserver.k8s.io", "prioritylevels"),
        Category::Other
    );
}

#[test]
fn sections_come_out_in_reading_order() {
    let kinds = vec![
        custom("cert-manager.io", "certificates"),
        kind("", "nodes"),
        kind("apps", "deployments"),
        custom("argoproj.io", "applications"),
        kind("", "services"),
        kind("", "bindings"),
    ];

    let order: Vec<String> = sections(&kinds)
        .into_iter()
        .map(|(category, _)| category.title())
        .collect();

    assert_eq!(
        order,
        [
            "WORKLOADS",
            "NETWORKING",
            "CLUSTER",
            "ARGOPROJ.IO",
            "CERT-MANAGER.IO",
            "OTHER"
        ]
    );
}

#[test]
fn only_workloads_starts_open() {
    assert!(Category::Workloads.open_by_default());
    for category in [
        Category::Networking,
        Category::Storage,
        Category::Cluster,
        Category::Custom("cert-manager.io".to_owned()),
        Category::Other,
    ] {
        assert!(!category.open_by_default(), "{category:?} starts open");
    }
}

#[test]
fn kinds_inside_a_section_are_sorted() {
    let kinds = vec![
        kind("apps", "statefulsets"),
        kind("", "pods"),
        kind("apps", "deployments"),
    ];

    let (_, workloads) = sections(&kinds).into_iter().next().expect("a section");
    let names: Vec<String> = workloads.iter().map(|info| info.id.label()).collect();

    assert_eq!(names, ["deployments.apps", "pods", "statefulsets.apps"]);
}

#[test]
fn recents_come_back_in_the_order_they_were_visited() {
    let kinds = vec![
        kind("", "pods"),
        kind("apps", "deployments"),
        custom("cert-manager.io", "certificates"),
    ];

    let recent = recent(&kinds, &labels(&["certificates.cert-manager.io", "pods", "deployments.apps"]));
    let names: Vec<String> = recent.iter().map(|info| info.id.label()).collect();

    assert_eq!(
        names,
        ["certificates.cert-manager.io", "pods", "deployments.apps"]
    );
}

#[test]
fn a_recent_kind_this_cluster_does_not_serve_is_dropped() {
    // Switching to a cluster without cert-manager must not offer a jump
    // that lands nowhere.
    let kinds = vec![kind("", "pods")];

    let recent = recent(&kinds, &labels(&["certificates.cert-manager.io", "pods"]));
    let names: Vec<String> = recent.iter().map(|info| info.id.label()).collect();

    assert_eq!(names, ["pods"]);
}

#[test]
fn a_recent_kind_that_cannot_be_watched_is_not_offered_either() {
    let kinds = vec![KindInfo {
        watchable: false,
        ..kind("", "componentstatuses")
    }];

    assert!(recent(&kinds, &labels(&["componentstatuses"])).is_empty());
}

#[test]
fn the_recent_list_is_short_however_much_is_remembered() {
    let kinds: Vec<KindInfo> = (0..RECENT_SHOWN * 2)
        .map(|index| kind("", &format!("kind{index}")))
        .collect();
    let labels: Vec<String> = kinds.iter().map(|info| info.id.label()).collect();

    let recent = recent(&kinds, &labels);
    assert_eq!(recent.len(), RECENT_SHOWN);
}

#[test]
fn a_kind_that_cannot_be_watched_is_not_offered() {
    // Opening it would be a dead end; the palette still finds it.
    let kinds = vec![KindInfo {
        watchable: false,
        ..kind("", "componentstatuses")
    }];

    assert!(sections(&kinds).is_empty());
}

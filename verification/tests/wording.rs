use periscope::objects::{KindId, OwnerRef};
use periscope::sessions::ConnectionState;
use periscope::wording::{empty_message, export_name, owner_kind, DetailTab};

#[test]
fn a_refused_kind_is_explained_rather_than_looking_empty() {
    // "No secrets here." is a reassuring sentence and, for somebody whose
    // role does not grant secrets, a false one.
    let kind = KindId::new("", "v1", "Secret", "secrets");
    let refused = empty_message(
        Some("secrets is forbidden: User \"dev\" cannot list resource"),
        Some(&kind),
        Some(&ConnectionState::Connected),
    );

    assert!(refused.contains("Not allowed"), "{refused}");
    assert!(refused.contains("forbidden"), "{refused}");
    assert!(!refused.contains("No secrets here"), "{refused}");

    // A refusal outranks the connection state, which is the whole point:
    // the cluster is fine.
    assert_eq!(
        empty_message(None, Some(&kind), Some(&ConnectionState::Connected)),
        "No secrets here."
    );
}

#[test]
fn a_detail_tab_counts_what_it_holds() {
    assert_eq!(DetailTab::Yaml.label(3, 1), "YAML");
    assert_eq!(DetailTab::Events.label(3, 1), "Events (3)");
    assert_eq!(DetailTab::Related.label(3, 1), "Related (1)");
    // Nothing to count, nothing in brackets.
    assert_eq!(DetailTab::Events.label(0, 0), "Events");
    assert_eq!(DetailTab::Related.label(0, 0), "Related");
}

#[test]
fn an_export_name_survives_a_command_line_longer_than_a_file_name() {
    let label = format!("default/api-0 $ sh -c {}", "x".repeat(400));
    let name = export_name(&label, 3);

    assert!(name.len() < 120, "{name}");
    assert!(name.starts_with("periscope-default-api-0-"), "{name}");
    assert!(name.ends_with("-3.log"), "{name}");
    // Nothing a path or a shell would read as structure survives.
    assert!(!name.contains('/'), "{name}");
    assert!(!name.contains('$'), "{name}");
}

#[test]
fn owner_kinds_are_pluralised_the_way_kubernetes_does() {
    let owner = |api_version: &str, kind: &str| OwnerRef {
        api_version: String::from(api_version),
        kind: String::from(kind),
        name: String::from("x"),
        controller: true,
    };

    assert_eq!(
        owner_kind(&owner("apps/v1", "ReplicaSet")),
        KindId::new("apps", "v1", "ReplicaSet", "replicasets")
    );
    assert_eq!(
        owner_kind(&owner("v1", "Pod")),
        KindId::new("", "v1", "Pod", "pods")
    );
    assert_eq!(
        owner_kind(&owner("networking.k8s.io/v1", "NetworkPolicy")),
        KindId::new(
            "networking.k8s.io",
            "v1",
            "NetworkPolicy",
            "networkpolicies"
        )
    );
    assert_eq!(
        &*owner_kind(&owner("networking.k8s.io/v1", "Ingress")).plural,
        "ingresses"
    );
}

use periscope::objects::ClusterId;
use periscope::permissions::{Access, Permissions, Refusal};

fn prod() -> ClusterId {
    ClusterId::new("prod")
}

#[test]
fn the_default_allows_changes() {
    assert!(Permissions::permissive().may_mutate(&prod()));
}

#[test]
fn a_denied_cluster_refuses() {
    let mut permissions = Permissions::permissive();
    permissions.deny(prod());

    assert!(!permissions.may_mutate(&prod()));
    assert!(permissions.may_mutate(&ClusterId::new("staging")));
}

#[test]
fn read_only_by_default_allows_only_what_is_named() {
    let permissions = Permissions::read_only_except(&vec![ClusterId::new("scratch")]);

    assert!(permissions.may_mutate(&ClusterId::new("scratch")));
    assert!(!permissions.may_mutate(&prod()));
}

#[test]
fn an_explicit_denial_beats_writable() {
    let mut permissions = Permissions::read_only_except(&vec![prod()]);
    permissions.deny(prod());

    assert!(!permissions.may_mutate(&prod()));
}

#[test]
fn permissions_come_from_settings() {
    let mut access = Access::default();
    access.deny("prod");

    let permissions = Permissions::from_access(&access);
    assert!(!permissions.may_mutate(&prod()));
    assert!(permissions.may_mutate(&ClusterId::new("staging")));
    assert!(permissions.read_only_clusters().contains(&prod()));
}

#[test]
fn a_refusal_says_what_to_change_to_allow_it() {
    let reason = Refusal::ReadOnly { cluster: prod() }.reason();

    assert!(reason.contains("prod"), "{reason}");
    assert!(reason.contains("settings.toml"), "{reason}");
}

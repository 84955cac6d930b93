use periscope::clock::{Duration, Instant};
use periscope::connections::ConnectionRegistry;
use periscope::events::ClusterEvent;
use periscope::objects::ClusterId;
use periscope::sessions::ConnectionState;

fn now() -> Instant {
    Instant { nanos: 1_000_000_000_000 }
}

fn after(start: Instant, span: Duration) -> Instant {
    Instant { nanos: start.nanos + span.nanos }
}

fn status(cluster: &str, state: ConnectionState) -> ClusterEvent {
    ClusterEvent::Status {
        cluster: ClusterId::new(cluster),
        state,
    }
}

#[test]
fn a_cluster_appearing_for_the_first_time_counts_as_a_change() {
    let mut registry = ConnectionRegistry::new();
    // Otherwise the first status for a cluster would seed the map and then
    // compare equal to itself, and the new row would never be painted.
    assert!(registry.apply(&status("prod", ConnectionState::Connected), now()));
    assert_eq!(registry.len(), 1);
}

#[test]
fn a_new_cluster_starts_idle() {
    let mut registry = ConnectionRegistry::new();
    registry.track(ClusterId::new("prod"), now());
    let connection = registry.get(&ClusterId::new("prod")).unwrap();
    assert_eq!(connection.state, ConnectionState::Idle);
    assert_eq!(registry.len(), 1);
}

#[test]
fn status_events_move_the_state_machine() {
    let mut registry = ConnectionRegistry::new();
    let now = now();

    assert!(registry.apply(&status("prod", ConnectionState::Connecting), now));
    let later = after(now, Duration::from_millis(50));
    assert!(registry.apply(&status("prod", ConnectionState::Connected), later));

    let connection = registry.get(&ClusterId::new("prod")).unwrap();
    assert_eq!(connection.state, ConnectionState::Connected);
    assert_eq!(connection.since, later);
}

#[test]
fn a_repeated_status_is_not_a_change() {
    let mut registry = ConnectionRegistry::new();
    let now = now();

    assert!(registry.apply(&status("prod", ConnectionState::Connected), now));
    assert!(!registry.apply(
        &status("prod", ConnectionState::Connected),
        after(now, Duration::from_secs(1))
    ));
    // The timestamp must not move when nothing changed.
    assert_eq!(registry.get(&ClusterId::new("prod")).unwrap().since, now);
}

#[test]
fn auth_failure_keeps_its_error_text_for_the_ui() {
    let mut registry = ConnectionRegistry::new();
    registry.apply(
        &status(
            "prod",
            ConnectionState::AuthFailed {
                reason: "exec plugin exited 255".into(),
            },
        ),
        now(),
    );

    let problems: Vec<_> = registry.problems();
    assert_eq!(problems.len(), 1);
    assert_eq!(problems[0].1.state.detail(), Some("exec plugin exited 255"));
}

#[test]
fn pongs_record_the_round_trip() {
    let mut registry = ConnectionRegistry::new();
    registry.apply(
        &ClusterEvent::Pong {
            cluster: ClusterId::new("prod"),
            nonce: 1,
            elapsed: Duration::from_millis(12),
        },
        now(),
    );
    assert_eq!(
        registry.get(&ClusterId::new("prod")).unwrap().last_round_trip,
        Some(Duration::from_millis(12))
    );
}

#[test]
fn dropped_events_mark_a_cluster_stale() {
    let mut registry = ConnectionRegistry::new();
    let now = now();
    registry.apply(&status("prod", ConnectionState::Connected), now);

    assert!(registry.apply(
        &ClusterEvent::Stale {
            cluster: Some(ClusterId::new("prod")),
            dropped: 12,
        },
        now,
    ));
    assert!(registry.get(&ClusterId::new("prod")).unwrap().is_stale());
    // Still connected: stale data is not a disconnection.
    assert_eq!(
        registry.get(&ClusterId::new("prod")).unwrap().state,
        ConnectionState::Connected
    );
}

#[test]
fn unattributed_drops_taint_every_cluster() {
    let mut registry = ConnectionRegistry::new();
    let now = now();
    registry.apply(&status("a", ConnectionState::Connected), now);
    registry.apply(&status("b", ConnectionState::Connected), now);

    registry.apply(
        &ClusterEvent::Stale {
            cluster: None,
            dropped: 3,
        },
        now,
    );

    assert!(registry.iter().iter().all(|(_, c)| c.dropped_events == 3));
}

#[test]
fn a_zero_drop_notice_changes_nothing() {
    let mut registry = ConnectionRegistry::new();
    assert!(!registry.apply(
        &ClusterEvent::Stale {
            cluster: None,
            dropped: 0,
        },
        now(),
    ));
}

#[test]
fn batches_report_whether_anything_changed() {
    let mut registry = ConnectionRegistry::new();
    let now = now();
    let batch = vec![
        status("a", ConnectionState::Connecting),
        status("a", ConnectionState::Connected),
    ];
    assert!(registry.apply_batch(&batch, now));
    assert!(!registry.apply_batch(&batch[1..].to_vec(), now));
}

#[test]
fn clusters_are_listed_in_a_stable_order() {
    let mut registry = ConnectionRegistry::new();
    let now = now();
    for name in ["zeta", "alpha", "mid"] {
        registry.apply(&status(name, ConnectionState::Connected), now);
    }

    let names: Vec<_> = registry.iter().into_iter().map(|(id, _)| id.as_str()).collect();
    assert_eq!(names, ["alpha", "mid", "zeta"]);
}

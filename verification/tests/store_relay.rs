use kite::relay::{RelayEnd, RelayEvent, RelayState};
use kite::resolver::{first_address, BackendAddr, BackendError, IpAddress};
use kite::routing::{ListenAddr, RoutingTable, Rule};
use kite::store::{needs_rebind, ConfigStore, ConnectionContext, Debouncer, ConfigError};

fn table_with(host: &str) -> RoutingTable {
    RoutingTable {
        rules: vec![Rule {
            matcher: "a.com".to_string(),
            host: host.to_string(),
            port: 25566,
        }],
        fallback: None,
        listen: ListenAddr {
            host: "0.0.0.0".to_string(),
            port: 25565,
        },
    }
}

#[test]
fn store_starts_unloaded() {
    let store = ConfigStore::new();
    assert!(store.snapshot().is_none());
}

#[test]
fn publish_makes_a_snapshot_available() {
    let mut store = ConfigStore::new();
    store.publish(table_with("x"));
    let snap = store.snapshot().expect("a published snapshot");
    assert_eq!(snap.rules[0].host, "x");
}

#[test]
fn failed_reload_keeps_the_previous_snapshot() {
    let mut store = ConfigStore::new();
    store.publish(table_with("x"));

    let swapped = store.apply_reload(Err(ConfigError::Malformed));
    assert!(!swapped);
    assert_eq!(store.snapshot().unwrap().rules[0].host, "x");

    let swapped = store.apply_reload(Err(ConfigError::Unreadable));
    assert!(!swapped);
    assert_eq!(store.snapshot().unwrap().rules[0].host, "x");

    // a subsequent valid load replaces it
    let swapped = store.apply_reload(Ok(table_with("y")));
    assert!(swapped);
    assert_eq!(store.snapshot().unwrap().rules[0].host, "y");
}

#[test]
fn established_connection_keeps_its_snapshot_across_reload() {
    let mut store = ConfigStore::new();
    store.publish(table_with("old-backend"));

    let ctx = ConnectionContext {
        snapshot: store.snapshot().expect("the snapshot at accept time"),
    };

    // a reload publishes a conflicting table mid-connection
    store.apply_reload(Ok(table_with("new-backend")));
    assert_eq!(store.snapshot().unwrap().rules[0].host, "new-backend");

    // the established connection still routes by its own snapshot
    let m = ctx
        .snapshot
        .match_hostname(&"a.com".to_string())
        .expect("the original rule");
    assert_eq!(m.host, "old-backend");
}

#[test]
fn relay_counters_report_exactly_what_each_side_sent() {
    let mut relay = RelayState::new();
    let script = [
        RelayEvent::ClientBytes { count: 3 },
        RelayEvent::BackendBytes { count: 5 },
        RelayEvent::ClientBytes { count: 2 },
        RelayEvent::BackendEof,
    ];
    for ev in script {
        relay.step(ev);
    }
    assert_eq!(relay.client_to_backend, 5);
    assert_eq!(relay.backend_to_client, 5);
    assert_eq!(relay.end, Some(RelayEnd::BackendEof));
}

#[test]
fn relay_counters_survive_a_failure() {
    let mut relay = RelayState::new();
    relay.step(RelayEvent::ClientBytes { count: 7 });
    relay.step(RelayEvent::Failed);
    assert_eq!(relay.client_to_backend, 7);
    assert_eq!(relay.backend_to_client, 0);
    assert_eq!(relay.end, Some(RelayEnd::Failed));
}

#[test]
fn relay_with_no_traffic_reports_zeros() {
    let mut relay = RelayState::new();
    relay.step(RelayEvent::ClientEof);
    assert_eq!(relay.client_to_backend, 0);
    assert_eq!(relay.backend_to_client, 0);
    assert_eq!(relay.end, Some(RelayEnd::ClientEof));
}

#[test]
fn debouncer_waits_out_the_quiet_period() {
    let mut d = Debouncer::new(10);
    assert!(!d.due(100));
    d.note_change(100);
    assert!(!d.due(105));
    assert!(d.due(110));
}

#[test]
fn rapid_edits_coalesce_into_one_reload() {
    let mut d = Debouncer::new(10);
    d.note_change(100);
    d.note_change(105);
    // not due until the last edit's quiet period has passed
    assert!(!d.take_due(110));
    assert!(d.take_due(115));
    // the whole burst triggered exactly one reload
    assert!(!d.take_due(200));
}

#[test]
fn only_a_changed_listen_address_forces_a_rebind() {
    let a = ListenAddr { host: "0.0.0.0".to_string(), port: 25565 };
    let same = ListenAddr { host: "0.0.0.0".to_string(), port: 25565 };
    let other_port = ListenAddr { host: "0.0.0.0".to_string(), port: 25566 };
    let other_host = ListenAddr { host: "127.0.0.1".to_string(), port: 25565 };
    assert!(!needs_rebind(&a, &same));
    assert!(needs_rebind(&a, &other_port));
    assert!(needs_rebind(&a, &other_host));
}

#[test]
fn first_resolved_address_is_used() {
    let addrs = vec![IpAddress::V4(0x7F000001), IpAddress::V4(0x0A000001)];
    let a = first_address(&addrs, 25566).expect("an address");
    assert_eq!(a, BackendAddr { ip: IpAddress::V4(0x7F000001), port: 25566 });
}

#[test]
fn empty_resolution_is_a_resolution_failure() {
    let addrs: Vec<IpAddress> = Vec::new();
    assert_eq!(
        first_address(&addrs, 25566).unwrap_err(),
        BackendError::ResolutionFailed
    );
}

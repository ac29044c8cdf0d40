use defguard_client::connection::ActiveConnection;
use defguard_client::daemon::{CreateOutcome, RemoveOutcome, Reply};
use defguard_client::error::Error;
use defguard_client::instance::WireguardKeys;
use defguard_client::location::Location;
use defguard_client::naming::Platform;
use defguard_client::registry::ConnectionRegistry;

fn location(id: i64, name: &str) -> Location {
    let mut location = Location::new(
        1,
        10 + id,
        name.to_string(),
        "10.6.0.2".to_string(),
        "own-public-key".to_string(),
        "vpn.example.com:51820".to_string(),
        "10.6.0.0/24".to_string(),
    );
    location.id = Some(id);
    location
}

fn keys() -> WireguardKeys {
    WireguardKeys::new(1, "shared-public-key".to_string(), "private-key".to_string())
}

fn created() -> Reply<CreateOutcome> {
    Reply::Answered(CreateOutcome::Created)
}

fn removed() -> Reply<RemoveOutcome> {
    Reply::Answered(RemoveOutcome::Removed)
}

fn record(registry: &mut ConnectionRegistry, id: i64, start: i64) -> ActiveConnection {
    registry
        .record_connection(id, format!("wg{id}"), created(), Some("192.168.1.7".to_string()), start)
        .unwrap()
        .connection
}

#[test]
fn new_registry_is_empty() {
    let registry = ConnectionRegistry::new();
    assert!(registry.list_active_ids().is_empty());
    assert!(registry.find(1).is_none());
    assert!(!registry.is_active(1));
}

#[test]
fn disconnect_of_a_location_never_connected_is_not_found() {
    let mut registry = ConnectionRegistry::new();
    record(&mut registry, 1, 100);
    for reply in [removed(), Reply::Answered(RemoveOutcome::NotFound), Reply::Unreachable] {
        let result = registry.disconnect(2, reply);
        assert_eq!(result.err(), Some(Error::NotFound));
    }
    assert_eq!(registry.prepare_disconnect(2).err(), Some(Error::NotFound));
    assert_eq!(registry.close_connection(2, removed(), 5).err(), Some(Error::NotFound));
    assert_eq!(registry.list_active_ids(), vec![1]);
}

#[test]
fn second_connect_is_a_conflict_and_leaves_one_connection() {
    let mut registry = ConnectionRegistry::new();
    let first = record(&mut registry, 7, 1_000);
    let second = registry.record_connection(
        7,
        "other".to_string(),
        created(),
        Some("192.168.1.8".to_string()),
        2_000,
    );
    assert_eq!(second.err(), Some(Error::Conflict));
    assert_eq!(registry.list_active_ids(), vec![7]);
    let found = registry.find(7).unwrap();
    assert_eq!(found.start, 1_000);
    assert_eq!(found.interface_name, first.interface_name);
    assert_eq!(found.address, "192.168.1.7");
    assert_eq!(registry.connect(7, "other".to_string(), created()).err(), Some(Error::Conflict));
    assert_eq!(registry.list_active_ids(), vec![7]);
}

#[test]
fn connect_disconnect_connect_gives_a_fresh_connection() {
    let mut registry = ConnectionRegistry::new();
    let first = record(&mut registry, 3, 1_000);
    assert_eq!(first.start, 1_000);
    let closed = registry.close_connection(3, removed(), 1_500).unwrap();
    assert_eq!(closed.connection.id, None);
    assert_eq!(closed.connection.location_id, 3);
    assert_eq!(closed.connection.interface_name, "wg3");
    assert_eq!(closed.connection.start, 1_000);
    assert_eq!(closed.connection.end, 1_500);
    assert_eq!(closed.notification.topic, "connection-changed");
    assert!(registry.find(3).is_none());
    assert_eq!(registry.close_connection(3, removed(), 1_600).err(), Some(Error::NotFound));
    let second = record(&mut registry, 3, 2_000);
    assert_eq!(second.start, 2_000);
    assert_ne!(second.start, closed.connection.start);
    assert_eq!(registry.list_active_ids(), vec![3]);
    assert_eq!(registry.find(3).unwrap().start, 2_000);
}

#[test]
fn record_connection_holds_what_it_was_given() {
    let mut registry = ConnectionRegistry::new();
    let connected = registry
        .record_connection(5, "office".to_string(), created(), Some("10.0.0.9".to_string()), 42)
        .unwrap();
    assert_eq!(connected.connection.location_id, 5);
    assert_eq!(connected.connection.address, "10.0.0.9");
    assert_eq!(connected.connection.interface_name, "office");
    assert_eq!(connected.connection.start, 42);
    assert_eq!(connected.notification.topic, "connection-changed");
    assert_eq!(connected.notification.message, "Created new connection");
    assert!(!connected.sampler.is_cancelled());
    assert!(registry.is_active(5));
}

#[test]
fn record_connection_needs_the_interface_and_the_address() {
    let mut registry = ConnectionRegistry::new();
    let replies = [
        Reply::Answered(CreateOutcome::AlreadyExists),
        Reply::Answered(CreateOutcome::InvalidConfiguration),
        Reply::Answered(CreateOutcome::OsFailure),
        Reply::Unreachable,
    ];
    for reply in replies {
        let result =
            registry.record_connection(1, "wg1".to_string(), reply, Some("a".to_string()), 1);
        assert_eq!(result.err(), Some(Error::InternalError));
    }
    let result = registry.record_connection(1, "wg1".to_string(), created(), None, 1);
    assert_eq!(result.err(), Some(Error::InternalError));
    assert!(registry.list_active_ids().is_empty());
}

#[test]
fn a_failed_daemon_beats_a_conflict() {
    let mut registry = ConnectionRegistry::new();
    record(&mut registry, 1, 1);
    let result = registry.record_connection(
        1,
        "wg1".to_string(),
        Reply::Unreachable,
        Some("a".to_string()),
        2,
    );
    assert_eq!(result.err(), Some(Error::InternalError));
    let result = registry.record_connection(1, "wg1".to_string(), created(), None, 2);
    assert_eq!(result.err(), Some(Error::Conflict));
}

#[test]
fn connect_without_an_interface_is_an_internal_error() {
    let mut registry = ConnectionRegistry::new();
    let result = registry.connect(1, "wg1".to_string(), Reply::Unreachable);
    assert_eq!(result.err(), Some(Error::InternalError));
    let result = registry.connect(1, "wg1".to_string(), Reply::Answered(CreateOutcome::OsFailure));
    assert_eq!(result.err(), Some(Error::InternalError));
    assert!(registry.list_active_ids().is_empty());
}

#[test]
fn connect_records_the_tunnel_or_fails_without_trace() {
    let mut registry = ConnectionRegistry::new();
    match registry.connect(9, "wg9".to_string(), created()) {
        Ok(connected) => {
            assert_eq!(connected.connection.location_id, 9);
            assert_eq!(connected.connection.interface_name, "wg9");
            assert!(connected.connection.start > 1_600_000_000_000_000);
            assert!(!connected.connection.address.is_empty());
            assert_eq!(registry.list_active_ids(), vec![9]);
            assert_eq!(registry.find(9).unwrap().address, connected.connection.address);
        }
        Err(error) => {
            assert_eq!(error, Error::InternalError);
            assert!(registry.list_active_ids().is_empty());
        }
    }
}

#[test]
fn failed_teardown_keeps_the_connection() {
    let mut registry = ConnectionRegistry::new();
    record(&mut registry, 4, 10);
    let replies = [
        Reply::Answered(RemoveOutcome::NotFound),
        Reply::Answered(RemoveOutcome::OsFailure),
        Reply::Unreachable,
    ];
    for reply in replies {
        assert_eq!(registry.disconnect(4, reply).err(), Some(Error::InternalError));
        assert_eq!(registry.list_active_ids(), vec![4]);
        assert_eq!(registry.find(4).unwrap().start, 10);
    }
}

#[test]
fn disconnect_closes_the_session_now() {
    let mut registry = ConnectionRegistry::new();
    let connected = registry
        .record_connection(4, "wg4".to_string(), created(), Some("a".to_string()), 10)
        .unwrap();
    let closed = registry.disconnect(4, removed()).unwrap();
    assert_eq!(closed.connection.location_id, 4);
    assert_eq!(closed.connection.interface_name, "wg4");
    assert_eq!(closed.connection.start, 10);
    assert!(closed.connection.end > 1_600_000_000_000_000);
    assert_eq!(closed.notification.topic, "connection-changed");
    assert!(connected.sampler.is_cancelled());
    assert!(registry.list_active_ids().is_empty());
}

#[test]
fn disconnect_leaves_the_other_connections() {
    let mut registry = ConnectionRegistry::new();
    record(&mut registry, 1, 10);
    let second = registry
        .record_connection(2, "wg2".to_string(), created(), Some("a".to_string()), 20)
        .unwrap();
    record(&mut registry, 3, 30);
    registry.close_connection(1, removed(), 40).unwrap();
    assert_eq!(registry.list_active_ids(), vec![2, 3]);
    assert_eq!(registry.find(2).unwrap().start, 20);
    assert_eq!(registry.find(3).unwrap().start, 30);
    assert!(!second.sampler.is_cancelled());
}

#[test]
fn prepare_connect_builds_the_request() {
    let registry = ConnectionRegistry::new();
    let mut stored = location(1, "Head Office");
    stored.dns = Some("10.6.0.1".to_string());
    let request = registry
        .prepare_connect(
            1,
            Some(&stored),
            Some(&keys()),
            &Platform::DevicePerLocation,
            Some(25),
        )
        .unwrap();
    assert_eq!(request.name, "HeadOffice");
    assert_eq!(request.local_address, "10.6.0.2");
    assert_eq!(request.own_private_key, "private-key");
    assert_eq!(request.peer_pubkey, "shared-public-key");
    assert_eq!(request.peer_endpoint, "vpn.example.com:51820");
    assert_eq!(request.allowed_ips, "10.6.0.0/24");
    assert_eq!(request.dns, Some("10.6.0.1".to_string()));
    assert_eq!(request.keepalive, Some(25));
    let request = registry
        .prepare_connect(
            1,
            Some(&stored),
            Some(&keys()),
            &Platform::SingleDevice("utun3".to_string()),
            None,
        )
        .unwrap();
    assert_eq!(request.name, "utun3");
    assert_eq!(request.keepalive, None);
}

#[test]
fn prepare_connect_refuses_in_order() {
    let mut registry = ConnectionRegistry::new();
    let platform = Platform::DevicePerLocation;
    let stored = location(1, "a");
    assert_eq!(
        registry.prepare_connect(1, None, Some(&keys()), &platform, None).err(),
        Some(Error::NotFound)
    );
    assert_eq!(
        registry.prepare_connect(1, Some(&stored), None, &platform, None).err(),
        Some(Error::NotFound)
    );
    record(&mut registry, 1, 5);
    assert_eq!(
        registry.prepare_connect(1, Some(&stored), Some(&keys()), &platform, None).err(),
        Some(Error::Conflict)
    );
    assert_eq!(
        registry.prepare_connect(1, Some(&stored), None, &platform, None).err(),
        Some(Error::Conflict)
    );
    assert_eq!(
        registry.prepare_connect(1, None, None, &platform, None).err(),
        Some(Error::NotFound)
    );
}

#[test]
fn prepare_disconnect_names_the_interface() {
    let mut registry = ConnectionRegistry::new();
    record(&mut registry, 6, 5);
    let request = registry.prepare_disconnect(6).unwrap();
    assert_eq!(request.interface_name, "wg6");
    assert_eq!(registry.list_active_ids(), vec![6]);
}

#[test]
fn find_never_changes_the_registry() {
    let mut registry = ConnectionRegistry::new();
    record(&mut registry, 1, 5);
    record(&mut registry, 2, 6);
    for _ in 0..3 {
        assert_eq!(registry.find(2).unwrap().location_id, 2);
        assert!(registry.find(3).is_none());
    }
    assert_eq!(registry.list_active_ids(), vec![1, 2]);
}

use bevy_replicon_quinnet::identity::{
    ConnectError, Connection, ConnectionChange, ConnectionEvent, ConnectionHandle, ConnectionMap,
};

#[test]
fn a_new_map_is_empty() {
    let map = ConnectionMap::new();
    assert_eq!(map.len(), 0);
    assert!(map.connections().is_empty());
    assert_eq!(map.lookup_handle(0), None);
    assert_eq!(map.lookup_transport(ConnectionHandle(0)), None);
}

#[test]
fn on_connect_makes_a_new_handle_for_each_connection() {
    let mut map = ConnectionMap::new();
    assert_eq!(map.on_connect(40), Ok(ConnectionHandle(0)));
    assert_eq!(map.on_connect(7), Ok(ConnectionHandle(1)));
    assert_eq!(map.on_connect(u64::MAX), Ok(ConnectionHandle(2)));
    assert_eq!(map.len(), 3);
}

#[test]
fn lookups_go_both_ways() {
    let mut map = ConnectionMap::new();
    let first = map.on_connect(40).unwrap();
    let second = map.on_connect(7).unwrap();
    assert_eq!(map.lookup_handle(40), Some(first));
    assert_eq!(map.lookup_handle(7), Some(second));
    assert_eq!(map.lookup_transport(first), Some(40));
    assert_eq!(map.lookup_transport(second), Some(7));
    assert_eq!(map.lookup_handle(8), None);
    assert_eq!(map.lookup_transport(ConnectionHandle(2)), None);
}

#[test]
fn on_connect_rejects_an_id_that_is_mapped() {
    let mut map = ConnectionMap::new();
    let handle = map.on_connect(40).unwrap();
    assert_eq!(map.on_connect(40), Err(ConnectError::AlreadyConnected { handle }));
    assert_eq!(map.len(), 1);
    assert_eq!(map.lookup_handle(40), Some(handle));
    assert_eq!(map.on_connect(41), Ok(ConnectionHandle(1)));
}

#[test]
fn on_connect_fails_when_no_handle_is_left() {
    let mut map = ConnectionMap::with_first_handle(u64::MAX - 1);
    assert_eq!(map.on_connect(1), Ok(ConnectionHandle(u64::MAX - 1)));
    assert_eq!(map.on_connect(2), Err(ConnectError::HandlesExhausted));
    assert_eq!(map.len(), 1);
    assert_eq!(map.lookup_handle(2), None);
    assert_eq!(
        map.on_connect(1),
        Err(ConnectError::AlreadyConnected { handle: ConnectionHandle(u64::MAX - 1) })
    );
}

#[test]
fn with_first_handle_starts_numbering_there() {
    let mut map = ConnectionMap::with_first_handle(100);
    assert_eq!(map.len(), 0);
    assert_eq!(map.on_connect(5), Ok(ConnectionHandle(100)));
    assert_eq!(map.on_connect(6), Ok(ConnectionHandle(101)));
}

#[test]
fn on_disconnect_removes_the_mapping_and_yields_the_handle() {
    let mut map = ConnectionMap::new();
    let first = map.on_connect(40).unwrap();
    let second = map.on_connect(7).unwrap();
    assert_eq!(map.on_disconnect(40), Some(first));
    assert_eq!(map.lookup_handle(40), None);
    assert_eq!(map.lookup_transport(first), None);
    assert_eq!(map.lookup_handle(7), Some(second));
    assert_eq!(map.lookup_transport(second), Some(7));
    assert_eq!(map.len(), 1);
}

#[test]
fn on_disconnect_of_an_unmapped_id_changes_nothing() {
    let mut map = ConnectionMap::new();
    let handle = map.on_connect(40).unwrap();
    assert_eq!(map.on_disconnect(41), None);
    assert_eq!(map.on_disconnect(40), Some(handle));
    assert_eq!(map.on_disconnect(40), None);
    assert_eq!(map.len(), 0);
}

#[test]
fn release_removes_the_mapping_and_yields_the_transport_id() {
    let mut map = ConnectionMap::new();
    let first = map.on_connect(40).unwrap();
    let second = map.on_connect(7).unwrap();
    assert_eq!(map.release(second), Some(7));
    assert_eq!(map.lookup_handle(7), None);
    assert_eq!(map.lookup_transport(second), None);
    assert_eq!(map.lookup_handle(40), Some(first));
    assert_eq!(map.release(second), None);
    assert_eq!(map.release(ConnectionHandle(99)), None);
    assert_eq!(map.len(), 1);
}

#[test]
fn a_handle_is_never_made_twice() {
    let mut map = ConnectionMap::new();
    let first = map.on_connect(40).unwrap();
    assert_eq!(map.on_disconnect(40), Some(first));
    let again = map.on_connect(40).unwrap();
    assert_ne!(first, again);
    assert_eq!(again, ConnectionHandle(1));
    assert_eq!(map.lookup_transport(first), None);
    assert_eq!(map.lookup_transport(again), Some(40));
}

#[test]
fn live_connections_have_different_handles() {
    let mut map = ConnectionMap::new();
    for transport_id in [9u64, 3, 12, 5, 8] {
        map.on_connect(transport_id).unwrap();
    }
    map.on_disconnect(12);
    map.on_connect(100).unwrap();
    map.release(ConnectionHandle(0));
    map.on_connect(9).unwrap();
    let connections = map.connections();
    assert_eq!(connections.len(), 5);
    for (i, a) in connections.iter().enumerate() {
        for b in connections.iter().skip(i + 1) {
            assert_ne!(a.transport_id, b.transport_id);
            assert_ne!(a.handle, b.handle);
        }
    }
}

#[test]
fn connections_are_listed_oldest_first() {
    let mut map = ConnectionMap::new();
    map.on_connect(40).unwrap();
    map.on_connect(7).unwrap();
    map.on_connect(19).unwrap();
    map.on_disconnect(7);
    assert_eq!(
        map.connections(),
        vec![
            Connection { transport_id: 40, handle: ConnectionHandle(0) },
            Connection { transport_id: 19, handle: ConnectionHandle(2) },
        ]
    );
}

#[test]
fn apply_reports_what_each_event_changed() {
    let mut map = ConnectionMap::new();
    assert_eq!(
        map.apply(ConnectionEvent::Connected(40)),
        Some(ConnectionChange::Added(Connection { transport_id: 40, handle: ConnectionHandle(0) }))
    );
    assert_eq!(map.apply(ConnectionEvent::Connected(40)), None);
    assert_eq!(
        map.apply(ConnectionEvent::Connected(41)),
        Some(ConnectionChange::Added(Connection { transport_id: 41, handle: ConnectionHandle(1) }))
    );
    assert_eq!(
        map.apply(ConnectionEvent::Lost(40)),
        Some(ConnectionChange::Removed(Connection {
            transport_id: 40,
            handle: ConnectionHandle(0)
        }))
    );
    assert_eq!(map.apply(ConnectionEvent::Lost(40)), None);
    assert_eq!(map.apply(ConnectionEvent::Released(ConnectionHandle(0))), None);
    assert_eq!(
        map.apply(ConnectionEvent::Released(ConnectionHandle(1))),
        Some(ConnectionChange::Removed(Connection {
            transport_id: 41,
            handle: ConnectionHandle(1)
        }))
    );
    assert_eq!(map.len(), 0);
}

#[test]
fn apply_ignores_a_connection_when_no_handle_is_left() {
    let mut map = ConnectionMap::with_first_handle(u64::MAX);
    assert_eq!(map.apply(ConnectionEvent::Connected(1)), None);
    assert_eq!(map.len(), 0);
}

use std::collections::HashMap;

use bevy_replicon_quinnet::identity::{
    Connection, ConnectionChange, ConnectionEvent, ConnectionHandle, ConnectionMap,
};
use bevy_replicon_quinnet::relay::{to_client_packets, ClientMessage, ClientPacket};
use bevy_replicon_quinnet::stats::{StatisticsSampler, BYTES_PER_SEC_PERIOD_NANOS};

/// A small generator of repeatable numbers.
struct Numbers(u64);

impl Numbers {
    fn next(&mut self) -> u64 {
        self.0 = self.0.wrapping_mul(6364136223846793005).wrapping_add(1442695040888963407);
        self.0 >> 33
    }
}

/// The map as two plain hash maps and a counter.
struct Model {
    by_transport: HashMap<u64, u64>,
    by_handle: HashMap<u64, u64>,
    issued: u64,
}

impl Model {
    fn apply(&mut self, event: ConnectionEvent) -> Option<ConnectionChange> {
        match event {
            ConnectionEvent::Connected(transport_id) => {
                if self.by_transport.contains_key(&transport_id) {
                    return None;
                }
                let handle = self.issued;
                self.issued += 1;
                self.by_transport.insert(transport_id, handle);
                self.by_handle.insert(handle, transport_id);
                Some(ConnectionChange::Added(Connection {
                    transport_id,
                    handle: ConnectionHandle(handle),
                }))
            }
            ConnectionEvent::Lost(transport_id) => {
                let handle = self.by_transport.remove(&transport_id)?;
                self.by_handle.remove(&handle);
                Some(ConnectionChange::Removed(Connection {
                    transport_id,
                    handle: ConnectionHandle(handle),
                }))
            }
            ConnectionEvent::Released(ConnectionHandle(handle)) => {
                let transport_id = self.by_handle.remove(&handle)?;
                self.by_transport.remove(&transport_id);
                Some(ConnectionChange::Removed(Connection {
                    transport_id,
                    handle: ConnectionHandle(handle),
                }))
            }
        }
    }
}

#[test]
fn the_map_agrees_with_a_plain_model_on_a_long_run_of_events() {
    let mut numbers = Numbers(7);
    let mut map = ConnectionMap::new();
    let mut model = Model { by_transport: HashMap::new(), by_handle: HashMap::new(), issued: 0 };
    for _ in 0..5_000 {
        let event = match numbers.next() % 3 {
            0 => ConnectionEvent::Connected(numbers.next() % 24),
            1 => ConnectionEvent::Lost(numbers.next() % 24),
            _ => ConnectionEvent::Released(ConnectionHandle(numbers.next() % (model.issued + 2))),
        };
        assert_eq!(map.apply(event), model.apply(event));
        assert_eq!(map.len(), model.by_transport.len());
        let transport_id = numbers.next() % 24;
        assert_eq!(
            map.lookup_handle(transport_id),
            model.by_transport.get(&transport_id).map(|handle| ConnectionHandle(*handle))
        );
        let handle = numbers.next() % (model.issued + 2);
        assert_eq!(
            map.lookup_transport(ConnectionHandle(handle)),
            model.by_handle.get(&handle).copied()
        );
    }
    let connections = map.connections();
    for (i, a) in connections.iter().enumerate() {
        assert_eq!(map.lookup_handle(a.transport_id), Some(a.handle));
        assert_eq!(map.lookup_transport(a.handle), Some(a.transport_id));
        for b in &connections[i + 1..] {
            assert_ne!(a.transport_id, b.transport_id);
            assert_ne!(a.handle, b.handle);
            assert!(a.handle.0 < b.handle.0);
        }
    }
}

#[test]
fn routing_agrees_with_a_filter_over_the_queue() {
    let mut numbers = Numbers(11);
    let mut map = ConnectionMap::new();
    for transport_id in 100..110 {
        map.on_connect(transport_id).unwrap();
    }
    for transport_id in [101, 104, 108] {
        map.on_disconnect(transport_id);
    }
    let queue: Vec<(u64, usize, u64)> =
        (0..2_000).map(|i| (numbers.next() % 12, (numbers.next() % 600) as usize, i)).collect();
    let expected: Vec<ClientPacket<u64>> = queue
        .iter()
        .filter_map(|(handle, channel_id, payload)| {
            map.lookup_transport(ConnectionHandle(*handle)).map(|transport_id| ClientPacket {
                transport_id,
                channel_id: (*channel_id % 256) as u8,
                payload: *payload,
            })
        })
        .collect();
    let messages: Vec<ClientMessage<u64>> = queue
        .iter()
        .map(|(handle, channel_id, payload)| ClientMessage {
            client: ConnectionHandle(*handle),
            channel_id: *channel_id,
            payload: *payload,
        })
        .collect();
    let packets = to_client_packets(&map, messages);
    assert!(packets.len() < queue.len());
    assert!(!packets.is_empty());
    assert_eq!(packets, expected);
    for pair in packets.windows(2) {
        assert!(pair[0].payload < pair[1].payload);
    }
}

#[test]
fn the_sampler_agrees_with_plain_arithmetic_on_a_long_run_of_ticks() {
    let mut numbers = Numbers(3);
    let mut sampler = StatisticsSampler::new();
    let mut elapsed: u128 = 0;
    let mut samples = 0;
    for _ in 0..10_000 {
        let delta = numbers.next() % 40_000_000;
        elapsed += delta as u128;
        let due = elapsed >= BYTES_PER_SEC_PERIOD_NANOS as u128;
        if due {
            elapsed = 0;
            samples += 1;
        }
        assert_eq!(sampler.advance(delta), due);
        assert_eq!(sampler.elapsed_nanos() as u128, elapsed);
    }
    assert!(samples > 1_000);
}

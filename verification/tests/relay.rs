use bevy_replicon_quinnet::identity::{ConnectionHandle, ConnectionMap};
use bevy_replicon_quinnet::relay::{
    to_client_messages, to_client_packets, to_messages, to_packets, transport_channel,
    ClientMessage, ClientPacket, Message, Packet,
};

#[test]
fn transport_channel_is_the_id_of_every_declared_channel() {
    assert_eq!(transport_channel(0), 0);
    assert_eq!(transport_channel(1), 1);
    assert_eq!(transport_channel(254), 254);
    assert_eq!(transport_channel(255), 255);
}

#[test]
fn transport_channel_wraps_beyond_one_byte() {
    assert_eq!(transport_channel(256), 0);
    assert_eq!(transport_channel(259), 3);
    assert_eq!(transport_channel(usize::MAX), 255);
}

#[test]
fn to_packets_keeps_order_channel_and_payload() {
    let packets = to_packets(vec![
        Message { channel_id: 1, payload: vec![1u8, 2] },
        Message { channel_id: 0, payload: vec![3u8] },
        Message { channel_id: 1, payload: vec![] },
    ]);
    assert_eq!(
        packets,
        vec![
            Packet { channel_id: 1, payload: vec![1u8, 2] },
            Packet { channel_id: 0, payload: vec![3u8] },
            Packet { channel_id: 1, payload: vec![] },
        ]
    );
}

#[test]
fn to_packets_of_nothing_is_nothing() {
    assert_eq!(to_packets(Vec::<Message<Vec<u8>>>::new()), vec![]);
}

#[test]
fn to_messages_keeps_order_channel_and_payload() {
    let messages = to_messages(vec![
        Packet { channel_id: 255, payload: "a" },
        Packet { channel_id: 0, payload: "b" },
    ]);
    assert_eq!(
        messages,
        vec![Message { channel_id: 255, payload: "a" }, Message { channel_id: 0, payload: "b" }]
    );
}

#[test]
fn to_client_messages_tags_every_packet_with_the_client() {
    let client = ConnectionHandle(4);
    let messages = to_client_messages(
        client,
        vec![
            Packet { channel_id: 2, payload: 'x' },
            Packet { channel_id: 2, payload: 'y' },
            Packet { channel_id: 0, payload: 'z' },
        ],
    );
    assert_eq!(
        messages,
        vec![
            ClientMessage { client, channel_id: 2, payload: 'x' },
            ClientMessage { client, channel_id: 2, payload: 'y' },
            ClientMessage { client, channel_id: 0, payload: 'z' },
        ]
    );
}

#[test]
fn to_client_packets_resolves_each_client() {
    let mut map = ConnectionMap::new();
    let first = map.on_connect(40).unwrap();
    let second = map.on_connect(7).unwrap();
    let packets = to_client_packets(
        &map,
        vec![
            ClientMessage { client: second, channel_id: 1, payload: 10u32 },
            ClientMessage { client: first, channel_id: 0, payload: 11u32 },
            ClientMessage { client: second, channel_id: 1, payload: 12u32 },
        ],
    );
    assert_eq!(
        packets,
        vec![
            ClientPacket { transport_id: 7, channel_id: 1, payload: 10u32 },
            ClientPacket { transport_id: 40, channel_id: 0, payload: 11u32 },
            ClientPacket { transport_id: 7, channel_id: 1, payload: 12u32 },
        ]
    );
}

#[test]
fn to_client_packets_drops_what_cannot_be_resolved() {
    let mut map = ConnectionMap::new();
    let first = map.on_connect(40).unwrap();
    let gone = map.on_connect(7).unwrap();
    map.on_disconnect(7);
    let packets = to_client_packets(
        &map,
        vec![
            ClientMessage { client: gone, channel_id: 0, payload: 1u8 },
            ClientMessage { client: first, channel_id: 0, payload: 2u8 },
            ClientMessage { client: ConnectionHandle(77), channel_id: 0, payload: 3u8 },
            ClientMessage { client: first, channel_id: 300, payload: 4u8 },
        ],
    );
    assert_eq!(
        packets,
        vec![
            ClientPacket { transport_id: 40, channel_id: 0, payload: 2u8 },
            ClientPacket { transport_id: 40, channel_id: 44, payload: 4u8 },
        ]
    );
}

#[test]
fn to_client_packets_with_no_connection_sends_nothing() {
    let map = ConnectionMap::new();
    let packets = to_client_packets(
        &map,
        vec![ClientMessage { client: ConnectionHandle(0), channel_id: 0, payload: 1u8 }],
    );
    assert_eq!(packets, vec![]);
}

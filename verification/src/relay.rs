//! Packet relay: moves payloads between the message layer's queues and the
//! transport's channels.
//!
//! The relay never looks into a payload and never holds one back: what is
//! handed to it comes out in the same order, less what is addressed to a
//! client that is gone. On the message layer's side a channel is named by a
//! `usize`, on the transport's side by one byte; a channel id is carried
//! over by its value modulo 256, which is the id itself for every channel
//! that a list of the permitted length declares.

use crate::identity::{ConnectionHandle, ConnectionMap, ConnectionTable};
use vstd::prelude::*;

verus! {

/// A payload in a queue of the client's message layer.
#[derive(Debug, PartialEq, Eq)]
pub struct Message<P> {
    /// Channel of the message layer that the payload belongs to.
    pub channel_id: usize,
    /// The bytes, which the relay does not interpret.
    pub payload: P,
}

/// A payload in a queue of the server's message layer, with the client that
/// it comes from or goes to.
#[derive(Debug, PartialEq, Eq)]
pub struct ClientMessage<P> {
    /// The client.
    pub client: ConnectionHandle,
    /// Channel of the message layer that the payload belongs to.
    pub channel_id: usize,
    /// The bytes, which the relay does not interpret.
    pub payload: P,
}

/// A payload that crosses one connection of the transport.
#[derive(Debug, PartialEq, Eq)]
pub struct Packet<P> {
    /// Channel of the transport that the payload travels on.
    pub channel_id: u8,
    /// The bytes, which the relay does not interpret.
    pub payload: P,
}

/// A payload that the server hands to the transport, with the connection
/// that it is sent on.
#[derive(Debug, PartialEq, Eq)]
pub struct ClientPacket<P> {
    /// Connection of the transport.
    pub transport_id: u64,
    /// Channel of the transport that the payload travels on.
    pub channel_id: u8,
    /// The bytes, which the relay does not interpret.
    pub payload: P,
}

/// The transport channel that stands for a channel of the message layer.
pub open spec fn channel_of(channel_id: usize) -> u8 {
    (channel_id % 256) as u8
}

/// The packet that carries a message of the client.
pub open spec fn packet_of<P>(message: Message<P>) -> Packet<P> {
    Packet { channel_id: channel_of(message.channel_id), payload: message.payload }
}

/// The message that a packet becomes on the client.
pub open spec fn message_of<P>(packet: Packet<P>) -> Message<P> {
    Message { channel_id: packet.channel_id as usize, payload: packet.payload }
}

/// The message that a packet from `client` becomes on the server.
pub open spec fn client_message_of<P>(client: ConnectionHandle, packet: Packet<P>) -> ClientMessage<
    P,
> {
    ClientMessage { client, channel_id: packet.channel_id as usize, payload: packet.payload }
}

/// The packet that carries a message of the server, if its client is live.
pub open spec fn route<P>(table: ConnectionTable, message: ClientMessage<P>) -> Option<
    ClientPacket<P>,
> {
    match table.transport_of(message.client) {
        Some(transport_id) => Some(
            ClientPacket {
                transport_id,
                channel_id: channel_of(message.channel_id),
                payload: message.payload,
            },
        ),
        None => None,
    }
}

/// What the client hands to the transport for a send queue: one packet per
/// message, in the queue's order.
pub open spec fn packets_of<P>(messages: Seq<Message<P>>) -> Seq<Packet<P>> {
    messages.map_values(|message: Message<P>| packet_of(message))
}

/// What the client's receive queue gets for the packets that arrived: one
/// message per packet, in the order of arrival.
pub open spec fn messages_of<P>(packets: Seq<Packet<P>>) -> Seq<Message<P>> {
    packets.map_values(|packet: Packet<P>| message_of(packet))
}

/// What the server's receive queue gets for the packets that arrived from
/// one client: one message per packet, in the order of arrival.
pub open spec fn client_messages_of<P>(client: ConnectionHandle, packets: Seq<Packet<P>>) -> Seq<
    ClientMessage<P>,
> {
    packets.map_values(|packet: Packet<P>| client_message_of(client, packet))
}

/// What the server hands to the transport for a send queue: the packets of
/// the messages whose client is live, in the queue's order.
pub open spec fn routed<P>(table: ConnectionTable, messages: Seq<ClientMessage<P>>) -> Seq<
    ClientPacket<P>,
>
    decreases messages.len(),
{
    if messages.len() == 0 {
        Seq::empty()
    } else {
        let before = routed(table, messages.drop_last());
        match route(table, messages.last()) {
            Some(packet) => before.push(packet),
            None => before,
        }
    }
}

/// The payloads among `packets` that travel on `channel`, in order.
pub open spec fn packet_stream<P>(packets: Seq<Packet<P>>, channel: u8) -> Seq<P>
    decreases packets.len(),
{
    if packets.len() == 0 {
        Seq::empty()
    } else {
        let before = packet_stream(packets.drop_last(), channel);
        if packets.last().channel_id == channel {
            before.push(packets.last().payload)
        } else {
            before
        }
    }
}

/// The payloads among `packets` that travel on `channel` of the connection
/// `transport_id`, in order.
pub open spec fn client_packet_stream<P>(
    packets: Seq<ClientPacket<P>>,
    transport_id: u64,
    channel: u8,
) -> Seq<P>
    decreases packets.len(),
{
    if packets.len() == 0 {
        Seq::empty()
    } else {
        let before = client_packet_stream(packets.drop_last(), transport_id, channel);
        if packets.last().transport_id == transport_id && packets.last().channel_id == channel {
            before.push(packets.last().payload)
        } else {
            before
        }
    }
}

/// The payloads among `messages` whose channel is carried by the transport
/// channel `channel`, in order.
pub open spec fn message_stream<P>(messages: Seq<Message<P>>, channel: u8) -> Seq<P>
    decreases messages.len(),
{
    if messages.len() == 0 {
        Seq::empty()
    } else {
        let before = message_stream(messages.drop_last(), channel);
        if channel_of(messages.last().channel_id) == channel {
            before.push(messages.last().payload)
        } else {
            before
        }
    }
}

/// The payloads among `messages` that belong to `client` and whose channel
/// is carried by the transport channel `channel`, in order.
pub open spec fn client_message_stream<P>(
    messages: Seq<ClientMessage<P>>,
    client: ConnectionHandle,
    channel: u8,
) -> Seq<P>
    decreases messages.len(),
{
    if messages.len() == 0 {
        Seq::empty()
    } else {
        let before = client_message_stream(messages.drop_last(), client, channel);
        if messages.last().client == client && channel_of(messages.last().channel_id) == channel {
            before.push(messages.last().payload)
        } else {
            before
        }
    }
}

/// Sending on the client keeps the order on every channel: what is handed
/// to the transport on a channel is what the send queue held for it.
pub proof fn client_send_keeps_channel_order<P>(messages: Seq<Message<P>>, channel: u8)
    ensures
        packet_stream(packets_of(messages), channel) == message_stream(messages, channel),
    decreases messages.len(),
{
    if messages.len() > 0 {
        client_send_keeps_channel_order(messages.drop_last(), channel);
        assert(packets_of(messages).drop_last() =~= packets_of(messages.drop_last()));
    }
}

/// Receiving on the client keeps the order on every channel: what the
/// receive queue gets for a channel is what arrived on it.
pub proof fn client_receive_keeps_channel_order<P>(packets: Seq<Packet<P>>, channel: u8)
    ensures
        message_stream(messages_of(packets), channel) == packet_stream(packets, channel),
    decreases packets.len(),
{
    if packets.len() > 0 {
        client_receive_keeps_channel_order(packets.drop_last(), channel);
        assert(messages_of(packets).drop_last() =~= messages_of(packets.drop_last()));
    }
}

/// Receiving on the server keeps the order on every channel: what the
/// receive queue gets from a client for a channel is what arrived on it
/// from that client's connection.
pub proof fn server_receive_keeps_channel_order<P>(
    client: ConnectionHandle,
    packets: Seq<Packet<P>>,
    channel: u8,
)
    ensures
        client_message_stream(client_messages_of(client, packets), client, channel)
            == packet_stream(packets, channel),
    decreases packets.len(),
{
    if packets.len() > 0 {
        server_receive_keeps_channel_order(client, packets.drop_last(), channel);
        assert(client_messages_of(client, packets).drop_last() =~= client_messages_of(
            client,
            packets.drop_last(),
        ));
    }
}

/// Sending on the server keeps the order on every channel of every live
/// connection: what is handed to the transport for it is what the send
/// queue held for its client.
pub proof fn server_send_keeps_channel_order<P>(
    table: ConnectionTable,
    messages: Seq<ClientMessage<P>>,
    client: ConnectionHandle,
    transport_id: u64,
    channel: u8,
)
    requires
        table.wf(),
        table.transport_of(client) == Some(transport_id),
    ensures
        client_packet_stream(routed(table, messages), transport_id, channel)
            == client_message_stream(messages, client, channel),
    decreases messages.len(),
{
    if messages.len() > 0 {
        server_send_keeps_channel_order(
            table,
            messages.drop_last(),
            client,
            transport_id,
            channel,
        );
        let last = messages.last();
        table.lemma_lookups_agree(transport_id, client);
        table.lemma_lookups_agree(transport_id, last.client);
        match route(table, last) {
            Some(packet) => {
                assert(routed(table, messages).drop_last() =~= routed(table, messages.drop_last()));
            },
            None => {},
        }
    }
}

/// Nothing is sent for a client that is gone, and everything that is sent
/// goes to a live connection.
pub proof fn server_sends_to_live_connections_only<P>(
    table: ConnectionTable,
    messages: Seq<ClientMessage<P>>,
)
    requires
        table.wf(),
    ensures
        forall|i: int|
            0 <= i < routed(table, messages).len() ==> table.maps_transport(
                (#[trigger] routed(table, messages)[i]).transport_id,
            ),
    decreases messages.len(),
{
    if messages.len() > 0 {
        server_sends_to_live_connections_only(table, messages.drop_last());
        let before = routed(table, messages.drop_last());
        if table.holds_handle(messages.last().client) {
            table.lemma_entry_is_found(table.position_of_handle(messages.last().client));
        }
        assert forall|i: int| 0 <= i < routed(table, messages).len() implies table.maps_transport(
            (#[trigger] routed(table, messages)[i]).transport_id,
        ) by {
            if i < before.len() {
                assert(routed(table, messages)[i] == before[i]);
            }
        }
    }
}

/// From client to server, an ordered reliable channel delivers in the order
/// sent. If the transport hands over on the channel what was handed to it
/// on the channel, in order, as such a channel does while the connection
/// stays open, then the server's receive queue gets for the channel exactly
/// what the client's send queue held for it, in the same order.
pub proof fn ordered_channel_delivers_in_order_to_server<P>(
    sent: Seq<Message<P>>,
    arrived: Seq<Packet<P>>,
    client: ConnectionHandle,
    channel: u8,
)
    requires
        packet_stream(arrived, channel) == packet_stream(packets_of(sent), channel),
    ensures
        client_message_stream(client_messages_of(client, arrived), client, channel)
            == message_stream(sent, channel),
{
    client_send_keeps_channel_order(sent, channel);
    server_receive_keeps_channel_order(client, arrived, channel);
}

/// From server to client, an ordered reliable channel delivers in the order
/// sent. If the transport hands over on the channel what was handed to it
/// on the channel of the client's connection, in order, then the client's
/// receive queue gets for the channel exactly what the server's send queue
/// held for that client and channel, in the same order.
pub proof fn ordered_channel_delivers_in_order_to_client<P>(
    table: ConnectionTable,
    sent: Seq<ClientMessage<P>>,
    arrived: Seq<Packet<P>>,
    client: ConnectionHandle,
    transport_id: u64,
    channel: u8,
)
    requires
        table.wf(),
        table.transport_of(client) == Some(transport_id),
        packet_stream(arrived, channel) == client_packet_stream(
            routed(table, sent),
            transport_id,
            channel,
        ),
    ensures
        message_stream(messages_of(arrived), channel) == client_message_stream(
            sent,
            client,
            channel,
        ),
{
    server_send_keeps_channel_order(table, sent, client, transport_id, channel);
    client_receive_keeps_channel_order(arrived, channel);
}

/// Computes [`channel_of`]. An id that fits one byte, as every id of a
/// channel list of the permitted length does, is carried over as it is.
pub fn transport_channel(channel_id: usize) -> (channel: u8)
    ensures
        channel == channel_of(channel_id),
        channel_id <= u8::MAX ==> channel == channel_id,
{
    (channel_id % 256) as u8
}

/// Turns the client's send queue into the packets for the transport.
pub fn to_packets<P>(messages: Vec<Message<P>>) -> (packets: Vec<Packet<P>>)
    ensures
        packets@ == packets_of(messages@),
        packets@.len() == messages@.len(),
{
    let mut packets: Vec<Packet<P>> = Vec::new();
    for message in it: messages.into_iter()
        invariant
            it.seq() == messages@,
            packets@ == packets_of(messages@.take(it.index())),
    {
        let Message { channel_id, payload } = message;
        packets.push(Packet { channel_id: transport_channel(channel_id), payload });
        proof {
            assert(packets_of(messages@.take(it.index() + 1)) =~= packets_of(
                messages@.take(it.index()),
            ).push(packet_of(messages@[it.index()])));
        }
    }
    proof {
        assert(messages@.take(messages@.len() as int) =~= messages@);
    }
    packets
}

/// Turns the packets that arrived on the client's connection into the
/// entries of its receive queue.
pub fn to_messages<P>(packets: Vec<Packet<P>>) -> (messages: Vec<Message<P>>)
    ensures
        messages@ == messages_of(packets@),
        messages@.len() == packets@.len(),
{
    let mut messages: Vec<Message<P>> = Vec::new();
    for packet in it: packets.into_iter()
        invariant
            it.seq() == packets@,
            messages@ == messages_of(packets@.take(it.index())),
    {
        let Packet { channel_id, payload } = packet;
        messages.push(Message { channel_id: channel_id as usize, payload });
        proof {
            assert(messages_of(packets@.take(it.index() + 1)) =~= messages_of(
                packets@.take(it.index()),
            ).push(message_of(packets@[it.index()])));
        }
    }
    proof {
        assert(packets@.take(packets@.len() as int) =~= packets@);
    }
    messages
}

/// Turns the packets that arrived from one client into the entries of the
/// server's receive queue.
pub fn to_client_messages<P>(client: ConnectionHandle, packets: Vec<Packet<P>>) -> (messages: Vec<
    ClientMessage<P>,
>)
    ensures
        messages@ == client_messages_of(client, packets@),
        messages@.len() == packets@.len(),
{
    let mut messages: Vec<ClientMessage<P>> = Vec::new();
    for packet in it: packets.into_iter()
        invariant
            it.seq() == packets@,
            messages@ == client_messages_of(client, packets@.take(it.index())),
    {
        let Packet { channel_id, payload } = packet;
        messages.push(ClientMessage { client, channel_id: channel_id as usize, payload });
        proof {
            assert(client_messages_of(client, packets@.take(it.index() + 1))
                =~= client_messages_of(client, packets@.take(it.index())).push(
                client_message_of(client, packets@[it.index()]),
            ));
        }
    }
    proof {
        assert(packets@.take(packets@.len() as int) =~= packets@);
    }
    messages
}

/// Turns the server's send queue into the packets for the transport.
///
/// A message whose client has no live connection is dropped: under
/// concurrent disconnects that is expected, and no error.
pub fn to_client_packets<P>(map: &ConnectionMap, messages: Vec<ClientMessage<P>>) -> (packets: Vec<
    ClientPacket<P>,
>)
    ensures
        packets@ == routed(map@, messages@),
{
    let mut packets: Vec<ClientPacket<P>> = Vec::new();
    for message in it: messages.into_iter()
        invariant
            it.seq() == messages@,
            packets@ == routed(map@, messages@.take(it.index())),
    {
        proof {
            let next = messages@.take(it.index() + 1);
            assert(next.drop_last() =~= messages@.take(it.index()));
            assert(next.last() == messages@[it.index()]);
        }
        let ClientMessage { client, channel_id, payload } = message;
        match map.lookup_transport(client) {
            Some(transport_id) => {
                packets.push(
                    ClientPacket { transport_id, channel_id: transport_channel(channel_id), payload },
                );
            },
            None => {},
        }
    }
    proof {
        assert(messages@.take(messages@.len() as int) =~= messages@);
    }
    packets
}

} // verus!

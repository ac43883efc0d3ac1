//! The server half of the bridge.
//!
//! The host calls into it once per phase of a tick, in this order: endpoint
//! state, connection events, inbound packets, statistics; then, after the
//! application has run, outbound packets and disconnect requests. Whatever
//! the order, a client whose connection is gone is neither read from nor
//! sent to: the identity map decides, and a miss is no error.

use crate::identity::{
    lost_connection_exposes_no_handle,
    unmapped_id_stays_unmapped,
    Connection,
    ConnectionChange,
    ConnectionEvent,
    ConnectionHandle,
    ConnectionMap,
    ConnectionTable,
};
use crate::lifecycle::{observed_server_state, server_transition, ServerState};
use crate::relay::{
    client_messages_of,
    routed,
    server_sends_to_live_connections_only,
    to_client_messages,
    to_client_packets,
    ClientMessage,
    ClientPacket,
    Packet,
};
use crate::stats::{
    elapsed_after,
    sample_due,
    statistics_update,
    statistics_update_of,
    StatisticsSampler,
    StatisticsUpdate,
    TransportReading,
};
use vstd::prelude::*;

verus! {

/// What the host read from the transport for one of its connections.
#[derive(Clone, Copy, Debug, PartialEq, Eq, Structural)]
pub struct ConnectionReading {
    /// The connection that was read.
    pub transport_id: u64,
    /// Its counters.
    pub reading: TransportReading,
}

/// The figures to publish for one client.
#[derive(Clone, Copy, Debug, PartialEq, Eq, Structural)]
pub struct ClientStatistics {
    /// The client and its connection.
    pub connection: Connection,
    /// What to publish. Where it holds throughput figures, the host clears
    /// the byte counters of the connection.
    pub update: StatisticsUpdate,
}

/// The events that the transport's two streams stand for: every accepted
/// connection first, then every lost one, each stream in its own order.
pub open spec fn transport_events(connected: Seq<u64>, lost: Seq<u64>) -> Seq<ConnectionEvent> {
    connected.map_values(|transport_id: u64| ConnectionEvent::Connected(transport_id))
        + lost.map_values(|transport_id: u64| ConnectionEvent::Lost(transport_id))
}

/// The events that a run of disconnect requests stands for.
pub open spec fn release_events(requests: Seq<ConnectionHandle>) -> Seq<ConnectionEvent> {
    requests.map_values(|client: ConnectionHandle| ConnectionEvent::Released(client))
}

/// The figures for one reading, if its connection is mapped.
pub open spec fn statistics_of(
    table: ConnectionTable,
    reading: ConnectionReading,
    sample_due: bool,
) -> Option<ClientStatistics> {
    match table.handle_of(reading.transport_id) {
        Some(handle) => Some(
            ClientStatistics {
                connection: Connection { transport_id: reading.transport_id, handle },
                update: statistics_update_of(reading.reading, sample_due),
            },
        ),
        None => None,
    }
}

/// The figures for a run of readings: one entry for each reading whose
/// connection is mapped, in the order of the readings.
pub open spec fn reported(
    table: ConnectionTable,
    readings: Seq<ConnectionReading>,
    sample_due: bool,
) -> Seq<ClientStatistics>
    decreases readings.len(),
{
    if readings.len() == 0 {
        Seq::empty()
    } else {
        let before = reported(table, readings.drop_last(), sample_due);
        match statistics_of(table, readings.last(), sample_due) {
            Some(statistics) => before.push(statistics),
            None => before,
        }
    }
}

/// A connection that the transport reports lost is unmapped once the events
/// of the tick are taken, whatever else the tick brings: the tick's losses
/// are taken after its new connections.
pub proof fn lost_connection_is_unmapped_after_the_tick(
    table: ConnectionTable,
    connected: Seq<u64>,
    lost: Seq<u64>,
    transport_id: u64,
)
    requires
        table.wf(),
        lost.contains(transport_id),
    ensures
        table.after(transport_events(connected, lost)).handle_of(transport_id) is None,
{
    let at = choose|i: int| 0 <= i < lost.len() && lost[i] == transport_id;
    let head = transport_events(connected, lost.take(at));
    let tail = transport_events(Seq::empty(), lost.skip(at + 1));
    let event = ConnectionEvent::Lost(transport_id);
    assert(transport_events(connected, lost) =~= head.push(event) + tail);
    table.lemma_after_concat(head.push(event), tail);
    lost_connection_exposes_no_handle(table, head, transport_id);
    table.lemma_after(head.push(event));
    unmapped_id_stays_unmapped(table.after(head.push(event)), tail, transport_id);
}

/// A client that the application asks to disconnect is gone once the
/// requests of the tick are taken: its handle names no connection any more.
pub proof fn requested_client_is_gone_after_the_tick(
    table: ConnectionTable,
    requests: Seq<ConnectionHandle>,
    client: ConnectionHandle,
)
    requires
        table.wf(),
        requests.contains(client),
    ensures
        table.after(release_events(requests)).transport_of(client) is None,
    decreases requests.len(),
{
    let events = release_events(requests);
    assert(events.drop_last() =~= release_events(requests.drop_last()));
    let before = table.after(events.drop_last());
    table.lemma_after(events.drop_last());
    before.lemma_release(requests.last());
    if requests.last() != client {
        assert(requests.drop_last().contains(client)) by {
            let at = choose|i: int| 0 <= i < requests.len() && requests[i] == client;
            assert(requests.drop_last()[at] == client);
        }
        requested_client_is_gone_after_the_tick(table, requests.drop_last(), client);
    }
}

/// The server half of the bridge: the endpoint's state as the message layer
/// knows it, the identity map of the connected clients, and the timer of
/// the statistics sampler.
#[derive(Debug)]
pub struct RepliconQuinnetServerPlugin {
    state: ServerState,
    connections: ConnectionMap,
    sampler: StatisticsSampler,
}

impl RepliconQuinnetServerPlugin {
    /// The endpoint's state as last written to the message layer.
    pub closed spec fn lifecycle(&self) -> ServerState {
        self.state
    }

    /// What the identity map holds.
    pub closed spec fn table(&self) -> ConnectionTable {
        self.connections@
    }

    /// Time collected in the open sampling window, in nanoseconds.
    pub closed spec fn elapsed(&self) -> nat {
        self.sampler.elapsed()
    }

    /// A bridge for an endpoint that is closed and has no client.
    pub fn new() -> (plugin: Self)
        ensures
            plugin.table().wf(),
            plugin.lifecycle() == ServerState::Stopped,
            plugin.table() == ConnectionTable::empty(),
            plugin.elapsed() == 0,
    {
        RepliconQuinnetServerPlugin {
            state: ServerState::Stopped,
            connections: ConnectionMap::new(),
            sampler: StatisticsSampler::new(),
        }
    }

    /// The endpoint's state as last written to the message layer.
    pub fn state(&self) -> (state: ServerState)
        ensures
            state == self.lifecycle(),
    {
        self.state
    }

    /// The live connections, oldest first.
    pub fn connections(&self) -> (connections: Vec<Connection>)
        ensures
            connections@ == self.table().entries,
    {
        self.connections.connections()
    }

    /// Looks up the client that stands for a transport connection.
    pub fn lookup_handle(&self, transport_id: u64) -> (client: Option<ConnectionHandle>)
        ensures
            client == self.table().handle_of(transport_id),
    {
        self.connections.lookup_handle(transport_id)
    }

    /// Looks up the transport connection of a client.
    pub fn lookup_transport(&self, client: ConnectionHandle) -> (transport_id: Option<u64>)
        ensures
            transport_id == self.table().transport_of(client),
    {
        self.connections.lookup_transport(client)
    }

    /// Follows the endpoint: the state becomes `Running` while the transport
    /// listens and `Stopped` while it does not. Returns the state to write
    /// to the message layer on the tick on which it changes, and `None` on
    /// every other tick.
    pub fn sync_state(&mut self, listening: bool) -> (written: Option<ServerState>)
        ensures
            final(self).lifecycle() == observed_server_state(listening),
            written == if old(self).lifecycle() != observed_server_state(listening) {
                Some(observed_server_state(listening))
            } else {
                None
            },
            final(self).table() == old(self).table(),
            final(self).elapsed() == old(self).elapsed(),
    {
        let transition = server_transition(self.state, listening);
        self.state = transition.state;
        if transition.fired {
            Some(transition.state)
        } else {
            None
        }
    }

    /// Takes the connection events of one tick: the ids of the connections
    /// that the transport accepted, then the ids of those it reported lost.
    ///
    /// Each accepted connection gets a new handle, unless its id is mapped
    /// already; such an event is ignored. Each lost connection is taken out
    /// of the map; an id that is not mapped is ignored, since the
    /// application may have removed the client before. The result lists
    /// what the host is to do on the message layer's side, in order.
    pub fn process_server_events(&mut self, connected: &[u64], lost: &[u64]) -> (changes: Vec<
        ConnectionChange,
    >)
        ensures
            final(self).table().wf(),
            final(self).table() == old(self).table().after(transport_events(connected@, lost@)),
            changes@ == old(self).table().changes(transport_events(connected@, lost@)),
            forall|transport_id: u64|
                lost@.contains(transport_id) ==> (#[trigger] final(self).table().handle_of(
                    transport_id,
                )) is None,
            final(self).lifecycle() == old(self).lifecycle(),
            final(self).elapsed() == old(self).elapsed(),
    {
        proof {
            use_type_invariant(&self.connections);
            assert forall|transport_id: u64| lost@.contains(transport_id) implies (
            #[trigger] self.table().after(transport_events(connected@, lost@)).handle_of(
                transport_id,
            )) is None by {
                lost_connection_is_unmapped_after_the_tick(
                    self.table(),
                    connected@,
                    lost@,
                    transport_id,
                );
            }
        }
        let ghost start = self.table();
        let mut changes: Vec<ConnectionChange> = Vec::new();
        let mut i: usize = 0;
        while i < connected.len()
            invariant
                self.table().wf(),
                i <= connected@.len(),
                self.table() == start.after(transport_events(connected@.take(i as int), Seq::empty())),
                changes@ == start.changes(transport_events(connected@.take(i as int), Seq::empty())),
                self.lifecycle() == old(self).lifecycle(),
                self.elapsed() == old(self).elapsed(),
            decreases connected@.len() - i,
        {
            let event = ConnectionEvent::Connected(connected[i]);
            proof {
                let done = transport_events(connected@.take(i as int), Seq::empty());
                assert(transport_events(connected@.take(i + 1), Seq::empty()) =~= done.push(event));
                start.lemma_after_push(done, event);
            }
            match self.connections.apply(event) {
                Some(change) => changes.push(change),
                None => {},
            }
            i += 1;
        }
        proof {
            assert(connected@.take(i as int) =~= connected@);
            assert(lost@.take(0) =~= Seq::<u64>::empty());
        }
        let mut j: usize = 0;
        while j < lost.len()
            invariant
                self.table().wf(),
                i == connected@.len(),
                j <= lost@.len(),
                self.table() == start.after(transport_events(connected@, lost@.take(j as int))),
                changes@ == start.changes(transport_events(connected@, lost@.take(j as int))),
                self.lifecycle() == old(self).lifecycle(),
                self.elapsed() == old(self).elapsed(),
            decreases lost@.len() - j,
        {
            let event = ConnectionEvent::Lost(lost[j]);
            proof {
                let done = transport_events(connected@, lost@.take(j as int));
                assert(transport_events(connected@, lost@.take(j + 1)) =~= done.push(event));
                start.lemma_after_push(done, event);
            }
            match self.connections.apply(event) {
                Some(change) => changes.push(change),
                None => {},
            }
            j += 1;
        }
        proof {
            assert(lost@.take(lost@.len() as int) =~= lost@);
        }
        changes
    }

    /// Relays the packets that arrived on one connection to the message
    /// layer: each becomes an entry of the receive queue under the
    /// connection's client, in the order of arrival. Packets of a
    /// connection that is not mapped are dropped.
    pub fn receive_packets<P>(&self, transport_id: u64, packets: Vec<Packet<P>>) -> (messages: Vec<
        ClientMessage<P>,
    >)
        ensures
            messages@ == match self.table().handle_of(transport_id) {
                Some(client) => client_messages_of(client, packets@),
                None => Seq::empty(),
            },
    {
        match self.connections.lookup_handle(transport_id) {
            Some(client) => to_client_messages(client, packets),
            None => Vec::new(),
        }
    }

    /// Advances the sampling timer by the length of the tick and computes
    /// the figures to publish for every reading whose connection is mapped.
    ///
    /// On the tick on which the timer reaches the sampling period it starts
    /// again from zero, and every entry of the result holds throughput
    /// figures: the host then clears the byte counters of those connections.
    pub fn update_statistics(&mut self, delta_nanos: u64, readings: &[ConnectionReading]) -> (statistics:
        Vec<ClientStatistics>)
        ensures
            final(self).table().wf(),
            final(self).elapsed() == elapsed_after(old(self).elapsed(), delta_nanos),
            statistics@ == reported(
                old(self).table(),
                readings@,
                sample_due(old(self).elapsed(), delta_nanos),
            ),
            final(self).table() == old(self).table(),
            final(self).lifecycle() == old(self).lifecycle(),
    {
        proof {
            use_type_invariant(&self.connections);
        }
        let due = self.sampler.advance(delta_nanos);
        let mut statistics: Vec<ClientStatistics> = Vec::new();
        let mut i: usize = 0;
        while i < readings.len()
            invariant
                self.table().wf(),
                i <= readings@.len(),
                statistics@ == reported(self.table(), readings@.take(i as int), due),
            decreases readings@.len() - i,
        {
            proof {
                let next = readings@.take(i + 1);
                assert(next.drop_last() =~= readings@.take(i as int));
                assert(next.last() == readings@[i as int]);
            }
            let transport_id = readings[i].transport_id;
            match self.connections.lookup_handle(transport_id) {
                Some(handle) => statistics.push(
                    ClientStatistics {
                        connection: Connection { transport_id, handle },
                        update: statistics_update(&readings[i].reading, due),
                    },
                ),
                None => {},
            }
            i += 1;
        }
        proof {
            assert(readings@.take(readings@.len() as int) =~= readings@);
        }
        statistics
    }

    /// Relays the message layer's send queue to the transport: each message
    /// becomes a packet on the connection of its client, in the queue's
    /// order. A message for a client without a live connection is dropped.
    pub fn send_packets<P>(&self, messages: Vec<ClientMessage<P>>) -> (packets: Vec<ClientPacket<P>>)
        ensures
            packets@ == routed(self.table(), messages@),
            forall|i: int|
                0 <= i < packets@.len() ==> self.table().maps_transport(
                    (#[trigger] packets@[i]).transport_id,
                ),
    {
        proof {
            use_type_invariant(&self.connections);
            server_sends_to_live_connections_only(self.table(), messages@);
        }
        to_client_packets(&self.connections, messages)
    }

    /// Takes the application's requests to disconnect clients.
    ///
    /// Each client that is live is taken out of the map at once, without
    /// waiting for the transport to confirm; the result tells the host which
    /// connections to close and which clients to tear down. A request for a
    /// client that is not live is ignored.
    pub fn disconnect_by_request(&mut self, requests: &[ConnectionHandle]) -> (changes: Vec<
        ConnectionChange,
    >)
        ensures
            final(self).table().wf(),
            final(self).table() == old(self).table().after(release_events(requests@)),
            changes@ == old(self).table().changes(release_events(requests@)),
            forall|client: ConnectionHandle|
                requests@.contains(client) ==> (#[trigger] final(self).table().transport_of(
                    client,
                )) is None,
            final(self).lifecycle() == old(self).lifecycle(),
            final(self).elapsed() == old(self).elapsed(),
    {
        proof {
            use_type_invariant(&self.connections);
            assert forall|client: ConnectionHandle| requests@.contains(client) implies (
            #[trigger] self.table().after(release_events(requests@)).transport_of(client))
                is None by {
                requested_client_is_gone_after_the_tick(self.table(), requests@, client);
            }
        }
        let ghost start = self.table();
        let mut changes: Vec<ConnectionChange> = Vec::new();
        let mut i: usize = 0;
        while i < requests.len()
            invariant
                self.table().wf(),
                i <= requests@.len(),
                self.table() == start.after(release_events(requests@.take(i as int))),
                changes@ == start.changes(release_events(requests@.take(i as int))),
                self.lifecycle() == old(self).lifecycle(),
                self.elapsed() == old(self).elapsed(),
            decreases requests@.len() - i,
        {
            let event = ConnectionEvent::Released(requests[i]);
            proof {
                let done = release_events(requests@.take(i as int));
                assert(release_events(requests@.take(i + 1)) =~= done.push(event));
                start.lemma_after_push(done, event);
            }
            match self.connections.apply(event) {
                Some(change) => changes.push(change),
                None => {},
            }
            i += 1;
        }
        proof {
            assert(requests@.take(requests@.len() as int) =~= requests@);
        }
        changes
    }

    /// Takes note that the application tore down a client, and returns the
    /// transport connection that is to be closed for it. A client that is
    /// not live, because the transport lost its connection or a request
    /// disconnected it before, gives `None` and changes nothing.
    pub fn disconnect_client(&mut self, client: ConnectionHandle) -> (transport_id: Option<u64>)
        ensures
            final(self).table().wf(),
            transport_id == old(self).table().transport_of(client),
            final(self).table() == old(self).table().release(client),
            final(self).table().transport_of(client) is None,
            final(self).lifecycle() == old(self).lifecycle(),
            final(self).elapsed() == old(self).elapsed(),
    {
        self.connections.release(client)
    }
}

} // verus!

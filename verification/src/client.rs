//! The client half of the bridge.
//!
//! The host calls into it once per phase of a tick, in this order:
//! connection state, inbound packets, statistics; then, after the
//! application has run, outbound packets. A client has at most one
//! connection, which is present exactly while the state is `Connected`:
//! in every other state nothing is relayed and nothing is sampled.

use crate::lifecycle::{client_transition, observed_client_state, ClientState};
use crate::relay::{messages_of, packets_of, to_messages, to_packets, Message, Packet};
use crate::stats::{
    elapsed_after,
    sample_due,
    statistics_update,
    statistics_update_of,
    StatisticsSampler,
    StatisticsUpdate,
    TransportReading,
};
use vstd::prelude::*;

verus! {

/// The client half of the bridge: the connection's state as the message
/// layer knows it, and the timer of the statistics sampler.
#[derive(Debug)]
pub struct RepliconQuinnetClientPlugin {
    state: ClientState,
    sampler: StatisticsSampler,
}

impl RepliconQuinnetClientPlugin {
    /// The connection's state as last written to the message layer.
    pub closed spec fn lifecycle(&self) -> ClientState {
        self.state
    }

    /// Time collected in the open sampling window, in nanoseconds.
    pub closed spec fn elapsed(&self) -> nat {
        self.sampler.elapsed()
    }

    /// A bridge for a client that has not opened a connection.
    pub fn new() -> (plugin: Self)
        ensures
            plugin.lifecycle() == ClientState::Disconnected,
            plugin.elapsed() == 0,
    {
        RepliconQuinnetClientPlugin { state: ClientState::Disconnected, sampler: StatisticsSampler::new() }
    }

    /// The connection's state as last written to the message layer.
    pub fn state(&self) -> (state: ClientState)
        ensures
            state == self.lifecycle(),
    {
        self.state
    }

    /// Follows the connection: the state becomes `Connected` once the
    /// transport reports the handshake complete, `Connecting` while it
    /// reports one under way, and `Disconnected` when it reports neither.
    /// Returns the state to write to the message layer on the tick on which
    /// it changes, and `None` on every other tick.
    pub fn sync_state(&mut self, connecting: bool, connected: bool) -> (written: Option<ClientState>)
        ensures
            final(self).lifecycle() == observed_client_state(connecting, connected),
            written == if old(self).lifecycle() != observed_client_state(connecting, connected) {
                Some(observed_client_state(connecting, connected))
            } else {
                None
            },
            final(self).elapsed() == old(self).elapsed(),
    {
        let transition = client_transition(self.state, connecting, connected);
        self.state = transition.state;
        if transition.fired {
            Some(transition.state)
        } else {
            None
        }
    }

    /// Relays the packets that arrived on the connection to the message
    /// layer: each becomes an entry of the receive queue, in the order of
    /// arrival. Without a connection nothing is relayed.
    pub fn receive_packets<P>(&self, packets: Vec<Packet<P>>) -> (messages: Vec<Message<P>>)
        ensures
            messages@ == if self.lifecycle() == ClientState::Connected {
                messages_of(packets@)
            } else {
                Seq::empty()
            },
    {
        match self.state {
            ClientState::Connected => to_messages(packets),
            _ => Vec::new(),
        }
    }

    /// Computes the figures to publish for the connection from what the
    /// host read from the transport, and advances the sampling timer by the
    /// length of the tick.
    ///
    /// Without a connection, or where the transport had nothing to read,
    /// there is nothing to do on this tick: the timer stands and the result
    /// is `None`. On the tick on which the timer reaches the sampling period
    /// it starts again from zero and the result holds throughput figures:
    /// the host then clears the byte counters of the connection.
    pub fn update_statistics(&mut self, delta_nanos: u64, reading: Option<TransportReading>) -> (update:
        Option<StatisticsUpdate>)
        ensures
            final(self).lifecycle() == old(self).lifecycle(),
            old(self).lifecycle() == ClientState::Connected && reading is Some ==> {
                &&& final(self).elapsed() == elapsed_after(old(self).elapsed(), delta_nanos)
                &&& update == Some(
                    statistics_update_of(
                        reading->Some_0,
                        sample_due(old(self).elapsed(), delta_nanos),
                    ),
                )
            },
            old(self).lifecycle() != ClientState::Connected || reading is None ==> {
                &&& final(self).elapsed() == old(self).elapsed()
                &&& update is None
            },
    {
        match (self.state, reading) {
            (ClientState::Connected, Some(reading)) => {
                let due = self.sampler.advance(delta_nanos);
                Some(statistics_update(&reading, due))
            },
            _ => None,
        }
    }

    /// Relays the message layer's send queue to the transport: each message
    /// becomes a packet, in the queue's order. Without a connection the
    /// messages are dropped.
    pub fn send_packets<P>(&self, messages: Vec<Message<P>>) -> (packets: Vec<Packet<P>>)
        ensures
            packets@ == if self.lifecycle() == ClientState::Connected {
                packets_of(messages@)
            } else {
                Seq::empty()
            },
    {
        match self.state {
            ClientState::Connected => to_packets(messages),
            _ => Vec::new(),
        }
    }
}

} // verus!

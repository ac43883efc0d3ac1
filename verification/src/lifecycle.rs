//! Lifecycle synchronizer: follows what the transport reports of a
//! connection or an endpoint and says when the message layer's state is to
//! be written.
//!
//! A transition fires on an edge only: the tick on which the reported state
//! first differs from the state held. A tick that reports the state held
//! writes nothing.

use vstd::prelude::*;

verus! {

/// Connection state of a client, as the message layer sees it.
#[derive(Clone, Copy, Debug, PartialEq, Eq, Hash, Structural)]
pub enum ClientState {
    /// Not connected and not trying to connect.
    Disconnected,
    /// The handshake with the server is under way.
    Connecting,
    /// Connected to the server.
    Connected,
}

/// State of a server, as the message layer sees it.
#[derive(Clone, Copy, Debug, PartialEq, Eq, Hash, Structural)]
pub enum ServerState {
    /// The endpoint is closed.
    Stopped,
    /// The endpoint accepts and serves connections.
    Running,
}

/// A state and whether reaching it was a change.
#[derive(Debug, PartialEq, Eq)]
pub struct Transition<S> {
    /// The state after the tick.
    pub state: S,
    /// Whether the state differs from the one before the tick.
    pub fired: bool,
}

/// The client state that the transport's two predicates stand for: a
/// completed handshake counts before one under way, and neither means
/// that the connection is closed, lost or was never opened.
pub open spec fn observed_client_state(connecting: bool, connected: bool) -> ClientState {
    if connected {
        ClientState::Connected
    } else if connecting {
        ClientState::Connecting
    } else {
        ClientState::Disconnected
    }
}

/// The server state that the transport's predicate stands for.
pub open spec fn observed_server_state(listening: bool) -> ServerState {
    if listening {
        ServerState::Running
    } else {
        ServerState::Stopped
    }
}

/// Follows the transport's report of the client's connection for one tick.
///
/// The new state is the one reported; the transition fires if and only if
/// that state is not the current one.
pub fn client_transition(current: ClientState, connecting: bool, connected: bool) -> (transition:
    Transition<ClientState>)
    ensures
        transition.state == observed_client_state(connecting, connected),
        transition.fired <==> transition.state != current,
{
    let state = if connected {
        ClientState::Connected
    } else if connecting {
        ClientState::Connecting
    } else {
        ClientState::Disconnected
    };
    Transition { state, fired: state != current }
}

/// Follows the transport's report of the endpoint for one tick.
///
/// The new state is the one reported; the transition fires if and only if
/// that state is not the current one.
pub fn server_transition(current: ServerState, listening: bool) -> (transition: Transition<
    ServerState,
>)
    ensures
        transition.state == observed_server_state(listening),
        transition.fired <==> transition.state != current,
{
    let state = if listening {
        ServerState::Running
    } else {
        ServerState::Stopped
    };
    Transition { state, fired: state != current }
}

} // verus!

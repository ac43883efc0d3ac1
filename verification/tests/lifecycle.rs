use bevy_replicon_quinnet::lifecycle::{
    client_transition, server_transition, ClientState, ServerState, Transition,
};

#[test]
fn client_starts_connecting_when_the_handshake_is_under_way() {
    assert_eq!(
        client_transition(ClientState::Disconnected, true, false),
        Transition { state: ClientState::Connecting, fired: true }
    );
}

#[test]
fn client_connects_when_the_handshake_completes() {
    assert_eq!(
        client_transition(ClientState::Connecting, false, true),
        Transition { state: ClientState::Connected, fired: true }
    );
    assert_eq!(
        client_transition(ClientState::Disconnected, false, true),
        Transition { state: ClientState::Connected, fired: true }
    );
}

#[test]
fn client_disconnects_when_the_connection_closes_or_the_handshake_fails() {
    assert_eq!(
        client_transition(ClientState::Connected, false, false),
        Transition { state: ClientState::Disconnected, fired: true }
    );
    assert_eq!(
        client_transition(ClientState::Connecting, false, false),
        Transition { state: ClientState::Disconnected, fired: true }
    );
}

#[test]
fn client_transition_does_not_fire_while_the_report_stays_the_same() {
    assert_eq!(
        client_transition(ClientState::Disconnected, false, false),
        Transition { state: ClientState::Disconnected, fired: false }
    );
    assert_eq!(
        client_transition(ClientState::Connecting, true, false),
        Transition { state: ClientState::Connecting, fired: false }
    );
    assert_eq!(
        client_transition(ClientState::Connected, false, true),
        Transition { state: ClientState::Connected, fired: false }
    );
}

#[test]
fn a_completed_handshake_counts_before_one_under_way() {
    assert_eq!(
        client_transition(ClientState::Connecting, true, true),
        Transition { state: ClientState::Connected, fired: true }
    );
}

#[test]
fn client_reconnects_from_connected() {
    assert_eq!(
        client_transition(ClientState::Connected, true, false),
        Transition { state: ClientState::Connecting, fired: true }
    );
}

#[test]
fn server_runs_while_the_endpoint_listens() {
    assert_eq!(
        server_transition(ServerState::Stopped, true),
        Transition { state: ServerState::Running, fired: true }
    );
    assert_eq!(
        server_transition(ServerState::Running, true),
        Transition { state: ServerState::Running, fired: false }
    );
}

#[test]
fn server_stops_when_the_endpoint_closes() {
    assert_eq!(
        server_transition(ServerState::Running, false),
        Transition { state: ServerState::Stopped, fired: true }
    );
    assert_eq!(
        server_transition(ServerState::Stopped, false),
        Transition { state: ServerState::Stopped, fired: false }
    );
}

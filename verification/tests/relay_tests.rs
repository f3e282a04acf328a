use edge_echo::greeting;
use edge_echo::relay::{
    relay_step, run_relay, session_transcript, RelayAction, RelayEnd, RelayState, WsEvent,
};

#[test]
fn greeting_text() {
    assert_eq!(greeting(), "Hello from Workers!");
}

#[test]
fn ping_round_trip() {
    // after connecting, a "ping" text frame yields the greeting then the echo
    let transcript = session_transcript(&vec![WsEvent::Text("ping".to_string())]);
    assert_eq!(
        transcript,
        vec!["Hello from Workers!".to_string(), "ping".to_string()]
    );
}

#[test]
fn transcript_ends_at_close() {
    let events = vec![
        WsEvent::Text("a".to_string()),
        WsEvent::Close,
        WsEvent::Text("b".to_string()),
    ];
    assert_eq!(
        session_transcript(&events),
        vec!["Hello from Workers!".to_string(), "a".to_string()]
    );
}

#[test]
fn echoes_in_delivery_order() {
    let events = vec![
        WsEvent::Text("a".to_string()),
        WsEvent::Binary,
        WsEvent::Text("b".to_string()),
    ];
    let (echoes, end) = run_relay(&events);
    assert_eq!(echoes, vec!["a".to_string(), "b".to_string()]);
    assert_eq!(end, RelayEnd::Drained);
}

#[test]
fn close_stops_reading_buffered_messages() {
    let events = vec![
        WsEvent::Text("a".to_string()),
        WsEvent::Close,
        WsEvent::Text("b".to_string()),
        WsEvent::Text("c".to_string()),
    ];
    let (echoes, end) = run_relay(&events);
    assert_eq!(echoes, vec!["a".to_string()]);
    assert_eq!(end, RelayEnd::ClosedByPeer);
}

#[test]
fn fault_stops_reading_buffered_messages() {
    let events = vec![
        WsEvent::Binary,
        WsEvent::Text("x".to_string()),
        WsEvent::Fault,
        WsEvent::Text("y".to_string()),
    ];
    let (echoes, end) = run_relay(&events);
    assert_eq!(echoes, vec!["x".to_string()]);
    assert_eq!(end, RelayEnd::Faulted);
}

#[test]
fn step_echoes_text_while_open() {
    let (state, action) = relay_step(RelayState::Open, &WsEvent::Text("hi".to_string()));
    assert_eq!(state, RelayState::Open);
    assert!(matches!(action, RelayAction::Echo(t) if t == "hi"));
}

#[test]
fn step_ignores_binary_while_open() {
    let (state, action) = relay_step(RelayState::Open, &WsEvent::Binary);
    assert_eq!(state, RelayState::Open);
    assert!(matches!(action, RelayAction::Ignore));
}

#[test]
fn step_closes_on_close_without_reply() {
    let (state, action) = relay_step(RelayState::Open, &WsEvent::Close);
    assert_eq!(state, RelayState::Closed);
    assert!(matches!(action, RelayAction::Ignore));
}

#[test]
fn step_closes_on_fault_without_reply() {
    let (state, action) = relay_step(RelayState::Open, &WsEvent::Fault);
    assert_eq!(state, RelayState::Closed);
    assert!(matches!(action, RelayAction::Ignore));
}

#[test]
fn closed_state_is_terminal() {
    let (state, action) = relay_step(RelayState::Closed, &WsEvent::Text("late".to_string()));
    assert_eq!(state, RelayState::Closed);
    assert!(matches!(action, RelayAction::Ignore));
}

use local_gateway::registry::{Peer, Registry};
use local_gateway::relay::{
    classify, decode, delivery_outcome, prepare_send, send_to_remote_window, Action, Connection,
    Event, Inbound, RemoteServiceState, SendError,
};
use tokio::sync::mpsc::error::TryRecvError;
use tokio::sync::mpsc::{unbounded_channel, UnboundedReceiver};

fn json(text: &str) -> serde_json::Value {
    serde_json::from_str(text).unwrap()
}

fn text(frame: &str) -> Event {
    Event::Text { text: frame.to_string() }
}

fn register(label: &str) -> Event {
    let mut frame = String::from("{\"type\":\"register\",\"label\":\"");
    frame.push_str(label);
    frame.push_str("\"}");
    Event::Text { text: frame }
}

fn connect(state: &mut RemoteServiceState) -> (Connection, UnboundedReceiver<String>) {
    let (tx, rx) = unbounded_channel::<String>();
    (state.open_connection(tx).unwrap(), rx)
}

#[test]
fn a_registered_peer_receives_what_is_sent_to_it() {
    let mut state = RemoteServiceState::new();
    let (mut window_a, mut inbox) = connect(&mut state);
    assert!(matches!(state.handle(&mut window_a, register("windowA")), Action::Nothing));
    send_to_remote_window(&state, "windowA", &json("{\"ping\":1}")).unwrap();
    assert_eq!(inbox.try_recv(), Ok("{\"ping\":1}".to_string()));
    assert_eq!(inbox.try_recv(), Err(TryRecvError::Empty));
    let error = send_to_remote_window(&state, "windowB", &json("{\"ping\":1}")).unwrap_err();
    assert!(matches!(&error, SendError::NotConnected { label } if label == "windowB"));
    assert_eq!(error.message(), "Remote window 'windowB' not connected");
    assert_eq!(inbox.try_recv(), Err(TryRecvError::Empty));
}

#[test]
fn a_peer_that_disconnected_is_not_connected_any_more() {
    let mut state = RemoteServiceState::new();
    let (mut window_a, _inbox) = connect(&mut state);
    state.handle(&mut window_a, register("windowA"));
    assert!(state.is_connected("windowA"));
    assert!(matches!(state.handle(&mut window_a, Event::Ended), Action::Close));
    assert!(window_a.is_closed());
    assert!(!state.is_connected("windowA"));
    assert!(state.registry().lookup("windowA").is_none());
    let error = send_to_remote_window(&state, "windowA", &json("1")).unwrap_err();
    assert!(matches!(error, SendError::NotConnected { .. }));
}

#[test]
fn the_last_to_register_owns_the_label() {
    let mut state = RemoteServiceState::new();
    let (mut first, mut first_inbox) = connect(&mut state);
    let (mut second, mut second_inbox) = connect(&mut state);
    assert_ne!(first.id(), second.id());
    state.handle(&mut first, register("w"));
    state.handle(&mut second, register("w"));
    assert_eq!(state.registry().lookup("w").map(|p| p.connection), Some(second.id()));
    send_to_remote_window(&state, "w", &json("[1,2]")).unwrap();
    assert_eq!(second_inbox.try_recv(), Ok("[1,2]".to_string()));
    assert_eq!(first_inbox.try_recv(), Err(TryRecvError::Empty));
    assert!(matches!(state.handle(&mut first, Event::Ended), Action::Close));
    assert!(state.is_connected("w"));
    assert_eq!(state.registry().lookup("w").map(|p| p.connection), Some(second.id()));
    send_to_remote_window(&state, "w", &json("true")).unwrap();
    assert_eq!(second_inbox.try_recv(), Ok("true".to_string()));
    assert!(matches!(state.handle(&mut second, Event::WriteFailed), Action::Close));
    assert!(!state.is_connected("w"));
}

#[test]
fn an_unregistered_connection_drops_what_is_no_registration() {
    let mut state = RemoteServiceState::new();
    let (mut conn, _inbox) = connect(&mut state);
    for frame in [
        "{\"hello\":1}",
        "not json",
        "{\"type\":\"register\"}",
        "{\"type\":\"register\",\"label\":7}",
        "{\"type\":\"other\",\"label\":\"x\"}",
        "{\"type\":1,\"label\":\"x\"}",
        "[\"register\"]",
        "\"register\"",
    ] {
        assert!(matches!(state.handle(&mut conn, text(frame)), Action::Nothing), "{}", frame);
        assert!(conn.label().is_none());
    }
    assert!(!state.is_connected("x"));
    assert!(matches!(state.handle(&mut conn, Event::OtherFrame), Action::Nothing));
    state.handle(&mut conn, register("x"));
    assert_eq!(conn.label(), Some("x".to_string()));
    assert!(state.is_connected("x"));
}

#[test]
fn a_registered_connection_passes_every_json_message_to_the_host() {
    let mut state = RemoteServiceState::new();
    let (mut conn, _inbox) = connect(&mut state);
    state.handle(&mut conn, register("panel"));
    match state.handle(&mut conn, text("{\"a\":[1,2,3]}")) {
        Action::Emit { label, payload } => {
            assert_eq!(label, "panel");
            assert_eq!(payload, json("{\"a\":[1,2,3]}"));
        }
        other => panic!("{:?}", other),
    }
    assert!(matches!(state.handle(&mut conn, text("{broken")), Action::Nothing));
    assert!(matches!(state.handle(&mut conn, Event::OtherFrame), Action::Nothing));
    match state.handle(&mut conn, register("other")) {
        Action::Emit { label, payload } => {
            assert_eq!(label, "panel");
            assert_eq!(payload, json("{\"type\":\"register\",\"label\":\"other\"}"));
        }
        other => panic!("{:?}", other),
    }
    assert_eq!(conn.label(), Some("panel".to_string()));
    assert!(!state.is_connected("other"));
    assert!(!conn.is_closed());
}

#[test]
fn outbound_messages_are_written_to_the_socket() {
    let mut state = RemoteServiceState::new();
    let (mut conn, mut inbox) = connect(&mut state);
    state.handle(&mut conn, register("w"));
    send_to_remote_window(&state, "w", &json("{\"n\":1}")).unwrap();
    send_to_remote_window(&state, "w", &json("{\"n\":2}")).unwrap();
    let first = inbox.try_recv().unwrap();
    let second = inbox.try_recv().unwrap();
    assert_eq!((first.as_str(), second.as_str()), ("{\"n\":1}", "{\"n\":2}"));
    match state.handle(&mut conn, Event::Outbound { text: first }) {
        Action::Transmit { text } => assert_eq!(text, "{\"n\":1}"),
        other => panic!("{:?}", other),
    }
}

#[test]
fn a_closed_connection_does_nothing_any_more() {
    let mut state = RemoteServiceState::new();
    let (mut conn, _inbox) = connect(&mut state);
    assert!(matches!(state.handle(&mut conn, Event::Ended), Action::Close));
    assert!(conn.is_closed());
    assert!(matches!(state.handle(&mut conn, register("late")), Action::Nothing));
    assert!(!state.is_connected("late"));
    assert!(matches!(state.handle(&mut conn, Event::Ended), Action::Nothing));
    assert!(matches!(
        state.handle(&mut conn, Event::Outbound { text: "x".to_string() }),
        Action::Nothing
    ));
    assert!(conn.is_closed());
}

#[test]
fn a_send_into_a_closed_mailbox_fails() {
    let mut state = RemoteServiceState::new();
    let (mut conn, inbox) = connect(&mut state);
    state.handle(&mut conn, register("w"));
    drop(inbox);
    let error = send_to_remote_window(&state, "w", &json("1")).unwrap_err();
    assert!(matches!(error, SendError::MailboxClosed));
    assert_eq!(error.message(), "Failed to send message");
    assert!(state.is_connected("w"));
    assert!(matches!(delivery_outcome(true), Ok(())));
    assert!(matches!(delivery_outcome(false), Err(SendError::MailboxClosed)));
    let encoding = SendError::Encoding { detail: "key must be a string".to_string() };
    assert_eq!(encoding.message(), "key must be a string");
}

#[test]
fn a_send_is_prepared_for_the_owner_of_the_label() {
    let mut state = RemoteServiceState::new();
    let (mut conn, _inbox) = connect(&mut state);
    state.handle(&mut conn, register("w"));
    let (peer, text) = prepare_send(&state, "w", &json("{\"a\": \"b\" }")).unwrap();
    assert_eq!(peer.connection, conn.id());
    assert_eq!(text, "{\"a\":\"b\"}");
    assert!(matches!(
        prepare_send(&state, "v", &json("1")),
        Err(SendError::NotConnected { .. })
    ));
}

#[test]
fn frames_are_decoded_into_messages_of_the_protocol() {
    assert!(decode("").is_none());
    assert!(decode("{").is_none());
    assert!(decode("{\"a\":1} trailing").is_none());
    match decode(" {\"type\":\"register\",\"label\":\"w 1\",\"more\":true} ") {
        Some(Inbound::Register { label, document }) => {
            assert_eq!(label, "w 1");
            assert_eq!(document, json("{\"type\":\"register\",\"label\":\"w 1\",\"more\":true}"));
        }
        other => panic!("{:?}", other),
    }
    match decode("{\"type\":\"Register\",\"label\":\"w\"}") {
        Some(Inbound::Message { document }) => {
            assert_eq!(document, json("{\"type\":\"Register\",\"label\":\"w\"}"))
        }
        other => panic!("{:?}", other),
    }
    assert!(matches!(decode("null"), Some(Inbound::Message { .. })));
    assert!(matches!(decode("42"), Some(Inbound::Message { .. })));
    assert!(matches!(
        classify(json("{\"label\":\"w\",\"type\":\"register\"}")),
        Inbound::Register { .. }
    ));
    assert!(matches!(classify(json("{\"label\":null,\"type\":\"register\"}")), Inbound::Message { .. }));
}

#[test]
fn the_state_starts_empty_and_numbers_its_connections() {
    let mut state = RemoteServiceState::new();
    assert_eq!(state.port(), 0);
    assert!(!state.is_connected(""));
    state.publish_port(51234);
    assert_eq!(state.port(), 51234);
    let (a, _ra) = connect(&mut state);
    let (b, _rb) = connect(&mut state);
    let (c, _rc) = connect(&mut state);
    assert_eq!((a.id(), b.id(), c.id()), (0, 1, 2));
    assert!(a.label().is_none() && !a.is_closed());
    assert_eq!(state.port(), 51234);
}

#[test]
fn the_registry_releases_an_entry_to_its_owner_only() {
    let mut registry = Registry::new();
    let (tx1, _r1) = unbounded_channel::<String>();
    let (tx2, _r2) = unbounded_channel::<String>();
    assert!(!registry.contains("a"));
    registry.register("a".to_string(), Peer { connection: 1, mailbox: tx1.clone() });
    registry.register("b".to_string(), Peer { connection: 1, mailbox: tx1 });
    registry.register("a".to_string(), Peer { connection: 2, mailbox: tx2 });
    assert_eq!(registry.lookup("a").map(|p| p.connection), Some(2));
    assert_eq!(registry.lookup("b").map(|p| p.connection), Some(1));
    registry.release("a", 1);
    assert!(registry.contains("a"));
    registry.release("missing", 1);
    registry.release("a", 2);
    assert!(!registry.contains("a"));
    assert!(registry.contains("b"));
    assert!(registry.lookup("a").is_none());
    let peer = registry.lookup("b").unwrap();
    assert!(peer.owned_by(1) && !peer.owned_by(2));
}

//! Dispatcher tests: routing, the single-dial guarantee, and failure
//! reporting.

use tata_core::{
    DispatcherAction, Error, ErrorKind, Event, HandshakeMetadata, PeerId, PlainTextMessage,
    PrivateChatBehaviour,
};

fn peer(s: &str) -> PeerId {
    PeerId::new(s.as_bytes().to_vec())
}

fn msg(from: &str, to: &str, text: &[u8], ts: u64) -> PlainTextMessage {
    PlainTextMessage::new(peer(from), peer(to), text.to_vec(), ts)
}

fn dispatcher() -> PrivateChatBehaviour {
    PrivateChatBehaviour::new(HandshakeMetadata::new(b"alice".to_vec()))
}

#[test]
fn send_message_rejects_bad_base58() {
    let mut d = dispatcher();
    // '0' and 'l' are not Base58 characters.
    let bad = msg("A", "0l", b"x", 1);
    assert_eq!(d.send_message(bad).unwrap_err(), Error::Base58);
    assert!(d.poll().is_none());
}

#[test]
fn single_dial_per_peer_while_pending() {
    let mut d = dispatcher();
    d.send_message(msg("A", "C", b"one", 1)).expect("valid peer id");
    d.send_message(msg("A", "C", b"two", 2)).expect("valid peer id");
    // One dial request for the peer, never a second while it is in flight.
    match d.poll() {
        Some(DispatcherAction::Dial { peer_id }) => assert!(peer_id.equals(&peer("C"))),
        _ => panic!("expected a dial"),
    }
    assert!(d.poll().is_none());
    // A further message for the same peer is stashed, not re-dialed.
    d.send_message(msg("A", "C", b"three", 3)).expect("valid peer id");
    assert!(d.poll().is_none());
}

#[test]
fn connected_peer_gets_messages_directly() {
    let mut d = dispatcher();
    d.inject_connected(&peer("B"));
    d.send_message(msg("A", "B", b"hi", 7)).expect("valid peer id");
    match d.poll() {
        Some(DispatcherAction::NotifyHandler { peer_id, message }) => {
            assert!(peer_id.equals(&peer("B")));
            assert_eq!(message.text, b"hi".to_vec());
            assert_eq!(message.timestamp, 7);
        },
        _ => panic!("expected a handler notification"),
    }
    assert!(d.poll().is_none());
}

#[test]
fn stashed_messages_flush_in_order_on_connect() {
    let mut d = dispatcher();
    d.send_message(msg("A", "C", b"one", 1)).expect("valid peer id");
    d.send_message(msg("A", "C", b"two", 2)).expect("valid peer id");
    match d.poll() {
        Some(DispatcherAction::Dial { .. }) => {},
        _ => panic!("expected a dial"),
    }
    assert!(d.poll().is_none());
    d.inject_connected(&peer("C"));
    let mut texts: Vec<Vec<u8>> = Vec::new();
    while let Some(action) = d.poll() {
        match action {
            DispatcherAction::NotifyHandler { message, .. } => texts.push(message.text),
            _ => panic!("only notifications expected"),
        }
    }
    assert_eq!(texts, vec![b"one".to_vec(), b"two".to_vec()]);
}

#[test]
fn dial_failure_reports_an_error_event() {
    let mut d = dispatcher();
    d.send_message(msg("A", "C", b"one", 1)).expect("valid peer id");
    match d.poll() {
        Some(DispatcherAction::Dial { .. }) => {},
        _ => panic!("expected a dial"),
    }
    d.inject_dial_failure(&peer("C"));
    match d.poll() {
        Some(DispatcherAction::GenerateEvent { event: Event::Error { kind, detail } }) => {
            assert_eq!(kind, ErrorKind::FailedToDial);
            assert_eq!(detail, b"C".to_vec());
        },
        _ => panic!("expected the failure event"),
    }
    // The dial entry is gone: a fresh send dials again.
    d.send_message(msg("A", "C", b"retry", 2)).expect("valid peer id");
    match d.poll() {
        Some(DispatcherAction::Dial { .. }) => {},
        _ => panic!("expected a new dial"),
    }
}

#[test]
fn disconnect_removes_the_peer() {
    let mut d = dispatcher();
    d.inject_connected(&peer("B"));
    d.inject_disconnected(&peer("B"));
    d.send_message(msg("A", "B", b"hi", 1)).expect("valid peer id");
    // Not connected any more: the message triggers a dial, not a delivery.
    match d.poll() {
        Some(DispatcherAction::Dial { peer_id }) => assert!(peer_id.equals(&peer("B"))),
        _ => panic!("expected a dial"),
    }
}

#[test]
fn injected_events_surface_after_routing() {
    let mut d = dispatcher();
    d.inject_event(Event::SentPlainTextMessage { timestamp: 9 });
    match d.poll() {
        Some(DispatcherAction::GenerateEvent { event: Event::SentPlainTextMessage { timestamp } }) => {
            assert_eq!(timestamp, 9)
        },
        _ => panic!("expected the queued event"),
    }
    assert!(d.poll().is_none());
}

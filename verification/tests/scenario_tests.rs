//! End-to-end scenario: two peers discover each other, one sends a message
//! before any connection exists, and both observe the expected events.

use tata_core::{
    event_callback, DispatcherAction, Event, HandlerAction, HandshakeMetadata, InEvent, PeerId,
    PlainTextMessage, PrivateChatBehaviour, PrivateChatHandler, Reactor,
};

fn peer(s: &str) -> PeerId {
    PeerId::new(s.as_bytes().to_vec())
}

/// Drive one handler until it goes quiet, forwarding its wire frames to the
/// other side's handler and its events into the reactor.
fn pump(
    h: &mut PrivateChatHandler,
    other: &mut PrivateChatHandler,
    reactor: &mut Reactor<u32>,
) -> bool {
    let mut progressed = false;
    while let Some(action) = h.poll() {
        progressed = true;
        match action {
            HandlerAction::EmitEvent(e) => {
                let _ = event_callback(reactor, e);
            },
            HandlerAction::SendHandshakeFrame(f) | HandlerAction::SendChatFrame(f) => {
                let chat = matches!(
                    decode_frame_kind(&f),
                    FrameKind::Chat
                );
                other.on_bytes_received(&f);
                if chat {
                    h.on_write_finished();
                }
            },
            HandlerAction::RequestSubstream => {
                // The transport opens the substream: this side initiated.
                h.on_substream_open(true);
                other.on_substream_open(false);
            },
            HandlerAction::StartTimer(_) => panic!("no failures in this scenario"),
        }
    }
    progressed
}

enum FrameKind {
    Handshake,
    Chat,
}

fn decode_frame_kind(f: &[u8]) -> FrameKind {
    // A chat frame's payload opens with `{"from"`; metadata with `{"name"`.
    if f[4..].starts_with(b"{\"from\"") {
        FrameKind::Chat
    } else {
        FrameKind::Handshake
    }
}

#[test]
fn two_peers_exchange_a_message() {
    let mut reactor: Reactor<u32> = Reactor::new();

    // Two peers A and B discover each other.
    let mut disp_a = PrivateChatBehaviour::new(HandshakeMetadata::new(b"alice".to_vec()));
    let mut disp_b = PrivateChatBehaviour::new(HandshakeMetadata::new(b"bob".to_vec()));

    // A sends "hi" to B before any connection exists: the dispatcher queues
    // it and dials B.
    let t: u64 = 1700000000000;
    disp_a
        .send_message(PlainTextMessage::new(peer("A"), peer("B"), b"hi".to_vec(), t))
        .expect("B is a valid identifier");
    match disp_a.poll() {
        Some(DispatcherAction::Dial { peer_id }) => assert!(peer_id.equals(&peer("B"))),
        _ => panic!("expected a dial to B"),
    }

    // The transport connects the two; each side gets a connection handler.
    let mut hand_a = PrivateChatHandler::new(HandshakeMetadata::new(b"alice".to_vec()), peer("B"));
    let mut hand_b = PrivateChatHandler::new(HandshakeMetadata::new(b"bob".to_vec()), peer("A"));
    disp_a.inject_connected(&peer("B"));
    disp_b.inject_connected(&peer("A"));

    // The queued message now reaches A's handler.
    match disp_a.poll() {
        Some(DispatcherAction::NotifyHandler { peer_id, message }) => {
            assert!(peer_id.equals(&peer("B")));
            hand_a.inject_event(InEvent::SendMessage(message));
        },
        _ => panic!("expected the flushed message"),
    }

    // Run both handlers until the exchange settles.
    loop {
        let a = pump(&mut hand_a, &mut hand_b, &mut reactor);
        let b = pump(&mut hand_b, &mut hand_a, &mut reactor);
        if !a && !b {
            break;
        }
    }

    // Both sides' events, in reactor order.
    let (events, _) = reactor.drain_from(0).expect("all events retrievable");
    let mut got_b_metadata = false;
    let mut got_received = false;
    let mut got_sent = false;
    for e in &events {
        match e {
            Event::ReceivedMetadata { name, .. } => {
                if name == &b"alice".to_vec() {
                    got_b_metadata = true;
                }
            },
            Event::ReceivedPlainTextMessage { message } => {
                assert!(message.from.equals(&peer("A")));
                assert!(message.to.equals(&peer("B")));
                assert_eq!(message.text, b"hi".to_vec());
                got_received = true;
            },
            Event::SentPlainTextMessage { timestamp } => {
                assert_eq!(*timestamp, t);
                got_sent = true;
            },
            _ => {},
        }
    }
    assert!(got_b_metadata, "B saw A's metadata");
    assert!(got_received, "B received the chat message");
    assert!(got_sent, "A observed the sent acknowledgement");
}

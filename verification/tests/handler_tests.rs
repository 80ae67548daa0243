//! Connection handler tests: handshake order, chat frames only after the
//! handshake, retry backoff, and error reporting.

use tata_core::{
    decode_message, decode_metadata, encode_frame, encode_message, encode_metadata, ErrorKind,
    Event, HandlerAction, HandshakeMetadata, InEvent, PeerId, PlainTextMessage,
    PrivateChatHandler, INITIAL_RETRY_DELAY_MS, MAX_RETRY_DELAY_MS,
};

fn peer(s: &str) -> PeerId {
    PeerId::new(s.as_bytes().to_vec())
}

fn msg(from: &str, to: &str, text: &[u8], ts: u64) -> PlainTextMessage {
    PlainTextMessage::new(peer(from), peer(to), text.to_vec(), ts)
}

fn handler(name: &[u8], remote: &str) -> PrivateChatHandler {
    PrivateChatHandler::new(HandshakeMetadata::new(name.to_vec()), peer(remote))
}

fn unframe(frame_bytes: &[u8]) -> Vec<u8> {
    let n = u32::from_le_bytes(frame_bytes[..4].try_into().expect("length prefix")) as usize;
    assert_eq!(frame_bytes.len(), 4 + n);
    frame_bytes[4..].to_vec()
}

#[test]
fn initiator_sends_handshake_before_any_chat_frame() {
    let mut h = handler(b"alice", "B");
    h.inject_event(InEvent::SendMessage(msg("A", "B", b"hi", 5)));
    // A queued message triggers the substream request.
    assert!(matches!(h.poll(), Some(HandlerAction::RequestSubstream)));
    assert!(h.poll().is_none());
    h.on_substream_open(true);
    // The first frame on the wire is the handshake metadata, never the chat.
    let hs = match h.poll() {
        Some(HandlerAction::SendHandshakeFrame(f)) => f,
        _ => panic!("handshake frame must come first"),
    };
    let md = decode_metadata(&unframe(&hs)).expect("own metadata decodes");
    assert_eq!(md.name, b"alice".to_vec());
    // Still no chat frame: the peer's handshake is outstanding.
    assert!(h.poll().is_none());
    // The peer's metadata arrives; the handler reports it and becomes ready.
    let peer_md = encode_frame(&encode_metadata(&HandshakeMetadata::new(b"bob".to_vec())));
    h.on_bytes_received(&peer_md);
    match h.poll() {
        Some(HandlerAction::EmitEvent(Event::ReceivedMetadata { peer_id, name })) => {
            assert!(peer_id.equals(&peer("B")));
            assert_eq!(name, b"bob".to_vec());
        },
        _ => panic!("expected the metadata event"),
    }
    // Only now the chat frame goes out.
    let cf = match h.poll() {
        Some(HandlerAction::SendChatFrame(f)) => f,
        _ => panic!("expected the chat frame"),
    };
    let m = decode_message(&unframe(&cf)).expect("chat frame decodes");
    assert_eq!(m.text, b"hi".to_vec());
    assert_eq!(m.timestamp, 5);
    // The flush acknowledgement surfaces as a sent event.
    h.on_write_finished();
    match h.poll() {
        Some(HandlerAction::EmitEvent(Event::SentPlainTextMessage { timestamp })) => {
            assert_eq!(timestamp, 5)
        },
        _ => panic!("expected the sent event"),
    }
}

#[test]
fn responder_sends_handshake_only_after_receiving() {
    let mut h = handler(b"bob", "A");
    h.on_substream_open(false);
    // The responder waits: no frame before the initiator's metadata.
    assert!(h.poll().is_none());
    let peer_md = encode_frame(&encode_metadata(&HandshakeMetadata::new(b"alice".to_vec())));
    h.on_bytes_received(&peer_md);
    match h.poll() {
        Some(HandlerAction::EmitEvent(Event::ReceivedMetadata { name, .. })) => {
            assert_eq!(name, b"alice".to_vec())
        },
        _ => panic!("expected the metadata event"),
    }
    // Now the responder's own handshake frame goes out.
    let hs = match h.poll() {
        Some(HandlerAction::SendHandshakeFrame(f)) => f,
        _ => panic!("expected the handshake reply"),
    };
    assert_eq!(decode_metadata(&unframe(&hs)).expect("decodes").name, b"bob".to_vec());
}

#[test]
fn retry_delays_double_up_to_the_ceiling() {
    let mut h = handler(b"alice", "C");
    let d = INITIAL_RETRY_DELAY_MS;
    let mut observed: Vec<u64> = Vec::new();
    for _ in 0..3 {
        h.on_negotiation_failure();
        match h.poll() {
            Some(HandlerAction::StartTimer(delay)) => observed.push(delay),
            _ => panic!("expected the retry timer"),
        }
        match h.poll() {
            Some(HandlerAction::EmitEvent(Event::Error { kind, detail })) => {
                assert_eq!(kind, ErrorKind::FailedToDial);
                assert_eq!(detail, b"C".to_vec());
            },
            _ => panic!("expected the failure event"),
        }
        h.on_timer_fired();
    }
    // Three consecutive failures: delays d, 2d, 4d.
    assert_eq!(observed, vec![d, 2 * d, 4 * d]);
    // The delay never exceeds its ceiling.
    for _ in 0..10 {
        h.on_negotiation_failure();
        let mut timer = None;
        while let Some(a) = h.poll() {
            if let HandlerAction::StartTimer(delay) = a {
                timer = Some(delay);
                break;
            }
        }
        assert!(timer.expect("timer scheduled") <= MAX_RETRY_DELAY_MS);
        h.on_timer_fired();
    }
}

#[test]
fn ready_delay_resets_after_success() {
    let mut h = handler(b"alice", "B");
    h.on_negotiation_failure();
    while h.poll().is_some() {}
    h.on_timer_fired();
    // A successful handshake resets the backoff.
    h.on_substream_open(true);
    assert!(matches!(h.poll(), Some(HandlerAction::SendHandshakeFrame(_))));
    let peer_md = encode_frame(&encode_metadata(&HandshakeMetadata::new(b"bob".to_vec())));
    h.on_bytes_received(&peer_md);
    assert!(matches!(h.poll(), Some(HandlerAction::EmitEvent(_))));
    // Next failure starts from the initial delay again.
    h.on_negotiation_failure();
    let mut timer = None;
    while let Some(a) = h.poll() {
        if let HandlerAction::StartTimer(delay) = a {
            timer = Some(delay);
            break;
        }
    }
    assert_eq!(timer.expect("timer scheduled"), INITIAL_RETRY_DELAY_MS);
}

#[test]
fn malformed_chat_frame_reports_parse_error_and_keeps_the_stream() {
    let mut h = handler(b"alice", "B");
    h.inject_event(InEvent::SendMessage(msg("A", "B", b"hi", 1)));
    assert!(matches!(h.poll(), Some(HandlerAction::RequestSubstream)));
    h.on_substream_open(true);
    assert!(matches!(h.poll(), Some(HandlerAction::SendHandshakeFrame(_))));
    let peer_md = encode_frame(&encode_metadata(&HandshakeMetadata::new(b"bob".to_vec())));
    h.on_bytes_received(&peer_md);
    assert!(matches!(h.poll(), Some(HandlerAction::EmitEvent(_))));
    assert!(matches!(h.poll(), Some(HandlerAction::SendChatFrame(_))));
    // A malformed inbound frame is reported, the stream stays open.
    h.on_bytes_received(&encode_frame(&b"not a message".to_vec()));
    match h.poll() {
        Some(HandlerAction::EmitEvent(Event::Error { kind, detail })) => {
            assert_eq!(kind, ErrorKind::Parse);
            assert_eq!(detail, b"not a message".to_vec());
        },
        _ => panic!("expected the parse error"),
    }
    // A following well-formed frame still decodes.
    h.on_bytes_received(&encode_frame(&encode_message(&msg("B", "A", b"yo", 2))));
    match h.poll() {
        Some(HandlerAction::EmitEvent(Event::ReceivedPlainTextMessage { message })) => {
            assert_eq!(message.text, b"yo".to_vec())
        },
        _ => panic!("expected the message event"),
    }
}

#[test]
fn write_error_reports_network_failure_without_requeue() {
    let mut h = handler(b"alice", "B");
    h.on_write_error(b"broken pipe".to_vec());
    match h.poll() {
        Some(HandlerAction::EmitEvent(Event::Error { kind, detail })) => {
            assert_eq!(kind, ErrorKind::Network);
            assert_eq!(detail, b"broken pipe".to_vec());
        },
        _ => panic!("expected the network error"),
    }
    assert!(h.poll().is_none());
}

#[test]
fn handshake_decode_failure_backs_off() {
    let mut h = handler(b"alice", "B");
    h.on_substream_open(false);
    h.on_bytes_received(&encode_frame(&b"garbage".to_vec()));
    match h.poll() {
        Some(HandlerAction::EmitEvent(Event::Error { kind, .. })) => {
            assert_eq!(kind, ErrorKind::Unreachable)
        },
        _ => panic!("expected the unreachable error"),
    }
    assert!(matches!(h.poll(), Some(HandlerAction::StartTimer(_))));
    assert!(h.connection_keep_alive());
}

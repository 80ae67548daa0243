//! Wire codec tests: JSON shapes, escaping, framing, and the event codec.

use tata_core::{
    decode_event, decode_message, decode_metadata, encode_event, encode_frame, encode_message,
    encode_metadata, ErrorKind, Event, EventTag, FrameBuffer, HandshakeMetadata, PeerId,
    PlainTextMessage,
};

fn msg(from: &str, to: &str, text: &[u8], ts: u64) -> PlainTextMessage {
    PlainTextMessage::new(
        PeerId::new(from.as_bytes().to_vec()),
        PeerId::new(to.as_bytes().to_vec()),
        text.to_vec(),
        ts,
    )
}

#[test]
fn message_round_trip_plain() {
    let m = msg("A", "B", b"hi", 42);
    let bytes = encode_message(&m);
    let back = decode_message(&bytes).expect("canonical form decodes");
    assert!(back.from.equals(&m.from));
    assert!(back.to.equals(&m.to));
    assert_eq!(back.text, m.text);
    assert_eq!(back.timestamp, m.timestamp);
}

#[test]
fn message_round_trip_escapes() {
    let tricky = b"say \"hi\"\\ \n\t \x01\x1f end";
    let m = msg("QmPeerOne", "QmPeerTwo", tricky, u64::MAX);
    let bytes = encode_message(&m);
    let back = decode_message(&bytes).expect("escaped form decodes");
    assert_eq!(back.text, tricky.to_vec());
    assert_eq!(back.timestamp, u64::MAX);
}

#[test]
fn message_round_trip_utf8_text() {
    let text = "grüße 👋".as_bytes();
    let m = msg("A", "B", text, 7);
    let back = decode_message(&encode_message(&m)).expect("utf8 text decodes");
    assert_eq!(back.text, text.to_vec());
}

#[test]
fn message_exact_bytes() {
    let m = msg("A", "B", b"hi", 42);
    let bytes = encode_message(&m);
    assert_eq!(
        bytes,
        b"{\"from\":\"A\",\"to\":\"B\",\"text\":\"hi\",\"timestamp\":42}".to_vec()
    );
}

#[test]
fn message_is_real_json() {
    let tricky = b"q\"uote\\back\x02slash";
    let m = msg("A", "B", tricky, 99);
    let bytes = encode_message(&m);
    let v: serde_json::Value = serde_json::from_slice(&bytes).expect("serde_json parses it");
    assert_eq!(v["from"], "A");
    assert_eq!(v["to"], "B");
    assert_eq!(v["timestamp"], 99);
    assert_eq!(
        v["text"].as_str().expect("text is a string").as_bytes(),
        "q\"uote\\back\u{2}slash".as_bytes()
    );
}

#[test]
fn metadata_round_trip_and_exact_bytes() {
    let md = HandshakeMetadata::new(b"alice".to_vec());
    let bytes = encode_metadata(&md);
    assert_eq!(bytes, b"{\"name\":\"alice\"}".to_vec());
    let back = decode_metadata(&bytes).expect("metadata decodes");
    assert_eq!(back.name, b"alice".to_vec());
}

#[test]
fn metadata_is_real_json() {
    let md = HandshakeMetadata::new("mü \"x\"".as_bytes().to_vec());
    let bytes = encode_metadata(&md);
    let v: serde_json::Value = serde_json::from_slice(&bytes).expect("serde_json parses it");
    assert_eq!(v["name"], "mü \"x\"");
}

#[test]
fn empty_values_round_trip() {
    // Empty identifiers, empty text, and the zero timestamp.
    let m = msg("", "", b"", 0);
    let bytes = encode_message(&m);
    assert_eq!(bytes, b"{\"from\":\"\",\"to\":\"\",\"text\":\"\",\"timestamp\":0}".to_vec());
    let back = decode_message(&bytes).expect("empty fields decode");
    assert!(back.text.is_empty());
    assert_eq!(back.timestamp, 0);
    let md = HandshakeMetadata::new(Vec::new());
    let back = decode_metadata(&encode_metadata(&md)).expect("empty name decodes");
    assert!(back.name.is_empty());
    // An empty frame round trips too.
    let mut fb = FrameBuffer::new();
    fb.push_chunk(&encode_frame(&Vec::new()));
    assert_eq!(fb.try_take_frame().expect("empty frame"), Vec::<u8>::new());
}

#[test]
fn decode_rejects_malformed() {
    assert!(decode_message(&b"".to_vec()).is_none());
    assert!(decode_message(&b"{}".to_vec()).is_none());
    assert!(decode_message(&b"not json at all".to_vec()).is_none());
    assert!(decode_metadata(&b"{\"name\":\"x\"".to_vec()).is_none());
    assert!(decode_metadata(&b"{\"name\":\"x\"} ".to_vec()).is_none());
    // An unescaped control byte inside a string is invalid.
    assert!(decode_metadata(&b"{\"name\":\"a\x01b\"}".to_vec()).is_none());
}

#[test]
fn decode_rejects_number_overflow() {
    let good = b"{\"from\":\"A\",\"to\":\"B\",\"text\":\"hi\",\"timestamp\":18446744073709551615}";
    assert_eq!(decode_message(&good.to_vec()).expect("max fits").timestamp, u64::MAX);
    let bad = b"{\"from\":\"A\",\"to\":\"B\",\"text\":\"hi\",\"timestamp\":18446744073709551616}";
    assert!(decode_message(&bad.to_vec()).is_none());
}

#[test]
fn framing_round_trip_chunked() {
    let payload = b"some payload".to_vec();
    let framed = encode_frame(&payload);
    assert_eq!(framed.len(), payload.len() + 4);
    let mut fb = FrameBuffer::new();
    // Deliver in two arbitrary chunks, with the next frame's start attached.
    let second = encode_frame(&b"tail".to_vec());
    let mut all = framed.clone();
    all.extend_from_slice(&second);
    fb.push_chunk(&all[..7].to_vec());
    assert!(fb.try_take_frame().is_none());
    fb.push_chunk(&all[7..].to_vec());
    assert_eq!(fb.try_take_frame().expect("first frame"), payload);
    assert_eq!(fb.try_take_frame().expect("second frame"), b"tail".to_vec());
    assert!(fb.try_take_frame().is_none());
}

#[test]
fn event_codec_round_trips_every_variant() {
    let events = vec![
        Event::PeerDiscovered { peer_id: PeerId::new(b"QmOne".to_vec()) },
        Event::PeerGone { peer_id: PeerId::new(b"QmTwo".to_vec()) },
        Event::ReceivedMetadata {
            peer_id: PeerId::new(b"QmThree".to_vec()),
            name: b"carol".to_vec(),
        },
        Event::ReceivedPlainTextMessage { message: msg("A", "B", b"hello \"there\"", 5) },
        Event::SentPlainTextMessage { timestamp: 123456789 },
        Event::Error { kind: ErrorKind::Unreachable, detail: b"QmFour".to_vec() },
        Event::Error { kind: ErrorKind::MessageValidation, detail: b"17".to_vec() },
    ];
    for e in events {
        let (tag, payload) = encode_event(&e);
        let back = decode_event(tag, &payload).expect("event decodes");
        match (&e, &back) {
            (Event::PeerDiscovered { peer_id: a }, Event::PeerDiscovered { peer_id: b }) => {
                assert!(a.equals(b))
            },
            (Event::PeerGone { peer_id: a }, Event::PeerGone { peer_id: b }) => {
                assert!(a.equals(b))
            },
            (
                Event::ReceivedMetadata { peer_id: a, name: an },
                Event::ReceivedMetadata { peer_id: b, name: bn },
            ) => {
                assert!(a.equals(b));
                assert_eq!(an, bn);
            },
            (
                Event::ReceivedPlainTextMessage { message: a },
                Event::ReceivedPlainTextMessage { message: b },
            ) => {
                assert!(a.from.equals(&b.from));
                assert!(a.to.equals(&b.to));
                assert_eq!(a.text, b.text);
                assert_eq!(a.timestamp, b.timestamp);
            },
            (
                Event::SentPlainTextMessage { timestamp: a },
                Event::SentPlainTextMessage { timestamp: b },
            ) => assert_eq!(a, b),
            (
                Event::Error { kind: a, detail: ad },
                Event::Error { kind: b, detail: bd },
            ) => {
                assert_eq!(a, b);
                assert_eq!(ad, bd);
            },
            _ => panic!("variant changed in round trip"),
        }
    }
}

#[test]
fn event_codec_rejects_unknown_kind() {
    let payload = b"{\"kind\":\"mystery\",\"detail\":\"x\"}".to_vec();
    assert!(decode_event(EventTag::Error, &payload).is_none());
}

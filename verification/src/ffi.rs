//! The process-boundary surface: events serialized as a tag plus JSON
//! payload, the byte-ownership model for buffers handed across, start-up
//! parameter validation, and keypair wrapping.

use vstd::prelude::*;

use crate::codec::push_byte;
use crate::error::Error;
use crate::event::{ErrorKind, Event, EventModel, EventTag, HandshakeMetadata, tag_of};
use crate::handler::MAX_NAME_LEN;
use crate::base58::b58_text_of;
use crate::peer::{PeerId, Secret};
use crate::wire::{decode_message, decode_obj1n, decode_obj1s, decode_obj2s, encode_message,
    encode_obj1n, encode_obj1s, encode_obj2s, json_message, json_obj1n, json_obj1s, json_obj2s,
    key_name, key_timestamp, parse_message, parse_obj1n, parse_obj1s, parse_obj2s};

verus! {

pub open spec fn key_peer_id() -> Seq<u8> {
    seq![0x70u8, 0x65, 0x65, 0x72, 0x5F, 0x69, 0x64]
}

pub open spec fn key_kind() -> Seq<u8> {
    seq![0x6Bu8, 0x69, 0x6E, 0x64]
}

pub open spec fn key_detail() -> Seq<u8> {
    seq![0x64u8, 0x65, 0x74, 0x61, 0x69, 0x6C]
}

fn key_peer_id_vec() -> (r: Vec<u8>)
    ensures
        r@ == key_peer_id(),
{
    let mut v: Vec<u8> = Vec::new();
    push_byte(&mut v, 0x70);
    push_byte(&mut v, 0x65);
    push_byte(&mut v, 0x65);
    push_byte(&mut v, 0x72);
    push_byte(&mut v, 0x5F);
    push_byte(&mut v, 0x69);
    push_byte(&mut v, 0x64);
    proof {
        assert(v@ =~= key_peer_id());
    }
    v
}

fn key_kind_vec() -> (r: Vec<u8>)
    ensures
        r@ == key_kind(),
{
    let mut v: Vec<u8> = Vec::new();
    push_byte(&mut v, 0x6B);
    push_byte(&mut v, 0x69);
    push_byte(&mut v, 0x6E);
    push_byte(&mut v, 0x64);
    proof {
        assert(v@ =~= key_kind());
    }
    v
}

fn key_detail_vec() -> (r: Vec<u8>)
    ensures
        r@ == key_detail(),
{
    let mut v: Vec<u8> = Vec::new();
    push_byte(&mut v, 0x64);
    push_byte(&mut v, 0x65);
    push_byte(&mut v, 0x74);
    push_byte(&mut v, 0x61);
    push_byte(&mut v, 0x69);
    push_byte(&mut v, 0x6C);
    proof {
        assert(v@ =~= key_detail());
    }
    v
}

/// The text naming an error kind in a serialized event.
pub open spec fn kind_key(k: ErrorKind) -> Seq<u8> {
    match k {
        ErrorKind::FailedToDial => seq![
            0x66u8, 0x61, 0x69, 0x6C, 0x65, 0x64, 0x5F, 0x74, 0x6F, 0x5F, 0x64, 0x69, 0x61, 0x6C,
        ],
        ErrorKind::Network => seq![0x6Eu8, 0x65, 0x74, 0x77, 0x6F, 0x72, 0x6B],
        ErrorKind::Parse => seq![0x70u8, 0x61, 0x72, 0x73, 0x65],
        ErrorKind::MessageValidation => seq![
            0x6Du8, 0x65, 0x73, 0x73, 0x61, 0x67, 0x65, 0x5F, 0x76, 0x61, 0x6C, 0x69, 0x64, 0x61,
            0x74, 0x69, 0x6F, 0x6E,
        ],
        ErrorKind::Unreachable => seq![
            0x75u8, 0x6E, 0x72, 0x65, 0x61, 0x63, 0x68, 0x61, 0x62, 0x6C, 0x65,
        ],
    }
}

/// The error kind a text names, if any.
pub open spec fn kind_of_key(t: Seq<u8>) -> Option<ErrorKind> {
    if t == kind_key(ErrorKind::FailedToDial) {
        Some(ErrorKind::FailedToDial)
    } else if t == kind_key(ErrorKind::Network) {
        Some(ErrorKind::Network)
    } else if t == kind_key(ErrorKind::Parse) {
        Some(ErrorKind::Parse)
    } else if t == kind_key(ErrorKind::MessageValidation) {
        Some(ErrorKind::MessageValidation)
    } else if t == kind_key(ErrorKind::Unreachable) {
        Some(ErrorKind::Unreachable)
    } else {
        None
    }
}

fn kind_key_vec(k: ErrorKind) -> (r: Vec<u8>)
    ensures
        r@ == kind_key(k),
{
    let mut v: Vec<u8> = Vec::new();
    match k {
        ErrorKind::FailedToDial => {
            push_byte(&mut v, 0x66);
            push_byte(&mut v, 0x61);
            push_byte(&mut v, 0x69);
            push_byte(&mut v, 0x6C);
            push_byte(&mut v, 0x65);
            push_byte(&mut v, 0x64);
            push_byte(&mut v, 0x5F);
            push_byte(&mut v, 0x74);
            push_byte(&mut v, 0x6F);
            push_byte(&mut v, 0x5F);
            push_byte(&mut v, 0x64);
            push_byte(&mut v, 0x69);
            push_byte(&mut v, 0x61);
            push_byte(&mut v, 0x6C);
            proof {
                assert(v@ =~= kind_key(k));
            }
        },
        ErrorKind::Network => {
            push_byte(&mut v, 0x6E);
            push_byte(&mut v, 0x65);
            push_byte(&mut v, 0x74);
            push_byte(&mut v, 0x77);
            push_byte(&mut v, 0x6F);
            push_byte(&mut v, 0x72);
            push_byte(&mut v, 0x6B);
            proof {
                assert(v@ =~= kind_key(k));
            }
        },
        ErrorKind::Parse => {
            push_byte(&mut v, 0x70);
            push_byte(&mut v, 0x61);
            push_byte(&mut v, 0x72);
            push_byte(&mut v, 0x73);
            push_byte(&mut v, 0x65);
            proof {
                assert(v@ =~= kind_key(k));
            }
        },
        ErrorKind::MessageValidation => {
            push_byte(&mut v, 0x6D);
            push_byte(&mut v, 0x65);
            push_byte(&mut v, 0x73);
            push_byte(&mut v, 0x73);
            push_byte(&mut v, 0x61);
            push_byte(&mut v, 0x67);
            push_byte(&mut v, 0x65);
            push_byte(&mut v, 0x5F);
            push_byte(&mut v, 0x76);
            push_byte(&mut v, 0x61);
            push_byte(&mut v, 0x6C);
            push_byte(&mut v, 0x69);
            push_byte(&mut v, 0x64);
            push_byte(&mut v, 0x61);
            push_byte(&mut v, 0x74);
            push_byte(&mut v, 0x69);
            push_byte(&mut v, 0x6F);
            push_byte(&mut v, 0x6E);
            proof {
                assert(v@ =~= kind_key(k));
            }
        },
        ErrorKind::Unreachable => {
            push_byte(&mut v, 0x75);
            push_byte(&mut v, 0x6E);
            push_byte(&mut v, 0x72);
            push_byte(&mut v, 0x65);
            push_byte(&mut v, 0x61);
            push_byte(&mut v, 0x63);
            push_byte(&mut v, 0x68);
            push_byte(&mut v, 0x61);
            push_byte(&mut v, 0x62);
            push_byte(&mut v, 0x6C);
            push_byte(&mut v, 0x65);
            proof {
                assert(v@ =~= kind_key(k));
            }
        },
    }
    v
}

fn kind_from_vec(t: &Vec<u8>) -> (r: Option<ErrorKind>)
    ensures
        r == kind_of_key(t@),
{
    if crate::peer::eq_bytes(t, &kind_key_vec(ErrorKind::FailedToDial)) {
        Some(ErrorKind::FailedToDial)
    } else if crate::peer::eq_bytes(t, &kind_key_vec(ErrorKind::Network)) {
        Some(ErrorKind::Network)
    } else if crate::peer::eq_bytes(t, &kind_key_vec(ErrorKind::Parse)) {
        Some(ErrorKind::Parse)
    } else if crate::peer::eq_bytes(t, &kind_key_vec(ErrorKind::MessageValidation)) {
        Some(ErrorKind::MessageValidation)
    } else if crate::peer::eq_bytes(t, &kind_key_vec(ErrorKind::Unreachable)) {
        Some(ErrorKind::Unreachable)
    } else {
        None
    }
}

/// The serialized payload of an event.
pub open spec fn event_payload(e: EventModel) -> Seq<u8> {
    match e {
        EventModel::PeerDiscovered { peer_id } => json_obj1s(key_peer_id(), peer_id),
        EventModel::PeerGone { peer_id } => json_obj1s(key_peer_id(), peer_id),
        EventModel::ReceivedMetadata { peer_id, name } => json_obj2s(
            key_peer_id(),
            peer_id,
            key_name(),
            name,
        ),
        EventModel::ReceivedPlainTextMessage { message } => json_message(message),
        EventModel::SentPlainTextMessage { timestamp } => json_obj1n(key_timestamp(), timestamp),
        EventModel::Error { kind, detail } => json_obj2s(
            key_kind(),
            kind_key(kind),
            key_detail(),
            detail,
        ),
    }
}

/// What a tag and payload decode to.
pub open spec fn event_of_payload(tag: EventTag, s: Seq<u8>) -> Option<EventModel> {
    match tag {
        EventTag::PeerDiscovered => match parse_obj1s(key_peer_id(), s) {
            Some(p) => Some(EventModel::PeerDiscovered { peer_id: p }),
            None => None,
        },
        EventTag::PeerGone => match parse_obj1s(key_peer_id(), s) {
            Some(p) => Some(EventModel::PeerGone { peer_id: p }),
            None => None,
        },
        EventTag::ReceivedMetadata => match parse_obj2s(key_peer_id(), key_name(), s) {
            Some(t) => Some(EventModel::ReceivedMetadata { peer_id: t.0, name: t.1 }),
            None => None,
        },
        EventTag::ReceivedPlainTextMessage => match parse_message(s) {
            Some(m) => Some(EventModel::ReceivedPlainTextMessage { message: m }),
            None => None,
        },
        EventTag::SentPlainTextMessage => match parse_obj1n(key_timestamp(), s) {
            Some(n) => Some(EventModel::SentPlainTextMessage { timestamp: n }),
            None => None,
        },
        EventTag::Error => match parse_obj2s(key_kind(), key_detail(), s) {
            Some(t) => match kind_of_key(t.0) {
                Some(k) => Some(EventModel::Error { kind: k, detail: t.1 }),
                None => None,
            },
            None => None,
        },
    }
}

/// Serialize an event for the foreign callback: its tag plus JSON payload.
pub fn encode_event(e: &Event) -> (r: (EventTag, Vec<u8>))
    ensures
        r.0 == tag_of(e@),
        r.1@ == event_payload(e@),
{
    match e {
        Event::PeerDiscovered { peer_id } => (
            EventTag::PeerDiscovered,
            encode_obj1s(&key_peer_id_vec(), peer_id.text()),
        ),
        Event::PeerGone { peer_id } => (
            EventTag::PeerGone,
            encode_obj1s(&key_peer_id_vec(), peer_id.text()),
        ),
        Event::ReceivedMetadata { peer_id, name } => (
            EventTag::ReceivedMetadata,
            encode_obj2s(&key_peer_id_vec(), peer_id.text(), &crate::wire::key_name_vec(), name),
        ),
        Event::ReceivedPlainTextMessage { message } => (
            EventTag::ReceivedPlainTextMessage,
            encode_message(message),
        ),
        Event::SentPlainTextMessage { timestamp } => (
            EventTag::SentPlainTextMessage,
            encode_obj1n(&crate::wire::key_timestamp_vec(), *timestamp),
        ),
        Event::Error { kind, detail } => (
            EventTag::Error,
            encode_obj2s(&key_kind_vec(), &kind_key_vec(*kind), &key_detail_vec(), detail),
        ),
    }
}

/// Decode a tag plus payload back into an event.
pub fn decode_event(tag: EventTag, s: &Vec<u8>) -> (r: Option<Event>)
    ensures
        match r {
            Some(e) => event_of_payload(tag, s@) == Some(e@),
            None => event_of_payload(tag, s@) is None,
        },
{
    match tag {
        EventTag::PeerDiscovered => match decode_obj1s(&key_peer_id_vec(), s) {
            Some(p) => Some(Event::PeerDiscovered { peer_id: PeerId::new(p) }),
            None => None,
        },
        EventTag::PeerGone => match decode_obj1s(&key_peer_id_vec(), s) {
            Some(p) => Some(Event::PeerGone { peer_id: PeerId::new(p) }),
            None => None,
        },
        EventTag::ReceivedMetadata => match decode_obj2s(
            &key_peer_id_vec(),
            &crate::wire::key_name_vec(),
            s,
        ) {
            Some((p, name)) => Some(
                Event::ReceivedMetadata { peer_id: PeerId::new(p), name },
            ),
            None => None,
        },
        EventTag::ReceivedPlainTextMessage => match decode_message(s) {
            Some(m) => Some(Event::ReceivedPlainTextMessage { message: m }),
            None => None,
        },
        EventTag::SentPlainTextMessage => match decode_obj1n(&crate::wire::key_timestamp_vec(), s) {
            Some(n) => Some(Event::SentPlainTextMessage { timestamp: n }),
            None => None,
        },
        EventTag::Error => match decode_obj2s(&key_kind_vec(), &key_detail_vec(), s) {
            Some((t, detail)) => match kind_from_vec(&t) {
                Some(k) => Some(Event::Error { kind: k, detail }),
                None => None,
            },
            None => None,
        },
    }
}

/// The five kind texts are distinct, so the kind of a serialized error is
/// recovered exactly.
pub proof fn lemma_kind_key_injective(k: ErrorKind)
    ensures
        kind_of_key(kind_key(k)) == Some(k),
{
}

/// Decoding a serialized event yields the event again, whichever variant it
/// was.
pub proof fn lemma_event_round_trip(e: EventModel)
    ensures
        event_of_payload(tag_of(e), event_payload(e)) == Some(e),
{
    match e {
        EventModel::PeerDiscovered { peer_id } => {
            crate::wire::lemma_obj1s_round_trip(key_peer_id(), peer_id);
        },
        EventModel::PeerGone { peer_id } => {
            crate::wire::lemma_obj1s_round_trip(key_peer_id(), peer_id);
        },
        EventModel::ReceivedMetadata { peer_id, name } => {
            crate::wire::lemma_obj2s_round_trip(key_peer_id(), peer_id, key_name(), name);
        },
        EventModel::ReceivedPlainTextMessage { message } => {
            crate::wire::lemma_message_round_trip(message);
        },
        EventModel::SentPlainTextMessage { timestamp } => {
            crate::wire::lemma_obj1n_round_trip(key_timestamp(), timestamp);
        },
        EventModel::Error { kind, detail } => {
            crate::wire::lemma_obj2s_round_trip(key_kind(), kind_key(kind), key_detail(), detail);
            lemma_kind_key_injective(kind);
        },
    }
}

/// An owned byte buffer staged for transfer across the foreign boundary.
/// The producing side gives it up; exactly one consuming operation
/// releases it, and Rust's move semantics make a second release
/// unrepresentable.  The raw pointer-and-length form of the same contract
/// lives with the unverified boundary code.
pub struct ForeignBuffer {
    bytes: Vec<u8>,
}

impl View for ForeignBuffer {
    type V = Seq<u8>;

    closed spec fn view(&self) -> Seq<u8> {
        self.bytes@
    }
}

impl ForeignBuffer {
    /// Stage an owned buffer for the boundary.
    pub fn from_vec(bytes: Vec<u8>) -> (r: Self)
        ensures
            r@ == bytes@,
    {
        ForeignBuffer { bytes }
    }

    pub fn len(&self) -> (r: usize)
        ensures
            r == self@.len(),
    {
        self.bytes.len()
    }

    /// The single consuming release: the receiver takes ownership back.
    pub fn into_vec(self) -> (r: Vec<u8>)
        ensures
            r@ == self@,
    {
        self.bytes
    }
}

/// Validate the start-up parameters: a secp256k1 secret key is exactly 32
/// bytes, and the display name must stay frameable.
pub fn start_params(secret_bytes: Vec<u8>, name: Vec<u8>) -> (r: Result<
    (Secret, HandshakeMetadata),
    Error,
>)
    ensures
        r is Ok <==> secret_bytes@.len() == 32 && name@.len() <= MAX_NAME_LEN,
        r matches Ok(p) ==> p.0@ == secret_bytes@ && p.1@ == name@,
        secret_bytes@.len() != 32 ==> r == Err::<(Secret, HandshakeMetadata), Error>(
            Error::SecretLength,
        ),
        secret_bytes@.len() == 32 && name@.len() > MAX_NAME_LEN ==> r == Err::<
            (Secret, HandshakeMetadata),
            Error,
        >(Error::NameLength),
{
    if secret_bytes.len() != 32 {
        return Err(Error::SecretLength);
    }
    if name.len() > MAX_NAME_LEN {
        return Err(Error::NameLength);
    }
    Ok((Secret::new(secret_bytes), HandshakeMetadata::new(name)))
}

/// Wrap freshly generated key material, exactly as [`crate::create_keypair`]
/// does; this is the name the foreign surface uses.
pub fn generate_keypair(secret_bytes: Vec<u8>, peer_id_bytes: &Vec<u8>) -> (r: (Secret, PeerId))
    ensures
        r.0@ == secret_bytes@,
        r.1@ == b58_text_of(peer_id_bytes@),
{
    crate::peer::create_keypair(secret_bytes, peer_id_bytes)
}

} // verus!

//! Events surfaced to consumers, and the message shapes they carry.

use vstd::prelude::*;

use crate::peer::{clone_bytes, PeerId};

verus! {

/// A chat message.  The timestamp is caller-supplied (milliseconds since
/// epoch) and correlates the later sent acknowledgement event.
pub struct PlainTextMessage {
    pub from: PeerId,
    pub to: PeerId,
    pub text: Vec<u8>,
    pub timestamp: u64,
}

/// Mathematical model of a chat message.
pub struct MessageModel {
    pub from: Seq<u8>,
    pub to: Seq<u8>,
    pub text: Seq<u8>,
    pub timestamp: u64,
}

impl View for PlainTextMessage {
    type V = MessageModel;

    open spec fn view(&self) -> MessageModel {
        MessageModel {
            from: self.from@,
            to: self.to@,
            text: self.text@,
            timestamp: self.timestamp,
        }
    }
}

impl Clone for PlainTextMessage {
    fn clone(&self) -> (r: Self)
        ensures
            r@ == self@,
    {
        PlainTextMessage {
            from: self.from.clone(),
            to: self.to.clone(),
            text: clone_bytes(&self.text),
            timestamp: self.timestamp,
        }
    }
}

impl PlainTextMessage {
    pub fn new(from: PeerId, to: PeerId, text: Vec<u8>, timestamp: u64) -> (r: Self)
        ensures
            r@ == (MessageModel { from: from@, to: to@, text: text@, timestamp }),
    {
        PlainTextMessage { from, to, text, timestamp }
    }
}

/// The metadata each side sends once per connection, before any chat frame.
pub struct HandshakeMetadata {
    pub name: Vec<u8>,
}

impl View for HandshakeMetadata {
    type V = Seq<u8>;

    open spec fn view(&self) -> Seq<u8> {
        self.name@
    }
}

impl Clone for HandshakeMetadata {
    fn clone(&self) -> (r: Self)
        ensures
            r@ == self@,
    {
        HandshakeMetadata { name: clone_bytes(&self.name) }
    }
}

impl HandshakeMetadata {
    pub fn new(name: Vec<u8>) -> (r: Self)
        ensures
            r@ == name@,
    {
        HandshakeMetadata { name }
    }
}

/// Payload of a discovery or loss notification.
pub struct PeerDiscoverMessage {
    pub peer_id: PeerId,
}

impl View for PeerDiscoverMessage {
    type V = Seq<u8>;

    open spec fn view(&self) -> Seq<u8> {
        self.peer_id@
    }
}

impl Clone for PeerDiscoverMessage {
    fn clone(&self) -> (r: Self)
        ensures
            r@ == self@,
    {
        PeerDiscoverMessage { peer_id: self.peer_id.clone() }
    }
}

/// The kind of a failure reported as an `Error` event.  All of them are
/// non-fatal: the reporting component keeps running.
#[derive(Clone, Copy, PartialEq, Eq, Structural, Debug)]
pub enum ErrorKind {
    /// A dial request could not reach the peer.
    FailedToDial,
    /// A transport failure after the handshake.
    Network,
    /// A malformed inbound frame.
    Parse,
    /// A local encode failure before send.
    MessageValidation,
    /// A handshake or substream negotiation failure.
    Unreachable,
}

/// An event surfaced to consumers through the reactor.  Events are immutable
/// values; each consumer receives its own copy.
pub enum Event {
    PeerDiscovered { peer_id: PeerId },
    PeerGone { peer_id: PeerId },
    ReceivedMetadata { peer_id: PeerId, name: Vec<u8> },
    ReceivedPlainTextMessage { message: PlainTextMessage },
    SentPlainTextMessage { timestamp: u64 },
    Error { kind: ErrorKind, detail: Vec<u8> },
}

/// Mathematical model of an event.
pub enum EventModel {
    PeerDiscovered { peer_id: Seq<u8> },
    PeerGone { peer_id: Seq<u8> },
    ReceivedMetadata { peer_id: Seq<u8>, name: Seq<u8> },
    ReceivedPlainTextMessage { message: MessageModel },
    SentPlainTextMessage { timestamp: u64 },
    Error { kind: ErrorKind, detail: Seq<u8> },
}

impl View for Event {
    type V = EventModel;

    open spec fn view(&self) -> EventModel {
        match self {
            Event::PeerDiscovered { peer_id } => EventModel::PeerDiscovered { peer_id: peer_id@ },
            Event::PeerGone { peer_id } => EventModel::PeerGone { peer_id: peer_id@ },
            Event::ReceivedMetadata { peer_id, name } => EventModel::ReceivedMetadata {
                peer_id: peer_id@,
                name: name@,
            },
            Event::ReceivedPlainTextMessage { message } => EventModel::ReceivedPlainTextMessage {
                message: message@,
            },
            Event::SentPlainTextMessage { timestamp } => EventModel::SentPlainTextMessage {
                timestamp: *timestamp,
            },
            Event::Error { kind, detail } => EventModel::Error { kind: *kind, detail: detail@ },
        }
    }
}

impl Clone for Event {
    fn clone(&self) -> (r: Self)
        ensures
            r@ == self@,
    {
        match self {
            Event::PeerDiscovered { peer_id } => Event::PeerDiscovered {
                peer_id: peer_id.clone(),
            },
            Event::PeerGone { peer_id } => Event::PeerGone { peer_id: peer_id.clone() },
            Event::ReceivedMetadata { peer_id, name } => Event::ReceivedMetadata {
                peer_id: peer_id.clone(),
                name: clone_bytes(name),
            },
            Event::ReceivedPlainTextMessage { message } => Event::ReceivedPlainTextMessage {
                message: message.clone(),
            },
            Event::SentPlainTextMessage { timestamp } => Event::SentPlainTextMessage {
                timestamp: *timestamp,
            },
            Event::Error { kind, detail } => Event::Error {
                kind: *kind,
                detail: clone_bytes(detail),
            },
        }
    }
}

/// Union tag naming an event variant, used where an event crosses a process
/// boundary as a tag plus a serialized payload.
#[derive(Clone, Copy, PartialEq, Eq, Structural, Debug)]
pub enum EventTag {
    PeerDiscovered,
    PeerGone,
    ReceivedMetadata,
    ReceivedPlainTextMessage,
    SentPlainTextMessage,
    Error,
}

/// The tag of an event.
pub open spec fn tag_of(e: EventModel) -> EventTag {
    match e {
        EventModel::PeerDiscovered { .. } => EventTag::PeerDiscovered,
        EventModel::PeerGone { .. } => EventTag::PeerGone,
        EventModel::ReceivedMetadata { .. } => EventTag::ReceivedMetadata,
        EventModel::ReceivedPlainTextMessage { .. } => EventTag::ReceivedPlainTextMessage,
        EventModel::SentPlainTextMessage { .. } => EventTag::SentPlainTextMessage,
        EventModel::Error { .. } => EventTag::Error,
    }
}

/// Alias kept for the plain union-tag name used at the foreign surface.
pub type PlainEvent = EventTag;

} // verus!

//! Protocol identifiers negotiated once per substream, and the protocol
//! value types that carry the local metadata into an upgrade.

use vstd::prelude::*;

use crate::codec::push_byte;
use crate::event::HandshakeMetadata;
use crate::peer::clone_bytes;

verus! {

/// Identifier of the chat protocol: `/private_chat/1.0.0`.
pub open spec fn private_chat_protocol_id() -> Seq<u8> {
    seq![
        0x2Fu8, 0x70, 0x72, 0x69, 0x76, 0x61, 0x74, 0x65, 0x5F, 0x63, 0x68, 0x61, 0x74, 0x2F,
        0x31, 0x2E, 0x30, 0x2E, 0x30,
    ]
}

/// Identifier of the metadata-only protocol: `/tata/metadata/1.0.0`.
pub open spec fn metadata_protocol_id() -> Seq<u8> {
    seq![
        0x2Fu8, 0x74, 0x61, 0x74, 0x61, 0x2F, 0x6D, 0x65, 0x74, 0x61, 0x64, 0x61, 0x74, 0x61,
        0x2F, 0x31, 0x2E, 0x30, 0x2E, 0x30,
    ]
}

/// Metadata as carried by the metadata-only exchange.
pub struct Metadata {
    pub name: Vec<u8>,
}

impl View for Metadata {
    type V = Seq<u8>;

    open spec fn view(&self) -> Seq<u8> {
        self.name@
    }
}

/// The chat protocol: knows its identifier and hands the local metadata to
/// each substream upgrade, whose handshake the connection handler runs.
pub struct PrivateChatProtocol {
    local_metadata: HandshakeMetadata,
}

impl PrivateChatProtocol {
    pub closed spec fn metadata(&self) -> Seq<u8> {
        self.local_metadata@
    }

    pub fn new(local_metadata: HandshakeMetadata) -> (r: Self)
        ensures
            r.metadata() == local_metadata@,
    {
        PrivateChatProtocol { local_metadata }
    }

    /// The identifier offered during protocol negotiation.
    pub fn protocol_info(&self) -> (r: Vec<u8>)
        ensures
            r@ == private_chat_protocol_id(),
    {
        let mut v: Vec<u8> = Vec::new();
        push_byte(&mut v, 0x2F);
        push_byte(&mut v, 0x70);
        push_byte(&mut v, 0x72);
        push_byte(&mut v, 0x69);
        push_byte(&mut v, 0x76);
        push_byte(&mut v, 0x61);
        push_byte(&mut v, 0x74);
        push_byte(&mut v, 0x65);
        push_byte(&mut v, 0x5F);
        push_byte(&mut v, 0x63);
        push_byte(&mut v, 0x68);
        push_byte(&mut v, 0x61);
        push_byte(&mut v, 0x74);
        push_byte(&mut v, 0x2F);
        push_byte(&mut v, 0x31);
        push_byte(&mut v, 0x2E);
        push_byte(&mut v, 0x30);
        push_byte(&mut v, 0x2E);
        push_byte(&mut v, 0x30);
        proof {
            assert(v@ =~= private_chat_protocol_id());
        }
        v
    }

    /// A copy of the metadata for one upgrade.
    pub fn upgrade_metadata(&self) -> (r: HandshakeMetadata)
        ensures
            r@ == self.metadata(),
    {
        HandshakeMetadata { name: clone_bytes(&self.local_metadata.name) }
    }
}

/// The metadata-only protocol: a bare stream handed through unchanged.
pub struct MetadataProtocol;

impl MetadataProtocol {
    /// The identifier offered during protocol negotiation.
    pub fn protocol_info(&self) -> (r: Vec<u8>)
        ensures
            r@ == metadata_protocol_id(),
    {
        let mut v: Vec<u8> = Vec::new();
        push_byte(&mut v, 0x2F);
        push_byte(&mut v, 0x74);
        push_byte(&mut v, 0x61);
        push_byte(&mut v, 0x74);
        push_byte(&mut v, 0x61);
        push_byte(&mut v, 0x2F);
        push_byte(&mut v, 0x6D);
        push_byte(&mut v, 0x65);
        push_byte(&mut v, 0x74);
        push_byte(&mut v, 0x61);
        push_byte(&mut v, 0x64);
        push_byte(&mut v, 0x61);
        push_byte(&mut v, 0x74);
        push_byte(&mut v, 0x61);
        push_byte(&mut v, 0x2F);
        push_byte(&mut v, 0x31);
        push_byte(&mut v, 0x2E);
        push_byte(&mut v, 0x30);
        push_byte(&mut v, 0x2E);
        push_byte(&mut v, 0x30);
        proof {
            assert(v@ =~= metadata_protocol_id());
        }
        v
    }
}

} // verus!

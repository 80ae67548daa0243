//! Peer-to-peer messaging core: a connection/message dispatcher, a
//! per-connection protocol handler with handshake and retry backoff, a
//! length-framed JSON wire codec, and a bounded ring-buffer event reactor
//! with cursor-based consumers.

mod base58;
mod codec;
mod command;
mod discovery;
mod dispatcher;
mod error;
mod event;
mod ffi;
mod framing;
mod handler;
mod metadata;
mod peer;
mod protocol;
mod reactor;
mod ring;
mod stream;
mod user;
mod wire;

pub use base58::{b58_bytes_of, b58_text_of, is_base58_byte, is_base58_seq};
pub use command::{command_of, first_token, Command, UserCommand};
pub use discovery::{
    dedup, discovery_event, discovery_events, lemma_dedup_distinct, should_initiate,
    MetadataBehaviour,
};
pub use dispatcher::{
    action_model, entry_msgs, has_key, has_peer, lemma_first_send_dials, lemma_single_dial,
    remove_entry, remove_peer, route, stash, DialEntry, DispatchState, DispatcherAction,
    PrivateChatBehaviour, RoutedAction,
};
pub use error::Error;
pub use event::{
    ErrorKind, Event, EventModel, EventTag, HandshakeMetadata, MessageModel, PeerDiscoverMessage,
    PlainEvent, PlainTextMessage,
};
pub use ffi::{
    decode_event, encode_event, event_of_payload, event_payload, generate_keypair, kind_key,
    kind_of_key, lemma_event_round_trip, start_params, ForeignBuffer,
};
pub use framing::{encode_frame, frame, lemma_frame_round_trip, take_frame, FrameBuffer};
pub use handler::{
    lemma_no_chat_before_handshake, HandlerAction, HandlerModel, HandlerState, InEvent,
    PrivateChatHandler, INITIAL_RETRY_DELAY_MS, MAX_NAME_LEN, MAX_RETRY_DELAY_MS,
};
pub use metadata::{
    MetadataAction, MetadataError, MetadataHandler, MetadataHandlerModel, MetadataHandlerState,
};
pub use peer::{clone_bytes, create_keypair, eq_bytes, lex_lt, OpaquePeerId, PeerId, Secret};
pub use protocol::{
    metadata_protocol_id, private_chat_protocol_id, Metadata, MetadataProtocol, PrivateChatProtocol,
};
pub use reactor::{event_callback, lemma_overflow_stales_origin, DrainError, Reactor, BUFFER_SIZE};
pub use ring::RingVec;
pub use stream::{resume_point, EventStream, NetworkEventStream};
pub use user::{NewUser, UpdateUser, User};
pub use wire::{
    decode_message, decode_metadata, encode_message, encode_metadata, json_message, json_metadata,
    lemma_message_round_trip, lemma_metadata_round_trip, parse_message, parse_metadata,
};

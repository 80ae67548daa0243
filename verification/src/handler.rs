//! The per-connection protocol handler: one instance per live
//! connection.  It runs the handshake over a fresh substream, frames and
//! sends queued chat messages, decodes inbound frames, and retries failed
//! substream negotiation with a doubling delay up to a fixed ceiling.
//!
//! Handshake order is fixed per direction: the side that opened the
//! substream sends its metadata frame first; the responding side sends its
//! own only after receiving the peer's.

use vstd::prelude::*;

use std::collections::VecDeque;

use crate::event::{ErrorKind, Event, EventModel, HandshakeMetadata, MessageModel,
    PlainTextMessage};
use crate::framing::{encode_frame, frame, take_frame, FrameBuffer};
use crate::peer::{clone_bytes, PeerId};
use crate::wire::{decode_message, decode_metadata, encode_message, encode_metadata,
    json_message, json_metadata, parse_message, parse_metadata};

verus! {

/// First retry delay after a failed negotiation, in milliseconds.
pub const INITIAL_RETRY_DELAY_MS: u64 = 1000;

/// Ceiling for the doubling retry delay, in milliseconds.
pub const MAX_RETRY_DELAY_MS: u64 = 64000;

/// Bound on the local metadata name, so its handshake frame always fits the
/// length prefix.
pub const MAX_NAME_LEN: usize = 0x0100_0000;

/// The handler's position in a connection's life.
pub enum HandlerState {
    /// No substream; one is requested once a message is queued.
    Idle,
    /// Waiting for the transport to open the requested substream.
    SubstreamRequested,
    /// Substream open; handshake frames being exchanged.  `initiator` is
    /// true on the side that opened the substream.
    HandshakePending { initiator: bool },
    /// Handshake complete; chat frames may flow.
    Ready,
    /// A negotiation failed; waiting out the retry delay.
    Backoff,
}

/// What the handler asks its surroundings to do next.
pub enum HandlerAction {
    /// Surface an event to the dispatcher.
    EmitEvent(Event),
    /// Ask the transport to open a new substream on this connection.
    RequestSubstream,
    /// Write a handshake metadata frame to the substream.
    SendHandshakeFrame(Vec<u8>),
    /// Write a chat message frame to the substream.
    SendChatFrame(Vec<u8>),
    /// Arrange a retry after this many milliseconds.
    StartTimer(u64),
}

/// Event from the dispatcher: a message for this connection's peer.
pub enum InEvent {
    SendMessage(PlainTextMessage),
}

/// Mathematical state of a handler.
#[verifier::ext_equal]
pub struct HandlerModel {
    pub state: HandlerState,
    pub queue: Seq<MessageModel>,
    pub events: Seq<EventModel>,
    pub outgoing: Option<u64>,
    pub send_due: bool,
    pub timer_due: Option<u64>,
    pub delay: u64,
    pub inbuf: Seq<u8>,
    pub sent: bool,
    pub received: bool,
    pub metadata: Seq<u8>,
    pub peer: Seq<u8>,
}

/// Protocol handler for private chat on one connection.
pub struct PrivateChatHandler {
    local_metadata: HandshakeMetadata,
    peer_id: PeerId,
    state: HandlerState,
    pending_sending_messages: VecDeque<PlainTextMessage>,
    pending_events: VecDeque<Event>,
    outgoing_message: Option<u64>,
    handshake_send_due: bool,
    timer_due: Option<u64>,
    retry_delay: u64,
    in_frames: FrameBuffer,
    handshake_sent: bool,
    handshake_received: bool,
}

impl PrivateChatHandler {
    /// Mathematical state.
    pub closed spec fn hmodel(&self) -> HandlerModel {
        HandlerModel {
            state: self.state,
            queue: self.pending_sending_messages@.map_values(|m: PlainTextMessage| m@),
            events: self.pending_events@.map_values(|e: Event| e@),
            outgoing: self.outgoing_message,
            send_due: self.handshake_send_due,
            timer_due: self.timer_due,
            delay: self.retry_delay,
            inbuf: self.in_frames@,
            sent: self.handshake_sent,
            received: self.handshake_received,
            metadata: self.local_metadata@,
            peer: self.peer_id@,
        }
    }

    pub open spec fn state(&self) -> HandlerState {
        self.hmodel().state
    }

    pub open spec fn handshake_sent(&self) -> bool {
        self.hmodel().sent
    }

    pub open spec fn handshake_received(&self) -> bool {
        self.hmodel().received
    }

    /// Structural invariant: the retry delay stays within its band, the
    /// metadata name stays frameable, a due handshake frame implies an open
    /// handshake, and `Ready` implies a completed exchange.
    pub closed spec fn wf(&self) -> bool {
        &&& INITIAL_RETRY_DELAY_MS <= self.retry_delay <= MAX_RETRY_DELAY_MS
        &&& self.local_metadata@.len() <= MAX_NAME_LEN
        &&& self.handshake_send_due ==> (self.state matches HandlerState::HandshakePending {
            ..
        }) && !self.handshake_sent
        &&& self.state is Ready ==> self.handshake_sent && self.handshake_received
    }

    /// Creates a handler for one connection.  `local_metadata` is what this
    /// side sends in its handshake frame; `peer_id` names the remote side.
    pub fn new(local_metadata: HandshakeMetadata, peer_id: PeerId) -> (r: Self)
        requires
            local_metadata@.len() <= MAX_NAME_LEN,
        ensures
            r.wf(),
            r.hmodel() == (HandlerModel {
                state: HandlerState::Idle,
                queue: Seq::<MessageModel>::empty(),
                events: Seq::<EventModel>::empty(),
                outgoing: None,
                send_due: false,
                timer_due: None,
                delay: INITIAL_RETRY_DELAY_MS,
                inbuf: Seq::<u8>::empty(),
                sent: false,
                received: false,
                metadata: local_metadata@,
                peer: peer_id@,
            }),
    {
        let r = PrivateChatHandler {
            local_metadata,
            peer_id,
            state: HandlerState::Idle,
            pending_sending_messages: VecDeque::new(),
            pending_events: VecDeque::new(),
            outgoing_message: None,
            handshake_send_due: false,
            timer_due: None,
            retry_delay: INITIAL_RETRY_DELAY_MS,
            in_frames: FrameBuffer::new(),
            handshake_sent: false,
            handshake_received: false,
        };
        proof {
            assert(r.hmodel() =~= (HandlerModel {
                state: HandlerState::Idle,
                queue: Seq::<MessageModel>::empty(),
                events: Seq::<EventModel>::empty(),
                outgoing: None,
                send_due: false,
                timer_due: None,
                delay: INITIAL_RETRY_DELAY_MS,
                inbuf: Seq::<u8>::empty(),
                sent: false,
                received: false,
                metadata: r.local_metadata@,
                peer: r.peer_id@,
            }));
        }
        r
    }

    /// A message from the dispatcher joins the send queue.
    pub fn inject_event(&mut self, event: InEvent)
        requires
            old(self).wf(),
        ensures
            final(self).wf(),
            event matches InEvent::SendMessage(m) ==> final(self).hmodel() == (HandlerModel {
                queue: old(self).hmodel().queue.push(m@),
                ..old(self).hmodel()
            }),
    {
        let ghost pre = self.hmodel();
        match event {
            InEvent::SendMessage(m) => {
                let ghost mm = m@;
                self.pending_sending_messages.push_back(m);
                proof {
                    assert(self.hmodel() =~= (HandlerModel { queue: pre.queue.push(mm), ..pre }));
                }
            },
        }
    }

    /// The transport opened a substream on this connection; `initiator` is
    /// true when this side requested it.  The initiator owes its handshake
    /// frame at once; the responder sends after receiving.
    pub fn on_substream_open(&mut self, initiator: bool)
        requires
            old(self).wf(),
        ensures
            final(self).wf(),
            final(self).hmodel() == (HandlerModel {
                state: HandlerState::HandshakePending { initiator },
                send_due: initiator,
                sent: false,
                received: false,
                ..old(self).hmodel()
            }),
    {
        self.state = HandlerState::HandshakePending { initiator };
        self.handshake_sent = false;
        self.handshake_received = false;
        self.handshake_send_due = initiator;
        proof {
            assert(self.hmodel() =~= (HandlerModel {
                state: HandlerState::HandshakePending { initiator },
                send_due: initiator,
                sent: false,
                received: false,
                ..old(self).hmodel()
            }));
        }
    }

    /// Bytes arrived on the substream.
    pub fn on_bytes_received(&mut self, chunk: &Vec<u8>)
        requires
            old(self).wf(),
        ensures
            final(self).wf(),
            final(self).hmodel() == (HandlerModel {
                inbuf: old(self).hmodel().inbuf + chunk@,
                ..old(self).hmodel()
            }),
    {
        self.in_frames.push_chunk(chunk);
        proof {
            assert(self.hmodel() =~= (HandlerModel {
                inbuf: old(self).hmodel().inbuf + chunk@,
                ..old(self).hmodel()
            }));
        }
    }

    /// The write of the chat frame in flight finished: acknowledge it with
    /// a sent event carrying the message's timestamp.
    pub fn on_write_finished(&mut self)
        requires
            old(self).wf(),
        ensures
            final(self).wf(),
            final(self).hmodel() == match old(self).hmodel().outgoing {
                Some(ts) => HandlerModel {
                    outgoing: None,
                    events: old(self).hmodel().events.push(
                        EventModel::SentPlainTextMessage { timestamp: ts },
                    ),
                    ..old(self).hmodel()
                },
                None => old(self).hmodel(),
            },
    {
        let ghost pre = self.hmodel();
        match self.outgoing_message {
            Some(ts) => {
                self.outgoing_message = None;
                self.pending_events.push_back(Event::SentPlainTextMessage { timestamp: ts });
                proof {
                    assert(self.hmodel() =~= (HandlerModel {
                        outgoing: None,
                        events: pre.events.push(EventModel::SentPlainTextMessage { timestamp: ts }),
                        ..pre
                    }));
                }
            },
            None => {
                proof {
                    assert(self.hmodel() =~= pre);
                }
            },
        }
    }

    /// The write of the chat frame in flight failed: report a network error
    /// and do not requeue; the caller observes the failure as the absence of
    /// a sent event.
    pub fn on_write_error(&mut self, detail: Vec<u8>)
        requires
            old(self).wf(),
        ensures
            final(self).wf(),
            final(self).hmodel() == (HandlerModel {
                outgoing: None,
                events: old(self).hmodel().events.push(
                    EventModel::Error { kind: ErrorKind::Network, detail: detail@ },
                ),
                ..old(self).hmodel()
            }),
    {
        let ghost pre = self.hmodel();
        let ghost dd = detail@;
        self.outgoing_message = None;
        self.pending_events.push_back(Event::Error { kind: ErrorKind::Network, detail });
        proof {
            assert(self.hmodel() =~= (HandlerModel {
                outgoing: None,
                events: pre.events.push(EventModel::Error { kind: ErrorKind::Network, detail: dd }),
                ..pre
            }));
        }
    }

    /// Substream negotiation failed: report it, clear the substream state,
    /// and schedule a retry after the current delay, which then doubles up
    /// to the ceiling.
    pub fn on_negotiation_failure(&mut self)
        requires
            old(self).wf(),
        ensures
            final(self).wf(),
            final(self).hmodel() == (HandlerModel {
                state: HandlerState::Backoff,
                send_due: false,
                sent: false,
                received: false,
                timer_due: Some(old(self).hmodel().delay),
                delay: if 2 * old(self).hmodel().delay <= MAX_RETRY_DELAY_MS {
                    (2 * old(self).hmodel().delay) as u64
                } else {
                    MAX_RETRY_DELAY_MS
                },
                events: old(self).hmodel().events.push(
                    EventModel::Error {
                        kind: ErrorKind::FailedToDial,
                        detail: old(self).hmodel().peer,
                    },
                ),
                ..old(self).hmodel()
            }),
    {
        let ghost pre = self.hmodel();
        self.state = HandlerState::Backoff;
        self.handshake_send_due = false;
        self.handshake_sent = false;
        self.handshake_received = false;
        self.timer_due = Some(self.retry_delay);
        self.retry_delay = if 2 * self.retry_delay <= MAX_RETRY_DELAY_MS {
            2 * self.retry_delay
        } else {
            MAX_RETRY_DELAY_MS
        };
        let detail = clone_bytes(self.peer_id.text());
        self.pending_events.push_back(Event::Error { kind: ErrorKind::FailedToDial, detail });
        proof {
            assert(self.hmodel() =~= (HandlerModel {
                state: HandlerState::Backoff,
                send_due: false,
                sent: false,
                received: false,
                timer_due: Some(pre.delay),
                delay: if 2 * pre.delay <= MAX_RETRY_DELAY_MS {
                    (2 * pre.delay) as u64
                } else {
                    MAX_RETRY_DELAY_MS
                },
                events: pre.events.push(
                    EventModel::Error { kind: ErrorKind::FailedToDial, detail: pre.peer },
                ),
                ..pre
            }));
        }
    }

    /// The retry timer elapsed: leave backoff, so the next poll may request
    /// a fresh substream.
    pub fn on_timer_fired(&mut self)
        requires
            old(self).wf(),
        ensures
            final(self).wf(),
            final(self).hmodel() == (HandlerModel {
                state: if old(self).hmodel().state is Backoff {
                    HandlerState::Idle
                } else {
                    old(self).hmodel().state
                },
                timer_due: None,
                ..old(self).hmodel()
            }),
    {
        let ghost pre = self.hmodel();
        self.timer_due = None;
        match self.state {
            HandlerState::Backoff => {
                self.state = HandlerState::Idle;
            },
            _ => {
            },
        }
        proof {
            assert(self.hmodel() =~= (HandlerModel {
                state: if pre.state is Backoff {
                    HandlerState::Idle
                } else {
                    pre.state
                },
                timer_due: None,
                ..pre
            }));
        }
    }

    /// One step of the handler's state machine, by priority: fire the
    /// pending retry timer; send the owed handshake frame; surface a queued
    /// event; process one complete inbound frame; request a substream when
    /// idle with queued messages; send the next queued chat frame when
    /// ready.  A chat frame is sent only in the `Ready` state, after both
    /// handshake frames have been exchanged.
    pub fn poll(&mut self) -> (r: Option<HandlerAction>)
        requires
            old(self).wf(),
        ensures
            final(self).wf(),
            ({
                let o = old(self).hmodel();
                &&& (o.timer_due matches Some(d) ==> {
                    &&& r == Some(HandlerAction::StartTimer(d))
                    &&& final(self).hmodel() == (HandlerModel { timer_due: None, ..o })
                })
                &&& (o.timer_due is None && o.send_due ==> {
                    &&& (r matches Some(a) && a matches HandlerAction::SendHandshakeFrame(f)
                        && f@ == frame(json_metadata(o.metadata)))
                    &&& final(self).hmodel() == (HandlerModel {
                        send_due: false,
                        sent: true,
                        state: if o.received {
                            HandlerState::Ready
                        } else {
                            o.state
                        },
                        delay: if o.received {
                            INITIAL_RETRY_DELAY_MS
                        } else {
                            o.delay
                        },
                        ..o
                    })
                })
                &&& (o.timer_due is None && !o.send_due && o.events.len() > 0 ==> {
                    &&& (r matches Some(a) && a matches HandlerAction::EmitEvent(e) && e@
                        == o.events[0])
                    &&& final(self).hmodel() == (HandlerModel {
                        events: o.events.drop_first(),
                        ..o
                    })
                })
                &&& ((o.timer_due is None && !o.send_due && o.events.len() == 0) ==> (take_frame(
                    o.inbuf,
                ) matches Some(fr) ==> {
                    let payload = fr.0;
                    let rest = fr.1;
                    if o.state matches HandlerState::HandshakePending { .. } && !o.received {
                        match parse_metadata(payload) {
                            Some(name) => {
                                &&& (r matches Some(a) && a matches HandlerAction::EmitEvent(e)
                                    && e@ == EventModel::ReceivedMetadata {
                                    peer_id: o.peer,
                                    name,
                                })
                                &&& final(self).hmodel() == (HandlerModel {
                                    inbuf: rest,
                                    received: true,
                                    send_due: !o.sent,
                                    state: if o.sent {
                                        HandlerState::Ready
                                    } else {
                                        o.state
                                    },
                                    delay: if o.sent {
                                        INITIAL_RETRY_DELAY_MS
                                    } else {
                                        o.delay
                                    },
                                    ..o
                                })
                            },
                            None => {
                                &&& (r matches Some(a) && a matches HandlerAction::EmitEvent(e)
                                    && e@ == EventModel::Error {
                                    kind: ErrorKind::Unreachable,
                                    detail: o.peer,
                                })
                                &&& final(self).hmodel() == (HandlerModel {
                                    inbuf: rest,
                                    state: HandlerState::Backoff,
                                    send_due: false,
                                    sent: false,
                                    received: false,
                                    timer_due: Some(o.delay),
                                    delay: if 2 * o.delay <= MAX_RETRY_DELAY_MS {
                                        (2 * o.delay) as u64
                                    } else {
                                        MAX_RETRY_DELAY_MS
                                    },
                                    ..o
                                })
                            },
                        }
                    } else if o.state is Ready {
                        match parse_message(payload) {
                            Some(m) => {
                                &&& (r matches Some(a) && a matches HandlerAction::EmitEvent(e)
                                    && e@ == EventModel::ReceivedPlainTextMessage { message: m })
                                &&& final(self).hmodel() == (HandlerModel { inbuf: rest, ..o })
                            },
                            None => {
                                &&& (r matches Some(a) && a matches HandlerAction::EmitEvent(e)
                                    && e@ == EventModel::Error {
                                    kind: ErrorKind::Parse,
                                    detail: payload,
                                })
                                &&& final(self).hmodel() == (HandlerModel { inbuf: rest, ..o })
                            },
                        }
                    } else {
                        &&& r is None
                        &&& final(self).hmodel() == (HandlerModel { inbuf: rest, ..o })
                    }
                }))
                &&& (o.timer_due is None && !o.send_due && o.events.len() == 0 && take_frame(
                    o.inbuf,
                ) is None && o.state is Idle && o.queue.len() > 0 ==> {
                    &&& r == Some(HandlerAction::RequestSubstream)
                    &&& final(self).hmodel() == (HandlerModel {
                        state: HandlerState::SubstreamRequested,
                        ..o
                    })
                })
                &&& (o.timer_due is None && !o.send_due && o.events.len() == 0 && take_frame(
                    o.inbuf,
                ) is None && o.state is Ready && o.queue.len() > 0 && o.outgoing is None ==> {
                    let m = o.queue[0];
                    if json_message(m).len() <= u32::MAX {
                        &&& (r matches Some(a) && a matches HandlerAction::SendChatFrame(f) && f@
                            == frame(json_message(m)))
                        &&& final(self).hmodel() == (HandlerModel {
                            queue: o.queue.drop_first(),
                            outgoing: Some(m.timestamp),
                            ..o
                        })
                    } else {
                        &&& (r matches Some(a) && a matches HandlerAction::EmitEvent(e) && e@
                            == EventModel::Error {
                            kind: ErrorKind::MessageValidation,
                            detail: crate::codec::dec_digits(m.timestamp as nat),
                        })
                        &&& final(self).hmodel() == (HandlerModel {
                            queue: o.queue.drop_first(),
                            ..o
                        })
                    }
                })
                &&& (o.timer_due is None && !o.send_due && o.events.len() == 0 && take_frame(
                    o.inbuf,
                ) is None && !(o.state is Idle && o.queue.len() > 0) && !(o.state is Ready
                    && o.queue.len() > 0 && o.outgoing is None) ==> {
                    &&& r is None
                    &&& final(self).hmodel() == o
                })
            }),
            (r matches Some(a) && a matches HandlerAction::SendChatFrame(f)) ==> old(
                self,
            ).state() is Ready && old(self).handshake_sent() && old(self).handshake_received(),
    {
        let ghost o = self.hmodel();
        match self.timer_due {
            Some(d) => {
                self.timer_due = None;
                proof {
                    assert(self.hmodel() =~= (HandlerModel { timer_due: None, ..o }));
                }
                return Some(HandlerAction::StartTimer(d));
            },
            None => {
            },
        }
        if self.handshake_send_due {
            let payload = encode_metadata(&self.local_metadata);
            proof {
                crate::codec::lemma_esc_len(self.local_metadata@);
            }
            let f = encode_frame(&payload);
            self.handshake_send_due = false;
            self.handshake_sent = true;
            if self.handshake_received {
                self.state = HandlerState::Ready;
                self.retry_delay = INITIAL_RETRY_DELAY_MS;
            }
            proof {
                assert(self.hmodel() =~= (HandlerModel {
                    send_due: false,
                    sent: true,
                    state: if o.received {
                        HandlerState::Ready
                    } else {
                        o.state
                    },
                    delay: if o.received {
                        INITIAL_RETRY_DELAY_MS
                    } else {
                        o.delay
                    },
                    ..o
                }));
            }
            return Some(HandlerAction::SendHandshakeFrame(f));
        }
        match self.pending_events.pop_front() {
            Some(e) => {
                proof {
                    assert(o.events[0] == e@);
                    assert(self.hmodel() =~= (HandlerModel {
                        events: o.events.drop_first(),
                        ..o
                    }));
                }
                return Some(HandlerAction::EmitEvent(e));
            },
            None => {
            },
        }
        match self.in_frames.try_take_frame() {
            Some(payload) => {
                let ghost rest = self.hmodel().inbuf;
                let is_pending = match self.state {
                    HandlerState::HandshakePending { .. } => true,
                    _ => false,
                };
                if is_pending && !self.handshake_received {
                    match decode_metadata(&payload) {
                        Some(md) => {
                            self.handshake_received = true;
                            if self.handshake_sent {
                                self.state = HandlerState::Ready;
                                self.retry_delay = INITIAL_RETRY_DELAY_MS;
                            } else {
                                self.handshake_send_due = true;
                            }
                            let ev = Event::ReceivedMetadata {
                                peer_id: self.peer_id.clone(),
                                name: md.name,
                            };
                            proof {
                                assert(self.hmodel() =~= (HandlerModel {
                                    inbuf: rest,
                                    received: true,
                                    send_due: !o.sent,
                                    state: if o.sent {
                                        HandlerState::Ready
                                    } else {
                                        o.state
                                    },
                                    delay: if o.sent {
                                        INITIAL_RETRY_DELAY_MS
                                    } else {
                                        o.delay
                                    },
                                    ..o
                                }));
                            }
                            return Some(HandlerAction::EmitEvent(ev));
                        },
                        None => {
                            self.state = HandlerState::Backoff;
                            self.handshake_send_due = false;
                            self.handshake_sent = false;
                            self.handshake_received = false;
                            self.timer_due = Some(self.retry_delay);
                            self.retry_delay = if 2 * self.retry_delay <= MAX_RETRY_DELAY_MS {
                                2 * self.retry_delay
                            } else {
                                MAX_RETRY_DELAY_MS
                            };
                            let ev = Event::Error {
                                kind: ErrorKind::Unreachable,
                                detail: clone_bytes(self.peer_id.text()),
                            };
                            proof {
                                assert(self.hmodel() =~= (HandlerModel {
                                    inbuf: rest,
                                    state: HandlerState::Backoff,
                                    send_due: false,
                                    sent: false,
                                    received: false,
                                    timer_due: Some(o.delay),
                                    delay: if 2 * o.delay <= MAX_RETRY_DELAY_MS {
                                        (2 * o.delay) as u64
                                    } else {
                                        MAX_RETRY_DELAY_MS
                                    },
                                    ..o
                                }));
                            }
                            return Some(HandlerAction::EmitEvent(ev));
                        },
                    }
                }
                let is_ready = match self.state {
                    HandlerState::Ready => true,
                    _ => false,
                };
                if is_ready {
                    match decode_message(&payload) {
                        Some(m) => {
                            proof {
                                assert(self.hmodel() =~= (HandlerModel { inbuf: rest, ..o }));
                            }
                            return Some(
                                HandlerAction::EmitEvent(
                                    Event::ReceivedPlainTextMessage { message: m },
                                ),
                            );
                        },
                        None => {
                            proof {
                                assert(self.hmodel() =~= (HandlerModel { inbuf: rest, ..o }));
                            }
                            return Some(
                                HandlerAction::EmitEvent(
                                    Event::Error { kind: ErrorKind::Parse, detail: payload },
                                ),
                            );
                        },
                    }
                }
                proof {
                    assert(self.hmodel() =~= (HandlerModel { inbuf: rest, ..o }));
                }
                return None;
            },
            None => {
            },
        }
        let is_idle = match self.state {
            HandlerState::Idle => true,
            _ => false,
        };
        if is_idle && self.pending_sending_messages.len() != 0 {
            self.state = HandlerState::SubstreamRequested;
            proof {
                assert(self.hmodel() =~= (HandlerModel {
                    state: HandlerState::SubstreamRequested,
                    ..o
                }));
            }
            return Some(HandlerAction::RequestSubstream);
        }
        let is_ready = match self.state {
            HandlerState::Ready => true,
            _ => false,
        };
        if is_ready && self.pending_sending_messages.len() != 0 && self.outgoing_message.is_none() {
            match self.pending_sending_messages.pop_front() {
                Some(m) => {
                    let payload = encode_message(&m);
                    if payload.len() as u64 <= u32::MAX as u64 {
                        let f = encode_frame(&payload);
                        self.outgoing_message = Some(m.timestamp);
                        proof {
                            assert(o.queue[0] == m@);
                            assert(self.hmodel() =~= (HandlerModel {
                                queue: o.queue.drop_first(),
                                outgoing: Some(m@.timestamp),
                                ..o
                            }));
                        }
                        return Some(HandlerAction::SendChatFrame(f));
                    } else {
                        let mut detail: Vec<u8> = Vec::new();
                        crate::codec::write_number(&mut detail, m.timestamp);
                        let ev = Event::Error { kind: ErrorKind::MessageValidation, detail };
                        proof {
                            assert(o.queue[0] == m@);
                            assert(self.hmodel() =~= (HandlerModel {
                                queue: o.queue.drop_first(),
                                ..o
                            }));
                        }
                        return Some(HandlerAction::EmitEvent(ev));
                    }
                },
                None => {
                    proof {
                        assert(false);
                    }
                    return None;
                },
            }
        }
        proof {
            assert(self.hmodel() =~= o);
        }
        None
    }

    /// The connection is kept alive indefinitely, so queued messages are
    /// not lost while waiting.
    pub fn connection_keep_alive(&self) -> (r: bool)
        ensures
            r,
    {
        true
    }
}

/// A handler never sends a chat frame before both sides' handshake
/// frames have been exchanged: `poll` emits `SendChatFrame` only in the
/// `Ready` state, and a well-formed handler is `Ready` only with its own
/// handshake frame sent and the peer's received.
pub proof fn lemma_no_chat_before_handshake(h: &PrivateChatHandler)
    requires
        h.wf(),
        h.state() is Ready,
    ensures
        h.handshake_sent(),
        h.handshake_received(),
{
}

} // verus!

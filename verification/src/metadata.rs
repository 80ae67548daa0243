//! The lightweight metadata-only exchange used on discovery, outside active
//! chat: one side sends its metadata, the other reads it, and the exchange
//! closes — either finished or timed out.  Its payload is the bare metadata
//! JSON with no length prefix; the substream's end delimits it.

use vstd::prelude::*;

use crate::event::HandshakeMetadata;
use crate::wire::{decode_metadata, encode_metadata, json_metadata, parse_metadata};

verus! {

/// Why the metadata exchange ended.
#[derive(Clone, Copy, PartialEq, Eq, Structural, Debug)]
pub enum MetadataError {
    /// Both directions are done; the substream can close.
    Finished,
}

impl MetadataError {
    /// A short description, in place of a formatting trait.
    pub fn to_text(&self) -> (r: &'static str)
        ensures
            r@ == "metadata exchange finished"@,
    {
        "metadata exchange finished"
    }
}

/// Whether the exchange has a substream yet.
#[derive(Clone, Copy, PartialEq, Eq, Structural, Debug)]
pub enum MetadataHandlerState {
    Initialized,
    Open,
}

/// What the metadata handler asks its surroundings to do next.
pub enum MetadataAction {
    /// Write these bytes and close the write side.
    SendMetadata(Vec<u8>),
    /// Surface the peer's metadata.
    EmitMetadata(HandshakeMetadata),
    /// Close the substream.
    Close(MetadataError),
}

/// Mathematical state of a metadata handler.
#[verifier::ext_equal]
pub struct MetadataHandlerModel {
    pub state: MetadataHandlerState,
    pub inbound: bool,
    pub inbound_data: Option<Seq<u8>>,
    pub outbound: bool,
    pub outbound_due: bool,
    pub timer_fired: bool,
    pub metadata: Seq<u8>,
}

/// Handler for one metadata exchange with one peer.
pub struct MetadataHandler {
    state: MetadataHandlerState,
    inbound: bool,
    inbound_data: Option<Vec<u8>>,
    outbound: bool,
    outbound_due: bool,
    timer_fired: bool,
    local_metadata: HandshakeMetadata,
}

impl MetadataHandler {
    /// Mathematical state.
    pub closed spec fn model(&self) -> MetadataHandlerModel {
        MetadataHandlerModel {
            state: self.state,
            inbound: self.inbound,
            inbound_data: match self.inbound_data {
                Some(ref b) => Some(b@),
                None => None,
            },
            outbound: self.outbound,
            outbound_due: self.outbound_due,
            timer_fired: self.timer_fired,
            metadata: self.local_metadata@,
        }
    }

    pub fn new(local_metadata: HandshakeMetadata) -> (r: Self)
        ensures
            r.model() == (MetadataHandlerModel {
                state: MetadataHandlerState::Initialized,
                inbound: false,
                inbound_data: None,
                outbound: false,
                outbound_due: false,
                timer_fired: false,
                metadata: local_metadata@,
            }),
    {
        let r = MetadataHandler {
            state: MetadataHandlerState::Initialized,
            inbound: false,
            inbound_data: None,
            outbound: false,
            outbound_due: false,
            timer_fired: false,
            local_metadata,
        };
        proof {
            assert(r.model() =~= (MetadataHandlerModel {
                state: MetadataHandlerState::Initialized,
                inbound: false,
                inbound_data: None,
                outbound: false,
                outbound_due: false,
                timer_fired: false,
                metadata: r.local_metadata@,
            }));
        }
        r
    }

    /// An inbound substream opened: the peer will send its metadata.
    pub fn on_inbound_negotiated(&mut self)
        ensures
            final(self).model() == (MetadataHandlerModel {
                state: MetadataHandlerState::Open,
                inbound: true,
                ..old(self).model()
            }),
    {
        self.state = MetadataHandlerState::Open;
        self.inbound = true;
        proof {
            assert(self.model() =~= (MetadataHandlerModel {
                state: MetadataHandlerState::Open,
                inbound: true,
                ..old(self).model()
            }));
        }
    }

    /// An outbound substream opened: this side owes its metadata.
    pub fn on_outbound_negotiated(&mut self)
        ensures
            final(self).model() == (MetadataHandlerModel {
                state: MetadataHandlerState::Open,
                outbound: true,
                outbound_due: true,
                ..old(self).model()
            }),
    {
        self.state = MetadataHandlerState::Open;
        self.outbound = true;
        self.outbound_due = true;
        proof {
            assert(self.model() =~= (MetadataHandlerModel {
                state: MetadataHandlerState::Open,
                outbound: true,
                outbound_due: true,
                ..old(self).model()
            }));
        }
    }

    /// The inbound substream ended; these are all its bytes.
    pub fn on_inbound_data(&mut self, bytes: Vec<u8>)
        ensures
            final(self).model() == (MetadataHandlerModel {
                inbound_data: Some(bytes@),
                ..old(self).model()
            }),
    {
        let ghost bv = bytes@;
        self.inbound_data = Some(bytes);
        proof {
            assert(self.model() =~= (MetadataHandlerModel {
                inbound_data: Some(bv),
                ..old(self).model()
            }));
        }
    }

    /// The outbound write finished.
    pub fn on_send_complete(&mut self)
        ensures
            final(self).model() == (MetadataHandlerModel {
                outbound: false,
                ..old(self).model()
            }),
    {
        self.outbound = false;
        proof {
            assert(self.model() =~= (MetadataHandlerModel {
                outbound: false,
                ..old(self).model()
            }));
        }
    }

    /// The exchange timeout elapsed.
    pub fn on_timer_fired(&mut self)
        ensures
            final(self).model() == (MetadataHandlerModel {
                timer_fired: true,
                ..old(self).model()
            }),
    {
        self.timer_fired = true;
        proof {
            assert(self.model() =~= (MetadataHandlerModel {
                timer_fired: true,
                ..old(self).model()
            }));
        }
    }

    /// One step, by priority: nothing before a substream exists; close when
    /// both directions are done or the timeout fired; decode delivered
    /// inbound bytes (a malformed payload is dropped and the exchange goes
    /// on toward its close); hand over the owed outbound payload.
    pub fn poll(&mut self) -> (r: Option<MetadataAction>)
        ensures
            ({
                let o = old(self).model();
                &&& (o.state is Initialized ==> r is None && final(self).model() == o)
                &&& (o.state is Open && !o.inbound && !o.outbound ==> r == Some(
                    MetadataAction::Close(MetadataError::Finished),
                ) && final(self).model() == o)
                &&& (o.state is Open && (o.inbound || o.outbound) && o.timer_fired ==> r == Some(
                    MetadataAction::Close(MetadataError::Finished),
                ) && final(self).model() == (MetadataHandlerModel {
                    inbound: false,
                    outbound: false,
                    ..o
                }))
                &&& ((o.state is Open && (o.inbound || o.outbound) && !o.timer_fired && o.inbound)
                    ==> (o.inbound_data matches Some(b) ==> {
                    &&& final(self).model() == (MetadataHandlerModel {
                        inbound: false,
                        inbound_data: None,
                        ..o
                    })
                    &&& match parse_metadata(b) {
                        Some(name) => (r matches Some(a) && a matches MetadataAction::EmitMetadata(
                            md,
                        ) && md@ == name),
                        None => r is None,
                    }
                }))
                &&& (o.state is Open && (o.inbound || o.outbound) && !o.timer_fired && (!o.inbound
                    || o.inbound_data is None) && o.outbound_due ==> {
                    &&& (r matches Some(a) && a matches MetadataAction::SendMetadata(p) && p@
                        == json_metadata(o.metadata))
                    &&& final(self).model() == (MetadataHandlerModel { outbound_due: false, ..o })
                })
                &&& (o.state is Open && (o.inbound || o.outbound) && !o.timer_fired && (!o.inbound
                    || o.inbound_data is None) && !o.outbound_due ==> r is None
                    && final(self).model() == o)
            }),
    {
        let ghost o = self.model();
        match self.state {
            MetadataHandlerState::Initialized => {
                proof {
                    assert(self.model() =~= o);
                }
                return None;
            },
            MetadataHandlerState::Open => {
            },
        }
        if !self.inbound && !self.outbound {
            proof {
                assert(self.model() =~= o);
            }
            return Some(MetadataAction::Close(MetadataError::Finished));
        }
        if self.timer_fired {
            self.inbound = false;
            self.outbound = false;
            proof {
                assert(self.model() =~= (MetadataHandlerModel {
                    inbound: false,
                    outbound: false,
                    ..o
                }));
            }
            return Some(MetadataAction::Close(MetadataError::Finished));
        }
        if self.inbound {
            let data = self.inbound_data.take();
            match data {
                Some(bytes) => {
                    self.inbound = false;
                    proof {
                        assert(self.model() =~= (MetadataHandlerModel {
                            inbound: false,
                            inbound_data: None,
                            ..o
                        }));
                    }
                    match decode_metadata(&bytes) {
                        Some(md) => {
                            return Some(MetadataAction::EmitMetadata(md));
                        },
                        None => {
                            return None;
                        },
                    }
                },
                None => {
                    proof {
                        assert(self.model() =~= o);
                    }
                },
            }
        }
        if self.outbound_due {
            let payload = encode_metadata(&self.local_metadata);
            self.outbound_due = false;
            proof {
                assert(self.model() =~= (MetadataHandlerModel { outbound_due: false, ..o }));
            }
            return Some(MetadataAction::SendMetadata(payload));
        }
        proof {
            assert(self.model() =~= o);
        }
        None
    }
}

} // verus!

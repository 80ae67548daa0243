//! Transport-level framing: a 4-byte little-endian length prefix followed by
//! exactly that many payload bytes.

use vstd::prelude::*;

use vstd::bytes::{
    lemma_auto_spec_u32_to_from_le_bytes, spec_u32_from_le_bytes, spec_u32_to_le_bytes,
    u32_from_le_bytes, u32_to_le_bytes,
};
use vstd::slice::{slice_subrange, slice_to_vec};

use crate::codec::append_bytes;

verus! {

/// A length-framed payload.
pub open spec fn frame(p: Seq<u8>) -> Seq<u8>
    recommends
        p.len() <= u32::MAX,
{
    spec_u32_to_le_bytes(p.len() as u32) + p
}

/// The first complete frame of a byte stream, with what follows it; `None`
/// while the stream does not yet hold a whole frame.
pub open spec fn take_frame(b: Seq<u8>) -> Option<(Seq<u8>, Seq<u8>)> {
    if b.len() >= 4 {
        let n = spec_u32_from_le_bytes(b.take(4)) as int;
        if b.len() >= 4 + n {
            Some((b.subrange(4, 4 + n), b.skip(4 + n)))
        } else {
            None
        }
    } else {
        None
    }
}

/// Deframing inverts framing, whatever follows the frame.
pub proof fn lemma_frame_round_trip(p: Seq<u8>, rest: Seq<u8>)
    requires
        p.len() <= u32::MAX,
    ensures
        take_frame(frame(p) + rest) == Some((p, rest)),
{
    lemma_auto_spec_u32_to_from_le_bytes();
    let b = frame(p) + rest;
    assert(b.take(4) =~= spec_u32_to_le_bytes(p.len() as u32));
    assert(spec_u32_from_le_bytes(b.take(4)) == p.len());
    assert(b.subrange(4, 4 + p.len() as int) =~= p);
    assert(b.skip(4 + p.len() as int) =~= rest);
}

/// Prefix a payload with its length.
pub fn encode_frame(p: &Vec<u8>) -> (r: Vec<u8>)
    requires
        p@.len() <= u32::MAX,
    ensures
        r@ == frame(p@),
{
    let mut out = u32_to_le_bytes(p.len() as u32);
    append_bytes(&mut out, p);
    out
}

/// Reassembles frames from a byte stream delivered in arbitrary chunks.
pub struct FrameBuffer {
    buf: Vec<u8>,
}

impl View for FrameBuffer {
    type V = Seq<u8>;

    closed spec fn view(&self) -> Seq<u8> {
        self.buf@
    }
}

impl FrameBuffer {
    pub fn new() -> (r: Self)
        ensures
            r@ == Seq::<u8>::empty(),
    {
        let r = FrameBuffer { buf: Vec::new() };
        proof {
            assert(r@ =~= Seq::<u8>::empty());
        }
        r
    }

    /// Append bytes as they arrive from the transport.
    pub fn push_chunk(&mut self, chunk: &Vec<u8>)
        ensures
            final(self)@ == old(self)@ + chunk@,
    {
        append_bytes(&mut self.buf, chunk);
    }

    /// Remove and return the first complete frame, if one is buffered.
    pub fn try_take_frame(&mut self) -> (r: Option<Vec<u8>>)
        ensures
            match r {
                Some(p) => take_frame(old(self)@) == Some((p@, final(self)@)),
                None => {
                    &&& take_frame(old(self)@) is None
                    &&& final(self)@ == old(self)@
                },
            },
    {
        if self.buf.len() < 4 {
            return None;
        }
        let hdr = slice_subrange(self.buf.as_slice(), 0, 4);
        proof {
            assert(hdr@ =~= self.buf@.take(4));
        }
        let n = u32_from_le_bytes(hdr);
        let n_us = n as usize;
        if self.buf.len() - 4 < n_us {
            return None;
        }
        let payload_slice = slice_subrange(self.buf.as_slice(), 4, 4 + n_us);
        let payload = slice_to_vec(payload_slice);
        let tail = self.buf.split_off(4 + n_us);
        self.buf = tail;
        proof {
            assert(payload@ =~= old(self)@.subrange(4, 4 + n_us as int));
            assert(self.buf@ =~= old(self)@.skip(4 + n_us as int));
        }
        Some(payload)
    }
}

} // verus!

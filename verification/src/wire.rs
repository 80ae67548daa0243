//! Canonical wire encoding of the protocol's payloads: chat messages and
//! handshake metadata, as JSON objects with a fixed field order.

use vstd::prelude::*;

use crate::codec::{
    json_nfield, json_sfield, parse_nfield, parse_sfield, push_byte, read_nfield, read_sfield,
    write_nfield, write_sfield, is_digit_byte, RBRACE,
};
use crate::event::{HandshakeMetadata, MessageModel, PlainTextMessage};
use crate::peer::PeerId;

verus! {

pub open spec fn key_from() -> Seq<u8> {
    seq![0x66u8, 0x72, 0x6F, 0x6D]
}

pub open spec fn key_to() -> Seq<u8> {
    seq![0x74u8, 0x6F]
}

pub open spec fn key_text() -> Seq<u8> {
    seq![0x74u8, 0x65, 0x78, 0x74]
}

pub open spec fn key_timestamp() -> Seq<u8> {
    seq![0x74u8, 0x69, 0x6D, 0x65, 0x73, 0x74, 0x61, 0x6D, 0x70]
}

pub open spec fn key_name() -> Seq<u8> {
    seq![0x6Eu8, 0x61, 0x6D, 0x65]
}

fn key_from_vec() -> (r: Vec<u8>)
    ensures
        r@ == key_from(),
{
    let mut v: Vec<u8> = Vec::new();
    push_byte(&mut v, 0x66);
    push_byte(&mut v, 0x72);
    push_byte(&mut v, 0x6F);
    push_byte(&mut v, 0x6D);
    proof {
        assert(v@ =~= key_from());
    }
    v
}

fn key_to_vec() -> (r: Vec<u8>)
    ensures
        r@ == key_to(),
{
    let mut v: Vec<u8> = Vec::new();
    push_byte(&mut v, 0x74);
    push_byte(&mut v, 0x6F);
    proof {
        assert(v@ =~= key_to());
    }
    v
}

fn key_text_vec() -> (r: Vec<u8>)
    ensures
        r@ == key_text(),
{
    let mut v: Vec<u8> = Vec::new();
    push_byte(&mut v, 0x74);
    push_byte(&mut v, 0x65);
    push_byte(&mut v, 0x78);
    push_byte(&mut v, 0x74);
    proof {
        assert(v@ =~= key_text());
    }
    v
}

pub(crate) fn key_timestamp_vec() -> (r: Vec<u8>)
    ensures
        r@ == key_timestamp(),
{
    let mut v: Vec<u8> = Vec::new();
    push_byte(&mut v, 0x74);
    push_byte(&mut v, 0x69);
    push_byte(&mut v, 0x6D);
    push_byte(&mut v, 0x65);
    push_byte(&mut v, 0x73);
    push_byte(&mut v, 0x74);
    push_byte(&mut v, 0x61);
    push_byte(&mut v, 0x6D);
    push_byte(&mut v, 0x70);
    proof {
        assert(v@ =~= key_timestamp());
    }
    v
}

pub(crate) fn key_name_vec() -> (r: Vec<u8>)
    ensures
        r@ == key_name(),
{
    let mut v: Vec<u8> = Vec::new();
    push_byte(&mut v, 0x6E);
    push_byte(&mut v, 0x61);
    push_byte(&mut v, 0x6D);
    push_byte(&mut v, 0x65);
    proof {
        assert(v@ =~= key_name());
    }
    v
}

/// Canonical JSON bytes of a chat message:
/// `{"from":"..","to":"..","text":"..","timestamp":N}`.
pub open spec fn json_message(m: MessageModel) -> Seq<u8> {
    json_sfield(key_from(), m.from, true) + json_sfield(key_to(), m.to, false) + json_sfield(
        key_text(),
        m.text,
        false,
    ) + json_nfield(key_timestamp(), m.timestamp, false) + seq![RBRACE]
}

/// Parse the canonical chat message shape, rejecting trailing bytes.
pub open spec fn parse_message(s: Seq<u8>) -> Option<MessageModel> {
    match parse_sfield(s, key_from(), true) {
        None => None,
        Some(t1) => match parse_sfield(s.skip(t1.1), key_to(), false) {
            None => None,
            Some(t2) => match parse_sfield(s.skip(t1.1 + t2.1), key_text(), false) {
                None => None,
                Some(t3) => match parse_nfield(
                    s.skip(t1.1 + t2.1 + t3.1),
                    key_timestamp(),
                    false,
                ) {
                    None => None,
                    Some(t4) => {
                        let n = t1.1 + t2.1 + t3.1 + t4.1;
                        if n + 1 == s.len() && s[n] == RBRACE {
                            Some(
                                MessageModel {
                                    from: t1.0,
                                    to: t2.0,
                                    text: t3.0,
                                    timestamp: t4.0,
                                },
                            )
                        } else {
                            None
                        }
                    },
                },
            },
        },
    }
}

/// Canonical JSON bytes of handshake metadata: `{"name":".."}`.
pub open spec fn json_metadata(name: Seq<u8>) -> Seq<u8> {
    json_sfield(key_name(), name, true) + seq![RBRACE]
}

/// Parse the handshake metadata shape, rejecting trailing bytes.
pub open spec fn parse_metadata(s: Seq<u8>) -> Option<Seq<u8>> {
    match parse_sfield(s, key_name(), true) {
        None => None,
        Some(t) => if t.1 + 1 == s.len() && s[t.1] == RBRACE {
            Some(t.0)
        } else {
            None
        },
    }
}

/// Encode a chat message.
pub fn encode_message(m: &PlainTextMessage) -> (r: Vec<u8>)
    ensures
        r@ == json_message(m@),
{
    let kf = key_from_vec();
    let kt = key_to_vec();
    let kx = key_text_vec();
    let ks = key_timestamp_vec();
    let mut out: Vec<u8> = Vec::new();
    write_sfield(&mut out, &kf, m.from.text(), true);
    write_sfield(&mut out, &kt, m.to.text(), false);
    write_sfield(&mut out, &kx, &m.text, false);
    write_nfield(&mut out, &ks, m.timestamp, false);
    push_byte(&mut out, RBRACE);
    proof {
        assert(out@ =~= json_message(m@));
    }
    out
}

/// Decode a chat message; `None` exactly on input that is not the canonical
/// shape.
pub fn decode_message(s: &Vec<u8>) -> (r: Option<PlainTextMessage>)
    ensures
        match r {
            Some(m) => parse_message(s@) == Some(m@),
            None => parse_message(s@) is None,
        },
{
    let kf = key_from_vec();
    let kt = key_to_vec();
    let kx = key_text_vec();
    let ks = key_timestamp_vec();
    proof {
        assert(s@.skip(0) =~= s@);
    }
    match read_sfield(s, 0, &kf, true) {
        None => None,
        Some((from, i1)) => match read_sfield(s, i1, &kt, false) {
            None => None,
            Some((to, i2)) => match read_sfield(s, i2, &kx, false) {
                None => None,
                Some((text, i3)) => match read_nfield(s, i3, &ks, false) {
                    None => None,
                    Some((ts, i4)) => {
                        if i4 < s.len() && s[i4] == RBRACE && i4 + 1 == s.len() {
                            Some(
                                PlainTextMessage::new(PeerId::new(from), PeerId::new(to), text, ts),
                            )
                        } else {
                            None
                        }
                    },
                },
            },
        },
    }
}

/// Encode handshake metadata.
pub fn encode_metadata(m: &HandshakeMetadata) -> (r: Vec<u8>)
    ensures
        r@ == json_metadata(m@),
{
    let kn = key_name_vec();
    let mut out: Vec<u8> = Vec::new();
    write_sfield(&mut out, &kn, &m.name, true);
    push_byte(&mut out, RBRACE);
    proof {
        assert(out@ =~= json_metadata(m@));
    }
    out
}

/// Decode handshake metadata; `None` exactly on input that is not the
/// canonical shape.
pub fn decode_metadata(s: &Vec<u8>) -> (r: Option<HandshakeMetadata>)
    ensures
        match r {
            Some(m) => parse_metadata(s@) == Some(m@),
            None => parse_metadata(s@) is None,
        },
{
    let kn = key_name_vec();
    proof {
        assert(s@.skip(0) =~= s@);
    }
    match read_sfield(s, 0, &kn, true) {
        None => None,
        Some((name, i1)) => {
            if i1 < s.len() && s[i1] == RBRACE && i1 + 1 == s.len() {
                Some(HandshakeMetadata::new(name))
            } else {
                None
            }
        },
    }
}

/// Decoding a chat message inverts encoding it.
pub proof fn lemma_message_round_trip(m: MessageModel)
    ensures
        parse_message(json_message(m)) == Some(m),
{
    let a = json_sfield(key_from(), m.from, true);
    let b = json_sfield(key_to(), m.to, false);
    let c = json_sfield(key_text(), m.text, false);
    let d = json_nfield(key_timestamp(), m.timestamp, false);
    let s = json_message(m);
    let r1 = b + c + (d + seq![RBRACE]);
    let r2 = c + (d + seq![RBRACE]);
    let r3 = d + seq![RBRACE];
    assert(s =~= a + r1);
    crate::codec::lemma_sfield_rt(key_from(), m.from, true, r1);
    assert(s.skip(a.len() as int) == r1);
    assert(r1 =~= b + r2);
    crate::codec::lemma_sfield_rt(key_to(), m.to, false, r2);
    assert(s.skip((a.len() + b.len()) as int) =~= r2);
    assert(r2 =~= c + r3);
    crate::codec::lemma_sfield_rt(key_text(), m.text, false, r3);
    assert(s.skip((a.len() + b.len() + c.len()) as int) =~= r3);
    assert(!is_digit_byte(RBRACE));
    crate::codec::lemma_nfield_rt(key_timestamp(), m.timestamp, false, seq![RBRACE]);
    let n = a.len() + b.len() + c.len() + d.len();
    assert(s.len() == n + 1);
    assert(s[n as int] == RBRACE);
}

/// Decoding handshake metadata inverts encoding it.
pub proof fn lemma_metadata_round_trip(name: Seq<u8>)
    ensures
        parse_metadata(json_metadata(name)) == Some(name),
{
    let a = json_sfield(key_name(), name, true);
    let s = json_metadata(name);
    assert(s =~= a + seq![RBRACE]);
    crate::codec::lemma_sfield_rt(key_name(), name, true, seq![RBRACE]);
    assert(s[a.len() as int] == RBRACE);
}


/// A one-string-field object: `{"key":".."}`.
pub open spec fn json_obj1s(key: Seq<u8>, v: Seq<u8>) -> Seq<u8> {
    json_sfield(key, v, true) + seq![RBRACE]
}

/// Parse a one-string-field object, rejecting trailing bytes.
pub open spec fn parse_obj1s(key: Seq<u8>, s: Seq<u8>) -> Option<Seq<u8>> {
    match parse_sfield(s, key, true) {
        None => None,
        Some(t) => if t.1 + 1 == s.len() && s[t.1] == RBRACE {
            Some(t.0)
        } else {
            None
        },
    }
}

/// A two-string-field object: `{"k1":"..","k2":".."}`.
pub open spec fn json_obj2s(k1: Seq<u8>, v1: Seq<u8>, k2: Seq<u8>, v2: Seq<u8>) -> Seq<u8> {
    json_sfield(k1, v1, true) + json_sfield(k2, v2, false) + seq![RBRACE]
}

/// Parse a two-string-field object, rejecting trailing bytes.
pub open spec fn parse_obj2s(k1: Seq<u8>, k2: Seq<u8>, s: Seq<u8>) -> Option<(Seq<u8>, Seq<u8>)> {
    match parse_sfield(s, k1, true) {
        None => None,
        Some(t1) => match parse_sfield(s.skip(t1.1), k2, false) {
            None => None,
            Some(t2) => if t1.1 + t2.1 + 1 == s.len() && s[t1.1 + t2.1] == RBRACE {
                Some((t1.0, t2.0))
            } else {
                None
            },
        },
    }
}

/// A one-number-field object: `{"key":N}`.
pub open spec fn json_obj1n(key: Seq<u8>, n: u64) -> Seq<u8> {
    json_nfield(key, n, true) + seq![RBRACE]
}

/// Parse a one-number-field object, rejecting trailing bytes.
pub open spec fn parse_obj1n(key: Seq<u8>, s: Seq<u8>) -> Option<u64> {
    match parse_nfield(s, key, true) {
        None => None,
        Some(t) => if t.1 + 1 == s.len() && s[t.1] == RBRACE {
            Some(t.0)
        } else {
            None
        },
    }
}

/// Encode a one-string-field object.
pub fn encode_obj1s(key: &Vec<u8>, v: &Vec<u8>) -> (r: Vec<u8>)
    ensures
        r@ == json_obj1s(key@, v@),
{
    let mut out: Vec<u8> = Vec::new();
    write_sfield(&mut out, key, v, true);
    push_byte(&mut out, RBRACE);
    proof {
        assert(out@ =~= json_obj1s(key@, v@));
    }
    out
}

/// Decode a one-string-field object.
pub fn decode_obj1s(key: &Vec<u8>, s: &Vec<u8>) -> (r: Option<Vec<u8>>)
    ensures
        match r {
            Some(v) => parse_obj1s(key@, s@) == Some(v@),
            None => parse_obj1s(key@, s@) is None,
        },
{
    proof {
        assert(s@.skip(0) =~= s@);
    }
    match read_sfield(s, 0, key, true) {
        None => None,
        Some((v, i1)) => {
            if i1 < s.len() && s[i1] == RBRACE && i1 + 1 == s.len() {
                Some(v)
            } else {
                None
            }
        },
    }
}

/// Encode a two-string-field object.
pub fn encode_obj2s(k1: &Vec<u8>, v1: &Vec<u8>, k2: &Vec<u8>, v2: &Vec<u8>) -> (r: Vec<u8>)
    ensures
        r@ == json_obj2s(k1@, v1@, k2@, v2@),
{
    let mut out: Vec<u8> = Vec::new();
    write_sfield(&mut out, k1, v1, true);
    write_sfield(&mut out, k2, v2, false);
    push_byte(&mut out, RBRACE);
    proof {
        assert(out@ =~= json_obj2s(k1@, v1@, k2@, v2@));
    }
    out
}

/// Decode a two-string-field object.
pub fn decode_obj2s(k1: &Vec<u8>, k2: &Vec<u8>, s: &Vec<u8>) -> (r: Option<(Vec<u8>, Vec<u8>)>)
    ensures
        match r {
            Some(p) => parse_obj2s(k1@, k2@, s@) == Some((p.0@, p.1@)),
            None => parse_obj2s(k1@, k2@, s@) is None,
        },
{
    proof {
        assert(s@.skip(0) =~= s@);
    }
    match read_sfield(s, 0, k1, true) {
        None => None,
        Some((v1, i1)) => match read_sfield(s, i1, k2, false) {
            None => None,
            Some((v2, i2)) => {
                if i2 < s.len() && s[i2] == RBRACE && i2 + 1 == s.len() {
                    Some((v1, v2))
                } else {
                    None
                }
            },
        },
    }
}

/// Encode a one-number-field object.
pub fn encode_obj1n(key: &Vec<u8>, n: u64) -> (r: Vec<u8>)
    ensures
        r@ == json_obj1n(key@, n),
{
    let mut out: Vec<u8> = Vec::new();
    write_nfield(&mut out, key, n, true);
    push_byte(&mut out, RBRACE);
    proof {
        assert(out@ =~= json_obj1n(key@, n));
    }
    out
}

/// Decode a one-number-field object.
pub fn decode_obj1n(key: &Vec<u8>, s: &Vec<u8>) -> (r: Option<u64>)
    ensures
        match r {
            Some(n) => parse_obj1n(key@, s@) == Some(n),
            None => parse_obj1n(key@, s@) is None,
        },
{
    proof {
        assert(s@.skip(0) =~= s@);
    }
    match read_nfield(s, 0, key, true) {
        None => None,
        Some((n, i1)) => {
            if i1 < s.len() && s[i1] == RBRACE && i1 + 1 == s.len() {
                Some(n)
            } else {
                None
            }
        },
    }
}

/// Decoding inverts encoding for one-string-field objects.
pub proof fn lemma_obj1s_round_trip(key: Seq<u8>, v: Seq<u8>)
    ensures
        parse_obj1s(key, json_obj1s(key, v)) == Some(v),
{
    let a = json_sfield(key, v, true);
    let s = json_obj1s(key, v);
    assert(s =~= a + seq![RBRACE]);
    crate::codec::lemma_sfield_rt(key, v, true, seq![RBRACE]);
    assert(s[a.len() as int] == RBRACE);
}

/// Decoding inverts encoding for two-string-field objects.
pub proof fn lemma_obj2s_round_trip(k1: Seq<u8>, v1: Seq<u8>, k2: Seq<u8>, v2: Seq<u8>)
    ensures
        parse_obj2s(k1, k2, json_obj2s(k1, v1, k2, v2)) == Some((v1, v2)),
{
    let a = json_sfield(k1, v1, true);
    let b = json_sfield(k2, v2, false);
    let s = json_obj2s(k1, v1, k2, v2);
    let r1 = b + seq![RBRACE];
    assert(s =~= a + r1);
    crate::codec::lemma_sfield_rt(k1, v1, true, r1);
    assert(s.skip(a.len() as int) == r1);
    assert(r1 =~= b + seq![RBRACE]);
    crate::codec::lemma_sfield_rt(k2, v2, false, seq![RBRACE]);
    assert(s[(a.len() + b.len()) as int] == RBRACE);
}

/// Decoding inverts encoding for one-number-field objects.
pub proof fn lemma_obj1n_round_trip(key: Seq<u8>, n: u64)
    ensures
        parse_obj1n(key, json_obj1n(key, n)) == Some(n),
{
    let a = json_nfield(key, n, true);
    let s = json_obj1n(key, n);
    assert(s =~= a + seq![RBRACE]);
    assert(!is_digit_byte(RBRACE));
    crate::codec::lemma_nfield_rt(key, n, true, seq![RBRACE]);
    assert(s[a.len() as int] == RBRACE);
}

} // verus!

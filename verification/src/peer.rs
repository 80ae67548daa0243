//! Peer identity: identifiers derived from public keys, and secret key
//! material.

use vstd::prelude::*;

use crate::base58::{b58_bytes_of, b58_text_of, bs58_decode, bs58_encode, is_base58_seq};
use crate::error::Error;

verus! {

/// A unique identifier for a network participant: the Base58 text derived
/// from its public key, held as UTF-8 bytes.  Equality and lexicographic
/// order over these bytes are total, which makes the identifier usable as a
/// map key and as the tie-breaker that avoids duplicate connections.
pub struct PeerId {
    text: Vec<u8>,
}

/// Lexicographic order on byte strings.
pub open spec fn lex_lt(a: Seq<u8>, b: Seq<u8>) -> bool
    decreases a.len(),
{
    if b.len() == 0 {
        false
    } else if a.len() == 0 {
        true
    } else if a[0] != b[0] {
        a[0] < b[0]
    } else {
        lex_lt(a.drop_first(), b.drop_first())
    }
}

impl View for PeerId {
    type V = Seq<u8>;

    closed spec fn view(&self) -> Seq<u8> {
        self.text@
    }
}

impl Clone for PeerId {
    fn clone(&self) -> (r: Self)
        ensures
            r@ == self@,
    {
        PeerId { text: clone_bytes(&self.text) }
    }
}

impl PeerId {
    /// Wrap an identifier already in its textual form.
    pub fn new(text: Vec<u8>) -> (r: Self)
        ensures
            r@ == text@,
    {
        PeerId { text }
    }

    /// Derive the identifier of a peer from the raw bytes of its public-key
    /// hash, by encoding them as Base58 text.
    pub fn from_raw_bytes(bytes: &Vec<u8>) -> (r: Self)
        ensures
            r@ == b58_text_of(bytes@),
            is_base58_seq(r@),
    {
        PeerId { text: bs58_encode(bytes) }
    }

    /// Recover the raw public-key-hash bytes by decoding the Base58 text;
    /// fails exactly when the identifier holds a byte outside the Base58
    /// alphabet.
    pub fn as_bytes(&self) -> (r: Result<Vec<u8>, Error>)
        ensures
            r is Ok <==> is_base58_seq(self@),
            r matches Ok(v) ==> v@ == b58_bytes_of(self@),
    {
        match bs58_decode(&self.text) {
            Some(v) => Ok(v),
            None => Err(Error::Base58),
        }
    }

    /// The textual form, for display and for the wire.
    pub fn text(&self) -> (r: &Vec<u8>)
        ensures
            r@ == self@,
    {
        &self.text
    }

    /// Equality of identifiers.
    pub fn equals(&self, other: &PeerId) -> (r: bool)
        ensures
            r == (self@ == other@),
    {
        eq_bytes(&self.text, &other.text)
    }

    /// Strict lexicographic order; the smaller of two peers initiates the
    /// dial when both discover each other.
    pub fn lt(&self, other: &PeerId) -> (r: bool)
        ensures
            r == lex_lt(self@, other@),
    {
        let mut i: usize = 0;
        proof {
            assert(self@.skip(0) =~= self@);
            assert(other@.skip(0) =~= other@);
        }
        loop
            invariant
                i <= self.text.len(),
                i <= other.text.len(),
                lex_lt(self@, other@) == lex_lt(
                    self@.skip(i as int),
                    other@.skip(i as int),
                ),
            decreases self.text.len() - i,
        {
            if i == other.text.len() {
                proof {
                    reveal_with_fuel(lex_lt, 1);
                }
                return false;
            }
            if i == self.text.len() {
                proof {
                    reveal_with_fuel(lex_lt, 1);
                }
                return true;
            }
            let a = self.text[i];
            let b = other.text[i];
            proof {
                reveal_with_fuel(lex_lt, 1);
                assert(self@.skip(i as int)[0] == a);
                assert(other@.skip(i as int)[0] == b);
                assert(self@.skip(i as int).drop_first() =~= self@.skip(i + 1));
                assert(other@.skip(i as int).drop_first() =~= other@.skip(i + 1));
            }
            if a != b {
                return a < b;
            }
            i = i + 1;
        }
    }
}

impl Default for PeerId {
    /// The empty identifier.
    fn default() -> (r: Self)
        ensures
            r@ == Seq::<u8>::empty(),
    {
        let r = PeerId { text: Vec::new() };
        proof {
            assert(r@ =~= Seq::<u8>::empty());
        }
        r
    }
}

/// An identifier carried opaquely across module boundaries, without the
/// operations of `PeerId`.
pub struct OpaquePeerId {
    text: Vec<u8>,
}

impl View for OpaquePeerId {
    type V = Seq<u8>;

    closed spec fn view(&self) -> Seq<u8> {
        self.text@
    }
}

impl Clone for OpaquePeerId {
    fn clone(&self) -> (r: Self)
        ensures
            r@ == self@,
    {
        OpaquePeerId { text: clone_bytes(&self.text) }
    }
}

impl OpaquePeerId {
    pub fn from_text(text: Vec<u8>) -> (r: Self)
        ensures
            r@ == text@,
    {
        OpaquePeerId { text }
    }

    pub fn into_text(self) -> (r: Vec<u8>)
        ensures
            r@ == self@,
    {
        self.text
    }
}

/// Private key material.  It is owned by the identity layer, converted to and
/// from raw bytes only at process boundaries, and deliberately has no
/// formatting or logging operations.
pub struct Secret {
    data: Vec<u8>,
}

impl View for Secret {
    type V = Seq<u8>;

    closed spec fn view(&self) -> Seq<u8> {
        self.data@
    }
}

impl Clone for Secret {
    fn clone(&self) -> (r: Self)
        ensures
            r@ == self@,
    {
        Secret { data: clone_bytes(&self.data) }
    }
}

impl Secret {
    pub fn new(data: Vec<u8>) -> (r: Self)
        ensures
            r@ == data@,
    {
        Secret { data }
    }

    pub fn into_bytes(self) -> (r: Vec<u8>)
        ensures
            r@ == self@,
    {
        self.data
    }
}

/// Wrap raw generated key material: the secret bytes stay secret key
/// material, the public-key-hash bytes become the peer's identifier.
pub fn create_keypair(secret_bytes: Vec<u8>, peer_id_bytes: &Vec<u8>) -> (r: (Secret, PeerId))
    ensures
        r.0@ == secret_bytes@,
        r.1@ == b58_text_of(peer_id_bytes@),
{
    (Secret::new(secret_bytes), PeerId::from_raw_bytes(peer_id_bytes))
}

/// Byte-for-byte copy of a byte vector.
pub fn clone_bytes(v: &Vec<u8>) -> (r: Vec<u8>)
    ensures
        r@ == v@,
{
    let mut r: Vec<u8> = Vec::new();
    let mut i: usize = 0;
    while i < v.len()
        invariant
            i <= v.len(),
            r@ == v@.take(i as int),
        decreases v.len() - i,
    {
        r.push(v[i]);
        proof {
            assert(r@ =~= v@.take(i + 1));
        }
        i = i + 1;
    }
    proof {
        assert(v@.take(v@.len() as int) =~= v@);
    }
    r
}

/// Equality of byte vectors, element by element.
pub fn eq_bytes(a: &Vec<u8>, b: &Vec<u8>) -> (r: bool)
    ensures
        r == (a@ == b@),
{
    if a.len() != b.len() {
        return false;
    }
    let mut i: usize = 0;
    while i < a.len()
        invariant
            a.len() == b.len(),
            i <= a.len(),
            forall|j: int| 0 <= j < i ==> a@[j] == b@[j],
        decreases a.len() - i,
    {
        if a[i] != b[i] {
            return false;
        }
        i = i + 1;
    }
    proof {
        assert(a@ =~= b@);
    }
    true
}

} // verus!

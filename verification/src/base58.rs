//! Base58 text for peer identifiers, through the `bs58` crate.

use vstd::prelude::*;

verus! {

/// Bytes of the Base58 (Bitcoin) alphabet:
/// `123456789ABCDEFGHJKLMNPQRSTUVWXYZabcdefghijkmnopqrstuvwxyz`.
pub open spec fn is_base58_byte(b: u8) -> bool {
    ||| 0x31 <= b <= 0x39  // '1'..='9'
    ||| 0x41 <= b <= 0x48  // 'A'..='H'
    ||| 0x4A <= b <= 0x4E  // 'J'..='N'
    ||| 0x50 <= b <= 0x5A  // 'P'..='Z'
    ||| 0x61 <= b <= 0x6B  // 'a'..='k'
    ||| 0x6D <= b <= 0x7A  // 'm'..='z'
}

/// Whether a byte string consists only of Base58 alphabet characters,
/// which is exactly the condition under which decoding succeeds.
pub open spec fn is_base58_seq(s: Seq<u8>) -> bool {
    forall|i: int| 0 <= i < s.len() ==> is_base58_byte(#[trigger] s[i])
}

/// The Base58 text that encoding a byte string produces.
pub uninterp spec fn b58_text_of(bytes: Seq<u8>) -> Seq<u8>;

/// The byte string that decoding a valid Base58 text produces.
pub uninterp spec fn b58_bytes_of(text: Seq<u8>) -> Seq<u8>;

/// Relies on `bs58::encode(..).into_string()`: the encoding depends on the
/// input bytes alone and yields a string over the Base58 alphabet; for a
/// `String` target it cannot fail.
#[verifier::external_body]
pub(crate) fn bs58_encode(bytes: &Vec<u8>) -> (r: Vec<u8>)
    ensures
        r@ == b58_text_of(bytes@),
        is_base58_seq(r@),
{
    bs58::encode(bytes.as_slice()).into_string().into_bytes()
}

/// Relies on `bs58::decode(..).into_vec()`: it fails exactly on a byte
/// outside the Base58 alphabet (`Error::InvalidCharacter` for an ASCII byte,
/// `Error::NonAsciiCharacter` otherwise), and a `Vec` target grows as
/// needed, so no other error can occur; the decoded bytes depend on the
/// input text alone.
#[verifier::external_body]
pub(crate) fn bs58_decode(text: &Vec<u8>) -> (r: Option<Vec<u8>>)
    ensures
        r is Some <==> is_base58_seq(text@),
        r matches Some(v) ==> v@ == b58_bytes_of(text@),
{
    bs58::decode(text.as_slice()).into_vec().ok()
}

} // verus!

//! Byte-level JSON wire codec for the fixed message shapes of the protocol.
//!
//! Payloads are UTF-8 JSON objects with a fixed field order and no
//! insignificant whitespace.  String values are escaped: `"` and `\` get a
//! backslash, control bytes become `\u00XX`; every other byte is emitted as
//! it is.  Decoding accepts exactly this canonical form and is proved to
//! invert encoding.

use vstd::prelude::*;

verus! {

pub const QUOTE: u8 = 0x22;
pub const BACKSLASH: u8 = 0x5C;
pub const LBRACE: u8 = 0x7B;
pub const RBRACE: u8 = 0x7D;
pub const COMMA: u8 = 0x2C;
pub const COLON: u8 = 0x3A;
pub const LETTER_U: u8 = 0x75;
pub const DIGIT_ZERO: u8 = 0x30;

pub open spec fn is_digit_byte(b: u8) -> bool {
    0x30 <= b <= 0x39
}

pub open spec fn is_hex_byte(b: u8) -> bool {
    ||| 0x30 <= b <= 0x39
    ||| 0x41 <= b <= 0x46
    ||| 0x61 <= b <= 0x66
}

/// Lower-case hex digit for a value below 16.
pub open spec fn hex_digit(n: u8) -> u8
    recommends
        n < 16,
{
    if n < 10 {
        (0x30 + n) as u8
    } else {
        (0x57 + n) as u8
    }
}

/// Value of a hex digit byte.
pub open spec fn hex_val(b: u8) -> u8
    recommends
        is_hex_byte(b),
{
    if 0x30 <= b <= 0x39 {
        (b - 0x30) as u8
    } else if 0x41 <= b <= 0x46 {
        (b - 0x37) as u8
    } else {
        (b - 0x57) as u8
    }
}

/// The escape sequence (or the byte itself) a byte becomes inside a JSON
/// string.
pub open spec fn esc_byte(b: u8) -> Seq<u8> {
    if b == QUOTE {
        seq![BACKSLASH, QUOTE]
    } else if b == BACKSLASH {
        seq![BACKSLASH, BACKSLASH]
    } else if b < 0x20 {
        seq![BACKSLASH, LETTER_U, DIGIT_ZERO, DIGIT_ZERO, hex_digit(b / 16), hex_digit(b % 16)]
    } else {
        seq![b]
    }
}

/// Escaped form of a byte string.
pub open spec fn esc(s: Seq<u8>) -> Seq<u8>
    decreases s.len(),
{
    if s.len() == 0 {
        Seq::empty()
    } else {
        esc_byte(s[0]) + esc(s.drop_first())
    }
}

/// Parse a JSON string body up to and including its closing quote.  Returns
/// the unescaped content and the number of input bytes consumed.
pub open spec fn unesc_prefix(s: Seq<u8>) -> Option<(Seq<u8>, int)>
    decreases s.len(),
{
    if s.len() == 0 {
        None
    } else if s[0] == QUOTE {
        Some((Seq::empty(), 1))
    } else if s[0] == BACKSLASH {
        if s.len() >= 2 && (s[1] == QUOTE || s[1] == BACKSLASH) {
            match unesc_prefix(s.skip(2)) {
                Some(t) => Some((seq![s[1]] + t.0, 2 + t.1)),
                None => None,
            }
        } else if s.len() >= 6 && s[1] == LETTER_U && s[2] == DIGIT_ZERO && s[3] == DIGIT_ZERO
            && is_hex_byte(s[4]) && is_hex_byte(s[5]) {
            match unesc_prefix(s.skip(6)) {
                Some(t) => Some(
                    (seq![(hex_val(s[4]) * 16 + hex_val(s[5])) as u8] + t.0, 6 + t.1),
                ),
                None => None,
            }
        } else {
            None
        }
    } else if s[0] < 0x20 {
        None
    } else {
        match unesc_prefix(s.skip(1)) {
            Some(t) => Some((seq![s[0]] + t.0, 1 + t.1)),
            None => None,
        }
    }
}

/// Appending one byte to a string appends its escape sequence.
pub proof fn lemma_esc_push(a: Seq<u8>, b: u8)
    ensures
        esc(a.push(b)) == esc(a) + esc_byte(b),
    decreases a.len(),
{
    let ab = a.push(b);
    if a.len() == 0 {
        assert(ab[0] == b);
        assert(ab.drop_first() =~= Seq::<u8>::empty());
        assert(esc(ab) == esc_byte(b) + esc(Seq::<u8>::empty()));
        assert(esc_byte(b) + Seq::<u8>::empty() =~= esc_byte(b));
        assert(esc(a) + esc_byte(b) =~= esc_byte(b));
    } else {
        assert(ab[0] == a[0]);
        assert(ab.drop_first() =~= a.drop_first().push(b));
        lemma_esc_push(a.drop_first(), b);
        assert(esc(ab) == esc_byte(a[0]) + (esc(a.drop_first()) + esc_byte(b)));
        assert(esc_byte(a[0]) + (esc(a.drop_first()) + esc_byte(b)) =~= (esc_byte(a[0])
            + esc(a.drop_first())) + esc_byte(b));
    }
}

/// Parsing inverts escaping: the escaped string, a closing quote, and
/// anything after parse back to the original content, consuming exactly the
/// escaped bytes and the quote.
pub proof fn lemma_unesc_esc(s: Seq<u8>, rest: Seq<u8>)
    ensures
        unesc_prefix(esc(s) + seq![QUOTE] + rest) == Some((s, esc(s).len() + 1 as int)),
    decreases s.len(),
{
    let full = esc(s) + seq![QUOTE] + rest;
    if s.len() == 0 {
        assert(full[0] == QUOTE);
        assert(unesc_prefix(full) == Some((Seq::<u8>::empty(), 1int)));
        assert(s =~= Seq::<u8>::empty());
    } else {
        let b = s[0];
        let e0 = esc_byte(b);
        let tail = esc(s.drop_first()) + seq![QUOTE] + rest;
        assert(full =~= e0 + tail);
        lemma_unesc_esc(s.drop_first(), rest);
        let t = (s.drop_first(), esc(s.drop_first()).len() + 1 as int);
        if b == QUOTE {
            assert(full[0] == BACKSLASH && full[1] == QUOTE);
            assert(full.skip(2) =~= tail);
            assert(seq![full[1]] + t.0 =~= s);
        } else if b == BACKSLASH {
            assert(full[0] == BACKSLASH && full[1] == BACKSLASH);
            assert(full.skip(2) =~= tail);
            assert(seq![full[1]] + t.0 =~= s);
        } else if b < 0x20 {
            assert(full[0] == BACKSLASH && full[1] == LETTER_U && full[2] == DIGIT_ZERO
                && full[3] == DIGIT_ZERO);
            assert(full[4] == hex_digit(b / 16) && full[5] == hex_digit(b % 16));
            lemma_hex_digit_val(b);
            assert(full.skip(6) =~= tail);
            assert((hex_val(full[4]) * 16 + hex_val(full[5])) as u8 == b);
            assert(seq![b] + t.0 =~= s);
        } else {
            assert(full[0] == b);
            assert(b != QUOTE && b != BACKSLASH && b >= 0x20);
            assert(full.skip(1) =~= tail);
            assert(seq![b] + t.0 =~= s);
        }
    }
}

/// The two hex digits of a control byte recover the byte.
proof fn lemma_hex_digit_val(b: u8)
    requires
        b < 0x20,
    ensures
        is_hex_byte(hex_digit(b / 16)),
        is_hex_byte(hex_digit(b % 16)),
        hex_val(hex_digit(b / 16)) * 16 + hex_val(hex_digit(b % 16)) == b,
{
    assert(b / 16 < 2);
    assert(b % 16 < 16);
    assert(b == (b / 16) * 16 + b % 16) by (nonlinear_arith);
}

/// Append one byte, stated over sequence views.
pub(crate) fn push_byte(out: &mut Vec<u8>, b: u8)
    ensures
        final(out)@ == old(out)@ + seq![b],
{
    out.push(b);
    proof {
        assert(out@ =~= old(out)@ + seq![b]);
    }
}

/// Append a whole byte string.
pub(crate) fn append_bytes(out: &mut Vec<u8>, src: &Vec<u8>)
    ensures
        final(out)@ == old(out)@ + src@,
{
    let mut i: usize = 0;
    while i < src.len()
        invariant
            i <= src.len(),
            out@ == old(out)@ + src@.take(i as int),
        decreases src.len() - i,
    {
        out.push(src[i]);
        proof {
            assert(out@ =~= old(out)@ + src@.take(i + 1));
        }
        i = i + 1;
    }
    proof {
        assert(src@.take(src@.len() as int) =~= src@);
    }
}

/// Lower-case hex digit of a value below 16.
fn hex_digit_exec(n: u8) -> (r: u8)
    requires
        n < 16,
    ensures
        r == hex_digit(n),
{
    if n < 10 {
        0x30 + n
    } else {
        0x57 + n
    }
}

/// Append the escaped form of a byte string.
pub(crate) fn write_escaped(out: &mut Vec<u8>, src: &Vec<u8>)
    ensures
        final(out)@ == old(out)@ + esc(src@),
{
    let mut i: usize = 0;
    proof {
        assert(esc(src@.take(0)) =~= Seq::<u8>::empty());
        assert(out@ =~= out@ + esc(src@.take(0)));
    }
    while i < src.len()
        invariant
            i <= src.len(),
            out@ == old(out)@ + esc(src@.take(i as int)),
        decreases src.len() - i,
    {
        let b = src[i];
        let ghost pre = out@;
        if b == QUOTE {
            push_byte(out, BACKSLASH);
            push_byte(out, QUOTE);
        } else if b == BACKSLASH {
            push_byte(out, BACKSLASH);
            push_byte(out, BACKSLASH);
        } else if b < 0x20 {
            push_byte(out, BACKSLASH);
            push_byte(out, LETTER_U);
            push_byte(out, DIGIT_ZERO);
            push_byte(out, DIGIT_ZERO);
            push_byte(out, hex_digit_exec(b / 16));
            push_byte(out, hex_digit_exec(b % 16));
        } else {
            push_byte(out, b);
        }
        proof {
            assert(out@ =~= pre + esc_byte(b));
            lemma_esc_push(src@.take(i as int), b);
            assert(src@.take(i as int).push(b) =~= src@.take(i + 1));
        }
        i = i + 1;
    }
    proof {
        assert(src@.take(src@.len() as int) =~= src@);
    }
}

/// Parse a JSON string body starting at `i`, up to and including the closing
/// quote.  Mirrors [`unesc_prefix`] on the remaining input.
pub(crate) fn read_string_content(s: &Vec<u8>, i: usize) -> (r: Option<(Vec<u8>, usize)>)
    requires
        i <= s.len(),
    ensures
        match r {
            Some(p) => {
                &&& i < p.1 <= s.len()
                &&& unesc_prefix(s@.skip(i as int)) == Some((p.0@, p.1 - i as int))
            },
            None => unesc_prefix(s@.skip(i as int)) is None,
        },
    decreases s.len() - i,
{
    let ghost rem = s@.skip(i as int);
    if i == s.len() {
        return None;
    }
    let b = s[i];
    proof {
        assert(rem[0] == b);
    }
    if b == QUOTE {
        return Some((Vec::new(), i + 1));
    }
    if b == BACKSLASH {
        if s.len() - i >= 2 && (s[i + 1] == QUOTE || s[i + 1] == BACKSLASH) {
            proof {
                assert(rem.len() >= 2 && rem[1] == s@[i + 1]);
                assert(rem.skip(2) =~= s@.skip(i + 2));
            }
            match read_string_content(s, i + 2) {
                Some(p) => {
                    let (mut content, j) = p;
                    content.insert(0, s[i + 1]);
                    proof {
                        assert(content@ =~= seq![rem[1]] + p.0@);
                    }
                    return Some((content, j));
                },
                None => {
                    return None;
                },
            }
        } else if s.len() - i >= 6 && s[i + 1] == LETTER_U && s[i + 2] == DIGIT_ZERO && s[i + 3]
            == DIGIT_ZERO && is_hex_byte_exec(s[i + 4]) && is_hex_byte_exec(s[i + 5]) {
            proof {
                assert(rem.len() >= 6);
                assert(rem[1] == s@[i + 1] && rem[2] == s@[i + 2] && rem[3] == s@[i + 3]
                    && rem[4] == s@[i + 4] && rem[5] == s@[i + 5]);
                assert(rem.skip(6) =~= s@.skip(i + 6));
            }
            let v = hex_val_exec(s[i + 4]) * 16 + hex_val_exec(s[i + 5]);
            match read_string_content(s, i + 6) {
                Some(p) => {
                    let (mut content, j) = p;
                    content.insert(0, v);
                    proof {
                        assert(content@ =~= seq![(hex_val(rem[4]) * 16 + hex_val(rem[5])) as u8]
                            + p.0@);
                    }
                    return Some((content, j));
                },
                None => {
                    return None;
                },
            }
        } else {
            proof {
                if rem.len() >= 2 && (rem[1] == QUOTE || rem[1] == BACKSLASH) {
                    assert(s.len() - i >= 2 && (s@[i + 1] == QUOTE || s@[i + 1] == BACKSLASH));
                }
                if rem.len() >= 6 && rem[1] == LETTER_U && rem[2] == DIGIT_ZERO && rem[3]
                    == DIGIT_ZERO && is_hex_byte(rem[4]) && is_hex_byte(rem[5]) {
                    assert(s.len() - i >= 6);
                }
            }
            return None;
        }
    }
    if b < 0x20 {
        return None;
    }
    proof {
        assert(rem.skip(1) =~= s@.skip(i + 1));
    }
    match read_string_content(s, i + 1) {
        Some(p) => {
            let (mut content, j) = p;
            content.insert(0, b);
            proof {
                assert(content@ =~= seq![rem[0]] + p.0@);
            }
            Some((content, j))
        },
        None => None,
    }
}

/// Decimal digits of a number, most significant first.
pub open spec fn dec_digits(n: nat) -> Seq<u8>
    decreases n,
{
    if n < 10 {
        seq![(0x30 + n) as u8]
    } else {
        dec_digits(n / 10) + seq![(0x30 + n % 10) as u8]
    }
}

/// Count of leading decimal digit bytes.
pub open spec fn digits_prefix_len(s: Seq<u8>) -> int
    decreases s.len(),
{
    if s.len() == 0 || !is_digit_byte(s[0]) {
        0
    } else {
        1 + digits_prefix_len(s.drop_first())
    }
}

/// Numeric value of a string of digit bytes.
pub open spec fn digits_val(d: Seq<u8>) -> int
    decreases d.len(),
{
    if d.len() == 0 {
        0
    } else {
        digits_val(d.drop_last()) * 10 + (d.last() - 0x30)
    }
}

/// Parse an unsigned decimal number: the longest digit prefix, rejected when
/// empty or when its value does not fit a `u64`.
pub open spec fn parse_num_prefix(s: Seq<u8>) -> Option<(u64, int)> {
    let k = digits_prefix_len(s);
    if k == 0 {
        None
    } else if digits_val(s.take(k)) > u64::MAX {
        None
    } else {
        Some((digits_val(s.take(k)) as u64, k))
    }
}

/// The digits of a number are digit bytes, and there is at least one.
pub proof fn lemma_dec_digits_are_digits(n: nat)
    ensures
        dec_digits(n).len() >= 1,
        forall|i: int| 0 <= i < dec_digits(n).len() ==> is_digit_byte(#[trigger] dec_digits(n)[i]),
    decreases n,
{
    if n >= 10 {
        lemma_dec_digits_are_digits(n / 10);
    }
}

/// The digit prefix of an all-digit string followed by a non-digit is the
/// whole string.
pub proof fn lemma_digits_prefix_all(d: Seq<u8>, rest: Seq<u8>)
    requires
        forall|i: int| 0 <= i < d.len() ==> is_digit_byte(#[trigger] d[i]),
        rest.len() == 0 || !is_digit_byte(rest[0]),
    ensures
        digits_prefix_len(d + rest) == d.len(),
    decreases d.len(),
{
    if d.len() == 0 {
        assert(d + rest =~= rest);
    } else {
        assert((d + rest)[0] == d[0]);
        assert((d + rest).drop_first() =~= d.drop_first() + rest);
        lemma_digits_prefix_all(d.drop_first(), rest);
    }
}

/// If the first `m` bytes are digits, the digit prefix is at least `m` long.
pub proof fn lemma_digits_prefix_ge(s: Seq<u8>, m: int)
    requires
        0 <= m <= s.len(),
        forall|i: int| 0 <= i < m ==> is_digit_byte(#[trigger] s[i]),
    ensures
        digits_prefix_len(s) >= m,
    decreases m,
{
    if m > 0 {
        assert(is_digit_byte(s[0]));
        assert forall|i: int| 0 <= i < m - 1 implies is_digit_byte(
            #[trigger] s.drop_first()[i],
        ) by {
            assert(is_digit_byte(s[i + 1]));
        }
        lemma_digits_prefix_ge(s.drop_first(), m - 1);
        assert(digits_prefix_len(s) == 1 + digits_prefix_len(s.drop_first()));
    } else {
        lemma_digits_prefix_digits(s);
    }
}

/// The bytes of the digit prefix are digits.
pub proof fn lemma_digits_prefix_digits(s: Seq<u8>)
    ensures
        0 <= digits_prefix_len(s) <= s.len(),
        forall|i: int|
            0 <= i < digits_prefix_len(s) ==> is_digit_byte(#[trigger] s[i]),
    decreases s.len(),
{
    if s.len() != 0 && is_digit_byte(s[0]) {
        lemma_digits_prefix_digits(s.drop_first());
        assert forall|i: int| 0 <= i < digits_prefix_len(s) implies is_digit_byte(s[i]) by {
            if i > 0 {
                assert(is_digit_byte(s.drop_first()[i - 1]));
            }
        }
    }
}

/// The value of a digit string is not negative.
pub proof fn lemma_digits_val_nonneg(d: Seq<u8>)
    requires
        forall|i: int| 0 <= i < d.len() ==> is_digit_byte(#[trigger] d[i]),
    ensures
        digits_val(d) >= 0,
    decreases d.len(),
{
    if d.len() > 0 {
        assert(forall|i: int|
            0 <= i < d.drop_last().len() ==> is_digit_byte(#[trigger] d.drop_last()[i]));
        lemma_digits_val_nonneg(d.drop_last());
    }
}

/// A prefix of a digit string has a value no larger than the whole string.
pub proof fn lemma_digits_val_take_le(d: Seq<u8>, j: int)
    requires
        forall|i: int| 0 <= i < d.len() ==> is_digit_byte(#[trigger] d[i]),
        0 <= j <= d.len(),
    ensures
        digits_val(d.take(j)) <= digits_val(d),
    decreases d.len(),
{
    if j == d.len() {
        assert(d.take(j) =~= d);
    } else {
        let dl = d.drop_last();
        assert(forall|i: int| 0 <= i < dl.len() ==> is_digit_byte(#[trigger] dl[i]));
        lemma_digits_val_nonneg(dl);
        assert(digits_val(d) >= digits_val(dl));
        assert(d.take(j) =~= dl.take(j));
        lemma_digits_val_take_le(dl, j);
    }
}

/// The digits of a number have the number as their value.
pub proof fn lemma_dec_digits_val(n: nat)
    ensures
        digits_val(dec_digits(n)) == n,
    decreases n,
{
    if n < 10 {
        let d = dec_digits(n);
        assert(d == seq![(0x30 + n) as u8]);
        assert(d.drop_last() =~= Seq::<u8>::empty());
        assert(d.last() == (0x30 + n) as u8);
        assert(digits_val(Seq::<u8>::empty()) == 0);
        assert(digits_val(d) == 0 * 10 + ((0x30 + n) as u8 - 0x30));
        assert((0x30 + n) as u8 == 0x30 + n);
    } else {
        let d = dec_digits(n);
        vstd::arithmetic::div_mod::lemma_mod_bound(n as int, 10);
        assert(d == dec_digits(n / 10) + seq![(0x30 + n % 10) as u8]);
        assert(d.drop_last() =~= dec_digits(n / 10));
        assert(d.last() == (0x30 + n % 10) as u8);
        assert((0x30 + n % 10) as u8 == 0x30 + n % 10);
        lemma_dec_digits_val(n / 10);
        assert(digits_val(d) == (n / 10) * 10 + n % 10);
        vstd::arithmetic::div_mod::lemma_fundamental_div_mod(n as int, 10);
        assert(n == 10 * (n / 10) + n % 10);
    }
}

/// Parsing inverts number encoding when followed by a non-digit.
pub proof fn lemma_parse_num_dec(n: u64, rest: Seq<u8>)
    requires
        rest.len() == 0 || !is_digit_byte(rest[0]),
    ensures
        parse_num_prefix(dec_digits(n as nat) + rest) == Some(
            (n, dec_digits(n as nat).len() as int),
        ),
{
    let d = dec_digits(n as nat);
    lemma_dec_digits_are_digits(n as nat);
    lemma_digits_prefix_all(d, rest);
    assert((d + rest).take(d.len() as int) =~= d);
    lemma_dec_digits_val(n as nat);
}

/// Append the decimal digits of a number.
pub(crate) fn write_number(out: &mut Vec<u8>, n: u64)
    ensures
        final(out)@ == old(out)@ + dec_digits(n as nat),
    decreases n,
{
    if n < 10 {
        push_byte(out, 0x30 + (n as u8));
    } else {
        write_number(out, n / 10);
        push_byte(out, 0x30 + ((n % 10) as u8));
        proof {
            assert(out@ =~= old(out)@ + dec_digits(n as nat));
        }
    }
}

/// Parse a decimal number starting at `i`.  Mirrors [`parse_num_prefix`] on
/// the remaining input.
pub(crate) fn read_number(s: &Vec<u8>, i: usize) -> (r: Option<(u64, usize)>)
    requires
        i <= s.len(),
    ensures
        match r {
            Some(p) => {
                &&& i < p.1 <= s.len()
                &&& parse_num_prefix(s@.skip(i as int)) == Some((p.0, p.1 - i as int))
            },
            None => parse_num_prefix(s@.skip(i as int)) is None,
        },
{
    let ghost rem = s@.skip(i as int);
    if i == s.len() {
        return None;
    }
    if !(0x30 <= s[i] && s[i] <= 0x39) {
        proof {
            assert(rem[0] == s@[i as int]);
        }
        return None;
    }
    let mut acc: u64 = 0;
    let mut j: usize = i;
    proof {
        assert(s@.subrange(i as int, i as int) =~= Seq::<u8>::empty());
    }
    while j < s.len() && 0x30 <= s[j] && s[j] <= 0x39
        invariant
            i <= j <= s.len(),
            i < s.len(),
            is_digit_byte(s@[i as int]),
            forall|t: int| i <= t < j ==> is_digit_byte(#[trigger] s@[t]),
            acc == digits_val(s@.subrange(i as int, j as int)),
        decreases s.len() - j,
    {
        let d = s[j] - 0x30;
        let ghost pre = s@.subrange(i as int, j as int);
        if acc > (u64::MAX - (d as u64)) / 10 {
            proof {
                lemma_read_number_overflow(s@, i as int, j as int, acc, d);
            }
            return None;
        }
        acc = acc * 10 + (d as u64);
        proof {
            assert(s@.subrange(i as int, j + 1) =~= pre.push(s@[j as int]));
            assert(s@.subrange(i as int, j + 1).drop_last() =~= pre);
        }
        j = j + 1;
    }
    proof {
        let d = s@.subrange(i as int, j as int);
        let after = s@.skip(j as int);
        assert(rem =~= d + after);
        assert(after.len() == 0 || !is_digit_byte(after[0]));
        lemma_digits_prefix_all(d, after);
        assert(rem.take(j - i as int) =~= d);
        assert(j > i) by {
            assert(is_digit_byte(rem[0]));
        }
    }
    Some((acc, j))
}

/// When one more digit would overflow the accumulator, the whole digit
/// prefix has a value beyond `u64::MAX`.
proof fn lemma_read_number_overflow(s: Seq<u8>, i: int, j: int, acc: u64, d: u8)
    requires
        0 <= i <= j < s.len(),
        forall|t: int| i <= t < j ==> is_digit_byte(#[trigger] s[t]),
        is_digit_byte(s[j]),
        d == s[j] - 0x30,
        acc == digits_val(s.subrange(i, j)),
        acc > (u64::MAX - (d as u64)) / 10,
    ensures
        parse_num_prefix(s.skip(i)) is None,
{
    let rem = s.skip(i);
    let p1 = s.subrange(i, j + 1);
    assert(p1.drop_last() =~= s.subrange(i, j));
    assert(p1.last() == s[j]);
    assert(digits_val(p1) == acc * 10 + d);
    let q = (u64::MAX - (d as u64)) / 10;
    vstd::arithmetic::div_mod::lemma_fundamental_div_mod(u64::MAX - (d as u64), 10);
    vstd::arithmetic::div_mod::lemma_mod_bound(u64::MAX - (d as u64), 10);
    assert(acc * 10 >= (q + 1) * 10) by (nonlinear_arith)
        requires
            acc >= q + 1,
    ;
    assert(digits_val(p1) > u64::MAX);
    let k = digits_prefix_len(rem);
    lemma_digits_prefix_ge(rem, j + 1 - i);
    lemma_digits_prefix_digits(rem);
    assert(rem.take(k) =~= s.subrange(i, i + k));
    assert(forall|t: int| 0 <= t < k ==> is_digit_byte(#[trigger] rem.take(k)[t]));
    assert(p1 =~= rem.take(k).take(j + 1 - i));
    lemma_digits_val_take_le(rem.take(k), j + 1 - i);
    assert(digits_val(rem.take(k)) > u64::MAX);
}

/// Whether a byte is a hex digit.
fn is_hex_byte_exec(b: u8) -> (r: bool)
    ensures
        r == is_hex_byte(b),
{
    (0x30 <= b && b <= 0x39) || (0x41 <= b && b <= 0x46) || (0x61 <= b && b <= 0x66)
}

/// Value of a hex digit byte.
fn hex_val_exec(b: u8) -> (r: u8)
    requires
        is_hex_byte(b),
    ensures
        r == hex_val(b),
        r < 16,
{
    if 0x30 <= b && b <= 0x39 {
        b - 0x30
    } else if 0x41 <= b && b <= 0x46 {
        b - 0x37
    } else {
        b - 0x57
    }
}


/// Consume an exact literal prefix.
pub open spec fn expect(s: Seq<u8>, lit: Seq<u8>) -> Option<int> {
    if lit.len() <= s.len() && s.take(lit.len() as int) == lit {
        Some(lit.len() as int)
    } else {
        None
    }
}

/// `{"key":"` or `","key":"`: what precedes a string field's value.
pub open spec fn fld_s(key: Seq<u8>, first: bool) -> Seq<u8> {
    seq![if first { LBRACE } else { COMMA }, QUOTE] + key + seq![QUOTE, COLON, QUOTE]
}

/// `{"key":` or `","key":`: what precedes a number field's value.
pub open spec fn fld_n(key: Seq<u8>, first: bool) -> Seq<u8> {
    seq![if first { LBRACE } else { COMMA }, QUOTE] + key + seq![QUOTE, COLON]
}

/// A complete string field: its marker and its escaped, quoted value.
pub open spec fn json_sfield(key: Seq<u8>, val: Seq<u8>, first: bool) -> Seq<u8> {
    fld_s(key, first) + esc(val) + seq![QUOTE]
}

/// A complete number field.
pub open spec fn json_nfield(key: Seq<u8>, n: u64, first: bool) -> Seq<u8> {
    fld_n(key, first) + dec_digits(n as nat)
}

/// Parse a string field: its marker, then its value.
pub open spec fn parse_sfield(s: Seq<u8>, key: Seq<u8>, first: bool) -> Option<(Seq<u8>, int)> {
    match expect(s, fld_s(key, first)) {
        Some(n) => match unesc_prefix(s.skip(n)) {
            Some(t) => Some((t.0, n + t.1)),
            None => None,
        },
        None => None,
    }
}

/// Parse a number field.
pub open spec fn parse_nfield(s: Seq<u8>, key: Seq<u8>, first: bool) -> Option<(u64, int)> {
    match expect(s, fld_n(key, first)) {
        Some(n) => match parse_num_prefix(s.skip(n)) {
            Some(t) => Some((t.0, n + t.1)),
            None => None,
        },
        None => None,
    }
}

/// A literal followed by anything parses as that literal.
pub proof fn lemma_expect_prefix(lit: Seq<u8>, rest: Seq<u8>)
    ensures
        expect(lit + rest, lit) == Some(lit.len() as int),
        (lit + rest).skip(lit.len() as int) == rest,
{
    assert((lit + rest).take(lit.len() as int) =~= lit);
    assert((lit + rest).skip(lit.len() as int) =~= rest);
}

/// Parsing inverts the encoding of a string field.
pub proof fn lemma_sfield_rt(key: Seq<u8>, val: Seq<u8>, first: bool, rest: Seq<u8>)
    ensures
        parse_sfield(json_sfield(key, val, first) + rest, key, first) == Some(
            (val, json_sfield(key, val, first).len() as int),
        ),
        (json_sfield(key, val, first) + rest).skip(json_sfield(key, val, first).len() as int)
            == rest,
{
    let lit = fld_s(key, first);
    let tail = esc(val) + seq![QUOTE] + rest;
    let full = json_sfield(key, val, first) + rest;
    assert(full =~= lit + tail);
    lemma_expect_prefix(lit, tail);
    lemma_unesc_esc(val, rest);
    assert(full.skip(full.len() - rest.len()) =~= rest);
}

/// Parsing inverts the encoding of a number field, provided what follows
/// does not begin with a digit.
pub proof fn lemma_nfield_rt(key: Seq<u8>, n: u64, first: bool, rest: Seq<u8>)
    requires
        rest.len() == 0 || !is_digit_byte(rest[0]),
    ensures
        parse_nfield(json_nfield(key, n, first) + rest, key, first) == Some(
            (n, json_nfield(key, n, first).len() as int),
        ),
        (json_nfield(key, n, first) + rest).skip(json_nfield(key, n, first).len() as int)
            == rest,
{
    let lit = fld_n(key, first);
    let tail = dec_digits(n as nat) + rest;
    let full = json_nfield(key, n, first) + rest;
    assert(full =~= lit + tail);
    lemma_expect_prefix(lit, tail);
    lemma_parse_num_dec(n, rest);
    assert(full.skip(full.len() - rest.len()) =~= rest);
}

/// Check for an exact literal at position `i`.  Mirrors [`expect`].
pub(crate) fn read_lit(s: &Vec<u8>, i: usize, lit: &Vec<u8>) -> (r: Option<usize>)
    requires
        i <= s.len(),
    ensures
        match r {
            Some(j) => {
                &&& j == i + lit@.len()
                &&& j <= s.len()
                &&& expect(s@.skip(i as int), lit@) == Some(lit@.len() as int)
            },
            None => expect(s@.skip(i as int), lit@) is None,
        },
{
    if s.len() - i < lit.len() {
        return None;
    }
    let mut k: usize = 0;
    while k < lit.len()
        invariant
            i + lit@.len() <= s.len(),
            k <= lit@.len(),
            forall|t: int| 0 <= t < k ==> s@[i + t] == lit@[t],
        decreases lit.len() - k,
    {
        if s[i + k] != lit[k] {
            proof {
                let tk = s@.skip(i as int).take(lit@.len() as int);
                assert(tk[k as int] == s@[i + k]);
                assert(tk != lit@) by {
                    if tk == lit@ {
                        assert(tk[k as int] == lit@[k as int]);
                    }
                }
            }
            return None;
        }
        k = k + 1;
    }
    proof {
        assert(s@.skip(i as int).take(lit@.len() as int) =~= lit@);
    }
    Some(i + lit.len())
}

/// Build the marker bytes of a string field.
fn fld_s_vec(key: &Vec<u8>, first: bool) -> (r: Vec<u8>)
    ensures
        r@ == fld_s(key@, first),
{
    let mut v: Vec<u8> = Vec::new();
    push_byte(&mut v, if first { LBRACE } else { COMMA });
    push_byte(&mut v, QUOTE);
    append_bytes(&mut v, key);
    push_byte(&mut v, QUOTE);
    push_byte(&mut v, COLON);
    push_byte(&mut v, QUOTE);
    proof {
        assert(v@ =~= fld_s(key@, first));
    }
    v
}

/// Build the marker bytes of a number field.
fn fld_n_vec(key: &Vec<u8>, first: bool) -> (r: Vec<u8>)
    ensures
        r@ == fld_n(key@, first),
{
    let mut v: Vec<u8> = Vec::new();
    push_byte(&mut v, if first { LBRACE } else { COMMA });
    push_byte(&mut v, QUOTE);
    append_bytes(&mut v, key);
    push_byte(&mut v, QUOTE);
    push_byte(&mut v, COLON);
    proof {
        assert(v@ =~= fld_n(key@, first));
    }
    v
}

/// Append a complete string field.
pub(crate) fn write_sfield(out: &mut Vec<u8>, key: &Vec<u8>, val: &Vec<u8>, first: bool)
    ensures
        final(out)@ == old(out)@ + json_sfield(key@, val@, first),
{
    let lit = fld_s_vec(key, first);
    append_bytes(out, &lit);
    write_escaped(out, val);
    push_byte(out, QUOTE);
    proof {
        assert(out@ =~= old(out)@ + json_sfield(key@, val@, first));
    }
}

/// Append a complete number field.
pub(crate) fn write_nfield(out: &mut Vec<u8>, key: &Vec<u8>, n: u64, first: bool)
    ensures
        final(out)@ == old(out)@ + json_nfield(key@, n, first),
{
    let lit = fld_n_vec(key, first);
    append_bytes(out, &lit);
    write_number(out, n);
    proof {
        assert(out@ =~= old(out)@ + json_nfield(key@, n, first));
    }
}

/// Parse a string field at position `i`.  Mirrors [`parse_sfield`].
pub(crate) fn read_sfield(
    s: &Vec<u8>,
    i: usize,
    key: &Vec<u8>,
    first: bool,
) -> (r: Option<(Vec<u8>, usize)>)
    requires
        i <= s.len(),
    ensures
        match r {
            Some(p) => {
                &&& i < p.1 <= s.len()
                &&& parse_sfield(s@.skip(i as int), key@, first) == Some((p.0@, p.1 - i as int))
            },
            None => parse_sfield(s@.skip(i as int), key@, first) is None,
        },
{
    let lit = fld_s_vec(key, first);
    match read_lit(s, i, &lit) {
        None => None,
        Some(j) => {
            proof {
                assert(s@.skip(i as int).skip(lit@.len() as int) =~= s@.skip(j as int));
            }
            match read_string_content(s, j) {
                None => None,
                Some(p) => Some((p.0, p.1)),
            }
        },
    }
}

/// Parse a number field at position `i`.  Mirrors [`parse_nfield`].
pub(crate) fn read_nfield(
    s: &Vec<u8>,
    i: usize,
    key: &Vec<u8>,
    first: bool,
) -> (r: Option<(u64, usize)>)
    requires
        i <= s.len(),
    ensures
        match r {
            Some(p) => {
                &&& i < p.1 <= s.len()
                &&& parse_nfield(s@.skip(i as int), key@, first) == Some((p.0, p.1 - i as int))
            },
            None => (parse_nfield(s@.skip(i as int), key@, first) is None),
        },
{
    let lit = fld_n_vec(key, first);
    match read_lit(s, i, &lit) {
        None => None,
        Some(j) => {
            proof {
                assert(s@.skip(i as int).skip(lit@.len() as int) =~= s@.skip(j as int));
            }
            match read_number(s, j) {
                None => None,
                Some(p) => Some((p.0, p.1)),
            }
        },
    }
}


/// Escaping at most sextuples the length.
pub proof fn lemma_esc_len(s: Seq<u8>)
    ensures
        esc(s).len() <= 6 * s.len(),
    decreases s.len(),
{
    if s.len() > 0 {
        lemma_esc_len(s.drop_first());
    }
}

} // verus!

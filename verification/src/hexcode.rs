//! Hexadecimal digests: what a well-formed hex string is, what it decodes
//! to, and how a byte sequence is written in lowercase hex.
#![allow(unused_imports)]
use vstd::prelude::*;

verus! {

/// A character that may stand in a hex-encoded digest, either case.
pub open spec fn is_hex_digit(c: char) -> bool {
    ('0' as u32 <= c as u32 && c as u32 <= '9' as u32)
        || ('a' as u32 <= c as u32 && c as u32 <= 'f' as u32)
        || ('A' as u32 <= c as u32 && c as u32 <= 'F' as u32)
}

/// The numeric value of a hex digit; meaningful only under `is_hex_digit`.
pub open spec fn hex_digit_value(c: char) -> int {
    if '0' as u32 <= c as u32 && c as u32 <= '9' as u32 {
        c as u32 - '0' as u32
    } else if 'a' as u32 <= c as u32 && c as u32 <= 'f' as u32 {
        c as u32 - 'a' as u32 + 10
    } else if 'A' as u32 <= c as u32 && c as u32 <= 'F' as u32 {
        c as u32 - 'A' as u32 + 10
    } else {
        0
    }
}

/// A string that decodes to bytes: even length, hex digits throughout.
pub open spec fn valid_hex(s: Seq<char>) -> bool {
    s.len() % 2 == 0 && (forall|i: int| 0 <= i < s.len() ==> is_hex_digit(#[trigger] s[i]))
}

/// The bytes a hex string stands for: each pair of digits is one byte,
/// high digit first.  Meaningful only under `valid_hex`.
pub open spec fn hex_decode_spec(s: Seq<char>) -> Seq<u8>
    decreases s.len(),
{
    if s.len() < 2 {
        Seq::<u8>::empty()
    } else {
        seq![(hex_digit_value(s[0]) * 16 + hex_digit_value(s[1])) as u8] + hex_decode_spec(
            s.skip(2),
        )
    }
}

/// The lowercase hex digit for a value below 16.
pub open spec fn hex_char_of(n: int) -> char {
    if n == 0 {
        '0'
    } else if n == 1 {
        '1'
    } else if n == 2 {
        '2'
    } else if n == 3 {
        '3'
    } else if n == 4 {
        '4'
    } else if n == 5 {
        '5'
    } else if n == 6 {
        '6'
    } else if n == 7 {
        '7'
    } else if n == 8 {
        '8'
    } else if n == 9 {
        '9'
    } else if n == 10 {
        'a'
    } else if n == 11 {
        'b'
    } else if n == 12 {
        'c'
    } else if n == 13 {
        'd'
    } else if n == 14 {
        'e'
    } else {
        'f'
    }
}

/// The lowercase hex spelling of a byte sequence, two digits per byte.
pub open spec fn hex_encode_spec(b: Seq<u8>) -> Seq<char>
    decreases b.len(),
{
    if b.len() == 0 {
        Seq::<char>::empty()
    } else {
        seq![hex_char_of(b[0] as int / 16), hex_char_of(b[0] as int % 16)] + hex_encode_spec(
            b.drop_first(),
        )
    }
}

/// Writing a value below 16 as a hex digit and reading it back is the
/// identity, and the digit written is never a separator of the header.
pub proof fn lemma_hex_char_of_value(n: int)
    requires
        0 <= n < 16,
    ensures
        is_hex_digit(hex_char_of(n)),
        hex_digit_value(hex_char_of(n)) == n,
        hex_char_of(n) != ',',
        hex_char_of(n) != '=',
{
}

/// Encoding bytes in hex yields a well-formed hex string of twice the
/// length, free of the header's separators, and decoding it restores the
/// bytes exactly.
pub proof fn lemma_hex_round_trip(b: Seq<u8>)
    ensures
        valid_hex(hex_encode_spec(b)),
        hex_encode_spec(b).len() == 2 * b.len(),
        hex_decode_spec(hex_encode_spec(b)) == b,
        forall|i: int|
            0 <= i < hex_encode_spec(b).len() ==> #[trigger] hex_encode_spec(b)[i] != ','
                && hex_encode_spec(b)[i] != '=',
    decreases b.len(),
{
    if b.len() == 0 {
        assert(hex_decode_spec(hex_encode_spec(b)) =~= b);
    } else {
        let hi = b[0] as int / 16;
        let lo = b[0] as int % 16;
        lemma_hex_char_of_value(hi);
        lemma_hex_char_of_value(lo);
        lemma_hex_round_trip(b.drop_first());
        let enc = hex_encode_spec(b);
        let rest = hex_encode_spec(b.drop_first());
        assert(enc.skip(2) =~= rest);
        assert(hex_digit_value(enc[0]) * 16 + hex_digit_value(enc[1]) == b[0]);
        assert(hex_decode_spec(enc) =~= b);
        assert(valid_hex(enc)) by {
            assert(forall|i: int|
                2 <= i < enc.len() ==> enc[i] == #[trigger] rest[i - 2]);
        }
        assert(forall|i: int|
            0 <= i < enc.len() && i >= 2 ==> #[trigger] enc[i] == rest[i - 2]);
    }
}

/// Relies on `hex::decode`: it succeeds exactly on an even-length string
/// of hex digits of either case, and returns the bytes the digit pairs
/// stand for.
#[verifier::external_body]
pub(crate) fn hex_decode(s: &str) -> (r: Option<Vec<u8>>)
    ensures
        r is Some <==> valid_hex(s@),
        r matches Some(v) ==> v@ == hex_decode_spec(s@),
{
    hex::decode(s).ok()
}

} // verus!

//! Hexadecimal wire encoding.
//!
//! Every multi-byte field of a frame travels as fixed-width, zero-padded,
//! upper-case hex ASCII.  This module encodes a byte or a 16-bit word into
//! that form and decodes it back, rejecting anything that is not a hex
//! digit.

use vstd::prelude::*;

verus! {

/// Errors encountered while decoding a hex-encoded field.
#[derive(Debug, Clone, Copy, PartialEq, Eq, Structural)]
pub enum DecodeError {
    /// Not a valid hex encoded value
    Hex,
    /// The decoded value does not name a known variant
    ///
    /// Mostly an unsupported control identifier.
    UnknownVariant,
}

/// The ASCII character that encodes one hex digit, upper case.
pub open spec fn hex_char(n: int) -> u8
    recommends
        0 <= n < 16,
{
    if n < 10 {
        (0x30 + n) as u8
    } else {
        (0x37 + n) as u8
    }
}

/// The two-character hex encoding of a byte, upper case, zero padded.
pub open spec fn u8_hex(b: u8) -> Seq<u8> {
    seq![hex_char(b as int / 16), hex_char(b as int % 16)]
}

/// The four-character hex encoding of a 16-bit word: high byte, then low byte.
pub open spec fn u16_hex(v: u16) -> Seq<u8> {
    u8_hex((v / 256) as u8) + u8_hex((v % 256) as u8)
}

/// Whether `c` is an ASCII hex digit (`0-9`, `A-F`, or `a-f`).
pub open spec fn is_hex_digit(c: u8) -> bool {
    (0x30 <= c && c <= 0x39) || (0x41 <= c && c <= 0x46) || (0x61 <= c && c <= 0x66)
}

/// The numeric value of an ASCII hex digit.
pub open spec fn hex_digit_value(c: u8) -> int
    recommends
        is_hex_digit(c),
{
    if 0x30 <= c && c <= 0x39 {
        c - 0x30
    } else if 0x41 <= c && c <= 0x46 {
        c - 0x37
    } else {
        c - 0x57
    }
}

/// The byte encoded by two hex characters, or `None` if either character is
/// not a hex digit.
pub open spec fn u8_from_hex_spec(s: Seq<u8>) -> Option<u8>
    recommends
        s.len() == 2,
{
    if is_hex_digit(s[0]) && is_hex_digit(s[1]) {
        Some((hex_digit_value(s[0]) * 16 + hex_digit_value(s[1])) as u8)
    } else {
        None
    }
}

/// The 16-bit word encoded by four hex characters: two for the high byte,
/// then two for the low byte.
pub open spec fn u16_from_hex_spec(s: Seq<u8>) -> Option<u16>
    recommends
        s.len() == 4,
{
    match (u8_from_hex_spec(s.subrange(0, 2)), u8_from_hex_spec(s.subrange(2, 4))) {
        (Some(h), Some(l)) => Some((h * 256 + l) as u16),
        _ => None,
    }
}

/// The upper-case hex character for one digit value.
fn hex_digit(n: u8) -> (c: u8)
    requires
        n < 16,
    ensures
        c == hex_char(n as int),
{
    if n < 10 {
        0x30 + n
    } else {
        0x37 + n
    }
}

/// The value of one hex character, if it is a hex digit.
fn hex_value(c: u8) -> (r: Option<u8>)
    ensures
        r == if is_hex_digit(c) {
            Some(hex_digit_value(c) as u8)
        } else {
            None::<u8>
        },
{
    if 0x30 <= c && c <= 0x39 {
        Some(c - 0x30)
    } else if 0x41 <= c && c <= 0x46 {
        Some(c - 0x37)
    } else if 0x61 <= c && c <= 0x66 {
        Some(c - 0x57)
    } else {
        None
    }
}

/// Encode a byte as two upper-case hex characters.
pub fn u8_encode_hex(value: u8) -> (r: [u8; 2])
    ensures
        r@ == u8_hex(value),
{
    let r = [hex_digit(value / 16), hex_digit(value % 16)];
    proof {
        assert(r@ =~= u8_hex(value));
    }
    r
}

/// Encode a 16-bit word as four upper-case hex characters.
pub fn u16_encode_hex(value: u16) -> (r: [u8; 4])
    ensures
        r@ == u16_hex(value),
{
    let hi = u8_encode_hex((value / 256) as u8);
    let lo = u8_encode_hex((value % 256) as u8);
    let r = [hi[0], hi[1], lo[0], lo[1]];
    proof {
        assert(r@ =~= u16_hex(value));
    }
    r
}

/// Decode two hex characters into the byte they encode.
pub fn u8_from_hex(ascii: &[u8; 2]) -> (r: Result<u8, DecodeError>)
    ensures
        r == match u8_from_hex_spec(ascii@) {
            Some(v) => Ok::<u8, DecodeError>(v),
            None => Err::<u8, DecodeError>(DecodeError::Hex),
        },
{
    match (hex_value(ascii[0]), hex_value(ascii[1])) {
        (Some(h), Some(l)) => Ok(16 * h + l),
        _ => Err(DecodeError::Hex),
    }
}

/// Decode four hex characters into the 16-bit word they encode.
pub fn u16_from_hex(ascii: &[u8; 4]) -> (r: Result<u16, DecodeError>)
    ensures
        r == match u16_from_hex_spec(ascii@) {
            Some(v) => Ok::<u16, DecodeError>(v),
            None => Err::<u16, DecodeError>(DecodeError::Hex),
        },
{
    let hi_pair = [ascii[0], ascii[1]];
    let lo_pair = [ascii[2], ascii[3]];
    proof {
        assert(hi_pair@ =~= ascii@.subrange(0, 2));
        assert(lo_pair@ =~= ascii@.subrange(2, 4));
    }
    match (u8_from_hex(&hi_pair), u8_from_hex(&lo_pair)) {
        (Ok(h), Ok(l)) => Ok((h as u16) * 256 + (l as u16)),
        _ => Err(DecodeError::Hex),
    }
}

/// Law: hex encoding of a byte decodes back to the same byte.
pub proof fn lemma_u8_hex_round_trip(b: u8)
    ensures
        u8_from_hex_spec(u8_hex(b)) == Some(b),
{
    assert(16 * (b as int / 16) + b as int % 16 == b as int);
}

/// Law: hex encoding of a 16-bit word decodes back to the same word.
pub proof fn lemma_u16_hex_round_trip(v: u16)
    ensures
        u16_from_hex_spec(u16_hex(v)) == Some(v),
{
    let h = (v / 256) as u8;
    let l = (v % 256) as u8;
    lemma_u8_hex_round_trip(h);
    lemma_u8_hex_round_trip(l);
    assert(u16_hex(v).subrange(0, 2) =~= u8_hex(h));
    assert(u16_hex(v).subrange(2, 4) =~= u8_hex(l));
    assert(h as int * 256 + l as int == v as int);
}

} // verus!

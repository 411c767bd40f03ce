//! The SCALE encoding of the two fixed-width values that make up an item header,
//! obtained from `parity-scale-codec`.

use parity_scale_codec::{Decode, Encode};
use vstd::prelude::*;

verus! {

/// The four bytes of `x`, least significant first.
pub open spec fn u32_le_bytes(x: u32) -> Seq<u8> {
    seq![
        (x & 0xff) as u8,
        ((x >> 8u32) & 0xff) as u8,
        ((x >> 16u32) & 0xff) as u8,
        ((x >> 24u32) & 0xff) as u8,
    ]
}

/// The number whose little-endian bytes are `b0, b1, b2, b3`.
pub open spec fn le_u32_of(b0: u8, b1: u8, b2: u8, b3: u8) -> u32 {
    (b0 as u32) | ((b1 as u32) << 8u32) | ((b2 as u32) << 16u32) | ((b3 as u32) << 24u32)
}

/// The number held little-endian in the first four bytes of `s`.
pub open spec fn le_u32(s: Seq<u8>) -> u32 {
    le_u32_of(s[0], s[1], s[2], s[3])
}

/// The single byte that encodes a boolean.
pub open spec fn bool_byte(b: bool) -> u8 {
    if b { 1u8 } else { 0u8 }
}

/// Reading back the bytes of a number gives the number.
pub proof fn lemma_le_u32_roundtrip(x: u32)
    ensures
        le_u32(u32_le_bytes(x)) == x,
{
    let b0 = (x & 0xff) as u8;
    let b1 = ((x >> 8u32) & 0xff) as u8;
    let b2 = ((x >> 16u32) & 0xff) as u8;
    let b3 = ((x >> 24u32) & 0xff) as u8;
    assert(le_u32_of(b0, b1, b2, b3) == x) by (bit_vector)
        requires
            b0 == (x & 0xff) as u8,
            b1 == ((x >> 8u32) & 0xff) as u8,
            b2 == ((x >> 16u32) & 0xff) as u8,
            b3 == ((x >> 24u32) & 0xff) as u8,
    ;
}

/// `<u32 as Encode>::encode`: SCALE writes fixed-width integers as their
/// little-endian bytes, so the result is the four bytes of `x`, least significant first.
#[verifier::external_body]
pub(crate) fn encode_u32(x: u32) -> (bytes: Vec<u8>)
    ensures
        bytes@ == u32_le_bytes(x),
{
    x.encode()
}

/// `<bool as Encode>::encode`: one byte, `1` for `true` and `0` for `false`.
#[verifier::external_body]
pub(crate) fn encode_bool(b: bool) -> (bytes: Vec<u8>)
    ensures
        bytes@ == seq![bool_byte(b)],
{
    b.encode()
}

/// `<u32 as Decode>::decode` on a byte slice: it fails when fewer than four bytes
/// are left, and otherwise reads the first four bytes as a little-endian number.
#[verifier::external_body]
pub(crate) fn decode_u32(input: &[u8]) -> (r: Option<u32>)
    ensures
        r is Some <==> input@.len() >= 4,
        r matches Some(v) ==> v == le_u32(input@),
{
    let mut rest = input;
    u32::decode(&mut rest).ok()
}

/// `<bool as Decode>::decode` on a byte slice: it reads one byte and accepts only
/// `0` (false) and `1` (true); an empty input or any other byte is an error.
#[verifier::external_body]
pub(crate) fn decode_bool(input: &[u8]) -> (r: Option<bool>)
    ensures
        r is Some <==> (input@.len() >= 1 && input@[0] <= 1),
        r matches Some(b) ==> b == (input@[0] == 1),
{
    let mut rest = input;
    bool::decode(&mut rest).ok()
}

} // verus!

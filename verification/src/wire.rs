//! The pieces of the wire format: little-endian integers, identities and
//! length-prefixed text.

use crate::identity::Identity;
use vstd::prelude::*;
use vstd::slice::slice_subrange;
use vstd::utf8::{decode_utf8, valid_utf8};

verus! {

/// The value of four bytes read as a little-endian unsigned integer.
pub open spec fn le_u32(bytes: Seq<u8>) -> int
    recommends
        bytes.len() == 4,
{
    bytes[0] + bytes[1] * 0x100 + bytes[2] * 0x1_0000 + bytes[3] * 0x100_0000
}

/// The value of eight bytes read as a little-endian unsigned integer.
pub open spec fn le_u64(bytes: Seq<u8>) -> int
    recommends
        bytes.len() == 8,
{
    le_u32(bytes.subrange(0, 4)) + le_u32(bytes.subrange(4, 8)) * 0x1_0000_0000
}

/// The value of eight bytes read as a little-endian integer in two's
/// complement.
pub open spec fn le_i64(bytes: Seq<u8>) -> int
    recommends
        bytes.len() == 8,
{
    if le_u64(bytes) >= 0x8000_0000_0000_0000 {
        le_u64(bytes) - 0x1_0000_0000_0000_0000
    } else {
        le_u64(bytes)
    }
}

/// The identity that holds the given 32 bytes.
pub open spec fn identity_of(bytes: Seq<u8>) -> Identity
    recommends
        bytes.len() == 32,
{
    choose|id: Identity| id.bytes@ == bytes
}

/// The text that a frame holds: a little-endian length in four bytes, then
/// that many bytes, which encode the text in UTF-8. `None` where the bytes are
/// no such frame.
pub open spec fn framed_text(bytes: Seq<u8>) -> Option<Seq<char>> {
    if bytes.len() >= 4 && le_u32(bytes.subrange(0, 4)) == bytes.len() - 4 && valid_utf8(
        bytes.skip(4),
    ) {
        Some(decode_utf8(bytes.skip(4)))
    } else {
        None
    }
}

/// Reads the four bytes from `start` on as a little-endian unsigned integer.
pub fn read_u32(bytes: &[u8], start: usize) -> (value: u32)
    requires
        start + 4 <= bytes.len(),
    ensures
        value == le_u32(bytes@.subrange(start as int, start + 4)),
{
    let b0: u32 = bytes[start] as u32;
    let b1: u32 = bytes[start + 1] as u32;
    let b2: u32 = bytes[start + 2] as u32;
    let b3: u32 = bytes[start + 3] as u32;
    b0 + b1 * 0x100 + b2 * 0x1_0000 + b3 * 0x100_0000
}

/// Reads the eight bytes from `start` on as a little-endian unsigned integer.
pub fn read_u64(bytes: &[u8], start: usize) -> (value: u64)
    requires
        start + 8 <= bytes.len(),
    ensures
        value == le_u64(bytes@.subrange(start as int, start + 8)),
{
    let low: u64 = read_u32(bytes, start) as u64;
    let high: u64 = read_u32(bytes, start + 4) as u64;
    proof {
        let word = bytes@.subrange(start as int, start + 8);
        assert(word.subrange(0, 4) =~= bytes@.subrange(start as int, start + 4));
        assert(word.subrange(4, 8) =~= bytes@.subrange(start + 4, start + 8));
    }
    low + high * 0x1_0000_0000
}

/// Reads the eight bytes from `start` on as a little-endian integer in two's
/// complement.
pub fn read_i64(bytes: &[u8], start: usize) -> (value: i64)
    requires
        start + 8 <= bytes.len(),
    ensures
        value == le_i64(bytes@.subrange(start as int, start + 8)),
{
    let raw: u64 = read_u64(bytes, start);
    if raw >= 0x8000_0000_0000_0000 {
        let above: u64 = raw - 0x8000_0000_0000_0000;
        (above as i64) + i64::MIN
    } else {
        raw as i64
    }
}

/// Reads the 32 bytes from `start` on as an identity.
pub fn read_identity(bytes: &[u8], start: usize) -> (id: Identity)
    requires
        start + 32 <= bytes.len(),
    ensures
        id.bytes@ == bytes@.subrange(start as int, start + 32),
        id == identity_of(bytes@.subrange(start as int, start + 32)),
{
    let mut held: [u8; 32] = [0u8; 32];
    let mut i: usize = 0;
    while i < 32
        invariant
            i <= 32,
            start + 32 <= bytes.len(),
            forall|j: int| 0 <= j < i ==> held[j] == bytes@[start + j],
        decreases 32 - i,
    {
        held[i] = bytes[start + i];
        i += 1;
    }
    let id = Identity { bytes: held };
    proof {
        let wanted = bytes@.subrange(start as int, start + 32);
        assert(id.bytes@ =~= wanted);
        let chosen = identity_of(wanted);
        assert(chosen.bytes@ == wanted);
        assert(chosen.bytes =~= id.bytes);
    }
    id
}

/// Decodes a frame of text with `borsh::from_slice::<String>`. Not proved:
/// that the call yields a string exactly where the bytes are a four-byte
/// little-endian length followed by that many bytes of valid UTF-8 and nothing
/// more, and that the string is then the text that those bytes encode.
#[verifier::external_body]
pub(crate) fn decode_text(bytes: &[u8]) -> (text: Option<String>)
    ensures
        match text {
            Some(s) => framed_text(bytes@) == Some(s@),
            None => framed_text(bytes@).is_none(),
        },
{
    borsh::from_slice::<String>(bytes).ok()
}

/// Reads the frame of text that fills the bytes from `start` up to `end`.
pub fn read_text(bytes: &[u8], start: usize, end: usize) -> (text: Option<String>)
    requires
        start <= end <= bytes.len(),
    ensures
        match text {
            Some(s) => framed_text(bytes@.subrange(start as int, end as int)) == Some(s@),
            None => framed_text(bytes@.subrange(start as int, end as int)).is_none(),
        },
{
    decode_text(slice_subrange(bytes, start, end))
}

} // verus!

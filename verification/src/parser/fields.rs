//! Fixed-width little-endian fields at the front of a byte span.
//!
//! Every multi-byte number of the format is little-endian and unaligned. The
//! spec functions here say what number a span holds at an offset; the readers
//! take one field off the front of a span and hand back what follows it.

use vstd::prelude::*;
use vstd::slice::slice_subrange;
use zerocopy::byteorder::{LittleEndian, I16, U16, U32};
use zerocopy::FromBytes;

verus! {

/// The unsigned 16-bit number stored little-endian at `s[at]`, `s[at + 1]`.
pub open spec fn u16_at(s: Seq<u8>, at: int) -> u16
    recommends
        0 <= at,
        at + 2 <= s.len(),
{
    (s[at] as int + 0x100 * (s[at + 1] as int)) as u16
}

/// The signed 16-bit number stored little-endian, in two's complement, at
/// `s[at]`, `s[at + 1]`.
pub open spec fn i16_at(s: Seq<u8>, at: int) -> i16
    recommends
        0 <= at,
        at + 2 <= s.len(),
{
    let raw = s[at] as int + 0x100 * (s[at + 1] as int);
    if raw < 0x8000 {
        raw as i16
    } else {
        (raw - 0x1_0000) as i16
    }
}

/// The unsigned 32-bit number stored little-endian at `s[at]` to `s[at + 3]`.
pub open spec fn u32_at(s: Seq<u8>, at: int) -> u32
    recommends
        0 <= at,
        at + 4 <= s.len(),
{
    (s[at] as int + 0x100 * (s[at + 1] as int) + 0x1_0000 * (s[at + 2] as int) + 0x100_0000 * (s[at
        + 3] as int)) as u32
}

/// Reads a little-endian `u16` off the front of `source`.
///
/// Trusted: calls `zerocopy`'s `U16::<LittleEndian>::read_from_prefix` and
/// `U16::get`. The contract claims that the read fails exactly when fewer than
/// two bytes are there, and that otherwise it yields the number that the first
/// two bytes hold in little-endian order together with the bytes behind them.
#[verifier::external_body]
pub(crate) fn take_u16(source: &[u8]) -> (r: Option<(u16, &[u8])>)
    ensures
        r is None <==> source@.len() < 2,
        r matches Some(p) ==> p.0 == u16_at(source@, 0) && p.1@ == source@.skip(2),
{
    match U16::<LittleEndian>::read_from_prefix(source) {
        Ok((v, rest)) => Some((v.get(), rest)),
        Err(_) => None,
    }
}

/// Reads a little-endian `i16` off the front of `source`.
///
/// Trusted: calls `zerocopy`'s `I16::<LittleEndian>::read_from_prefix` and
/// `I16::get`. The contract claims that the read fails exactly when fewer than
/// two bytes are there, and that otherwise it yields the two's-complement number
/// that the first two bytes hold in little-endian order together with the bytes
/// behind them.
#[verifier::external_body]
pub(crate) fn take_i16(source: &[u8]) -> (r: Option<(i16, &[u8])>)
    ensures
        r is None <==> source@.len() < 2,
        r matches Some(p) ==> p.0 == i16_at(source@, 0) && p.1@ == source@.skip(2),
{
    match I16::<LittleEndian>::read_from_prefix(source) {
        Ok((v, rest)) => Some((v.get(), rest)),
        Err(_) => None,
    }
}

/// Reads a little-endian `u32` off the front of `source`.
///
/// Trusted: calls `zerocopy`'s `U32::<LittleEndian>::read_from_prefix` and
/// `U32::get`. The contract claims that the read fails exactly when fewer than
/// four bytes are there, and that otherwise it yields the number that the first
/// four bytes hold in little-endian order together with the bytes behind them.
#[verifier::external_body]
pub(crate) fn take_u32(source: &[u8]) -> (r: Option<(u32, &[u8])>)
    ensures
        r is None <==> source@.len() < 4,
        r matches Some(p) ==> p.0 == u32_at(source@, 0) && p.1@ == source@.skip(4),
{
    match U32::<LittleEndian>::read_from_prefix(source) {
        Ok((v, rest)) => Some((v.get(), rest)),
        Err(_) => None,
    }
}

/// Takes one byte off the front of `source`.
pub(crate) fn take_u8(source: &[u8]) -> (r: Option<(u8, &[u8])>)
    ensures
        r is None <==> source@.len() < 1,
        r matches Some(p) ==> p.0 == source@[0] && p.1@ == source@.skip(1),
{
    if source.len() < 1 {
        None
    } else {
        Some((source[0], slice_subrange(source, 1, source.len())))
    }
}

/// Splits `source` after its first `n` bytes.
pub(crate) fn take_bytes(source: &[u8], n: usize) -> (r: Option<(&[u8], &[u8])>)
    ensures
        r is None <==> source@.len() < n,
        r matches Some(p) ==> p.0@ == source@.take(n as int) && p.1@ == source@.skip(n as int),
{
    if source.len() < n {
        None
    } else {
        Some((slice_subrange(source, 0, n), slice_subrange(source, n, source.len())))
    }
}

} // verus!

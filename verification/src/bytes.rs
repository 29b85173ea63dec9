//! Little-endian readers over an in-memory byte buffer.
//!
//! The whole file is held as a `Vec<u8>`; every multi-byte quantity the
//! format uses (16-, 32- and 64-bit words, all little-endian) is read through
//! the functions here, and each reader is specified against a spec-level
//! decoding of the same bytes.

use vstd::prelude::*;

verus! {

/// The 16-bit little-endian word starting at byte `i` of `b`.
pub open spec fn le16(b: Seq<u8>, i: int) -> u16 {
    (b[i] as u16) | ((b[i + 1] as u16) << 8)
}

/// The 32-bit little-endian word starting at byte `i` of `b`.
pub open spec fn le32(b: Seq<u8>, i: int) -> u32 {
    (b[i] as u32) | ((b[i + 1] as u32) << 8) | ((b[i + 2] as u32) << 16) | ((b[i + 3] as u32)
        << 24)
}

/// The 64-bit little-endian word starting at byte `i` of `b`.
pub open spec fn le64(b: Seq<u8>, i: int) -> u64 {
    (b[i] as u64) | ((b[i + 1] as u64) << 8) | ((b[i + 2] as u64) << 16) | ((b[i + 3] as u64)
        << 24) | ((b[i + 4] as u64) << 32) | ((b[i + 5] as u64) << 40) | ((b[i + 6] as u64) << 48)
        | ((b[i + 7] as u64) << 56)
}

/// The sequence of `n` 16-bit little-endian words starting at byte `off`.
pub open spec fn le16_seq(b: Seq<u8>, off: int, n: int) -> Seq<u16> {
    Seq::new(n as nat, |k: int| le16(b, off + 2 * k))
}

/// The sequence of `n` 64-bit little-endian words starting at byte `off`.
pub open spec fn le64_seq(b: Seq<u8>, off: int, n: int) -> Seq<u64> {
    Seq::new(n as nat, |k: int| le64(b, off + 8 * k))
}

/// Reads the 16-bit little-endian word at `i`.
pub fn read_u16(b: &Vec<u8>, i: usize) -> (r: u16)
    requires
        i + 2 <= b@.len(),
    ensures
        r == le16(b@, i as int),
{
    let _n: usize = b.len();
    (b[i] as u16) | ((b[i + 1] as u16) << 8)
}

/// Reads the 32-bit little-endian word at `i`.
pub fn read_u32(b: &Vec<u8>, i: usize) -> (r: u32)
    requires
        i + 4 <= b@.len(),
    ensures
        r == le32(b@, i as int),
{
    let _n: usize = b.len();
    (b[i] as u32) | ((b[i + 1] as u32) << 8) | ((b[i + 2] as u32) << 16) | ((b[i + 3] as u32)
        << 24)
}

/// Reads the 64-bit little-endian word at `i`.
pub fn read_u64(b: &Vec<u8>, i: usize) -> (r: u64)
    requires
        i + 8 <= b@.len(),
    ensures
        r == le64(b@, i as int),
{
    let _n: usize = b.len();
    (b[i] as u64) | ((b[i + 1] as u64) << 8) | ((b[i + 2] as u64) << 16) | ((b[i + 3] as u64)
        << 24) | ((b[i + 4] as u64) << 32) | ((b[i + 5] as u64) << 40) | ((b[i + 6] as u64) << 48)
        | ((b[i + 7] as u64) << 56)
}

} // verus!

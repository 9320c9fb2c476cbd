//! Numbers as they lie in files: low byte first.

use vstd::prelude::*;

verus! {

/// The 16-bit number stored at `at`, low byte first.
pub open spec fn le16(d: Seq<u8>, at: int) -> u16 {
    (d[at] as u16) | (d[at + 1] as u16) << 8
}

/// The 32-bit number stored at `at`, low byte first.
pub open spec fn le32(d: Seq<u8>, at: int) -> u32 {
    (d[at] as u32) | (d[at + 1] as u32) << 8 | (d[at + 2] as u32) << 16 | (d[at + 3] as u32) << 24
}

/// The 64-bit number stored at `at`, low byte first.
pub open spec fn le64(d: Seq<u8>, at: int) -> u64 {
    (d[at] as u64) | (d[at + 1] as u64) << 8 | (d[at + 2] as u64) << 16 | (d[at + 3] as u64) << 24
        | (d[at + 4] as u64) << 32 | (d[at + 5] as u64) << 40 | (d[at + 6] as u64) << 48 | (d[at
        + 7] as u64) << 56
}

/// Reads the 16-bit number stored at `at`, low byte first.
pub fn read_u16(d: &[u8], at: usize) -> (v: u16)
    requires
        at + 2 <= d@.len(),
    ensures
        v == le16(d@, at as int),
{
    (d[at] as u16) | (d[at + 1] as u16) << 8
}

/// Reads the 32-bit number stored at `at`, low byte first.
pub fn read_u32(d: &[u8], at: usize) -> (v: u32)
    requires
        at + 4 <= d@.len(),
    ensures
        v == le32(d@, at as int),
{
    (d[at] as u32) | (d[at + 1] as u32) << 8 | (d[at + 2] as u32) << 16 | (d[at + 3] as u32) << 24
}

/// Reads the 64-bit number stored at `at`, low byte first.
pub fn read_u64(d: &[u8], at: usize) -> (v: u64)
    requires
        at + 8 <= d@.len(),
    ensures
        v == le64(d@, at as int),
{
    (d[at] as u64) | (d[at + 1] as u64) << 8 | (d[at + 2] as u64) << 16 | (d[at + 3] as u64) << 24
        | (d[at + 4] as u64) << 32 | (d[at + 5] as u64) << 40 | (d[at + 6] as u64) << 48 | (d[at
        + 7] as u64) << 56
}

} // verus!

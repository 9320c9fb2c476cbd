//! Processor state as numbers: the exception level, and the cache lines
//! that a range of memory touches.

use vstd::prelude::*;

verus! {

/// Bytes in a line of the data cache.
pub const CACHE_LINE: usize = 64;

/// The exception level in a value of the `CurrentEL` register: its bits 2
/// and 3.
pub open spec fn el_of(reg: u64) -> u8 {
    ((reg >> 2) & 0x3) as u8
}

/// The exception level, 0 to 3, in a value of the `CurrentEL` register.
pub fn current_el(reg: u64) -> (el: u8)
    ensures
        el == el_of(reg),
        el <= 3,
{
    let el = (reg >> 2) & 0x3;
    assert(el <= 3) by (bit_vector)
        requires
            el == (reg >> 2) & 0x3,
    ;
    el as u8
}

/// The cache lines that cleaning `len` bytes from `start` goes through.
#[derive(Debug, Clone, Copy, PartialEq, Eq, Structural)]
pub struct CacheLines {
    /// Address of the first line.
    pub first: usize,
    /// Number of lines, each `CACHE_LINE` bytes after the one before.
    pub count: usize,
}

/// The address of the cache line that holds `addr`.
pub open spec fn line_of(addr: usize) -> int {
    addr - addr % CACHE_LINE
}

/// Cleaning goes line by line from the line that holds `start` for as long
/// as the line starts below `start + len`.
pub open spec fn lines_of(start: usize, len: usize) -> CacheLines {
    CacheLines {
        first: line_of(start) as usize,
        count: ((start + len - line_of(start) + CACHE_LINE - 1) / CACHE_LINE as int) as usize,
    }
}

/// The cache lines that cleaning `len` bytes from `start` goes through.
pub fn clean_dcache_range(start: usize, len: usize) -> (lines: CacheLines)
    requires
        start + len <= usize::MAX,
    ensures
        lines == lines_of(start, len),
        lines.first <= start < lines.first + CACHE_LINE,
        lines.first % CACHE_LINE == 0,
        (lines.count - 1) * CACHE_LINE < start + len - lines.first <= lines.count * CACHE_LINE,
{
    let first = start - start % CACHE_LINE;
    let span = start + len - first;
    let count = span / CACHE_LINE + if span % CACHE_LINE == 0 { 0 } else { 1 };
    CacheLines { first, count }
}

} // verus!

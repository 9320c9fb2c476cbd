//! Loading a program from an ELF image.
//!
//! The image is read into a plan: which bytes of the file go where in
//! memory, which memory is cleared, and where execution starts. Carrying
//! the plan out is the caller's part.

use vstd::prelude::*;
use crate::bytes::{le16, le32, le64, read_u16, read_u32, read_u64};

verus! {

/// Bytes in the file header.
pub const ELF_HEADER_SIZE: usize = 64;

/// Bytes in a program header.
pub const PROGRAM_HEADER_SIZE: usize = 56;

/// The machine number of AArch64.
pub const MACHINE_AARCH64: u16 = 183;

/// The type of a segment that is to be loaded.
pub const PT_LOAD: u32 = 1;

/// Why an image cannot be loaded.
#[derive(Debug, Clone, Copy, PartialEq, Eq, Structural)]
pub enum LoadError {
    /// The file is shorter than a file header.
    TooSmall,
    /// The file does not start with the ELF magic number.
    BadMagic,
    /// The program is for another machine, whose number this is.
    WrongArchitecture(u16),
    /// A program header lies past the end of the file, or a segment to be
    /// loaded does: its bytes in the file, or its place in memory past the
    /// end of the address space.
    Truncated,
}

/// One thing to do to memory.
#[derive(Debug, Clone, Copy, PartialEq, Eq, Structural)]
pub enum LoadStep {
    /// Copy `len` bytes of the file, from offset `from`, to address `to`.
    Copy { from: u64, to: u64, len: u64 },
    /// Clear `len` bytes at address `at`.
    Zero { at: u64, len: u64 },
    /// Make `len` bytes at address `at` visible to instruction fetch.
    Clean { at: u64, len: u64 },
}

/// What to do to load a program.
#[derive(Debug, Clone, PartialEq, Eq)]
pub struct LoadPlan {
    /// Where execution starts.
    pub entry: u64,
    /// What to do to memory, in order. The instruction cache is flushed
    /// after the last step.
    pub steps: Vec<LoadStep>,
}

/// What a program header says of a segment.
pub struct Segment {
    pub kind: u32,
    /// Where in the file the segment's bytes start.
    pub offset: u64,
    /// Where in memory the segment goes.
    pub vaddr: u64,
    /// How many bytes of it the file holds.
    pub filesz: u64,
    /// How many bytes it takes in memory.
    pub memsz: u64,
}

/// Whether a file starts with the ELF magic number.
pub open spec fn has_magic(d: Seq<u8>) -> bool {
    d[0] == 0x7f && d[1] == 0x45 && d[2] == 0x4c && d[3] == 0x46
}

/// The number of the machine that the program is for.
pub open spec fn machine(d: Seq<u8>) -> u16 {
    le16(d, 18)
}

/// The address at which the program starts.
pub open spec fn entry(d: Seq<u8>) -> u64 {
    le64(d, 24)
}

/// Where in the file the program headers start.
pub open spec fn phoff(d: Seq<u8>) -> u64 {
    le64(d, 32)
}

/// Bytes from one program header to the next.
pub open spec fn phentsize(d: Seq<u8>) -> u16 {
    le16(d, 54)
}

/// The number of program headers.
pub open spec fn phnum(d: Seq<u8>) -> u16 {
    le16(d, 56)
}

/// Where in the file program header `i` starts.
pub open spec fn header_start(d: Seq<u8>, i: int) -> int {
    phoff(d) + i * phentsize(d)
}

/// The segment that the program header at `at` describes.
pub open spec fn segment_at(d: Seq<u8>, at: int) -> Segment {
    Segment {
        kind: le32(d, at),
        offset: le64(d, at + 8),
        vaddr: le64(d, at + 16),
        filesz: le64(d, at + 32),
        memsz: le64(d, at + 40),
    }
}

/// Whether a segment takes part in loading: it is of the type to load and
/// takes room in memory.
pub open spec fn loaded(s: Segment) -> bool {
    s.kind == PT_LOAD && s.memsz > 0
}

/// Whether a segment that takes part in loading can be loaded from a file
/// of `len` bytes: its bytes lie in the file and its place in memory lies
/// in the address space.
pub open spec fn fits(s: Segment, len: int) -> bool {
    &&& s.offset + s.filesz <= len
    &&& s.vaddr + s.filesz <= u64::MAX
    &&& s.vaddr + s.memsz <= u64::MAX
}

/// Whether program header `i` lies in the file and its segment, if it takes
/// part in loading, can be loaded.
pub open spec fn header_ok(d: Seq<u8>, i: int) -> bool {
    &&& header_start(d, i) + PROGRAM_HEADER_SIZE <= d.len()
    &&& loaded(segment_at(d, header_start(d, i))) ==> fits(
        segment_at(d, header_start(d, i)),
        d.len() as int,
    )
}

/// What to do to memory for one segment: copy what the file holds of it,
/// clear the rest of its room, and make the whole visible to instruction
/// fetch. Nothing for a segment that takes no part in loading.
pub open spec fn steps_for(s: Segment) -> Seq<LoadStep> {
    if !loaded(s) {
        Seq::empty()
    } else {
        let copy = if s.filesz > 0 {
            seq![LoadStep::Copy { from: s.offset, to: s.vaddr, len: s.filesz }]
        } else {
            Seq::empty()
        };
        let zero = if s.memsz > s.filesz {
            seq![
                LoadStep::Zero {
                    at: (s.vaddr + s.filesz) as u64,
                    len: (s.memsz - s.filesz) as u64,
                },
            ]
        } else {
            Seq::empty()
        };
        copy + zero + seq![LoadStep::Clean { at: s.vaddr, len: s.memsz }]
    }
}

/// What to do to memory for the first `n` program headers, in order.
pub open spec fn steps_upto(d: Seq<u8>, n: int) -> Seq<LoadStep>
    decreases n,
{
    if n <= 0 {
        Seq::empty()
    } else {
        steps_upto(d, n - 1) + steps_for(segment_at(d, header_start(d, n - 1)))
    }
}

/// Why the image cannot be loaded, if it cannot.
pub open spec fn load_error(d: Seq<u8>) -> Option<LoadError> {
    if d.len() < ELF_HEADER_SIZE {
        Some(LoadError::TooSmall)
    } else if !has_magic(d) {
        Some(LoadError::BadMagic)
    } else if machine(d) != MACHINE_AARCH64 {
        Some(LoadError::WrongArchitecture(machine(d)))
    } else if exists|i: int| 0 <= i < phnum(d) && !header_ok(d, i) {
        Some(LoadError::Truncated)
    } else {
        None
    }
}

/// Reads an ELF image into a plan for loading it.
///
/// The plan holds, for each segment to be loaded and in the order of the
/// program headers, the steps of `steps_for`. An image is refused with the
/// first reason of `load_error` that applies.
pub fn load_elf(data: &[u8]) -> (r: Result<LoadPlan, LoadError>)
    ensures
        match load_error(data@) {
            Some(e) => r == Err::<LoadPlan, LoadError>(e),
            None => r matches Ok(plan) && plan.entry == entry(data@) && plan.steps@ == steps_upto(
                data@,
                phnum(data@) as int,
            ),
        },
{
    let len = data.len();
    if len < ELF_HEADER_SIZE {
        return Err(LoadError::TooSmall);
    }
    if !(data[0] == 0x7f && data[1] == 0x45 && data[2] == 0x4c && data[3] == 0x46) {
        return Err(LoadError::BadMagic);
    }
    let machine = read_u16(data, 18);
    if machine != MACHINE_AARCH64 {
        return Err(LoadError::WrongArchitecture(machine));
    }
    let entry = read_u64(data, 24);
    let phoff = read_u64(data, 32);
    let phentsize = read_u16(data, 54);
    let phnum = read_u16(data, 56);
    let mut steps: Vec<LoadStep> = Vec::new();
    let mut i: u16 = 0;
    while i < phnum
        invariant
            i <= phnum,
            len == data@.len(),
            len >= ELF_HEADER_SIZE,
            has_magic(data@),
            self::machine(data@) == MACHINE_AARCH64,
            entry == self::entry(data@),
            phoff == self::phoff(data@),
            phentsize == self::phentsize(data@),
            phnum == self::phnum(data@),
            forall|k: int| 0 <= k < i ==> header_ok(data@, k),
            steps@ == steps_upto(data@, i as int),
        decreases phnum - i,
    {
        assert(i * phentsize <= 0xffff * 0xffff) by (nonlinear_arith)
            requires
                i <= 0xffff,
                phentsize <= 0xffff,
        ;
        let skip = (i as u64) * (phentsize as u64);
        if phoff > u64::MAX - skip {
            assert(!header_ok(data@, i as int));
            return Err(LoadError::Truncated);
        }
        let at64 = phoff + skip;
        if at64 > len as u64 || len as u64 - at64 < PROGRAM_HEADER_SIZE as u64 {
            assert(!header_ok(data@, i as int));
            return Err(LoadError::Truncated);
        }
        let at = at64 as usize;
        let kind = read_u32(data, at);
        let offset = read_u64(data, at + 8);
        let vaddr = read_u64(data, at + 16);
        let filesz = read_u64(data, at + 32);
        let memsz = read_u64(data, at + 40);
        let ghost seg = segment_at(data@, at as int);
        if kind == PT_LOAD && memsz > 0 {
            if offset > len as u64 || filesz > len as u64 - offset || filesz > u64::MAX - vaddr
                || memsz > u64::MAX - vaddr {
                assert(!header_ok(data@, i as int));
                return Err(LoadError::Truncated);
            }
            if filesz > 0 {
                steps.push(LoadStep::Copy { from: offset, to: vaddr, len: filesz });
            }
            if memsz > filesz {
                steps.push(LoadStep::Zero { at: vaddr + filesz, len: memsz - filesz });
            }
            steps.push(LoadStep::Clean { at: vaddr, len: memsz });
        }
        assert(steps@ =~= steps_upto(data@, i as int) + steps_for(seg));
        assert(header_ok(data@, i as int));
        i += 1;
    }
    Ok(LoadPlan { entry, steps })
}

} // verus!

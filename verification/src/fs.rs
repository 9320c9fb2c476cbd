//! A disk of 512-byte sectors read as a stream of bytes.
//!
//! A file system reads its volume through a cursor: it seeks to a byte
//! offset and reads a run of bytes from there. The disk transfers whole
//! sectors only. This module works out which sector a read needs next and
//! which part of it, and copies that part; fetching the sector from the
//! device is the caller's part.

use vstd::prelude::*;

verus! {

/// Bytes in a sector.
pub const SECTOR_SIZE: u64 = 512;

/// Bytes that a file is read by.
pub const CHUNK_SIZE: usize = 512;

/// A position to seek to.
#[derive(Debug, Clone, Copy, PartialEq, Eq, Structural)]
pub enum SeekFrom {
    /// So many bytes from the start.
    Start(u64),
    /// So many bytes from the current position, forward or back.
    Current(i64),
    /// So many bytes from the end. The size of the disk is not known, so
    /// this cannot be done.
    End(i64),
}

/// A device that cannot be read at all.
#[derive(Debug, Clone, Copy, PartialEq, Eq, Structural)]
pub struct BlockDeviceWrapper;

impl BlockDeviceWrapper {
    /// Fails, and leaves the buffer as it was.
    pub fn read(&mut self, buf: &mut [u8]) -> (r: Result<usize, ()>)
        ensures
            r == Err::<usize, ()>(()),
            final(buf)@ == old(buf)@,
    {
        Err(())
    }
}

/// The part of a sector that a read takes.
#[derive(Debug, Clone, Copy, PartialEq, Eq, Structural)]
pub struct SectorRead {
    /// The sector's number.
    pub sector: u64,
    /// Where in the sector the part starts.
    pub start: usize,
    /// The part's length in bytes.
    pub len: usize,
}

/// A cursor over the bytes of a disk.
#[derive(Debug, Clone, Copy, PartialEq, Eq, Structural)]
pub struct SeekableBlockDevice {
    offset: u64,
}

/// The part of the sector under `position` that a read of `wanted` bytes
/// takes: from the position to the end of the sector, or as much of that
/// as is wanted.
pub open spec fn sector_read(position: u64, wanted: int) -> SectorRead {
    let start = (position % SECTOR_SIZE) as usize;
    let rest = SECTOR_SIZE - start;
    SectorRead {
        sector: position / SECTOR_SIZE,
        start,
        len: if wanted < rest {
            wanted as usize
        } else {
            rest as usize
        },
    }
}

/// Where in its sector the byte at `position` lies.
pub open spec fn sector_offset(position: u64) -> int {
    (position % SECTOR_SIZE) as int
}

/// The position reached from `position` by moving `delta` bytes, forward
/// or back, the positions taken as a ring of 2^64.
pub open spec fn moved(position: u64, delta: i64) -> u64 {
    let target = position + delta;
    if target < 0 {
        (target + 0x1_0000_0000_0000_0000) as u64
    } else if target > u64::MAX {
        (target - 0x1_0000_0000_0000_0000) as u64
    } else {
        target as u64
    }
}

/// A buffer after `part` has been copied into it from index `at` on.
pub open spec fn overwritten(buf: Seq<u8>, at: int, part: Seq<u8>) -> Seq<u8> {
    Seq::new(
        buf.len(),
        |i: int|
            if at <= i < at + part.len() {
                part[i - at]
            } else {
                buf[i]
            },
    )
}

impl SeekableBlockDevice {
    /// The position of the cursor, in bytes from the start of the disk.
    pub closed spec fn position(&self) -> u64 {
        self.offset
    }

    /// A cursor at the start of the disk.
    pub fn new() -> (dev: SeekableBlockDevice)
        ensures
            dev.position() == 0,
    {
        SeekableBlockDevice { offset: 0 }
    }

    /// The position of the cursor.
    pub fn offset(&self) -> (p: u64)
        ensures
            p == self.position(),
    {
        self.offset
    }

    /// The sector that a read of `wanted` more bytes needs next, and the
    /// part of it that the read takes.
    pub fn next_sector(&self, wanted: usize) -> (r: SectorRead)
        ensures
            r == sector_read(self.position(), wanted as int),
    {
        let start = (self.offset % SECTOR_SIZE) as usize;
        let rest = SECTOR_SIZE as usize - start;
        SectorRead {
            sector: self.offset / SECTOR_SIZE,
            start,
            len: if wanted < rest {
                wanted
            } else {
                rest
            },
        }
    }

    /// Copies into `buf`, from index `filled` on, the part of the sector
    /// under the cursor that the rest of the buffer has room for, and moves
    /// the cursor past it. `sector` holds that sector's bytes. Returns the
    /// number of bytes copied.
    pub fn read(&mut self, sector: &[u8; 512], buf: &mut [u8], filled: usize) -> (n: usize)
        requires
            filled <= old(buf)@.len(),
            old(self).position() + (old(buf)@.len() - filled) <= u64::MAX,
        ensures
            n == sector_read(old(self).position(), old(buf)@.len() - filled).len,
            final(self).position() == old(self).position() + n,
            final(buf)@ == overwritten(
                old(buf)@,
                filled as int,
                sector@.subrange(
                    sector_offset(old(self).position()),
                    sector_offset(old(self).position()) + n,
                ),
            ),
    {
        let total = buf.len();
        let part = self.next_sector(total - filled);
        let mut i: usize = 0;
        while i < part.len
            invariant
                i <= part.len,
                part == sector_read(self.position(), old(buf)@.len() - filled),
                part.len <= buf@.len() - filled,
                part.start + part.len <= SECTOR_SIZE,
                self.position() == old(self).position(),
                buf@.len() == old(buf)@.len() == total,
                filled <= total,
                buf@ == overwritten(
                    old(buf)@,
                    filled as int,
                    sector@.subrange(part.start as int, part.start + i),
                ),
            decreases part.len - i,
        {
            buf[filled + i] = sector[part.start + i];
            i += 1;
            assert(buf@ =~= overwritten(
                old(buf)@,
                filled as int,
                sector@.subrange(part.start as int, part.start + i),
            ));
        }
        self.offset = self.offset + part.len as u64;
        part.len
    }

    /// Moves the cursor and returns its new position. Seeking from the end
    /// fails and leaves the cursor where it was.
    pub fn seek(&mut self, pos: SeekFrom) -> (r: Result<u64, ()>)
        ensures
            match pos {
                SeekFrom::Start(off) => r == Ok::<u64, ()>(off) && final(self).position() == off,
                SeekFrom::Current(off) => r == Ok::<u64, ()>(moved(old(self).position(), off))
                    && final(self).position() == moved(old(self).position(), off),
                SeekFrom::End(_) => r is Err && final(self).position() == old(self).position(),
            },
    {
        match pos {
            SeekFrom::Start(off) => {
                self.offset = off;
            },
            SeekFrom::Current(off) => {
                self.offset = self.offset.wrapping_add_signed(off);
            },
            SeekFrom::End(_) => {
                return Err(());
            },
        }
        Ok(self.offset)
    }

    /// Fails: the disk is read-only.
    pub fn write(&mut self, buf: &[u8]) -> (r: Result<usize, ()>)
        ensures
            r == Err::<usize, ()>(()),
            final(self).position() == old(self).position(),
    {
        Err(())
    }

    /// Succeeds: nothing is ever pending.
    pub fn flush(&mut self) -> (r: Result<(), ()>)
        ensures
            r is Ok,
            final(self).position() == old(self).position(),
    {
        Ok(())
    }
}

/// What reading a file goes on to after one chunk has been asked for.
#[derive(Debug, Clone, Copy, PartialEq, Eq, Structural)]
pub enum ReadStep {
    /// Ask for the next chunk.
    Continue,
    /// The file has been read.
    Done,
}

/// The contents read so far after a chunk has been asked for: `got` is the
/// number of bytes that arrived in `chunk`, or an error.
pub open spec fn collected(so_far: Seq<u8>, chunk: Seq<u8>, got: Result<usize, ()>) -> Seq<u8> {
    match got {
        Ok(n) => if 0 < n <= chunk.len() {
            so_far + chunk.subrange(0, n as int)
        } else {
            so_far
        },
        Err(_) => so_far,
    }
}

/// Whether reading goes on after a chunk of which `got` bytes arrived:
/// an empty chunk and an error both end the file.
pub open spec fn read_goes_on(chunk: Seq<u8>, got: Result<usize, ()>) -> bool {
    got matches Ok(n) && 0 < n <= chunk.len()
}

/// Takes in one chunk of a file that is being read into `contents`.
pub fn collect_chunk(contents: &mut Vec<u8>, chunk: &[u8; 512], got: Result<usize, ()>) -> (step:
    ReadStep)
    ensures
        final(contents)@ == collected(old(contents)@, chunk@, got),
        step == if read_goes_on(chunk@, got) {
            ReadStep::Continue
        } else {
            ReadStep::Done
        },
{
    match got {
        Ok(n) => {
            if n == 0 || n > CHUNK_SIZE {
                return ReadStep::Done;
            }
            let mut i: usize = 0;
            while i < n
                invariant
                    i <= n <= CHUNK_SIZE,
                    contents@ == old(contents)@ + chunk@.subrange(0, i as int),
                decreases n - i,
            {
                contents.push(chunk[i]);
                i += 1;
                assert(contents@ =~= old(contents)@ + chunk@.subrange(0, i as int));
            }
            ReadStep::Continue
        },
        Err(_) => ReadStep::Done,
    }
}

} // verus!

//! Reading a TAR archive held in memory.
//!
//! An archive is a run of entries, each a header block of 512 bytes
//! followed by the entry's data, padded to whole blocks. A header of zero
//! bytes, or the end of the archive, ends the run.

use vstd::prelude::*;
use vstd::slice::slice_subrange;
use crate::text::{decode_or, field_text, str_eq, text_or, trim, trimmed, until_nul};

verus! {

/// Bytes in a block.
pub const BLOCK_SIZE: usize = 512;

/// Where in a header the name field ends.
pub const NAME_END: usize = 100;

/// Where in a header the size field starts.
pub const SIZE_START: usize = 124;

/// Where in a header the size field ends.
pub const SIZE_END: usize = 136;

/// Where in a header the type flag lies.
pub const TYPE_FLAG: usize = 156;

/// The type flag of a directory, the digit `5`.
pub const TYPE_DIRECTORY: u8 = 0x35;

/// An entry of an archive.
#[derive(Debug, Clone)]
pub struct FileEntry<'a> {
    pub name: String,
    pub size: usize,
    pub data: &'a [u8],
    pub is_dir: bool,
}

/// What an entry holds, as mathematical values.
pub struct EntryView {
    pub name: Seq<char>,
    pub size: nat,
    pub data: Seq<u8>,
    pub is_dir: bool,
}

impl<'a> View for FileEntry<'a> {
    type V = EntryView;

    open spec fn view(&self) -> EntryView {
        EntryView {
            name: self.name@,
            size: self.size as nat,
            data: self.data@,
            is_dir: self.is_dir,
        }
    }
}

/// Whether a byte is an octal digit.
pub open spec fn is_octal(b: u8) -> bool {
    0x30 <= b && b <= 0x37
}

/// `s` without a plus sign at its start.
pub open spec fn unsigned(s: Seq<u8>) -> Seq<u8> {
    if s.len() > 0 && s[0] == 0x2b {
        s.drop_first()
    } else {
        s
    }
}

/// The number that a run of octal digits writes.
pub open spec fn octal_value(digits: Seq<u8>) -> nat
    decreases digits.len(),
{
    if digits.len() == 0 {
        0
    } else {
        octal_value(digits.drop_last()) * 8 + (digits.last() - 0x30) as nat
    }
}

/// Whether every byte is an octal digit.
pub open spec fn all_octal(digits: Seq<u8>) -> bool {
    forall|i: int| 0 <= i < digits.len() ==> is_octal(#[trigger] digits[i])
}

/// The size that a size field states: the octal number in it, which white
/// space may surround and a plus sign precede. A field that holds anything
/// else, or a number too large for `usize`, states the size 0.
pub open spec fn octal_size(field: Seq<u8>) -> nat {
    let digits = unsigned(trimmed(field));
    if digits.len() > 0 && all_octal(digits) && octal_value(digits) <= usize::MAX {
        octal_value(digits)
    } else {
        0
    }
}

/// The length of an entry's data, rounded up to whole blocks.
pub open spec fn padded(size: nat) -> nat {
    ((size + BLOCK_SIZE - 1) / BLOCK_SIZE as int * BLOCK_SIZE) as nat
}

/// Whether every byte is zero.
pub open spec fn all_zero(s: Seq<u8>) -> bool {
    forall|i: int| 0 <= i < s.len() ==> #[trigger] s[i] == 0
}

/// The name shown for an entry whose name is not UTF-8.
pub open spec fn unknown_name() -> Seq<char> {
    seq!['u', 'n', 'k', 'n', 'o', 'w', 'n']
}

/// The entry whose header starts at `offset`; none at the end of the
/// archive, at a header of zero bytes, or where the data would reach past
/// the end of the archive.
pub open spec fn entry_at(archive: Seq<u8>, offset: int) -> Option<EntryView> {
    if offset < 0 || offset + BLOCK_SIZE > archive.len() {
        None
    } else {
        let header = archive.subrange(offset, offset + BLOCK_SIZE);
        let size = octal_size(until_nul(header.subrange(SIZE_START as int, SIZE_END as int)));
        if all_zero(header) || offset + BLOCK_SIZE + size > archive.len() {
            None
        } else {
            Some(
                EntryView {
                    name: text_or(until_nul(header.subrange(0, NAME_END as int)), unknown_name()),
                    size,
                    data: archive.subrange(offset + BLOCK_SIZE, offset + BLOCK_SIZE + size),
                    is_dir: header[TYPE_FLAG as int] == TYPE_DIRECTORY,
                },
            )
        }
    }
}

/// Where the header after the entry at `offset` starts.
pub open spec fn next_offset(archive: Seq<u8>, offset: int) -> int {
    match entry_at(archive, offset) {
        Some(e) => offset + BLOCK_SIZE + padded(e.size),
        None => offset,
    }
}

/// The entries from `offset` on, in archive order.
pub open spec fn entries_from(archive: Seq<u8>, offset: int) -> Seq<EntryView>
    decreases 
        if offset + BLOCK_SIZE <= archive.len() {
            archive.len() - offset
        } else {
            0
        },
{
    match entry_at(archive, offset) {
        Some(e) => seq![e] + entries_from(archive, next_offset(archive, offset)),
        None => Seq::empty(),
    }
}

/// The first entry from `offset` on that is named `name`.
pub open spec fn find_from(archive: Seq<u8>, offset: int, name: Seq<char>) -> Option<EntryView>
    decreases 
        if offset + BLOCK_SIZE <= archive.len() {
            archive.len() - offset
        } else {
            0
        },
{
    match entry_at(archive, offset) {
        Some(e) => if e.name == name {
            Some(e)
        } else {
            find_from(archive, next_offset(archive, offset), name)
        },
        None => None,
    }
}

proof fn lemma_octal_prefix(digits: Seq<u8>, n: int)
    requires
        0 <= n <= digits.len(),
        all_octal(digits),
    ensures
        octal_value(digits.take(n)) <= octal_value(digits),
    decreases digits.len(),
{
    if n < digits.len() {
        let rest = digits.drop_last();
        assert(rest.take(n) =~= digits.take(n));
        lemma_octal_prefix(rest, n);
        assert(is_octal(digits.last()));
    } else {
        assert(digits.take(n) =~= digits);
    }
}

/// The size that a size field states.
pub fn parse_octal(field: &[u8]) -> (size: usize)
    ensures
        size == octal_size(field@),
{
    let text = trim(field);
    let b = text.len();
    if b == 0 {
        return 0;
    }
    let start: usize = if text[0] == 0x2b { 1 } else { 0 };
    let ghost digits = text@.subrange(start as int, b as int);
    proof {
        assert(unsigned(trimmed(field@)) =~= digits);
    }
    if start == b {
        return 0;
    }
    let mut value: usize = 0;
    let mut k: usize = start;
    while k < b
        invariant
            start <= k <= b == text@.len(),
            digits == text@.subrange(start as int, b as int),
            digits == unsigned(trimmed(field@)),
            value == octal_value(digits.take(k - start)),
            forall|j: int| 0 <= j < k - start ==> is_octal(#[trigger] digits[j]),
        decreases b - k,
    {
        let c = text[k];
        assert(digits[k - start] == c);
        if !(0x30 <= c && c <= 0x37) {
            assert(!is_octal(digits[k - start]));
            assert(!all_octal(digits));
            return 0;
        }
        let digit = (c - 0x30) as usize;
        proof {
            let upto = digits.take(k - start + 1);
            assert(upto.drop_last() =~= digits.take(k - start));
            assert(upto.last() == c);
            assert(octal_value(upto) == value * 8 + digit);
        }
        if value > (usize::MAX - digit) / 8 {
            proof {
                if all_octal(digits) {
                    lemma_octal_prefix(digits, k - start + 1);
                    assert(octal_value(digits) > usize::MAX);
                }
            }
            return 0;
        }
        value = value * 8 + digit;
        k += 1;
    }
    proof {
        assert(digits.take(k - start) =~= digits);
    }
    value
}

fn zeroed(block: &[u8]) -> (r: bool)
    ensures
        r == all_zero(block@),
{
    let mut i: usize = 0;
    while i < block.len()
        invariant
            i <= block@.len(),
            forall|k: int| 0 <= k < i ==> block@[k] == 0,
        decreases block@.len() - i,
    {
        if block[i] != 0 {
            return false;
        }
        i += 1;
    }
    true
}

/// A cursor over the entries of an archive.
pub struct TarIterator<'a> {
    archive: &'a [u8],
    offset: usize,
}

impl<'a> TarIterator<'a> {
    /// The archive that the cursor runs over.
    pub closed spec fn archive(&self) -> Seq<u8> {
        self.archive@
    }

    /// Where the next header starts.
    pub closed spec fn position(&self) -> int {
        self.offset as int
    }

    /// The cursor's invariant.
    pub closed spec fn wf(&self) -> bool {
        &&& self.archive@.len() + 2 * BLOCK_SIZE <= usize::MAX
        &&& self.offset <= self.archive@.len() + BLOCK_SIZE
    }

    /// A cursor at the start of `archive`.
    pub fn new(archive: &'a [u8]) -> (it: TarIterator<'a>)
        requires
            archive@.len() + 2 * BLOCK_SIZE <= usize::MAX,
        ensures
            it.wf(),
            it.archive() == archive@,
            it.position() == 0,
    {
        TarIterator { archive, offset: 0 }
    }

    /// The entry at the cursor, which then moves on to the next header;
    /// none, and no move, where there is no entry.
    pub fn next(&mut self) -> (r: Option<FileEntry<'a>>)
        requires
            old(self).wf(),
        ensures
            final(self).wf(),
            final(self).archive() == old(self).archive(),
            final(self).position() == next_offset(old(self).archive(), old(self).position()),
            match entry_at(old(self).archive(), old(self).position()) {
                Some(e) => r matches Some(f) && f@ == e,
                None => r is None,
            },
    {
        let len = self.archive.len();
        if len < BLOCK_SIZE || self.offset > len - BLOCK_SIZE {
            return None;
        }
        let header = slice_subrange(self.archive, self.offset, self.offset + BLOCK_SIZE);
        if zeroed(header) {
            return None;
        }
        proof {
            reveal_strlit("unknown");
            assert("unknown"@ =~= unknown_name());
        }
        let name = decode_or(field_text(slice_subrange(header, 0, NAME_END)), "unknown").to_owned();
        let size = parse_octal(field_text(slice_subrange(header, SIZE_START, SIZE_END)));
        let is_dir = header[TYPE_FLAG] == TYPE_DIRECTORY;
        let data_start = self.offset + BLOCK_SIZE;
        if size > len - data_start {
            return None;
        }
        let data = slice_subrange(self.archive, data_start, data_start + size);
        let blocks = (size + (BLOCK_SIZE - 1)) / BLOCK_SIZE;
        assert(blocks * BLOCK_SIZE == padded(size as nat) && blocks * BLOCK_SIZE < size
            + BLOCK_SIZE) by (nonlinear_arith)
            requires
                blocks == (size + (BLOCK_SIZE - 1)) / BLOCK_SIZE as int,
                BLOCK_SIZE == 512,
        ;
        self.offset = data_start + blocks * BLOCK_SIZE;
        Some(FileEntry { name, size, data, is_dir })
    }
}

/// The entries of an archive, in order: the rows of a listing.
pub fn ls<'a>(archive: &'a [u8]) -> (rows: Vec<FileEntry<'a>>)
    requires
        archive@.len() + 2 * BLOCK_SIZE <= usize::MAX,
    ensures
        rows@.map_values(|f: FileEntry<'a>| f@) == entries_from(archive@, 0),
{
    let mut it = TarIterator::new(archive);
    let mut rows: Vec<FileEntry<'a>> = Vec::new();
    loop
        invariant
            it.wf(),
            it.archive() == archive@,
            0 <= it.position(),
            rows@.map_values(|f: FileEntry<'a>| f@) + entries_from(archive@, it.position())
                == entries_from(archive@, 0),
        decreases archive@.len() + BLOCK_SIZE - it.position(),
    {
        let ghost before = rows@.map_values(|f: FileEntry<'a>| f@);
        let ghost at = it.position();
        match it.next() {
            Some(file) => {
                rows.push(file);
                proof {
                    let now = rows@.map_values(|f: FileEntry<'a>| f@);
                    assert(now =~= before + seq![file@]);
                    assert(now + entries_from(archive@, it.position()) =~= before + entries_from(
                        archive@,
                        at,
                    ));
                }
            },
            None => {
                assert(rows@.map_values(|f: FileEntry<'a>| f@) + Seq::<EntryView>::empty()
                    =~= rows@.map_values(|f: FileEntry<'a>| f@));
                return rows;
            },
        }
    }
}

/// The first entry of an archive that is named `name`.
pub fn get_file<'a>(archive: &'a [u8], name: &str) -> (r: Option<FileEntry<'a>>)
    requires
        archive@.len() + 2 * BLOCK_SIZE <= usize::MAX,
    ensures
        match find_from(archive@, 0, name@) {
            Some(e) => r matches Some(f) && f@ == e,
            None => r is None,
        },
{
    let mut it = TarIterator::new(archive);
    loop
        invariant
            it.wf(),
            it.archive() == archive@,
            0 <= it.position(),
            find_from(archive@, it.position(), name@) == find_from(archive@, 0, name@),
        decreases archive@.len() + BLOCK_SIZE - it.position(),
    {
        match it.next() {
            Some(file) => {
                if str_eq(file.name.as_str(), name) {
                    return Some(file);
                }
            },
            None => {
                return None;
            },
        }
    }
}

} // verus!

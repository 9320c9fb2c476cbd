//! The physical memory manager: which pages of RAM are in use.
//!
//! One bit per page, in words of 64. A page is handed out by its physical
//! address.

use vstd::prelude::*;

verus! {

/// Where RAM starts in the physical address space.
pub const RAM_START: usize = 0x4000_0000;

/// Bytes of RAM.
pub const RAM_SIZE: usize = 0x2000_0000;

/// Bytes in a page.
pub const PAGE_SIZE: usize = 4096;

/// Pages of RAM.
pub const TOTAL_PAGES: usize = 131072;

/// Words in the bitmap.
pub const BITMAP_WORDS: usize = 2048;

/// Which pages are in use, and where the search for a free one starts.
pub struct PageAllocator {
    bitmap: [u64; 2048],
    alloc_start: usize,
}

/// Whether bit `k` of `w` is set.
pub open spec fn bit(w: u64, k: u64) -> bool {
    w & (1u64 << k) != 0
}

/// The number of pages that the first `len` bytes of RAM take up.
pub open spec fn pages_for(len: int) -> int {
    (len + PAGE_SIZE - 1) / PAGE_SIZE as int
}

/// The physical address of a page.
pub open spec fn page_address(page: int) -> int {
    RAM_START + page * PAGE_SIZE
}

/// Whether an address lies in RAM.
pub open spec fn in_ram(addr: usize) -> bool {
    RAM_START <= addr < RAM_START + RAM_SIZE
}

/// The page that holds an address in RAM.
pub open spec fn page_of(addr: usize) -> int {
    (addr - RAM_START) / PAGE_SIZE as int
}

proof fn lemma_set_bit(w: u64, k: u64, j: u64)
    requires
        k < 64,
        j < 64,
    ensures
        bit(w | (1u64 << k), j) == (j == k || bit(w, j)),
{
    assert((w | (1u64 << k)) & (1u64 << j) != 0 <==> (j == k || w & (1u64 << j) != 0))
        by (bit_vector)
        requires
            k < 64,
            j < 64,
    ;
}

proof fn lemma_clear_bit(w: u64, k: u64, j: u64)
    requires
        k < 64,
        j < 64,
    ensures
        bit(w & !(1u64 << k), j) == (j != k && bit(w, j)),
{
    assert((w & !(1u64 << k)) & (1u64 << j) != 0 <==> (j != k && w & (1u64 << j) != 0))
        by (bit_vector)
        requires
            k < 64,
            j < 64,
    ;
}

proof fn lemma_zero_word(j: u64)
    requires
        j < 64,
    ensures
        !bit(0, j),
{
    assert(0u64 & (1u64 << j) == 0) by (bit_vector);
}

impl PageAllocator {
    /// Whether a page is in use.
    pub closed spec fn used(&self, page: int) -> bool {
        bit(self.bitmap@[page / 64], (page % 64) as u64)
    }

    /// The page at which the search for a free page starts.
    pub closed spec fn hint(&self) -> int {
        self.alloc_start as int
    }

    /// The allocator's invariant: no page below the hint is free.
    pub closed spec fn wf(&self) -> bool {
        &&& self.alloc_start <= TOTAL_PAGES
        &&& forall|p: int| 0 <= p < self.alloc_start ==> self.used(p)
    }

    /// Whether `self` differs from `before` in page `page` alone, which is
    /// in use if `state` says so.
    pub open spec fn differs_at(&self, before: &PageAllocator, page: int, state: bool) -> bool {
        forall|p: int|
            0 <= p < TOTAL_PAGES ==> #[trigger] self.used(p) == if p == page {
                state
            } else {
                before.used(p)
            }
    }

    /// Whether the same pages are in use as in `before`.
    pub open spec fn same_pages(&self, before: &PageAllocator) -> bool {
        forall|p: int| 0 <= p < TOTAL_PAGES ==> #[trigger] self.used(p) == before.used(p)
    }

    fn set_bit(&mut self, idx: usize)
        requires
            idx < TOTAL_PAGES,
        ensures
            final(self).differs_at(old(self), idx as int, true),
            final(self).alloc_start == old(self).alloc_start,
    {
        let word = self.bitmap[idx / 64];
        self.bitmap[idx / 64] = word | (1u64 << (idx % 64) as u64);
        proof {
            assert forall|p: int| 0 <= p < TOTAL_PAGES implies #[trigger] self.used(p) == if p
                == idx {
                true
            } else {
                old(self).used(p)
            } by {
                if p / 64 == idx / 64 {
                    lemma_set_bit(word, (idx % 64) as u64, (p % 64) as u64);
                }
            }
        }
    }

    fn clear_bit(&mut self, idx: usize)
        requires
            idx < TOTAL_PAGES,
        ensures
            final(self).differs_at(old(self), idx as int, false),
            final(self).alloc_start == old(self).alloc_start,
    {
        let word = self.bitmap[idx / 64];
        self.bitmap[idx / 64] = word & !(1u64 << (idx % 64) as u64);
        proof {
            assert forall|p: int| 0 <= p < TOTAL_PAGES implies #[trigger] self.used(p) == if p
                == idx {
                false
            } else {
                old(self).used(p)
            } by {
                if p / 64 == idx / 64 {
                    lemma_clear_bit(word, (idx % 64) as u64, (p % 64) as u64);
                }
            }
        }
    }

    fn is_bit_set(&self, idx: usize) -> (set: bool)
        requires
            idx < TOTAL_PAGES,
        ensures
            set == self.used(idx as int),
    {
        (self.bitmap[idx / 64] & (1u64 << (idx % 64) as u64)) != 0
    }

    /// The page at which the search for a free page starts.
    pub fn search_start(&self) -> (page: usize)
        ensures
            page == self.hint(),
    {
        self.alloc_start
    }

    /// Whether a page is in use.
    pub fn is_used(&self, page: usize) -> (r: bool)
        requires
            page < TOTAL_PAGES,
        ensures
            r == self.used(page as int),
    {
        self.is_bit_set(page)
    }
}

/// The allocator at start-up: the pages that the kernel takes up, from the
/// start of RAM to `kernel_end`, are in use, and all others are free.
pub fn init(kernel_end: usize) -> (pmm: PageAllocator)
    requires
        RAM_START <= kernel_end <= RAM_START + RAM_SIZE,
    ensures
        pmm.wf(),
        pmm.hint() == pages_for(kernel_end - RAM_START),
        forall|p: int| 0 <= p < TOTAL_PAGES ==> #[trigger] pmm.used(p) == (p < pmm.hint()),
{
    let kernel_pages = (kernel_end - RAM_START + PAGE_SIZE - 1) / PAGE_SIZE;
    let mut pmm = PageAllocator { bitmap: [0u64; 2048], alloc_start: 0 };
    proof {
        assert forall|p: int| 0 <= p < TOTAL_PAGES implies !#[trigger] pmm.used(p) by {
            lemma_zero_word((p % 64) as u64);
        }
    }
    let mut i: usize = 0;
    while i < kernel_pages
        invariant
            i <= kernel_pages <= TOTAL_PAGES,
            pmm.alloc_start == 0,
            forall|p: int| 0 <= p < TOTAL_PAGES ==> #[trigger] pmm.used(p) == (p < i),
        decreases kernel_pages - i,
    {
        let ghost before = pmm;
        pmm.set_bit(i);
        assert forall|p: int| 0 <= p < TOTAL_PAGES implies #[trigger] pmm.used(p) == (p < i + 1) by {
            assert(before.used(p) == (p < i));
        }
        i += 1;
    }
    let ghost marked = pmm;
    pmm.alloc_start = kernel_pages;
    proof {
        assert forall|p: int| 0 <= p < TOTAL_PAGES implies #[trigger] pmm.used(p) == (p
            < kernel_pages) by {
            assert(marked.used(p) == (p < kernel_pages));
        }
    }
    pmm
}

/// Takes the lowest free page and returns its physical address; none
/// where every page is in use.
pub fn alloc_page(pmm: &mut PageAllocator) -> (r: Option<usize>)
    requires
        old(pmm).wf(),
    ensures
        final(pmm).wf(),
        match r {
            Some(addr) => {
                &&& in_ram(addr)
                &&& addr == page_address(page_of(addr))
                &&& !old(pmm).used(page_of(addr))
                &&& forall|p: int| 0 <= p < page_of(addr) ==> old(pmm).used(p)
                &&& final(pmm).differs_at(old(pmm), page_of(addr), true)
                &&& final(pmm).hint() == page_of(addr) + 1
            },
            None => {
                &&& forall|p: int| 0 <= p < TOTAL_PAGES ==> old(pmm).used(p)
                &&& final(pmm).same_pages(old(pmm))
                &&& final(pmm).hint() == old(pmm).hint()
            },
        },
{
    let mut i: usize = pmm.alloc_start;
    while i < TOTAL_PAGES
        invariant
            *pmm == *old(pmm),
            pmm.wf(),
            pmm.alloc_start <= i <= TOTAL_PAGES,
            forall|p: int| 0 <= p < i ==> pmm.used(p),
        decreases TOTAL_PAGES - i,
    {
        if !pmm.is_bit_set(i) {
            pmm.set_bit(i);
            let ghost marked = *pmm;
            pmm.alloc_start = i + 1;
            let addr = RAM_START + i * PAGE_SIZE;
            proof {
                assert(page_of(addr) == i);
                assert forall|p: int| 0 <= p < TOTAL_PAGES implies #[trigger] pmm.used(p) == if p
                    == i {
                    true
                } else {
                    old(pmm).used(p)
                } by {
                    assert(marked.used(p) == pmm.used(p));
                }
            }
            return Some(addr);
        }
        i += 1;
    }
    None
}

/// Gives the page that holds `phys_addr` back, and lets the search for a
/// free page start no higher than there. An address outside RAM is
/// ignored.
pub fn free_page(pmm: &mut PageAllocator, phys_addr: usize)
    requires
        old(pmm).wf(),
    ensures
        final(pmm).wf(),
        in_ram(phys_addr) ==> {
            &&& final(pmm).differs_at(old(pmm), page_of(phys_addr), false)
            &&& final(pmm).hint() == if page_of(phys_addr) < old(pmm).hint() {
                page_of(phys_addr)
            } else {
                old(pmm).hint()
            }
        },
        !in_ram(phys_addr) ==> {
            &&& final(pmm).same_pages(old(pmm))
            &&& final(pmm).hint() == old(pmm).hint()
        },
{
    if phys_addr < RAM_START || phys_addr >= RAM_START + RAM_SIZE {
        return ;
    }
    let page_idx = (phys_addr - RAM_START) / PAGE_SIZE;
    pmm.clear_bit(page_idx);
    let ghost cleared = *pmm;
    if page_idx < pmm.alloc_start {
        pmm.alloc_start = page_idx;
    }
    proof {
        assert forall|p: int| 0 <= p < TOTAL_PAGES implies #[trigger] pmm.used(p) == if p
            == page_idx {
            false
        } else {
            old(pmm).used(p)
        } by {
            assert(cleared.used(p) == pmm.used(p));
        }
    }
}

} // verus!

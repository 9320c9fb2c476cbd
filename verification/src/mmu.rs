//! The translation tables and control values of the identity mapping.
//!
//! The first gigabyte of addresses, where the devices are, is one block of
//! device memory. The second, where RAM is, is mapped by a second-level
//! table in blocks of two megabytes; the first of them holds the kernel
//! and is closed to user mode. Writing the tables to memory and the values
//! to the system registers is the caller's part.

use vstd::prelude::*;

verus! {

/// Entries in a translation table.
pub const ENTRIES_COUNT: usize = 512;

/// Descriptor bit: the entry is valid.
pub const PROT_VALID: u64 = 0x1;

/// Descriptor bit: the entry points to a table; clear in a block entry.
pub const PROT_TABLE: u64 = 0x2;

/// Descriptor bit: access flag, without which the first access faults.
pub const AF: u64 = 0x400;

/// Attribute index of device memory.
pub const MT_DEVICE_NGNRNE: u64 = 0;

/// Attribute index of normal memory that is not cached.
pub const MT_NORMAL_NC: u64 = 1;

/// Attribute index of normal, cached memory.
pub const MT_NORMAL: u64 = 2;

/// Access permission: kernel mode reads and writes, user mode has no access.
pub const AP_RW_EL1: u64 = 0x00;

/// Access permission: kernel and user mode read and write.
pub const AP_RW_EL1_EL0: u64 = 0x40;

/// Shareability: inner shareable.
pub const SH_INNER: u64 = 0x300;

/// Where RAM starts.
pub const RAM_BASE: u64 = 0x4000_0000;

/// Bytes that a second-level block maps.
pub const BLOCK_BYTES: u64 = 0x20_0000;

/// The memory attributes by index: device, normal uncached, normal cached.
pub const MAIR_VALUE: u64 = 0xff_4400;

/// Translation control: 39-bit addresses, 4 KiB granule, inner shareable,
/// write-back cacheable table walks, 40-bit physical addresses.
pub const TCR_VALUE: u64 = 0x2_0000_3519;

/// System control bits to set: MMU, data cache, instruction cache.
pub const SCTLR_ENABLE: u64 = 0x1005;

/// System control bit to clear: writable memory is never executable.
pub const SCTLR_WXN: u64 = 0x8_0000;

/// The first-level entry of the devices: a block at address 0, device
/// memory, kernel mode only.
pub open spec fn device_block() -> u64 {
    PROT_VALID | (MT_DEVICE_NGNRNE << 2) | AP_RW_EL1 | AF
}

/// The first-level entry that points to the table at `table`.
pub open spec fn table_entry(table: u64) -> u64 {
    table | PROT_VALID | PROT_TABLE
}

/// The address that second-level entry `i` maps.
pub open spec fn block_address(i: int) -> u64 {
    (RAM_BASE + i * BLOCK_BYTES) as u64
}

/// Second-level entry `i`: a block of normal memory at `block_address(i)`,
/// inner shareable; kernel mode only for the first block, open to user
/// mode for the others.
pub open spec fn ram_block(i: int) -> u64 {
    block_address(i) | PROT_VALID | (MT_NORMAL << 2) | (if i < 1 {
        AP_RW_EL1
    } else {
        AP_RW_EL1_EL0
    }) | SH_INNER | AF
}

/// The first-level table: the devices, then the table at `l2_table` for
/// RAM, then nothing.
pub open spec fn first_level(l2_table: u64) -> Seq<u64> {
    Seq::new(
        ENTRIES_COUNT as nat,
        |i: int|
            if i == 0 {
                device_block()
            } else if i == 1 {
                table_entry(l2_table)
            } else {
                0u64
            },
    )
}

/// The second-level table.
pub open spec fn second_level() -> Seq<u64> {
    Seq::new(ENTRIES_COUNT as nat, |i: int| ram_block(i))
}

/// The system control value with the MMU and the caches on and execution
/// of writable memory allowed; the other bits as they are.
pub open spec fn sctlr_on(sctlr: u64) -> u64 {
    (sctlr | SCTLR_ENABLE) & !SCTLR_WXN
}

/// The two translation tables.
pub struct PageTables {
    pub l1: [u64; 512],
    pub l2: [u64; 512],
}

/// What to load into the system registers, in this order: the memory
/// attributes, the translation control, the table base, the system
/// control.
#[derive(Debug, Clone, Copy, PartialEq, Eq, Structural)]
pub struct MmuSetup {
    pub mair: u64,
    pub tcr: u64,
    pub ttbr0: u64,
    pub sctlr: u64,
}

/// The translation tables, `l2_table` being the address at which the
/// second-level table will lie.
pub fn page_tables(l2_table: u64) -> (tables: PageTables)
    ensures
        tables.l1@ == first_level(l2_table),
        tables.l2@ == second_level(),
{
    let mut l1: [u64; 512] = [0; 512];
    let mut l2: [u64; 512] = [0; 512];
    l1[0] = PROT_VALID | (MT_DEVICE_NGNRNE << 2) | AP_RW_EL1 | AF;
    l1[1] = l2_table | PROT_VALID | PROT_TABLE;
    let mut i: usize = 0;
    while i < ENTRIES_COUNT
        invariant
            i <= ENTRIES_COUNT,
            forall|k: int| 0 <= k < i ==> l2@[k] == ram_block(k),
        decreases ENTRIES_COUNT - i,
    {
        let addr = RAM_BASE + (i as u64) * BLOCK_BYTES;
        let ap = if i < 1 { AP_RW_EL1 } else { AP_RW_EL1_EL0 };
        l2[i] = addr | PROT_VALID | (MT_NORMAL << 2) | ap | SH_INNER | AF;
        i += 1;
    }
    assert(l1@ =~= first_level(l2_table));
    assert(l2@ =~= second_level());
    PageTables { l1, l2 }
}

/// What to load into the system registers to turn the MMU on, the
/// first-level table lying at `l1_table` and the system control register
/// reading `sctlr`.
pub fn init(l1_table: u64, sctlr: u64) -> (setup: MmuSetup)
    ensures
        setup == (MmuSetup {
            mair: MAIR_VALUE,
            tcr: TCR_VALUE,
            ttbr0: l1_table,
            sctlr: sctlr_on(sctlr),
        }),
{
    MmuSetup {
        mair: MAIR_VALUE,
        tcr: TCR_VALUE,
        ttbr0: l1_table,
        sctlr: (sctlr | SCTLR_ENABLE) & !SCTLR_WXN,
    }
}

} // verus!

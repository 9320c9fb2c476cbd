//! The GICv2 interrupt controller: what to write to its registers.
//!
//! The controller has two blocks of memory-mapped registers, the
//! distributor and the CPU interface. The registers themselves are touched
//! by the caller.

use vstd::prelude::*;

verus! {

/// Base address of the distributor on the QEMU `virt` machine.
pub const GICD_BASE: usize = 0x0800_0000;

/// Base address of the CPU interface on the QEMU `virt` machine.
pub const GICC_BASE: usize = 0x0801_0000;

/// Distributor: control register.
pub const GICD_CTLR: usize = 0x000;

/// Distributor: first of the set-enable registers, one bit per interrupt.
pub const GICD_ISENABLER: usize = 0x100;

/// CPU interface: control register.
pub const GICC_CTLR: usize = 0x0000;

/// CPU interface: priority mask register.
pub const GICC_PMR: usize = 0x0004;

/// CPU interface: interrupt acknowledge register.
pub const GICC_IAR: usize = 0x000c;

/// CPU interface: end-of-interrupt register.
pub const GICC_EOIR: usize = 0x0010;

/// The interrupt of the virtual timer.
pub const TIMER_IRQ: u32 = 27;

/// The interrupt of the console UART.
pub const UART_IRQ: u32 = 33;

/// A block of registers.
#[derive(Debug, Clone, Copy, PartialEq, Eq, Structural)]
pub enum GicBlock {
    Distributor,
    CpuInterface,
}

/// A value to write to a register.
#[derive(Debug, Clone, Copy, PartialEq, Eq, Structural)]
pub struct GicWrite {
    pub block: GicBlock,
    /// The register's offset from the base address of its block.
    pub offset: usize,
    pub value: u32,
}

/// The interrupt controller.
#[derive(Debug, Clone, Copy, PartialEq, Eq, Structural)]
pub struct Gic;

/// The offset of the set-enable register that holds the bit of `irq`.
pub open spec fn enable_register(irq: u32) -> usize {
    (GICD_ISENABLER + (irq / 32) * 4) as usize
}

/// The bit of `irq` in its set-enable register.
pub open spec fn enable_bit(irq: u32) -> u32 {
    1u32 << (irq % 32)
}

/// The register writes that set the controller up, given what the
/// set-enable registers of the timer and of the UART read: enable the
/// distributor, enable the two interrupts on top of what is enabled, let
/// interrupts of every priority through, enable the CPU interface.
pub open spec fn init_writes(timer_enable: u32, uart_enable: u32) -> Seq<GicWrite> {
    seq![
        GicWrite { block: GicBlock::Distributor, offset: GICD_CTLR, value: 1 },
        GicWrite {
            block: GicBlock::Distributor,
            offset: enable_register(TIMER_IRQ),
            value: timer_enable | enable_bit(TIMER_IRQ),
        },
        GicWrite {
            block: GicBlock::Distributor,
            offset: enable_register(UART_IRQ),
            value: uart_enable | enable_bit(UART_IRQ),
        },
        GicWrite { block: GicBlock::CpuInterface, offset: GICC_PMR, value: 0xff },
        GicWrite { block: GicBlock::CpuInterface, offset: GICC_CTLR, value: 1 },
    ]
}

impl Gic {
    /// The offset of the set-enable register that holds the bit of `irq`.
    pub fn enable_register_of(irq: u32) -> (offset: usize)
        ensures
            offset == enable_register(irq),
    {
        GICD_ISENABLER + ((irq / 32) as usize) * 4
    }

    /// The register writes that set the controller up, in order.
    /// `timer_enable` and `uart_enable` are what the set-enable registers
    /// of the timer and of the UART read.
    pub fn init(timer_enable: u32, uart_enable: u32) -> (writes: Vec<GicWrite>)
        ensures
            writes@ == init_writes(timer_enable, uart_enable),
    {
        let mut writes: Vec<GicWrite> = Vec::new();
        writes.push(GicWrite { block: GicBlock::Distributor, offset: GICD_CTLR, value: 1 });
        writes.push(
            GicWrite {
                block: GicBlock::Distributor,
                offset: Gic::enable_register_of(TIMER_IRQ),
                value: timer_enable | (1u32 << (TIMER_IRQ % 32)),
            },
        );
        writes.push(
            GicWrite {
                block: GicBlock::Distributor,
                offset: Gic::enable_register_of(UART_IRQ),
                value: uart_enable | (1u32 << (UART_IRQ % 32)),
            },
        );
        writes.push(GicWrite { block: GicBlock::CpuInterface, offset: GICC_PMR, value: 0xff });
        writes.push(GicWrite { block: GicBlock::CpuInterface, offset: GICC_CTLR, value: 1 });
        assert(writes@ =~= init_writes(timer_enable, uart_enable));
        writes
    }

    /// The register write that signals the end of the interrupt that was
    /// acknowledged as `id`.
    pub fn end_interrupt(id: u32) -> (write: GicWrite)
        ensures
            write == (GicWrite { block: GicBlock::CpuInterface, offset: GICC_EOIR, value: id }),
    {
        GicWrite { block: GicBlock::CpuInterface, offset: GICC_EOIR, value: id }
    }
}

} // verus!

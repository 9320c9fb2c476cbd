//! The logic of a small single-core ARM64 kernel.
//!
//! At its core are the task table and the scheduler ([`sched`]), the
//! register frames of a task switch ([`context`]), and the dispatch of
//! exceptions, interrupts and system calls ([`exception`], [`syscall`]).
//! Around them stand the drivers and services that the kernel is built
//! from: the console ([`uart`]), the interrupt controller ([`gic`]), the
//! timer ([`timer`]), the MMU tables ([`mmu`]), the page allocator
//! ([`pmm`]), the display ([`gpu`]), the disk cursor ([`fs`]), the archive
//! reader ([`tarfs`]), the program loader ([`loader`]) and the shell
//! ([`shell`]).
//!
//! Nothing here touches hardware. The caller hands in what it read from
//! registers, memory and devices, and carries out what these functions
//! decide: a function that the hardware would interrupt half way is split
//! where the hardware comes in.

pub mod bytes;
pub mod context;
pub mod cpu;
pub mod exception;
pub mod fs;
pub mod gic;
pub mod gpu;
pub mod loader;
pub mod mmu;
pub mod pmm;
pub mod sched;
pub mod shell;
pub mod syscall;
pub mod tarfs;
pub mod text;
pub mod timer;
pub mod uart;
pub mod userlib;

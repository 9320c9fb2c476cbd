//! System calls: what each one does to the task table, what it returns,
//! and what it leaves for the caller to carry out.

use vstd::prelude::*;
use vstd::arithmetic::power2::{
    lemma2_to64, lemma2_to64_rest, lemma_pow2_strictly_increases, lemma_pow2_unfold, pow2,
};
use crate::sched::{
    current_task_id, exit_current_task, schedule, Scheduler, SwitchAction, TableModel,
};
use crate::text::{decode_or, text_or};

verus! {

/// `print(pointer, length)`: writes bytes to the console.
pub const SYS_PRINT: u64 = 0;

/// `exit()`: ends the calling task.
pub const SYS_EXIT: u64 = 1;

/// `getpid()`: the identifier of the calling task.
pub const SYS_GETPID: u64 = 2;

/// `yield()`: gives other tasks a turn.
pub const SYS_YIELD: u64 = 3;

/// `sleep(ms)`: for now a yield; the duration is ignored.
pub const SYS_SLEEP: u64 = 4;

/// `alloc(size, align)`: memory from the kernel heap.
pub const SYS_ALLOC: u64 = 5;

/// `dealloc(pointer, size, align)`: gives such memory back.
pub const SYS_DEALLOC: u64 = 6;

/// Returned for a call number that names no system call.
pub const SYSCALL_ERROR: u64 = 0xffff_ffff_ffff_ffff;

/// Returned by `dealloc` for a size and alignment that describe no block.
pub const DEALLOC_INVALID: u64 = 1;

/// The largest size of a block of memory.
pub const MAX_BLOCK_SIZE: u64 = 0x7fff_ffff_ffff_ffff;

/// What a system call leaves for its caller to carry out.
#[derive(Debug, Clone, Copy, PartialEq, Eq, Structural)]
pub enum SyscallEffect {
    /// Nothing.
    Nothing,
    /// Write the `len` bytes at `ptr` to the console, as text.
    Write { ptr: u64, len: u64 },
    /// Carry out a scheduling decision, then return to the caller.
    Reschedule(SwitchAction),
    /// The calling task has ended: carry out the decision and do not
    /// return to it.
    Exit(SwitchAction),
    /// Allocate a block; the call returns its address, or 0 where there
    /// is none to be had.
    Allocate { size: u64, align: u64 },
    /// Free a block.
    Release { ptr: u64, size: u64, align: u64 },
    /// Report a call number that names no system call.
    ReportUnknown { id: u64 },
}

/// The result of a system call and what is left to do for it.
#[derive(Debug, Clone, Copy, PartialEq, Eq, Structural)]
pub struct SyscallOutcome {
    /// The value returned to the caller; for `Allocate`, the value
    /// returned where the allocation fails.
    pub result: u64,
    pub effect: SyscallEffect,
}

/// Whether `n` is a power of two.
pub open spec fn is_power_of_two(n: u64) -> bool {
    exists|k: nat| n == pow2(k)
}

/// Whether a size and an alignment describe a block of memory: the
/// alignment is a power of two, and the size, rounded up to a multiple of
/// the alignment, is no more than `MAX_BLOCK_SIZE`.
pub open spec fn layout_ok(size: u64, align: u64) -> bool {
    is_power_of_two(align) && size + (align - 1) <= MAX_BLOCK_SIZE
}

/// Whether `n` is a power of two.
pub fn power_of_two(n: u64) -> (b: bool)
    ensures
        b == is_power_of_two(n),
{
    let mut p: u64 = 1;
    let mut k: u32 = 0;
    proof {
        lemma2_to64();
    }
    loop
        invariant
            k <= 63,
            p == pow2(k as nat),
            forall|j: nat| j < k ==> n != pow2(j),
        decreases 63 - k,
    {
        if p == n {
            return true;
        }
        if k == 63 {
            proof {
                assert forall|j: nat| n != pow2(j) by {
                    if j >= 64 {
                        lemma2_to64();
                        if j > 64 {
                            lemma_pow2_strictly_increases(64, j);
                        }
                    }
                }
            }
            return false;
        }
        proof {
            lemma2_to64_rest();
            if k < 62 {
                lemma_pow2_strictly_increases(k as nat, 62);
            }
            lemma_pow2_unfold((k + 1) as nat);
        }
        p = p * 2;
        k = k + 1;
    }
}

/// Whether a size and an alignment describe a block of memory.
pub fn layout_is_valid(size: u64, align: u64) -> (b: bool)
    ensures
        b == layout_ok(size, align),
{
    proof {
        lemma2_to64();
        vstd::arithmetic::power2::lemma_pow2_pos(0);
        assert forall|k: nat| pow2(k) > 0 by {
            vstd::arithmetic::power2::lemma_pow2_pos(k);
        }
    }
    power_of_two(align) && align - 1 <= MAX_BLOCK_SIZE && size <= MAX_BLOCK_SIZE - (align - 1)
}

/// The text that `print` writes for the bytes it was pointed to: the bytes
/// themselves where they are UTF-8, and a marker otherwise.
pub open spec fn printed(bytes: Seq<u8>) -> Seq<char> {
    text_or(bytes, seq!['<', '?', '>'])
}

/// The text that `print` writes for the bytes it was pointed to.
pub fn print_text(bytes: &[u8]) -> (text: &str)
    ensures
        text@ == printed(bytes@),
{
    proof {
        reveal_strlit("<?>");
        assert("<?>"@ =~= seq!['<', '?', '>']);
    }
    decode_or(bytes, "<?>")
}

/// What `alloc` returns once the allocator has answered with `ptr`: the
/// address of the block, or 0 where the allocator had none and answered
/// with a null pointer.
pub fn alloc_result(ptr: u64) -> (result: u64)
    ensures
        result == ptr,
{
    if ptr == 0 {
        0
    } else {
        ptr
    }
}

/// The task table after the system call `id`.
pub open spec fn after_syscall(m: TableModel, id: u64) -> TableModel {
    if id == SYS_EXIT {
        m.after_exit()
    } else if id == SYS_YIELD || id == SYS_SLEEP {
        m.after_schedule()
    } else {
        m
    }
}

/// The value that the system call `id` returns.
pub open spec fn syscall_result(m: TableModel, id: u64, arg0: u64, arg1: u64, arg2: u64) -> u64 {
    if id == SYS_GETPID {
        m.tasks[m.current].id as u64
    } else if id == SYS_DEALLOC && !layout_ok(arg1, arg2) {
        DEALLOC_INVALID
    } else if id > SYS_DEALLOC {
        SYSCALL_ERROR
    } else {
        0
    }
}

/// What the system call `id` leaves to do.
pub open spec fn syscall_effect(
    m: TableModel,
    id: u64,
    arg0: u64,
    arg1: u64,
    arg2: u64,
) -> SyscallEffect {
    if id == SYS_PRINT {
        if arg0 != 0 && arg1 > 0 {
            SyscallEffect::Write { ptr: arg0, len: arg1 }
        } else {
            SyscallEffect::Nothing
        }
    } else if id == SYS_EXIT {
        SyscallEffect::Exit(m.exit_action())
    } else if id == SYS_GETPID {
        SyscallEffect::Nothing
    } else if id == SYS_YIELD || id == SYS_SLEEP {
        SyscallEffect::Reschedule(m.schedule_action())
    } else if id == SYS_ALLOC {
        if layout_ok(arg0, arg1) {
            SyscallEffect::Allocate { size: arg0, align: arg1 }
        } else {
            SyscallEffect::Nothing
        }
    } else if id == SYS_DEALLOC {
        if layout_ok(arg1, arg2) {
            SyscallEffect::Release { ptr: arg0, size: arg1, align: arg2 }
        } else {
            SyscallEffect::Nothing
        }
    } else {
        SyscallEffect::ReportUnknown { id }
    }
}

/// Dispatches the system call `id` with its arguments.
///
/// A number that names no system call returns `SYSCALL_ERROR` and leaves
/// the task table as it was.
pub fn handle_syscall(table: &mut Scheduler, id: u64, arg0: u64, arg1: u64, arg2: u64) -> (r:
    SyscallOutcome)
    requires
        old(table).wf(),
    ensures
        final(table).wf(),
        final(table)@ == after_syscall(old(table)@, id),
        r.result == syscall_result(old(table)@, id, arg0, arg1, arg2),
        r.effect == syscall_effect(old(table)@, id, arg0, arg1, arg2),
        id > SYS_DEALLOC ==> r.result == SYSCALL_ERROR && final(table)@ == old(table)@,
{
    match id {
        0 => {
            if arg0 != 0 && arg1 > 0 {
                SyscallOutcome { result: 0, effect: SyscallEffect::Write { ptr: arg0, len: arg1 } }
            } else {
                SyscallOutcome { result: 0, effect: SyscallEffect::Nothing }
            }
        },
        1 => {
            let action = exit_current_task(table);
            SyscallOutcome { result: 0, effect: SyscallEffect::Exit(action) }
        },
        2 => SyscallOutcome { result: current_task_id(table) as u64, effect: SyscallEffect::Nothing },
        3 => {
            let action = schedule(table);
            SyscallOutcome { result: 0, effect: SyscallEffect::Reschedule(action) }
        },
        4 => {
            let action = schedule(table);
            SyscallOutcome { result: 0, effect: SyscallEffect::Reschedule(action) }
        },
        5 => {
            if layout_is_valid(arg0, arg1) {
                SyscallOutcome {
                    result: 0,
                    effect: SyscallEffect::Allocate { size: arg0, align: arg1 },
                }
            } else {
                SyscallOutcome { result: 0, effect: SyscallEffect::Nothing }
            }
        },
        6 => {
            if layout_is_valid(arg1, arg2) {
                SyscallOutcome {
                    result: 0,
                    effect: SyscallEffect::Release { ptr: arg0, size: arg1, align: arg2 },
                }
            } else {
                SyscallOutcome { result: DEALLOC_INVALID, effect: SyscallEffect::Nothing }
            }
        },
        _ => SyscallOutcome { result: SYSCALL_ERROR, effect: SyscallEffect::ReportUnknown { id } },
    }
}

} // verus!

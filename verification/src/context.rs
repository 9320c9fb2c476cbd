//! The register frames of a task switch.
//!
//! A task that gives up the processor leaves on its own stack a frame of
//! fourteen 64-bit words: the registers that a call must preserve, the
//! return address among them, and the user-mode stack pointer. The saved
//! stack pointer of the task is the address of that frame. A new task is
//! given such a frame before it first runs, so that switching to it is no
//! different from switching back to a task that has run before.

use vstd::prelude::*;

verus! {

/// Words in a switch frame.
pub const FRAME_WORDS: usize = 14;

/// Bytes in a switch frame.
pub const FRAME_BYTES: u64 = 112;

/// Bytes in a task's kernel-mode stack.
pub const KERNEL_STACK_SIZE: u64 = 16384;

/// Bytes in a task's user-mode stack.
pub const USER_STACK_SIZE: u64 = 65536;

/// The processor state that survives a task switch.
#[derive(Debug, Clone, Copy, PartialEq, Eq, Structural)]
pub struct PreservedRegisters {
    pub x19: u64,
    pub x20: u64,
    pub x21: u64,
    pub x22: u64,
    pub x23: u64,
    pub x24: u64,
    pub x25: u64,
    pub x26: u64,
    pub x27: u64,
    pub x28: u64,
    /// The frame pointer.
    pub x29: u64,
    /// The link register: where execution resumes.
    pub x30: u64,
    /// The user-mode stack pointer.
    pub sp_el0: u64,
}

/// A switch frame, as it lies in memory from its lowest word up.
#[derive(Debug, Clone, Copy)]
pub struct SwitchFrame {
    pub words: [u64; 14],
}

/// The words of the frame that holds `regs`: `x19` to `x30` in order, then
/// the user-mode stack pointer, then a word of padding.
pub open spec fn frame_of(regs: PreservedRegisters) -> Seq<u64> {
    seq![
        regs.x19,
        regs.x20,
        regs.x21,
        regs.x22,
        regs.x23,
        regs.x24,
        regs.x25,
        regs.x26,
        regs.x27,
        regs.x28,
        regs.x29,
        regs.x30,
        regs.sp_el0,
        0u64,
    ]
}

/// The registers that a frame of these words holds.
pub open spec fn registers_of(words: Seq<u64>) -> PreservedRegisters {
    PreservedRegisters {
        x19: words[0],
        x20: words[1],
        x21: words[2],
        x22: words[3],
        x23: words[4],
        x24: words[5],
        x25: words[6],
        x26: words[7],
        x27: words[8],
        x28: words[9],
        x29: words[10],
        x30: words[11],
        sp_el0: words[12],
    }
}

/// The registers with which a kernel thread first runs: the entry address
/// where its trampoline looks for it, and the trampoline as return address.
pub open spec fn kernel_start(entry: u64, trampoline: u64) -> PreservedRegisters {
    PreservedRegisters {
        x19: entry,
        x20: 0,
        x21: 0,
        x22: 0,
        x23: 0,
        x24: 0,
        x25: 0,
        x26: 0,
        x27: 0,
        x28: 0,
        x29: 0,
        x30: trampoline,
        sp_el0: 0,
    }
}

/// The registers with which a user process first runs: entry address and
/// user stack where its trampoline looks for them, the trampoline as return
/// address, and the user stack as user-mode stack pointer.
pub open spec fn user_start(entry: u64, user_stack_top: u64, trampoline: u64) -> PreservedRegisters {
    PreservedRegisters {
        x19: entry,
        x20: user_stack_top,
        x21: 0,
        x22: 0,
        x23: 0,
        x24: 0,
        x25: 0,
        x26: 0,
        x27: 0,
        x28: 0,
        x29: 0,
        x30: trampoline,
        sp_el0: user_stack_top,
    }
}

/// What a task is resumed with: the preserved registers, and the stack
/// pointer.
#[derive(Debug, Clone, Copy, PartialEq, Eq, Structural)]
pub struct Context {
    pub regs: PreservedRegisters,
    pub sp: u64,
}

/// The address of a frame stored right below the stack pointer `sp`, the
/// addresses taken as a ring of 2^64.
pub open spec fn frame_below(sp: u64) -> u64 {
    if sp >= FRAME_BYTES {
        (sp - FRAME_BYTES) as u64
    } else {
        (sp - FRAME_BYTES + 0x1_0000_0000_0000_0000) as u64
    }
}

/// The stack pointer once the frame stored at `saved` has been taken off
/// the stack.
pub open spec fn stack_above(saved: u64) -> u64 {
    if saved + FRAME_BYTES <= u64::MAX {
        (saved + FRAME_BYTES) as u64
    } else {
        (saved + FRAME_BYTES - 0x1_0000_0000_0000_0000) as u64
    }
}

/// The context that a switch resumes from the frame `words` stored at
/// `saved`.
pub open spec fn resumed(words: Seq<u64>, saved: u64) -> Context {
    Context { regs: registers_of(words), sp: stack_above(saved) }
}

/// The context of a task after it has been switched away from and back to
/// `n` times, each switch away storing a frame below the stack pointer and
/// each switch back resuming from it.
pub open spec fn after_round_trips(c: Context, n: nat) -> Context
    decreases n,
{
    if n == 0 {
        c
    } else {
        let before = after_round_trips(c, (n - 1) as nat);
        resumed(frame_of(before.regs), frame_below(before.sp))
    }
}

/// Switching away from a task and back, any number of times, leaves its
/// preserved registers and its stack pointer as they were.
pub proof fn law_switch_round_trip(c: Context, n: nat)
    ensures
        after_round_trips(c, n) == c,
    decreases n,
{
    if n > 0 {
        law_switch_round_trip(c, (n - 1) as nat);
    }
}

/// A new kernel thread, whose first frame lies at the top of its stack,
/// first runs on an empty stack, with its entry address in `x19`, and
/// returns into its trampoline.
pub proof fn law_kernel_task_start(entry: u64, trampoline: u64, stack_end: u64)
    ensures
        resumed(frame_of(kernel_start(entry, trampoline)), frame_below(stack_end)) == (Context {
            regs: kernel_start(entry, trampoline),
            sp: stack_end,
        }),
        kernel_start(entry, trampoline).x19 == entry,
        kernel_start(entry, trampoline).x30 == trampoline,
{
}

/// A new user process first runs on an empty kernel stack, with its entry
/// address in `x19` and the top of its user stack in `x20` and as
/// user-mode stack pointer, and returns into its trampoline.
pub proof fn law_user_task_start(entry: u64, user_stack_top: u64, trampoline: u64, stack_end: u64)
    ensures
        resumed(frame_of(user_start(entry, user_stack_top, trampoline)), frame_below(stack_end))
            == (Context { regs: user_start(entry, user_stack_top, trampoline), sp: stack_end }),
        user_start(entry, user_stack_top, trampoline).x19 == entry,
        user_start(entry, user_stack_top, trampoline).x20 == user_stack_top,
        user_start(entry, user_stack_top, trampoline).sp_el0 == user_stack_top,
        user_start(entry, user_stack_top, trampoline).x30 == trampoline,
{
}

impl View for SwitchFrame {
    type V = Seq<u64>;

    open spec fn view(&self) -> Seq<u64> {
        self.words@
    }
}

impl SwitchFrame {
    /// The frame that a switch away from a task with these registers stores.
    pub fn capture(regs: &PreservedRegisters) -> (frame: SwitchFrame)
        ensures
            frame@ == frame_of(*regs),
    {
        let frame = SwitchFrame {
            words: [
                regs.x19,
                regs.x20,
                regs.x21,
                regs.x22,
                regs.x23,
                regs.x24,
                regs.x25,
                regs.x26,
                regs.x27,
                regs.x28,
                regs.x29,
                regs.x30,
                regs.sp_el0,
                0,
            ],
        };
        assert(frame@ =~= frame_of(*regs));
        frame
    }

    /// The registers that a switch to the task with this frame loads.
    pub fn restore(&self) -> (regs: PreservedRegisters)
        ensures
            regs == registers_of(self@),
    {
        PreservedRegisters {
            x19: self.words[0],
            x20: self.words[1],
            x21: self.words[2],
            x22: self.words[3],
            x23: self.words[4],
            x24: self.words[5],
            x25: self.words[6],
            x26: self.words[7],
            x27: self.words[8],
            x28: self.words[9],
            x29: self.words[10],
            x30: self.words[11],
            sp_el0: self.words[12],
        }
    }

    /// The first frame of a kernel thread that starts at `entry` by way of
    /// the trampoline at `trampoline`.
    pub fn for_kernel_task(entry: u64, trampoline: u64) -> (frame: SwitchFrame)
        ensures
            frame@ == frame_of(kernel_start(entry, trampoline)),
    {
        let mut words: [u64; 14] = [0; 14];
        words[0] = entry;
        words[11] = trampoline;
        words[12] = 0;
        let frame = SwitchFrame { words };
        assert(frame@ =~= frame_of(kernel_start(entry, trampoline)));
        frame
    }

    /// The first frame of a user process that starts at `entry` on the stack
    /// that ends at `user_stack_top`, by way of the trampoline at
    /// `trampoline`.
    pub fn for_user_task(entry: u64, user_stack_top: u64, trampoline: u64) -> (frame: SwitchFrame)
        ensures
            frame@ == frame_of(user_start(entry, user_stack_top, trampoline)),
    {
        let mut words: [u64; 14] = [0; 14];
        words[0] = entry;
        words[1] = user_stack_top;
        words[11] = trampoline;
        words[12] = user_stack_top;
        let frame = SwitchFrame { words };
        assert(frame@ =~= frame_of(user_start(entry, user_stack_top, trampoline)));
        frame
    }
}

impl Context {
    /// What a switch away from a task in this context stores: the frame,
    /// and the address below the stack pointer at which it stores it. The
    /// address goes into the task's slot as its saved stack pointer.
    pub fn suspend(&self) -> (r: (SwitchFrame, u64))
        ensures
            r.0@ == frame_of(self.regs),
            r.1 == frame_below(self.sp),
    {
        (SwitchFrame::capture(&self.regs), self.sp.wrapping_sub(FRAME_BYTES))
    }

    /// The context that a switch resumes from the frame `frame` stored at
    /// `saved`.
    pub fn resume(frame: &SwitchFrame, saved: u64) -> (c: Context)
        ensures
            c == resumed(frame@, saved),
    {
        Context { regs: frame.restore(), sp: saved.wrapping_add(FRAME_BYTES) }
    }
}

} // verus!

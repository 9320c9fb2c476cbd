//! Task control blocks.

use vstd::prelude::*;
use vstd::string::StringSliceAdditionalSpecFns;
use crate::text::{decode_or, field_text, text_or, until_nul};

verus! {

/// Bytes reserved for a task's label, terminator included.
pub const NAME_LEN: usize = 16;

/// Ticks granted per unit of a priority's weight.
pub const BASE_TIME_SLICE: usize = 1;

/// Where a task stands in its life.
#[derive(Debug, Clone, Copy, PartialEq, Eq, Structural)]
pub enum TaskState {
    /// The slot holds no task.
    Unused,
    /// Runnable, waiting for the processor.
    Ready,
    /// Owns the processor.
    Running,
    /// Suspended until woken.
    Blocked,
    /// Terminated.
    Dead,
}

/// Scheduling classes, from least to most urgent.
#[derive(Debug, Clone, Copy, PartialEq, Eq, Structural, PartialOrd, Ord)]
pub enum Priority {
    Idle,
    Low,
    Normal,
    High,
    RealTime,
}

impl Priority {
    /// Position in the order `Idle < Low < Normal < High < RealTime`.
    pub open spec fn rank(self) -> nat {
        match self {
            Priority::Idle => 0,
            Priority::Low => 1,
            Priority::Normal => 2,
            Priority::High => 3,
            Priority::RealTime => 4,
        }
    }

    /// Ticks a task of this class may run before it must give way.
    pub open spec fn slices(self) -> nat {
        match self {
            Priority::Idle => 1,
            Priority::Low => 2,
            Priority::Normal => 4,
            Priority::High => 8,
            Priority::RealTime => 16,
        }
    }

    /// Ticks a task of this class may run before it must give way.
    pub fn time_slices(&self) -> (n: usize)
        ensures
            n == self.slices(),
    {
        match self {
            Priority::Idle => 1,
            Priority::Low => 2,
            Priority::Normal => 4,
            Priority::High => 8,
            Priority::RealTime => 16,
        }
    }

    /// Position in the order, as a number from 0 to 4.
    pub fn level(&self) -> (n: u8)
        ensures
            n == self.rank(),
    {
        match self {
            Priority::Idle => 0,
            Priority::Low => 1,
            Priority::Normal => 2,
            Priority::High => 3,
            Priority::RealTime => 4,
        }
    }

    /// Whether this class is strictly more urgent than `other`.
    pub fn outranks(&self, other: &Priority) -> (b: bool)
        ensures
            b == (self.rank() > other.rank()),
    {
        self.level() > other.level()
    }
}

/// A task control block.
#[derive(Debug, Clone, Copy)]
pub struct Task {
    /// Process identifier.
    pub id: usize,
    /// Saved stack pointer; meaningful only while the task is not running.
    pub stack_top: u64,
    pub state: TaskState,
    pub priority: Priority,
    /// Ticks left before the task must give way.
    pub remaining_slices: usize,
    /// Label, terminated by a zero byte unless it fills the field.
    pub name: [u8; 16],
}

/// What a task control block holds, as mathematical values.
pub struct TaskView {
    pub id: nat,
    pub stack_top: u64,
    pub state: TaskState,
    pub priority: Priority,
    pub remaining_slices: nat,
    pub name: Seq<u8>,
}

/// A label field after `text` has been stored in it: at most fifteen bytes
/// of `text`, then a zero byte, then whatever the field held before.
pub open spec fn stored_name(field: Seq<u8>, text: Seq<u8>) -> Seq<u8> {
    let len = if text.len() < NAME_LEN - 1 { text.len() as int } else { NAME_LEN - 1 };
    Seq::new(
        field.len(),
        |k: int| if k < len { text[k] } else if k == len { 0u8 } else { field[k] },
    )
}

/// The label's bytes: the field up to its first zero byte.
pub open spec fn label_bytes(field: Seq<u8>) -> Seq<u8> {
    until_nul(field)
}

impl TaskView {
    /// The label as text; `?` where its bytes are not UTF-8.
    pub open spec fn label(self) -> Seq<char> {
        text_or(label_bytes(self.name), seq!['?'])
    }

    /// The budget of ticks that the task's class grants per turn.
    pub open spec fn full_slice(self) -> nat {
        self.priority.slices() * BASE_TIME_SLICE as nat
    }
}

impl View for Task {
    type V = TaskView;

    open spec fn view(&self) -> TaskView {
        TaskView {
            id: self.id as nat,
            stack_top: self.stack_top,
            state: self.state,
            priority: self.priority,
            remaining_slices: self.remaining_slices as nat,
            name: self.name@,
        }
    }
}

/// The contents of a slot that holds no task.
pub open spec fn empty_task() -> TaskView {
    TaskView {
        id: 0,
        stack_top: 0,
        state: TaskState::Unused,
        priority: Priority::Idle,
        remaining_slices: 0,
        name: Seq::new(NAME_LEN as nat, |k: int| 0u8),
    }
}

impl Task {
    /// The contents of a slot that holds no task.
    pub fn empty() -> (t: Task)
        ensures
            t@ == empty_task(),
    {
        let t = Task {
            id: 0,
            stack_top: 0,
            state: TaskState::Unused,
            priority: Priority::Idle,
            remaining_slices: 0,
            name: [0u8; 16],
        };
        assert(t@.name =~= empty_task().name);
        t
    }

    /// Stores `name` as the label, cut to fifteen bytes.
    pub fn set_name(&mut self, name: &str)
        ensures
            final(self)@ == (TaskView { name: stored_name(old(self)@.name, name.spec_bytes()), ..old(self)@ }),
    {
        let bytes = name.as_bytes();
        let len: usize = if bytes.len() < NAME_LEN - 1 { bytes.len() } else { NAME_LEN - 1 };
        let mut k: usize = 0;
        while k < len
            invariant
                k <= len <= NAME_LEN - 1,
                len <= bytes@.len(),
                forall|j: int| 0 <= j < k ==> self.name@[j] == bytes@[j],
                forall|j: int| k <= j < NAME_LEN ==> self.name@[j] == old(self).name@[j],
                self.id == old(self).id,
                self.stack_top == old(self).stack_top,
                self.state == old(self).state,
                self.priority == old(self).priority,
                self.remaining_slices == old(self).remaining_slices,
            decreases len - k,
        {
            self.name[k] = bytes[k];
            k += 1;
        }
        self.name[len] = 0;
        assert(self.name@ =~= stored_name(old(self)@.name, name.spec_bytes()));
    }

    /// The label as text; `?` where its bytes are not UTF-8.
    pub fn get_name(&self) -> (r: &str)
        ensures
            r@ == self@.label(),
    {
        proof {
            reveal_strlit("?");
            assert("?"@ =~= seq!['?']);
        }
        decode_or(field_text(self.name.as_slice()), "?")
    }

    /// Refills the tick budget from the task's class.
    pub fn reset_time_slice(&mut self)
        ensures
            final(self)@ == (TaskView { remaining_slices: old(self)@.full_slice(), ..old(self)@ }),
    {
        self.remaining_slices = self.priority.time_slices() * BASE_TIME_SLICE;
    }
}

} // verus!

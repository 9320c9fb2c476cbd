//! The task table as a mathematical value, and what each scheduler
//! operation makes of it.

use vstd::prelude::*;
use crate::sched::task::{Priority, TaskState, TaskView, NAME_LEN, stored_name};

verus! {

/// Slots in the task table.
pub const MAX_TASKS: usize = 16;

/// What the caller of a scheduling decision has to do next.
#[derive(Debug, Clone, Copy, PartialEq, Eq, Structural)]
pub enum SwitchAction {
    /// Keep running the task that called.
    Stay,
    /// Save the context of slot `from` and resume the one saved in slot `to`.
    Switch { from: usize, to: usize },
    /// Nothing can run: stop the processor.
    Halt,
}

/// What a new task brings to the table.
pub struct SpawnRequest {
    /// Address of the switch frame laid out on the task's stack.
    pub stack_top: u64,
    /// The label, as UTF-8.
    pub name: Seq<u8>,
    pub priority: Priority,
}

/// The task table and the scheduler's registers.
pub struct TableModel {
    /// All slots, in table order.
    pub tasks: Seq<TaskView>,
    /// Slots in use; they are the first `count` ones.
    pub count: int,
    /// Slot of the task that owns the processor.
    pub current: int,
    /// The identifier that the next task will get.
    pub next_pid: int,
    /// Whether scheduling decisions are taken at all.
    pub enabled: bool,
}

impl TableModel {
    /// The table's invariant.
    pub open spec fn wf(self) -> bool {
        &&& self.tasks.len() == MAX_TASKS
        &&& 1 <= self.count <= MAX_TASKS
        &&& 0 <= self.current < self.count
        &&& self.next_pid == self.count
        &&& forall|i: int|
            0 <= i < self.count ==> {
                &&& (#[trigger] self.tasks[i]).id == i
                &&& self.tasks[i].state != TaskState::Unused
                &&& self.tasks[i].remaining_slices <= self.tasks[i].full_slice()
                &&& (self.tasks[i].state == TaskState::Running ==> i == self.current)
            }
        &&& forall|i: int|
            self.count <= i < MAX_TASKS ==> (#[trigger] self.tasks[i]).state == TaskState::Unused
        &&& forall|i: int| 0 <= i < MAX_TASKS ==> (#[trigger] self.tasks[i]).name.len() == NAME_LEN
    }

    /// The table right after start-up: the idle task alone, running, with
    /// no saved context yet.
    pub open spec fn initial() -> TableModel {
        TableModel {
            tasks: Seq::new(
                MAX_TASKS as nat,
                |i: int|
                    if i == 0 {
                        TaskView {
                            id: 0,
                            stack_top: 0,
                            state: TaskState::Running,
                            priority: Priority::Idle,
                            remaining_slices: 1,
                            name: idle_name(),
                        }
                    } else {
                        crate::sched::task::empty_task()
                    },
            ),
            count: 1,
            current: 0,
            next_pid: 1,
            enabled: false,
        }
    }

    /// The table with slot `i` replaced.
    pub open spec fn with_task(self, i: int, t: TaskView) -> TableModel {
        TableModel { tasks: self.tasks.update(i, t), ..self }
    }

    /// The table with the state of slot `i` replaced.
    pub open spec fn with_state(self, i: int, state: TaskState) -> TableModel {
        self.with_task(i, TaskView { state, ..self.tasks[i] })
    }

    /// The table with the tick budget of slot `i` refilled.
    pub open spec fn refilled(self, i: int) -> TableModel {
        self.with_task(
            i,
            TaskView { remaining_slices: self.tasks[i].full_slice(), ..self.tasks[i] },
        )
    }

    /// The table with the saved stack pointer of slot `i` replaced.
    pub open spec fn with_saved_context(self, i: int, sp: u64) -> TableModel {
        self.with_task(i, TaskView { stack_top: sp, ..self.tasks[i] })
    }

    /// Whether slot 0 has a context to resume: it has one once it has been
    /// switched away from.
    pub open spec fn idle_valid(self) -> bool {
        self.tasks[0].stack_top != 0
    }

    /// Whether decisions are taken: scheduling is enabled and there is more
    /// than one task.
    pub open spec fn scheduling(self) -> bool {
        self.enabled && self.count > 1
    }

    /// Whether slot `i` holds a task that may be given the processor.
    pub open spec fn eligible(self, i: int) -> bool {
        &&& 0 <= i < self.count
        &&& self.tasks[i].state == TaskState::Ready
        &&& (i == 0 ==> self.idle_valid())
    }

    /// Whether slot `i` may be switched to: it is eligible and not current.
    pub open spec fn candidate(self, i: int) -> bool {
        self.eligible(i) && i != self.current
    }

    /// Steps from the current slot forward to slot `i`, wrapping at the end
    /// of the slots in use.
    pub open spec fn distance(self, i: int) -> int {
        if i > self.current {
            i - self.current
        } else {
            i - self.current + self.count
        }
    }

    /// Whether slot `a` is to be chosen rather than slot `b`: its priority is
    /// higher, or equal and `a` comes no later after the current slot.
    pub open spec fn preferred(self, a: int, b: int) -> bool {
        let ra = self.tasks[a].priority.rank();
        let rb = self.tasks[b].priority.rank();
        ra > rb || (ra == rb && self.distance(a) <= self.distance(b))
    }

    /// Whether slot `b` is the one to switch to.
    pub open spec fn is_choice(self, b: int) -> bool {
        &&& self.candidate(b)
        &&& forall|j: int| #[trigger] self.candidate(j) ==> self.preferred(b, j)
    }

    /// Whether some slot may be switched to.
    pub open spec fn has_candidate(self) -> bool {
        exists|i: int| self.candidate(i)
    }

    /// The slot to switch to, where there is a candidate.
    pub open spec fn choice(self) -> int {
        choose|b: int| self.is_choice(b)
    }

    /// The table after a switch to slot `b`: the outgoing task, if it was
    /// running, is ready again; the incoming one runs with a full budget.
    pub open spec fn switched_to(self, b: int) -> TableModel {
        let out = self.tasks[self.current];
        let parked = if out.state == TaskState::Running {
            self.with_state(self.current, TaskState::Ready)
        } else {
            self
        };
        let inc = parked.tasks[b];
        TableModel {
            tasks: parked.tasks.update(
                b,
                TaskView {
                    state: TaskState::Running,
                    remaining_slices: inc.full_slice(),
                    ..inc
                },
            ),
            current: b,
            ..self
        }
    }

    /// The table after the idle task has been put back in charge.
    pub open spec fn fell_back(self) -> TableModel {
        TableModel { current: 0, ..self.with_state(0, TaskState::Running) }
    }

    /// The table after a scheduling decision.
    pub open spec fn after_schedule(self) -> TableModel {
        if !self.scheduling() {
            self
        } else if self.has_candidate() {
            self.switched_to(self.choice())
        } else {
            match self.tasks[self.current].state {
                TaskState::Running => self.refilled(self.current),
                TaskState::Ready => if self.eligible(self.current) {
                    self.refilled(self.current)
                } else {
                    self
                },
                TaskState::Dead | TaskState::Blocked => if self.idle_valid() {
                    self.fell_back()
                } else {
                    self
                },
                TaskState::Unused => self,
            }
        }
    }

    /// What a scheduling decision asks of its caller.
    pub open spec fn schedule_action(self) -> SwitchAction {
        if !self.scheduling() {
            SwitchAction::Stay
        } else if self.has_candidate() {
            SwitchAction::Switch { from: self.current as usize, to: self.choice() as usize }
        } else {
            match self.tasks[self.current].state {
                TaskState::Dead | TaskState::Blocked => if self.idle_valid() {
                    SwitchAction::Switch { from: self.current as usize, to: 0 }
                } else {
                    SwitchAction::Halt
                },
                _ => SwitchAction::Stay,
            }
        }
    }

    /// The table with one tick taken from the current task's budget.
    pub open spec fn charged(self) -> TableModel {
        let t = self.tasks[self.current];
        if t.remaining_slices > 0 {
            self.with_task(
                self.current,
                TaskView { remaining_slices: (t.remaining_slices - 1) as nat, ..t },
            )
        } else {
            self
        }
    }

    /// Whether a tick, delivered now, uses up the current task's budget.
    pub open spec fn tick_expires(self) -> bool {
        self.scheduling() && self.tasks[self.current].remaining_slices <= 1
    }

    /// The table after a timer tick.
    pub open spec fn after_tick(self) -> TableModel {
        if !self.scheduling() {
            self
        } else if self.tick_expires() {
            self.charged().after_schedule()
        } else {
            self.charged()
        }
    }

    /// What a timer tick asks of its caller.
    pub open spec fn tick_action(self) -> SwitchAction {
        if self.tick_expires() {
            self.charged().schedule_action()
        } else {
            SwitchAction::Stay
        }
    }

    /// The table after the current task has ended.
    pub open spec fn after_exit(self) -> TableModel {
        self.with_state(self.current, TaskState::Dead).after_schedule()
    }

    /// What the end of the current task asks of its caller: a switch, or a
    /// halt where there is nothing to switch to.
    pub open spec fn exit_action(self) -> SwitchAction {
        match self.with_state(self.current, TaskState::Dead).schedule_action() {
            SwitchAction::Switch { from, to } => SwitchAction::Switch { from, to },
            _ => SwitchAction::Halt,
        }
    }

    /// The table after the current task has suspended itself.
    pub open spec fn after_block(self) -> TableModel {
        self.with_state(self.current, TaskState::Blocked).after_schedule()
    }

    /// What the suspension of the current task asks of its caller.
    pub open spec fn block_action(self) -> SwitchAction {
        self.with_state(self.current, TaskState::Blocked).schedule_action()
    }

    /// Whether slot `i` holds the blocked task with identifier `pid`.
    pub open spec fn wakes(self, i: int, pid: int) -> bool {
        &&& 0 <= i < self.count
        &&& self.tasks[i].id == pid
        &&& self.tasks[i].state == TaskState::Blocked
    }

    /// The table after the task with identifier `pid` has been woken: if it
    /// is blocked it is ready; nothing else changes.
    pub open spec fn after_wake(self, pid: int) -> TableModel {
        TableModel {
            tasks: Seq::new(
                self.tasks.len(),
                |i: int|
                    if self.wakes(i, pid) {
                        TaskView { state: TaskState::Ready, ..self.tasks[i] }
                    } else {
                        self.tasks[i]
                    },
            ),
            ..self
        }
    }

    /// Whether every slot is in use.
    pub open spec fn full(self) -> bool {
        self.count >= MAX_TASKS
    }

    /// The table after a task has been added; unchanged where it is full.
    pub open spec fn after_spawn(self, req: SpawnRequest) -> TableModel {
        if self.full() {
            self
        } else {
            let slot = self.tasks[self.count];
            let fresh = TaskView {
                id: self.next_pid as nat,
                stack_top: req.stack_top,
                state: TaskState::Ready,
                priority: req.priority,
                remaining_slices: 0,
                name: stored_name(slot.name, req.name),
            };
            TableModel {
                tasks: self.tasks.update(
                    self.count,
                    TaskView { remaining_slices: fresh.full_slice(), ..fresh },
                ),
                count: self.count + 1,
                next_pid: self.next_pid + 1,
                ..self
            }
        }
    }

    /// The table with scheduling enabled.
    pub open spec fn after_enable(self) -> TableModel {
        TableModel { enabled: true, ..self }
    }
}

/// The idle task's label field: `idle`, then zero bytes.
pub open spec fn idle_name() -> Seq<u8> {
    Seq::new(
        NAME_LEN as nat,
        |k: int|
            if k == 0 {
                0x69u8
            } else if k == 1 {
                0x64u8
            } else if k == 2 {
                0x6cu8
            } else if k == 3 {
                0x65u8
            } else {
                0u8
            },
    )
}

/// Distinct slots in use lie at distinct distances from the current slot,
/// each between 1 and the number of slots in use.
pub proof fn lemma_distance(m: TableModel, i: int, j: int)
    requires
        0 <= m.current < m.count,
        0 <= i < m.count,
        0 <= j < m.count,
    ensures
        1 <= m.distance(i) <= m.count,
        m.distance(i) == m.count <==> i == m.current,
        m.distance(i) == m.distance(j) ==> i == j,
{
}

/// At most one slot is the one to switch to.
pub proof fn lemma_choice_unique(m: TableModel, a: int, b: int)
    requires
        0 <= m.current < m.count,
        m.is_choice(a),
        m.is_choice(b),
    ensures
        a == b,
{
    assert(m.candidate(a) && m.candidate(b));
    assert(m.preferred(a, b));
    assert(m.preferred(b, a));
    lemma_distance(m, a, b);
}

/// A slot that is the one to switch to is `choice()`.
pub proof fn lemma_choice_is(m: TableModel, b: int)
    requires
        0 <= m.current < m.count,
        m.is_choice(b),
    ensures
        m.has_candidate(),
        m.choice() == b,
{
    assert(m.candidate(b));
    lemma_choice_unique(m, m.choice(), b);
}

/// Where there is a candidate, one of them is the one to switch to.
pub proof fn lemma_choice_exists(m: TableModel)
    requires
        m.wf(),
        m.has_candidate(),
    ensures
        m.is_choice(m.choice()),
{
    let b = best_upto(m, m.count);
    lemma_best_upto(m, m.count);
    assert forall|j: int| #[trigger] m.candidate(j) implies m.preferred(b, j) by {
        lemma_distance(m, j, j);
    }
    let w = choose|i: int| m.candidate(i);
    lemma_distance(m, w, w);
    assert(m.is_choice(b));
}

/// The slot at distance `d` after the current one.
pub open spec fn slot_at(m: TableModel, d: int) -> int {
    if m.current + d < m.count {
        m.current + d
    } else {
        m.current + d - m.count
    }
}

/// The best candidate at a distance below `d`, or -1 where there is none.
pub open spec fn best_upto(m: TableModel, d: int) -> int
    decreases d,
{
    if d <= 1 {
        -1
    } else {
        let prev = best_upto(m, d - 1);
        let idx = slot_at(m, d - 1);
        if m.candidate(idx) && (prev < 0 || m.tasks[idx].priority.rank()
            > m.tasks[prev].priority.rank()) {
            idx
        } else {
            prev
        }
    }
}

/// Whether `best` is the scan's result over the distances below `d`: -1
/// where no candidate lies there, else a candidate there that is preferred
/// to every other one there.
pub open spec fn scanned(m: TableModel, d: int, best: int) -> bool {
    &&& best < 0 ==> forall|j: int| #[trigger] m.candidate(j) ==> m.distance(j) >= d
    &&& best >= 0 ==> {
        &&& m.candidate(best)
        &&& m.distance(best) < d
        &&& forall|j: int| #[trigger] m.candidate(j) && m.distance(j) < d ==> m.preferred(best, j)
    }
}

/// One step of the scan: from the result below distance `d` to the one
/// below `d + 1`.
pub proof fn lemma_scan_step(m: TableModel, d: int, prev: int, next: int)
    requires
        m.wf(),
        1 <= d < m.count,
        scanned(m, d, prev),
        prev >= -1,
        next == if m.candidate(slot_at(m, d)) && (prev < 0 || m.tasks[slot_at(m, d)].priority.rank()
            > m.tasks[prev].priority.rank()) {
            slot_at(m, d)
        } else {
            prev
        },
    ensures
        scanned(m, d + 1, next),
        0 <= slot_at(m, d) < m.count,
        m.distance(slot_at(m, d)) == d,
        slot_at(m, d) != m.current,
{
    let idx = slot_at(m, d);
    assert forall|j: int| #[trigger] m.candidate(j) && m.distance(j) <= d implies m.distance(j) < d
        || j == idx by {
        lemma_distance(m, j, idx);
    }
    if next >= 0 {
        assert forall|j: int| #[trigger] m.candidate(j) && m.distance(j) < d + 1 implies m.preferred(
            next,
            j,
        ) by {
            if j != idx {
                assert(m.distance(j) < d);
                if prev >= 0 {
                    assert(m.preferred(prev, j));
                }
            }
        }
    } else {
        assert forall|j: int| #[trigger] m.candidate(j) implies m.distance(j) >= d + 1 by {
            if m.distance(j) <= d {
                assert(m.distance(j) >= d);
                assert(j == idx);
            }
        }
    }
}

proof fn lemma_best_upto(m: TableModel, d: int)
    requires
        m.wf(),
        1 <= d <= m.count,
    ensures
        scanned(m, d, best_upto(m, d)),
        best_upto(m, d) >= -1,
    decreases d,
{
    if d <= 1 {
        assert forall|j: int| #[trigger] m.candidate(j) implies m.distance(j) >= 1 by {
            lemma_distance(m, j, j);
        }
    } else {
        lemma_best_upto(m, d - 1);
        lemma_scan_step(m, d - 1, best_upto(m, d - 1), best_upto(m, d));
    }
}

} // verus!

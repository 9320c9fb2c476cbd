//! Priority scheduling over a fixed table of tasks.
//!
//! The table holds the task control blocks; one of them owns the
//! processor. A decision names the task to run next and says whether the
//! caller has to switch register contexts; the switch itself, and the
//! allocation of stacks, are the caller's part.

pub mod model;
pub mod task;
pub mod wellformed;
pub mod laws;

use vstd::prelude::*;
use vstd::string::StringSliceAdditionalSpecFns;
use crate::context::{
    frame_of, kernel_start, user_start, SwitchFrame, FRAME_BYTES, KERNEL_STACK_SIZE,
    USER_STACK_SIZE,
};
use crate::sched::model::{lemma_choice_is, lemma_scan_step, scanned, slot_at};
use crate::sched::wellformed::{
    lemma_block_wf, lemma_charged_wf, lemma_enable_wf, lemma_exit_wf, lemma_initial_wf,
    lemma_saved_context_wf, lemma_schedule_wf, lemma_spawn_wf, lemma_tick_wf, lemma_wake_wf,
    lemma_with_state_wf,
};

pub use model::{SpawnRequest, SwitchAction, TableModel, MAX_TASKS};
pub use task::{Priority, Task, TaskState, TaskView};

verus! {

/// The task table and the scheduler's registers.
pub struct Scheduler {
    tasks: [Task; 16],
    task_count: usize,
    current_task: usize,
    next_pid: usize,
    enabled: bool,
}

/// Why a task could not be added.
#[derive(Debug, Clone, Copy, PartialEq, Eq, Structural)]
pub enum SpawnError {
    /// Every slot of the table is in use.
    TableFull,
    /// No stack was handed in: the address is null, or the region would
    /// reach past the end of the address space.
    StackUnavailable,
}

/// What the caller has to write to memory for a task that has been added.
#[derive(Debug, Clone, Copy)]
pub struct SpawnPlan {
    /// The identifier of the new task.
    pub id: usize,
    /// The slot that holds it.
    pub slot: usize,
    /// Where on the kernel stack the frame belongs: the task's saved stack
    /// pointer.
    pub frame_address: u64,
    /// The frame from which the task first runs.
    pub frame: SwitchFrame,
}

/// Whether `size` bytes from `base` make a region of memory: `base` is not
/// null and the region ends within the address space.
pub open spec fn region_ok(base: u64, size: u64) -> bool {
    base != 0 && base + size <= u64::MAX
}

impl View for Scheduler {
    type V = TableModel;

    closed spec fn view(&self) -> TableModel {
        TableModel {
            tasks: Seq::new(MAX_TASKS as nat, |i: int| self.tasks@[i]@),
            count: self.task_count as int,
            current: self.current_task as int,
            next_pid: self.next_pid as int,
            enabled: self.enabled,
        }
    }
}

impl Scheduler {
    /// The table's invariant.
    pub open spec fn wf(&self) -> bool {
        self@.wf()
    }
}

/// The table at start-up: the caller's own context is the idle task, in
/// slot 0, and scheduling is off.
pub fn init() -> (table: Scheduler)
    ensures
        table.wf(),
        table@ == TableModel::initial(),
{
    let mut tasks: [Task; 16] = [Task::empty(); 16];
    tasks[0] = Task {
        id: 0,
        stack_top: 0,
        state: TaskState::Running,
        priority: Priority::Idle,
        remaining_slices: 1,
        name: [0x69, 0x64, 0x6c, 0x65, 0, 0, 0, 0, 0, 0, 0, 0, 0, 0, 0, 0],
    };
    let table = Scheduler { tasks, task_count: 1, current_task: 0, next_pid: 1, enabled: false };
    proof {
        assert(table.tasks@[0]@.name =~= crate::sched::model::idle_name());
        assert(table@.tasks =~= TableModel::initial().tasks);
        lemma_initial_wf();
    }
    table
}

/// Turns scheduling on.
pub fn enable(table: &mut Scheduler)
    requires
        old(table).wf(),
    ensures
        final(table).wf(),
        final(table)@ == old(table)@.after_enable(),
{
    table.enabled = true;
    proof {
        lemma_enable_wf(old(table)@);
    }
}

/// Whether scheduling is on.
pub fn is_enabled(table: &Scheduler) -> (b: bool)
    ensures
        b == table@.enabled,
{
    table.enabled
}

/// The number of tasks in the table, the idle task included.
pub fn task_count(table: &Scheduler) -> (n: usize)
    ensures
        n == table@.count,
{
    table.task_count
}

/// The identifier of the task that owns the processor.
pub fn current_task_id(table: &Scheduler) -> (id: usize)
    requires
        table.wf(),
    ensures
        id == table@.tasks[table@.current].id,
{
    table.tasks[table.current_task].id
}

/// The slot of the task that owns the processor.
pub fn current_slot(table: &Scheduler) -> (slot: usize)
    ensures
        slot == table@.current,
{
    table.current_task
}

/// The task control blocks in use, in table order: the rows of a listing.
pub fn print_tasks(table: &Scheduler) -> (rows: Vec<Task>)
    requires
        table.wf(),
    ensures
        rows@.len() == table@.count,
        forall|i: int| 0 <= i < rows@.len() ==> rows@[i]@ == table@.tasks[i],
{
    let mut rows: Vec<Task> = Vec::new();
    let mut i: usize = 0;
    while i < table.task_count
        invariant
            table.wf(),
            i <= table.task_count,
            rows@.len() == i,
            forall|k: int| 0 <= k < i ==> rows@[k]@ == table@.tasks[k],
        decreases table.task_count - i,
    {
        rows.push(table.tasks[i]);
        i += 1;
    }
    rows
}

/// The saved stack pointer of a slot.
pub fn saved_context(table: &Scheduler, slot: usize) -> (sp: u64)
    requires
        slot < MAX_TASKS,
    ensures
        sp == table@.tasks[slot as int].stack_top,
{
    table.tasks[slot].stack_top
}

/// The saved stack pointer of a slot, to be written.
fn slot_mut(table: &mut Scheduler, slot: usize) -> (sp: &mut u64)
    requires
        slot < MAX_TASKS,
    ensures
        *sp == old(table).tasks@[slot as int].stack_top,
        final(table).tasks@ == old(table).tasks@.update(
            slot as int,
            (Task { stack_top: *final(sp), ..old(table).tasks@[slot as int] }),
        ),
        final(table).task_count == old(table).task_count,
        final(table).current_task == old(table).current_task,
        final(table).next_pid == old(table).next_pid,
        final(table).enabled == old(table).enabled,
{
    &mut table.tasks[slot].stack_top
}

/// The place where a switch away from `slot` stores the stack pointer.
pub fn saved_context_mut(table: &mut Scheduler, slot: usize) -> (sp: &mut u64)
    requires
        old(table).wf(),
        slot < MAX_TASKS,
    ensures
        *sp == old(table)@.tasks[slot as int].stack_top,
        final(table)@ == old(table)@.with_saved_context(slot as int, *final(sp)),
        final(table).wf(),
{
    proof {
        let before = *old(table);
        assert forall|after: Scheduler, v: u64| slot_written(before, after, slot as int, v) implies {
            &&& #[trigger] after@ == #[trigger] before@.with_saved_context(slot as int, v)
            &&& after.wf()
        } by {
            assert(after@.tasks =~= before@.with_saved_context(slot as int, v).tasks);
            lemma_saved_context_wf(before@, slot as int, v);
        }
    }
    slot_mut(table, slot)
}

/// Whether `after` is `before` with `v` as the saved stack pointer of `slot`.
spec fn slot_written(before: Scheduler, after: Scheduler, slot: int, v: u64) -> bool {
    &&& after.tasks@ == before.tasks@.update(slot, (Task { stack_top: v, ..before.tasks@[slot] }))
    &&& after.task_count == before.task_count
    &&& after.current_task == before.current_task
    &&& after.next_pid == before.next_pid
    &&& after.enabled == before.enabled
}

/// Adds a kernel thread with the label `task` and normal priority.
pub fn spawn(table: &mut Scheduler, entry: u64, trampoline: u64, stack_base: u64) -> (r: Result<
    SpawnPlan,
    SpawnError,
>)
    requires
        old(table).wf(),
    ensures
        final(table).wf(),
        spawn_kernel_post(
            old(table)@,
            final(table)@,
            entry,
            trampoline,
            stack_base,
            "task".spec_bytes(),
            Priority::Normal,
            r,
        ),
{
    spawn_named(table, entry, trampoline, stack_base, "task", Priority::Normal)
}

/// What `spawn_named` promises.
pub open spec fn spawn_kernel_post(
    before: TableModel,
    after: TableModel,
    entry: u64,
    trampoline: u64,
    stack_base: u64,
    name: Seq<u8>,
    priority: Priority,
    r: Result<SpawnPlan, SpawnError>,
) -> bool {
    if before.full() {
        r == Err::<SpawnPlan, SpawnError>(SpawnError::TableFull) && after == before
    } else if !region_ok(stack_base, KERNEL_STACK_SIZE) {
        r == Err::<SpawnPlan, SpawnError>(SpawnError::StackUnavailable) && after == before
    } else {
        &&& r matches Ok(plan)
        &&& plan.id == before.next_pid
        &&& plan.slot == before.count
        &&& plan.frame_address == stack_base + KERNEL_STACK_SIZE - FRAME_BYTES
        &&& plan.frame@ == frame_of(kernel_start(entry, trampoline))
        &&& after == before.after_spawn(
            SpawnRequest { stack_top: plan.frame_address, name, priority },
        )
    }
}

/// What `spawn_user` promises.
pub open spec fn spawn_user_post(
    before: TableModel,
    after: TableModel,
    entry: u64,
    trampoline: u64,
    kernel_stack_base: u64,
    user_stack_base: u64,
    name: Seq<u8>,
    r: Result<SpawnPlan, SpawnError>,
) -> bool {
    if before.full() {
        r == Err::<SpawnPlan, SpawnError>(SpawnError::TableFull) && after == before
    } else if !region_ok(kernel_stack_base, KERNEL_STACK_SIZE) || !region_ok(
        user_stack_base,
        USER_STACK_SIZE,
    ) {
        r == Err::<SpawnPlan, SpawnError>(SpawnError::StackUnavailable) && after == before
    } else {
        &&& r matches Ok(plan)
        &&& plan.id == before.next_pid
        &&& plan.slot == before.count
        &&& plan.frame_address == kernel_stack_base + KERNEL_STACK_SIZE - FRAME_BYTES
        &&& plan.frame@ == frame_of(
            user_start(entry, (user_stack_base + USER_STACK_SIZE) as u64, trampoline),
        )
        &&& after == before.after_spawn(
            SpawnRequest { stack_top: plan.frame_address, name, priority: Priority::Normal },
        )
    }
}

/// Whether `size` bytes from `base` make a region of memory.
fn stack_region_ok(base: u64, size: u64) -> (b: bool)
    ensures
        b == region_ok(base, size),
{
    base != 0 && base <= u64::MAX - size
}

/// Enters a task into the first free slot.
fn insert(table: &mut Scheduler, stack_top: u64, name: &str, priority: Priority) -> (id: usize)
    requires
        old(table).wf(),
        !old(table)@.full(),
    ensures
        final(table).wf(),
        id == old(table)@.next_pid,
        final(table)@ == old(table)@.after_spawn(
            SpawnRequest { stack_top, name: name.spec_bytes(), priority },
        ),
{
    let slot = table.task_count;
    let id = table.next_pid;
    table.next_pid = table.next_pid + 1;
    table.tasks[slot].id = id;
    table.tasks[slot].stack_top = stack_top;
    table.tasks[slot].state = TaskState::Ready;
    table.tasks[slot].priority = priority;
    table.tasks[slot].set_name(name);
    table.tasks[slot].reset_time_slice();
    table.task_count = table.task_count + 1;
    proof {
        let req = SpawnRequest { stack_top, name: name.spec_bytes(), priority };
        assert(table@.tasks =~= old(table)@.after_spawn(req).tasks);
        lemma_spawn_wf(old(table)@, req);
    }
    id
}

/// Adds a kernel thread that starts at `entry`.
///
/// `stack_base` is the lowest address of the `KERNEL_STACK_SIZE` bytes
/// allocated for its stack, or 0 where the allocation failed, and
/// `trampoline` the address of the routine that a first switch to the task
/// returns into. Where the table is full or there is no stack, nothing
/// changes.
pub fn spawn_named(
    table: &mut Scheduler,
    entry: u64,
    trampoline: u64,
    stack_base: u64,
    name: &str,
    priority: Priority,
) -> (r: Result<SpawnPlan, SpawnError>)
    requires
        old(table).wf(),
    ensures
        final(table).wf(),
        spawn_kernel_post(
            old(table)@,
            final(table)@,
            entry,
            trampoline,
            stack_base,
            name.spec_bytes(),
            priority,
            r,
        ),
{
    if table.task_count >= MAX_TASKS {
        return Err(SpawnError::TableFull);
    }
    if !stack_region_ok(stack_base, KERNEL_STACK_SIZE) {
        return Err(SpawnError::StackUnavailable);
    }
    let slot = table.task_count;
    let frame_address = stack_base + KERNEL_STACK_SIZE - FRAME_BYTES;
    let frame = SwitchFrame::for_kernel_task(entry, trampoline);
    let id = insert(table, frame_address, name, priority);
    Ok(SpawnPlan { id, slot, frame_address, frame })
}

/// Adds a user process that starts at `entry_addr`, with normal priority.
///
/// `kernel_stack_base` and `user_stack_base` are the lowest addresses of
/// the `KERNEL_STACK_SIZE` and `USER_STACK_SIZE` bytes allocated for its two
/// stacks, or 0 where an allocation failed. Where the table is full or a
/// stack is missing, nothing changes.
pub fn spawn_user(
    table: &mut Scheduler,
    entry_addr: u64,
    trampoline: u64,
    kernel_stack_base: u64,
    user_stack_base: u64,
    name: &str,
) -> (r: Result<SpawnPlan, SpawnError>)
    requires
        old(table).wf(),
    ensures
        final(table).wf(),
        spawn_user_post(
            old(table)@,
            final(table)@,
            entry_addr,
            trampoline,
            kernel_stack_base,
            user_stack_base,
            name.spec_bytes(),
            r,
        ),
{
    if table.task_count >= MAX_TASKS {
        return Err(SpawnError::TableFull);
    }
    if !stack_region_ok(kernel_stack_base, KERNEL_STACK_SIZE) || !stack_region_ok(
        user_stack_base,
        USER_STACK_SIZE,
    ) {
        return Err(SpawnError::StackUnavailable);
    }
    let slot = table.task_count;
    let user_stack_top = user_stack_base + USER_STACK_SIZE;
    let frame_address = kernel_stack_base + KERNEL_STACK_SIZE - FRAME_BYTES;
    let frame = SwitchFrame::for_user_task(entry_addr, user_stack_top, trampoline);
    let id = insert(table, frame_address, name, Priority::Normal);
    Ok(SpawnPlan { id, slot, frame_address, frame })
}

/// Ends the current task and decides what runs next. The caller does not
/// come back to the task: it switches, or halts where nothing can run.
pub fn exit_current_task(table: &mut Scheduler) -> (action: SwitchAction)
    requires
        old(table).wf(),
    ensures
        final(table).wf(),
        final(table)@ == old(table)@.after_exit(),
        action == old(table)@.exit_action(),
{
    let current = table.current_task;
    table.tasks[current].state = TaskState::Dead;
    proof {
        assert(table@.tasks =~= old(table)@.with_state(old(table)@.current, TaskState::Dead).tasks);
        lemma_with_state_wf(old(table)@, TaskState::Dead);
        lemma_exit_wf(old(table)@);
    }
    match schedule(table) {
        SwitchAction::Switch { from, to } => SwitchAction::Switch { from, to },
        _ => SwitchAction::Halt,
    }
}

/// Suspends the current task until it is woken, and decides what runs next.
pub fn block_current_task(table: &mut Scheduler) -> (action: SwitchAction)
    requires
        old(table).wf(),
    ensures
        final(table).wf(),
        final(table)@ == old(table)@.after_block(),
        action == old(table)@.block_action(),
{
    let current = table.current_task;
    table.tasks[current].state = TaskState::Blocked;
    proof {
        assert(table@.tasks =~= old(table)@.with_state(
            old(table)@.current,
            TaskState::Blocked,
        ).tasks);
        lemma_with_state_wf(old(table)@, TaskState::Blocked);
        lemma_block_wf(old(table)@);
    }
    schedule(table)
}

/// Makes the blocked task with identifier `pid` ready. It runs when a later
/// decision selects it.
pub fn wake_task(table: &mut Scheduler, pid: usize)
    requires
        old(table).wf(),
    ensures
        final(table).wf(),
        final(table)@ == old(table)@.after_wake(pid as int),
{
    proof {
        lemma_wake_wf(old(table)@, pid as int);
    }
    let mut i: usize = 0;
    while i < table.task_count
        invariant
            *table == *old(table),
            table.wf(),
            i <= table.task_count,
            forall|k: int| 0 <= k < i ==> !table@.wakes(k, pid as int),
        decreases table.task_count - i,
    {
        if table.tasks[i].id == pid && table.tasks[i].state == TaskState::Blocked {
            table.tasks[i].state = TaskState::Ready;
            proof {
                let before = old(table)@;
                assert(before.wakes(i as int, pid as int));
                assert forall|k: int| 0 <= k < MAX_TASKS && k != i implies !before.wakes(
                    k,
                    pid as int,
                ) by {
                    if i < k < before.count {
                        assert(before.tasks[k].id == k);
                    }
                }
                assert(table@.tasks =~= before.after_wake(pid as int).tasks);
            }
            return ;
        }
        i += 1;
    }
    assert(table@.tasks =~= old(table)@.after_wake(pid as int).tasks);
}

/// Accounts for one timer tick: the current task loses a tick of its
/// budget, and when none is left a decision is taken.
pub fn tick(table: &mut Scheduler) -> (action: SwitchAction)
    requires
        old(table).wf(),
    ensures
        final(table).wf(),
        final(table)@ == old(table)@.after_tick(),
        action == old(table)@.tick_action(),
{
    if !table.enabled || table.task_count <= 1 {
        return SwitchAction::Stay;
    }
    let current = table.current_task;
    if table.tasks[current].remaining_slices > 0 {
        table.tasks[current].remaining_slices = table.tasks[current].remaining_slices - 1;
    }
    proof {
        assert(table@.tasks =~= old(table)@.charged().tasks);
        lemma_charged_wf(old(table)@);
        lemma_tick_wf(old(table)@);
    }
    if table.tasks[current].remaining_slices == 0 {
        schedule(table)
    } else {
        SwitchAction::Stay
    }
}

/// Decides which task runs next.
///
/// Among the ready tasks other than the current one, the one of highest
/// priority is chosen, and among several of that priority the one that
/// comes first after the current slot, the table taken as a ring. The idle
/// task in slot 0 counts only once it has a saved context.
pub fn schedule(table: &mut Scheduler) -> (action: SwitchAction)
    requires
        old(table).wf(),
    ensures
        final(table).wf(),
        final(table)@ == old(table)@.after_schedule(),
        action == old(table)@.schedule_action(),
{
    let count = table.task_count;
    if count <= 1 || !table.enabled {
        return SwitchAction::Stay;
    }
    proof {
        lemma_schedule_wf(old(table)@);
    }
    let current = table.current_task;
    let ghost m = table@;
    let mut found = false;
    let mut best: usize = current;
    let mut d: usize = 1;
    proof {
        assert forall|j: int| #[trigger] m.candidate(j) implies m.distance(j) >= 1 by {
            crate::sched::model::lemma_distance(m, j, j);
        }
    }
    while d < count
        invariant
            *table == *old(table),
            m == table@,
            m.wf(),
            count == m.count,
            current == m.current,
            1 <= d <= count,
            found ==> best < count,
            scanned(m, d as int, if found { best as int } else { -1 }),
        decreases count - d,
    {
        let idx = if current + d < count { current + d } else { current + d - count };
        let ghost prev = if found { best as int } else { -1 };
        let idle_unset = idx == 0 && table.tasks[0].stack_top == 0;
        if !idle_unset && table.tasks[idx].state == TaskState::Ready {
            if !found || table.tasks[idx].priority.outranks(&table.tasks[best].priority) {
                best = idx;
                found = true;
            }
        }
        proof {
            assert(idx == slot_at(m, d as int));
            lemma_scan_step(m, d as int, prev, if found { best as int } else { -1 });
        }
        d += 1;
    }
    if found {
        proof {
            assert forall|j: int| #[trigger] m.candidate(j) implies m.preferred(best as int, j) by {
                crate::sched::model::lemma_distance(m, j, j);
            }
            lemma_choice_is(m, best as int);
        }
        if table.tasks[current].state == TaskState::Running {
            table.tasks[current].state = TaskState::Ready;
        }
        table.tasks[best].state = TaskState::Running;
        table.tasks[best].reset_time_slice();
        table.current_task = best;
        assert(table@.tasks =~= m.switched_to(best as int).tasks);
        return SwitchAction::Switch { from: current, to: best };
    }
    proof {
        assert forall|j: int| !m.candidate(j) by {
            if m.candidate(j) {
                crate::sched::model::lemma_distance(m, j, j);
            }
        }
        assert(!m.has_candidate());
    }
    match table.tasks[current].state {
        TaskState::Running => {
            table.tasks[current].reset_time_slice();
            assert(table@.tasks =~= m.refilled(m.current).tasks);
            SwitchAction::Stay
        },
        TaskState::Ready => {
            if !(current == 0 && table.tasks[0].stack_top == 0) {
                table.tasks[current].reset_time_slice();
                assert(table@.tasks =~= m.refilled(m.current).tasks);
            }
            SwitchAction::Stay
        },
        TaskState::Dead | TaskState::Blocked => {
            if table.tasks[0].stack_top != 0 {
                table.tasks[0].state = TaskState::Running;
                table.current_task = 0;
                assert(table@.tasks =~= m.fell_back().tasks);
                SwitchAction::Switch { from: current, to: 0 }
            } else {
                SwitchAction::Halt
            }
        },
        TaskState::Unused => SwitchAction::Stay,
    }
}

} // verus!

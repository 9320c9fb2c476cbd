//! What holds of the scheduler over whole histories.

use vstd::prelude::*;
use crate::sched::model::{
    lemma_choice_exists, lemma_distance, slot_at, SpawnRequest, SwitchAction, TableModel,
    MAX_TASKS,
};
use crate::sched::task::{Priority, TaskState, TaskView, BASE_TIME_SLICE};
use crate::sched::wellformed::{
    lemma_block_wf, lemma_charged_wf, lemma_enable_wf, lemma_exit_wf, lemma_initial_wf,
    lemma_saved_context_wf, lemma_schedule_wf, lemma_spawn_wf, lemma_switched_wf, lemma_tick_wf,
    lemma_wake_wf, lemma_with_state_wf,
};

verus! {

/// Something that happens to the task table.
pub enum Event {
    /// A task is added.
    Spawn(SpawnRequest),
    /// Scheduling is turned on.
    Enable,
    /// A task yields.
    Schedule,
    /// The timer fires.
    Tick,
    /// The current task ends.
    Exit,
    /// The current task suspends itself.
    Block,
    /// The task with this identifier is woken.
    Wake(int),
    /// A switch stores the stack pointer of the task it leaves.
    ContextSaved { slot: int, sp: u64 },
}

/// The table after one event.
pub open spec fn step(m: TableModel, e: Event) -> TableModel {
    match e {
        Event::Spawn(req) => m.after_spawn(req),
        Event::Enable => m.after_enable(),
        Event::Schedule => m.after_schedule(),
        Event::Tick => m.after_tick(),
        Event::Exit => m.after_exit(),
        Event::Block => m.after_block(),
        Event::Wake(pid) => m.after_wake(pid),
        Event::ContextSaved { slot, sp } => if 0 <= slot < MAX_TASKS {
            m.with_saved_context(slot, sp)
        } else {
            m
        },
    }
}

/// The table after a history of events, the first of them first.
pub open spec fn run(m: TableModel, events: Seq<Event>) -> TableModel
    decreases events.len(),
{
    if events.len() == 0 {
        m
    } else {
        step(run(m, events.drop_last()), events.last())
    }
}

/// Every event keeps the table's invariant.
pub proof fn lemma_step_wf(m: TableModel, e: Event)
    requires
        m.wf(),
    ensures
        step(m, e).wf(),
{
    match e {
        Event::Spawn(req) => lemma_spawn_wf(m, req),
        Event::Enable => lemma_enable_wf(m),
        Event::Schedule => lemma_schedule_wf(m),
        Event::Tick => lemma_tick_wf(m),
        Event::Exit => lemma_exit_wf(m),
        Event::Block => lemma_block_wf(m),
        Event::Wake(pid) => lemma_wake_wf(m, pid),
        Event::ContextSaved { slot, sp } => {
            if 0 <= slot < MAX_TASKS {
                lemma_saved_context_wf(m, slot, sp);
            }
        },
    }
}

/// The table's invariant holds throughout: whatever happens to a table
/// that meets it, the table meets it afterwards.
pub proof fn law_table_stays_well_formed(m: TableModel, events: Seq<Event>)
    requires
        m.wf(),
    ensures
        run(m, events).wf(),
    decreases events.len(),
{
    if events.len() > 0 {
        law_table_stays_well_formed(m, events.drop_last());
        lemma_step_wf(run(m, events.drop_last()), events.last());
    }
}

/// Whether exactly one task runs, and it is the current one.
pub open spec fn one_running(m: TableModel) -> bool {
    &&& m.tasks[m.current].state == TaskState::Running
    &&& forall|i: int|
        0 <= i < MAX_TASKS && (#[trigger] m.tasks[i]).state == TaskState::Running ==> i
            == m.current
}

/// What an event asks of its caller.
pub open spec fn action_of(m: TableModel, e: Event) -> SwitchAction {
    match e {
        Event::Schedule => m.schedule_action(),
        Event::Tick => m.tick_action(),
        Event::Exit => m.exit_action(),
        Event::Block => m.block_action(),
        _ => SwitchAction::Stay,
    }
}

/// Exactly one task runs at any time. While one task runs, after every
/// event exactly one task runs again, but for the one case in which the
/// running task ends or suspends itself and is not switched away from:
/// then none runs. Nothing but that asks for a halt.
pub proof fn law_one_task_runs(m: TableModel, e: Event)
    requires
        m.wf(),
        one_running(m),
    ensures
        one_running(step(m, e)) || ((e is Exit || e is Block) && !(action_of(m, e) is Switch)),
        !(e is Exit || e is Block) ==> action_of(m, e) != SwitchAction::Halt,
{
    lemma_step_wf(m, e);
    match e {
        Event::Schedule => {
            if m.scheduling() && m.has_candidate() {
                lemma_choice_exists(m);
            }
        },
        Event::Tick => {
            let c = m.charged();
            lemma_charged_wf(m);
            if c.scheduling() && c.has_candidate() {
                lemma_choice_exists(c);
            }
        },
        Event::Exit => {
            let c = m.with_state(m.current, TaskState::Dead);
            lemma_with_state_wf(m, TaskState::Dead);
            if c.scheduling() && c.has_candidate() {
                lemma_choice_exists(c);
            }
        },
        Event::Block => {
            let c = m.with_state(m.current, TaskState::Blocked);
            lemma_with_state_wf(m, TaskState::Blocked);
            if c.scheduling() && c.has_candidate() {
                lemma_choice_exists(c);
            }
        },
        _ => {},
    }
}

/// The table after the tasks of `reqs` have been added one after the other.
pub open spec fn spawn_all(m: TableModel, reqs: Seq<SpawnRequest>) -> TableModel
    decreases reqs.len(),
{
    if reqs.len() == 0 {
        m
    } else {
        spawn_all(m, reqs.drop_last()).after_spawn(reqs.last())
    }
}

/// The identifier that the task of `reqs[k]` is given: the table's next
/// identifier at the time it is added.
pub open spec fn assigned_id(m: TableModel, reqs: Seq<SpawnRequest>, k: int) -> int {
    spawn_all(m, reqs.take(k)).next_pid
}

proof fn lemma_spawn_all(m: TableModel, reqs: Seq<SpawnRequest>)
    requires
        m.wf(),
        m.count + reqs.len() <= MAX_TASKS,
    ensures
        spawn_all(m, reqs).wf(),
        spawn_all(m, reqs).count == m.count + reqs.len(),
        spawn_all(m, reqs).next_pid == m.next_pid + reqs.len(),
        spawn_all(m, reqs).current == m.current,
        forall|i: int| 0 <= i < m.count ==> spawn_all(m, reqs).tasks[i] == m.tasks[i],
    decreases reqs.len(),
{
    if reqs.len() > 0 {
        lemma_spawn_all(m, reqs.drop_last());
        lemma_spawn_wf(spawn_all(m, reqs.drop_last()), reqs.last());
    }
}

/// Spawning as many tasks as the table has room for adds one task each,
/// and hands out identifiers that grow from one spawn to the next, so that
/// no two are equal. The task in the slot that the `k`-th spawn fills
/// carries the identifier that the spawn was given.
pub proof fn law_spawns_counted_and_numbered(m: TableModel, reqs: Seq<SpawnRequest>)
    requires
        m.wf(),
        m.count + reqs.len() <= MAX_TASKS,
    ensures
        spawn_all(m, reqs).count == m.count + reqs.len(),
        forall|j: int, k: int|
            0 <= j < k < reqs.len() ==> assigned_id(m, reqs, j) < assigned_id(m, reqs, k),
        forall|j: int, k: int|
            0 <= j < reqs.len() && 0 <= k < reqs.len() && j != k ==> assigned_id(m, reqs, j)
                != assigned_id(m, reqs, k),
        forall|k: int|
            0 <= k < reqs.len() ==> spawn_all(m, reqs).tasks[m.count + k].id == assigned_id(
                m,
                reqs,
                k,
            ),
        forall|i: int, k: int|
            0 <= i < m.count && 0 <= k < reqs.len() ==> m.tasks[i].id != assigned_id(m, reqs, k),
{
    lemma_spawn_all(m, reqs);
    assert forall|k: int| 0 <= k < reqs.len() implies assigned_id(m, reqs, k) == m.next_pid + k
        && spawn_all(m, reqs).tasks[m.count + k].id == assigned_id(m, reqs, k) by {
        lemma_spawn_all(m, reqs.take(k));
    }
}

/// From start-up, spawning `n` tasks, no more than the table has room for,
/// leaves `n + 1` tasks in the table: the spawned ones and the idle task.
pub proof fn law_task_count_after_spawns(reqs: Seq<SpawnRequest>)
    requires
        reqs.len() + 1 <= MAX_TASKS,
    ensures
        spawn_all(TableModel::initial(), reqs).count == reqs.len() + 1,
{
    lemma_initial_wf();
    lemma_spawn_all(TableModel::initial(), reqs);
}

/// Whether an action is a switch to slot `i`.
pub open spec fn switches_to(action: SwitchAction, i: int) -> bool {
    action matches SwitchAction::Switch { from, to } && to == i
}

/// The end of a task other than the idle one leaves it dead, and the switch
/// that follows leads away from it.
pub proof fn law_exit_kills(m: TableModel)
    requires
        m.wf(),
        m.current != 0,
    ensures
        m.after_exit().tasks[m.current].state == TaskState::Dead,
        m.exit_action() != SwitchAction::Stay,
        m.exit_action() is Switch ==> m.after_exit().current != m.current,
        !switches_to(m.exit_action(), m.current),
{
    let marked = m.with_state(m.current, TaskState::Dead);
    lemma_with_state_wf(m, TaskState::Dead);
    if marked.scheduling() && marked.has_candidate() {
        lemma_choice_exists(marked);
    }
}

/// No decision switches to a dead task, the idle task in slot 0 apart.
pub proof fn law_dead_not_chosen(m: TableModel, i: int)
    requires
        m.wf(),
        0 < i < m.count,
        m.tasks[i].state == TaskState::Dead,
    ensures
        !switches_to(m.schedule_action(), i),
        !switches_to(m.tick_action(), i),
        !switches_to(m.exit_action(), i),
        !switches_to(m.block_action(), i),
{
    lemma_dead_not_chosen(m, i);
    lemma_charged_wf(m);
    lemma_dead_not_chosen(m.charged(), i);
    lemma_with_state_wf(m, TaskState::Dead);
    lemma_dead_not_chosen(m.with_state(m.current, TaskState::Dead), i);
    lemma_with_state_wf(m, TaskState::Blocked);
    let marked = m.with_state(m.current, TaskState::Blocked);
    if marked.scheduling() && marked.has_candidate() {
        lemma_choice_exists(marked);
    }
}

proof fn lemma_dead_not_chosen(m: TableModel, i: int)
    requires
        m.wf(),
        0 < i < m.count,
        m.tasks[i].state == TaskState::Dead,
    ensures
        !switches_to(m.schedule_action(), i),
        m.after_schedule().tasks[i].state == TaskState::Dead,
        m.after_schedule().current == i ==> m.current == i,
{
    if m.scheduling() && m.has_candidate() {
        lemma_choice_exists(m);
    }
}

/// One event leaves a dead task that does not own the processor dead and
/// without the processor, the idle task in slot 0 apart.
pub proof fn lemma_step_keeps_dead(m: TableModel, e: Event, i: int)
    requires
        m.wf(),
        0 < i < m.count,
        m.tasks[i].state == TaskState::Dead,
        m.current != i,
    ensures
        step(m, e).tasks[i].state == TaskState::Dead,
        i < step(m, e).count,
        step(m, e).current != i,
{
    match e {
        Event::Schedule => {
            lemma_dead_not_chosen(m, i);
        },
        Event::Tick => {
            lemma_charged_wf(m);
            lemma_dead_not_chosen(m.charged(), i);
        },
        Event::Exit => {
            lemma_with_state_wf(m, TaskState::Dead);
            lemma_dead_not_chosen(m.with_state(m.current, TaskState::Dead), i);
        },
        Event::Block => {
            lemma_with_state_wf(m, TaskState::Blocked);
            lemma_dead_not_chosen(m.with_state(m.current, TaskState::Blocked), i);
        },
        Event::Spawn(req) => {
            assert(step(m, e).tasks[i] == m.tasks[i]);
        },
        Event::Wake(pid) => {
            assert(step(m, e).tasks[i] == m.tasks[i]);
        },
        Event::Enable => {},
        Event::ContextSaved { slot, sp } => {},
    }
}

/// A dead task is never selected again: once it has lost the processor,
/// whatever happens later, it stays dead and is not given the processor.
/// This holds of every task but the idle one in slot 0, which is put back
/// in charge when nothing else can run.
pub proof fn law_dead_never_selected(m: TableModel, events: Seq<Event>, i: int)
    requires
        m.wf(),
        0 < i < m.count,
        m.tasks[i].state == TaskState::Dead,
        m.current != i,
    ensures
        run(m, events).wf(),
        i < run(m, events).count,
        run(m, events).tasks[i].state == TaskState::Dead,
        run(m, events).current != i,
    decreases events.len(),
{
    if events.len() > 0 {
        let before = run(m, events.drop_last());
        law_dead_never_selected(m, events.drop_last(), i);
        lemma_step_wf(before, events.last());
        lemma_step_keeps_dead(before, events.last(), i);
    }
}

/// Of two tasks that could both be switched to, the one of lower priority
/// is not the one chosen: the task chosen has at least the priority of
/// every task that could have been.
pub proof fn law_higher_priority_first(m: TableModel, high: int, low: int)
    requires
        m.wf(),
        m.scheduling(),
        m.candidate(high),
        m.candidate(low),
        m.tasks[high].priority.rank() > m.tasks[low].priority.rank(),
    ensures
        m.schedule_action() == (SwitchAction::Switch {
            from: m.current as usize,
            to: m.choice() as usize,
        }),
        m.after_schedule().current == m.choice(),
        m.after_schedule().tasks[m.choice()].state == TaskState::Running,
        m.choice() != low,
        m.tasks[m.choice()].priority.rank() >= m.tasks[high].priority.rank(),
{
    lemma_choice_exists(m);
    assert(m.preferred(m.choice(), high));
}

/// Among candidates of one priority, with none of a higher one, the one
/// chosen is the first after the current slot.
pub proof fn law_ties_go_to_the_nearest(m: TableModel, other: int)
    requires
        m.wf(),
        m.scheduling(),
        m.candidate(other),
        forall|j: int| #[trigger]
            m.candidate(j) ==> m.tasks[j].priority.rank() <= m.tasks[other].priority.rank(),
    ensures
        m.candidate(m.choice()),
        m.tasks[m.choice()].priority.rank() == m.tasks[other].priority.rank(),
        m.distance(m.choice()) <= m.distance(other),
{
    lemma_choice_exists(m);
    assert(m.preferred(m.choice(), other));
}

/// The table after `k` timer ticks.
pub open spec fn ticks(m: TableModel, k: nat) -> TableModel
    decreases k,
{
    if k == 0 {
        m
    } else {
        ticks(m, (k - 1) as nat).after_tick()
    }
}

/// The table with the current task's budget set to `r` ticks.
pub open spec fn with_budget(m: TableModel, r: nat) -> TableModel {
    m.with_task(m.current, TaskView { remaining_slices: r, ..m.tasks[m.current] })
}

/// While the current task has budget left after them, timer ticks only
/// take from its budget.
pub proof fn lemma_quiet_ticks(m: TableModel, k: nat)
    requires
        m.wf(),
        m.scheduling(),
        k < m.tasks[m.current].remaining_slices,
    ensures
        ticks(m, k) == with_budget(m, (m.tasks[m.current].remaining_slices - k) as nat),
        ticks(m, k).wf(),
    decreases k,
{
    let r = m.tasks[m.current].remaining_slices;
    if k == 0 {
        assert(m.tasks =~= with_budget(m, r).tasks);
    } else {
        lemma_quiet_ticks(m, (k - 1) as nat);
        let before = ticks(m, (k - 1) as nat);
        assert(before.after_tick().tasks =~= with_budget(m, (r - k) as nat).tasks);
    }
}

/// A task that has just been given the processor, with the full budget of
/// `n` ticks of its priority, keeps it through the first `n - 1` timer
/// ticks, none of which asks for a switch. The `n`-th tick takes the
/// decision that `schedule` would take, and where another task can be
/// switched to it asks for the switch to the one chosen.
pub proof fn law_time_slice(m: TableModel, j: nat)
    requires
        m.wf(),
        m.scheduling(),
        m.tasks[m.current].remaining_slices == m.tasks[m.current].full_slice(),
        1 <= j <= m.tasks[m.current].full_slice(),
    ensures
        j < m.tasks[m.current].full_slice() ==> {
            &&& ticks(m, (j - 1) as nat).tick_action() == SwitchAction::Stay
            &&& ticks(m, j) == with_budget(m, (m.tasks[m.current].full_slice() - j) as nat)
            &&& ticks(m, j).current == m.current
        },
        j == m.tasks[m.current].full_slice() ==> {
            &&& ticks(m, (j - 1) as nat).tick_action() == with_budget(m, 0).schedule_action()
            &&& ticks(m, j) == with_budget(m, 0).after_schedule()
            &&& (m.has_candidate() ==> ticks(m, (j - 1) as nat).tick_action() == (
            SwitchAction::Switch { from: m.current as usize, to: with_budget(m, 0).choice() as usize })
                && with_budget(m, 0).candidate(with_budget(m, 0).choice())
                && ticks(m, j).current == with_budget(m, 0).choice())
        },
{
    let n = m.tasks[m.current].full_slice();
    lemma_quiet_ticks(m, (j - 1) as nat);
    let before = ticks(m, (j - 1) as nat);
    if j < n {
        lemma_quiet_ticks(m, j);
    } else {
        assert(before.charged().tasks =~= with_budget(m, 0).tasks);
        assert(before.charged() == with_budget(m, 0));
        if m.has_candidate() {
            let w = choose|i: int| m.candidate(i);
            assert(with_budget(m, 0).candidate(w));
            lemma_charged_wf(before);
            lemma_choice_exists(with_budget(m, 0));
        }
    }
}


/// Whether the processor is held by a running task of priority `prio` and
/// no task that could be switched to has a higher one.
pub open spec fn leads(m: TableModel, prio: Priority) -> bool {
    &&& m.tasks[m.current].state == TaskState::Running
    &&& m.tasks[m.current].priority == prio
    &&& forall|j: int| #[trigger] m.candidate(j) ==> m.tasks[j].priority.rank() <= prio.rank()
}

/// Whether slot `i` holds a task of priority `prio` that could be switched
/// to.
pub open spec fn peer(m: TableModel, prio: Priority, i: int) -> bool {
    m.candidate(i) && m.tasks[i].priority == prio
}

/// The number of peers at the distances from `lo` up to, not including,
/// `hi` after the current slot.
pub open spec fn peers_within(m: TableModel, prio: Priority, lo: int, hi: int) -> nat
    decreases hi - lo,
{
    if hi <= lo {
        0
    } else {
        peers_within(m, prio, lo, hi - 1) + if peer(m, prio, slot_at(m, hi - 1)) {
            1nat
        } else {
            0nat
        }
    }
}

/// The number of peers that come before slot `t` in the order in which the
/// scan visits the slots.
pub open spec fn peers_ahead(m: TableModel, prio: Priority, t: int) -> nat {
    peers_within(m, prio, 1, m.distance(t))
}

/// Timer ticks until the current task's budget is used up.
pub open spec fn ticks_to_expiry(m: TableModel) -> nat {
    if m.tasks[m.current].remaining_slices == 0 {
        1
    } else {
        m.tasks[m.current].remaining_slices
    }
}

/// Timer ticks until slot `t` is given the processor, where the tasks of
/// priority `prio` lead: what is left of the current task's budget, and a
/// full budget for each peer that comes before `t`.
pub open spec fn ticks_to_turn(m: TableModel, prio: Priority, t: int) -> nat {
    ticks_to_expiry(m) + peers_ahead(m, prio, t) * (prio.slices() * BASE_TIME_SLICE as nat)
}

proof fn lemma_rank_injective(a: Priority, b: Priority)
    requires
        a.rank() == b.rank(),
    ensures
        a == b,
{
}

proof fn lemma_ticks_add(m: TableModel, a: nat, b: nat)
    ensures
        ticks(m, a + b) == ticks(ticks(m, a), b),
    decreases b,
{
    if b > 0 {
        lemma_ticks_add(m, a, (b - 1) as nat);
        assert((a + b - 1) as nat == a + (b - 1) as nat);
    }
}

proof fn lemma_peers_split(m: TableModel, prio: Priority, lo: int, mid: int, hi: int)
    requires
        lo <= mid <= hi,
    ensures
        peers_within(m, prio, lo, hi) == peers_within(m, prio, lo, mid) + peers_within(
            m,
            prio,
            mid,
            hi,
        ),
    decreases hi - mid,
{
    if hi > mid {
        lemma_peers_split(m, prio, lo, mid, hi - 1);
    }
}

proof fn lemma_peers_none(m: TableModel, prio: Priority, lo: int, hi: int)
    requires
        forall|d: int| lo <= d < hi ==> !peer(m, prio, #[trigger] slot_at(m, d)),
    ensures
        peers_within(m, prio, lo, hi) == 0,
    decreases hi - lo,
{
    if hi > lo {
        lemma_peers_none(m, prio, lo, hi - 1);
    }
}

/// Seen from a slot `shift` steps further on, the peers in a stretch of
/// slots that lies between it and the old current slot are the same.
proof fn lemma_peers_shift(
    m: TableModel,
    n: TableModel,
    prio: Priority,
    shift: int,
    lo: int,
    hi: int,
)
    requires
        m.wf(),
        n.wf(),
        n.count == m.count,
        1 <= shift,
        n.current == slot_at(m, shift),
        1 <= lo,
        hi + shift <= m.count,
        forall|d: int|
            lo + shift <= d < hi + shift ==> (peer(n, prio, #[trigger] slot_at(m, d)) <==> peer(
                m,
                prio,
                slot_at(m, d),
            )),
    ensures
        peers_within(n, prio, lo, hi) == peers_within(m, prio, lo + shift, hi + shift),
    decreases hi - lo,
{
    if hi > lo {
        lemma_peers_shift(m, n, prio, shift, lo, hi - 1);
        assert(slot_at(n, hi - 1) == slot_at(m, hi - 1 + shift));
    }
}

/// The first timer tick that finds the current task's budget used up takes
/// the decision.
proof fn lemma_expiry(m: TableModel)
    requires
        m.wf(),
        m.scheduling(),
    ensures
        ticks(m, ticks_to_expiry(m)) == with_budget(m, 0).after_schedule(),
        with_budget(m, 0).wf(),
{
    let r = ticks_to_expiry(m);
    let left = m.tasks[m.current].remaining_slices;
    let before = ticks(m, (r - 1) as nat);
    if left == 0 {
        assert(before == m);
    } else {
        lemma_quiet_ticks(m, (r - 1) as nat);
    }
    assert(before.charged().tasks =~= with_budget(m, 0).tasks);
    assert(before.charged() == with_budget(m, 0));
    lemma_charged_wf(before);
}

/// Round robin: where the tasks of one priority lead, the timer hands the
/// processor from one of them to the next in table order, the table taken
/// as a ring. A task among them that waits for the processor gets it after
/// what is left of the current task's budget and one full budget for each
/// peer that comes before it, and so after no more than one full budget
/// for each peer ahead of it and for the current task.
pub proof fn law_round_robin(m: TableModel, prio: Priority, t: int)
    requires
        m.wf(),
        m.scheduling(),
        leads(m, prio),
        peer(m, prio, t),
    ensures
        ticks(m, ticks_to_turn(m, prio, t)).current == t,
        ticks(m, ticks_to_turn(m, prio, t)).tasks[t].state == TaskState::Running,
        ticks_to_turn(m, prio, t) <= (peers_ahead(m, prio, t) + 1) * (prio.slices()
            * BASE_TIME_SLICE as nat),
    decreases m.distance(t),
{
    let full = prio.slices() * BASE_TIME_SLICE as nat;
    let r = ticks_to_expiry(m);
    let m0 = with_budget(m, 0);
    lemma_expiry(m);
    assert(m0.candidate(t));
    assert forall|j: int| #[trigger] m0.candidate(j) implies m0.tasks[j].priority.rank()
        <= m0.tasks[t].priority.rank() by {
        assert(m.candidate(j));
    }
    law_ties_go_to_the_nearest(m0, t);
    lemma_choice_exists(m0);
    let b = m0.choice();
    lemma_rank_injective(m0.tasks[b].priority, prio);
    let m1 = m0.switched_to(b);
    assert(ticks(m, r) == m1);
    lemma_switched_wf(m0, b);
    lemma_distance(m, b, t);
    let db = m.distance(b);
    let dt = m.distance(t);
    assert(m0.distance(b) == db && m0.distance(t) == dt);
    assert(b == slot_at(m, db));
    // no peer comes before the one chosen
    assert forall|d: int| 1 <= d < db implies !peer(m, prio, #[trigger] slot_at(m, d)) by {
        let s = slot_at(m, d);
        if peer(m, prio, s) {
            assert(m0.candidate(s));
            assert(m0.preferred(b, s));
            assert(m0.distance(s) == d);
        }
    }
    lemma_peers_none(m, prio, 1, db);
    assert(r <= full) by {
        assert(m.tasks[m.current].remaining_slices <= m.tasks[m.current].full_slice());
    }
    if b == t {
        assert(peers_ahead(m, prio, t) * full == 0) by (nonlinear_arith)
            requires
                peers_ahead(m, prio, t) == 0,
        ;
        assert(ticks_to_turn(m, prio, t) == r);
        assert(r <= (peers_ahead(m, prio, t) + 1) * full) by (nonlinear_arith)
            requires
                r <= full,
                peers_ahead(m, prio, t) == 0,
        ;
    } else {
        assert(db < dt);
        assert(leads(m1, prio)) by {
            assert forall|j: int| #[trigger] m1.candidate(j) implies m1.tasks[j].priority.rank()
                <= prio.rank() by {
                if j != m.current {
                    assert(m.candidate(j));
                }
            }
        }
        assert(peer(m1, prio, t));
        assert(m1.distance(t) == dt - db);
        law_round_robin(m1, prio, t);
        let k1 = ticks_to_turn(m1, prio, t);
        assert(ticks_to_expiry(m1) == full);
        // the peers ahead of `t` are the one chosen and those ahead of `t` after the switch
        assert forall|d: int| 1 + db <= d < dt implies (peer(m1, prio, #[trigger] slot_at(m, d))
            <==> peer(m, prio, slot_at(m, d))) by {
            let s = slot_at(m, d);
            lemma_distance(m, s, b);
            assert(m.distance(s) == d);
        }
        lemma_peers_shift(m, m1, prio, db, 1, dt - db);
        lemma_peers_split(m, prio, 1, db, dt);
        lemma_peers_split(m, prio, db, db + 1, dt);
        assert(peers_within(m, prio, db, db + 1) == 1) by {
            assert(peers_within(m, prio, db, db) == 0);
            assert(peer(m, prio, slot_at(m, db)));
        }
        let n1 = peers_ahead(m1, prio, t);
        assert(peers_ahead(m, prio, t) == n1 + 1);
        assert(ticks_to_turn(m, prio, t) == r + k1) by (nonlinear_arith)
            requires
                ticks_to_turn(m, prio, t) == r + (n1 + 1) * full,
                k1 == full + n1 * full,
        ;
        lemma_ticks_add(m, r, k1);
        assert(r + k1 <= (n1 + 1 + 1) * full) by (nonlinear_arith)
            requires
                r <= full,
                k1 == full + n1 * full,
        ;
    }
}

} // verus!

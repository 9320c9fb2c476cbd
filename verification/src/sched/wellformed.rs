//! Every scheduler operation keeps the table's invariant.

use vstd::prelude::*;
use crate::sched::model::{lemma_choice_exists, SpawnRequest, TableModel};
use crate::sched::task::TaskState;

verus! {

/// The table at start-up meets the invariant.
pub proof fn lemma_initial_wf()
    ensures
        TableModel::initial().wf(),
{
}

/// Marking the current task dead or blocked keeps the invariant.
pub proof fn lemma_with_state_wf(m: TableModel, state: TaskState)
    requires
        m.wf(),
        state == TaskState::Dead || state == TaskState::Blocked,
    ensures
        m.with_state(m.current, state).wf(),
{
}

/// Storing a stack pointer in a slot keeps the invariant.
pub proof fn lemma_saved_context_wf(m: TableModel, i: int, sp: u64)
    requires
        m.wf(),
        0 <= i < m.tasks.len(),
    ensures
        m.with_saved_context(i, sp).wf(),
{
}

/// Taking a tick from the current task's budget keeps the invariant.
pub proof fn lemma_charged_wf(m: TableModel)
    requires
        m.wf(),
    ensures
        m.charged().wf(),
{
}

/// A switch to a candidate keeps the invariant.
pub proof fn lemma_switched_wf(m: TableModel, b: int)
    requires
        m.wf(),
        m.candidate(b),
    ensures
        m.switched_to(b).wf(),
{
}

/// A scheduling decision keeps the invariant.
pub proof fn lemma_schedule_wf(m: TableModel)
    requires
        m.wf(),
    ensures
        m.after_schedule().wf(),
{
    if m.scheduling() && m.has_candidate() {
        lemma_choice_exists(m);
        lemma_switched_wf(m, m.choice());
    }
}

/// A timer tick keeps the invariant.
pub proof fn lemma_tick_wf(m: TableModel)
    requires
        m.wf(),
    ensures
        m.after_tick().wf(),
{
    lemma_charged_wf(m);
    lemma_schedule_wf(m.charged());
}

/// The end of the current task keeps the invariant.
pub proof fn lemma_exit_wf(m: TableModel)
    requires
        m.wf(),
    ensures
        m.after_exit().wf(),
{
    lemma_with_state_wf(m, TaskState::Dead);
    lemma_schedule_wf(m.with_state(m.current, TaskState::Dead));
}

/// The suspension of the current task keeps the invariant.
pub proof fn lemma_block_wf(m: TableModel)
    requires
        m.wf(),
    ensures
        m.after_block().wf(),
{
    lemma_with_state_wf(m, TaskState::Blocked);
    lemma_schedule_wf(m.with_state(m.current, TaskState::Blocked));
}

/// Waking a task keeps the invariant.
pub proof fn lemma_wake_wf(m: TableModel, pid: int)
    requires
        m.wf(),
    ensures
        m.after_wake(pid).wf(),
{
}

/// Adding a task keeps the invariant.
pub proof fn lemma_spawn_wf(m: TableModel, req: SpawnRequest)
    requires
        m.wf(),
    ensures
        m.after_spawn(req).wf(),
{
}

/// Turning scheduling on keeps the invariant.
pub proof fn lemma_enable_wf(m: TableModel)
    requires
        m.wf(),
    ensures
        m.after_enable().wf(),
{
}

} // verus!

use aprk_kernel::sched::{
    current_slot, enable, init, print_tasks, saved_context_mut, schedule, spawn_named, task_count,
    Priority, Scheduler, SwitchAction, TaskState,
};
use aprk_kernel::syscall::{
    alloc_result, handle_syscall, layout_is_valid, power_of_two, print_text, SyscallEffect, DEALLOC_INVALID,
    SYSCALL_ERROR, SYS_ALLOC, SYS_DEALLOC, SYS_EXIT, SYS_GETPID, SYS_PRINT, SYS_SLEEP, SYS_YIELD,
};
use aprk_kernel::uart::puts;

fn two_tasks() -> Scheduler {
    let mut table = init();
    spawn_named(&mut table, 0x1000, 0x2000, 0x4100_0000, "a", Priority::Normal).unwrap();
    spawn_named(&mut table, 0x1100, 0x2000, 0x4102_0000, "b", Priority::Normal).unwrap();
    enable(&mut table);
    let first = schedule(&mut table);
    assert_eq!(first, SwitchAction::Switch { from: 0, to: 1 });
    *saved_context_mut(&mut table, 0) = 0x4007_ff00;
    table
}

fn states(table: &Scheduler) -> Vec<(usize, TaskState, usize, u64)> {
    print_tasks(table).iter().map(|t| (t.id, t.state, t.remaining_slices, t.stack_top)).collect()
}

#[test]
fn syscall_numbers_are_the_wire_contract() {
    assert_eq!(SYS_PRINT, 0);
    assert_eq!(SYS_EXIT, 1);
    assert_eq!(SYS_GETPID, 2);
    assert_eq!(SYS_YIELD, 3);
    assert_eq!(SYS_SLEEP, 4);
    assert_eq!(SYS_ALLOC, 5);
    assert_eq!(SYS_DEALLOC, 6);
    assert_eq!(SYSCALL_ERROR, u64::MAX);
}

#[test]
fn print_of_five_bytes_writes_them_and_returns_zero() {
    let mut table = two_tasks();
    let before = states(&table);
    let buffer = *b"hello";
    let r = handle_syscall(&mut table, 0, 0x4040_1000, 5, 0);
    assert_eq!(r.result, 0);
    assert_eq!(r.effect, SyscallEffect::Write { ptr: 0x4040_1000, len: 5 });
    assert_eq!(states(&table), before);
    let text = print_text(&buffer);
    assert_eq!(text, "hello");
    assert_eq!(puts(text), b"hello".to_vec());
}

#[test]
fn print_of_nothing_writes_nothing() {
    let mut table = two_tasks();
    let r = handle_syscall(&mut table, 0, 0, 5, 0);
    assert_eq!((r.result, r.effect), (0, SyscallEffect::Nothing));
    let r = handle_syscall(&mut table, 0, 0x4040_1000, 0, 0);
    assert_eq!((r.result, r.effect), (0, SyscallEffect::Nothing));
}

#[test]
fn print_text_marks_bytes_that_are_not_utf8() {
    assert_eq!(print_text(&[0x68, 0x69, 0xff]), "<?>");
    assert_eq!(print_text(&[0xc3]), "<?>");
    assert_eq!(print_text("gr\u{fc}n\n".as_bytes()), "gr\u{fc}n\n");
    assert_eq!(print_text(&[]), "");
}

#[test]
fn exit_ends_the_calling_task() {
    let mut table = two_tasks();
    let r = handle_syscall(&mut table, 1, 0, 0, 0);
    assert_eq!(r.effect, SyscallEffect::Exit(SwitchAction::Switch { from: 1, to: 2 }));
    assert_eq!(print_tasks(&table)[1].state, TaskState::Dead);
    assert_eq!(current_slot(&table), 2);
}

#[test]
fn exit_of_the_last_task_halts() {
    let mut table = init();
    let r = handle_syscall(&mut table, 1, 0, 0, 0);
    assert_eq!(r.effect, SyscallEffect::Exit(SwitchAction::Halt));
}

#[test]
fn getpid_returns_the_current_identifier() {
    let mut table = two_tasks();
    let r = handle_syscall(&mut table, 2, 9, 9, 9);
    assert_eq!((r.result, r.effect), (1, SyscallEffect::Nothing));
    handle_syscall(&mut table, 3, 0, 0, 0);
    let r = handle_syscall(&mut table, 2, 0, 0, 0);
    assert_eq!(r.result, 2);
}

#[test]
fn yield_and_sleep_take_a_scheduling_decision() {
    let mut table = two_tasks();
    let r = handle_syscall(&mut table, 3, 0, 0, 0);
    assert_eq!(r.result, 0);
    assert_eq!(r.effect, SyscallEffect::Reschedule(SwitchAction::Switch { from: 1, to: 2 }));
    let r = handle_syscall(&mut table, 4, 250, 0, 0);
    assert_eq!(r.result, 0);
    assert_eq!(r.effect, SyscallEffect::Reschedule(SwitchAction::Switch { from: 2, to: 1 }));
}

#[test]
fn yield_with_nothing_else_to_run_stays() {
    let mut table = init();
    let r = handle_syscall(&mut table, 3, 0, 0, 0);
    assert_eq!((r.result, r.effect), (0, SyscallEffect::Reschedule(SwitchAction::Stay)));
}

#[test]
fn alloc_then_dealloc_of_the_same_block() {
    let mut table = two_tasks();
    let before = states(&table);
    let r = handle_syscall(&mut table, 5, 32, 8, 0);
    assert_eq!(r.effect, SyscallEffect::Allocate { size: 32, align: 8 });
    assert_eq!(r.result, 0);
    let ptr = 0x4100_8000;
    let r = handle_syscall(&mut table, 6, ptr, 32, 8);
    assert_eq!(r.result, 0);
    assert_eq!(r.effect, SyscallEffect::Release { ptr, size: 32, align: 8 });
    // the same request can be made again
    let r = handle_syscall(&mut table, 5, 32, 8, 0);
    assert_eq!(r.effect, SyscallEffect::Allocate { size: 32, align: 8 });
    assert_eq!(states(&table), before);
}

#[test]
fn alloc_with_an_invalid_layout_returns_zero() {
    let mut table = two_tasks();
    for (size, align) in [(32u64, 0u64), (32, 3), (32, 24), (u64::MAX, 8), (1 << 63, 1), (1, 1 << 63)] {
        let r = handle_syscall(&mut table, 5, size, align, 0);
        assert_eq!((r.result, r.effect), (0, SyscallEffect::Nothing));
    }
}

#[test]
fn dealloc_with_an_invalid_layout_returns_one() {
    let mut table = two_tasks();
    let r = handle_syscall(&mut table, 6, 0x4100_8000, 32, 3);
    assert_eq!(DEALLOC_INVALID, 1);
    assert_eq!((r.result, r.effect), (1, SyscallEffect::Nothing));
    let r = handle_syscall(&mut table, 6, 0x4100_8000, 32, 0);
    assert_eq!((r.result, r.effect), (1, SyscallEffect::Nothing));
}

#[test]
fn unknown_syscall_returns_the_sentinel_and_changes_nothing() {
    let mut table = two_tasks();
    let before = states(&table);
    for id in [7u64, 99, 1000, u64::MAX] {
        let r = handle_syscall(&mut table, id, 1, 2, 3);
        assert_eq!(r.result, u64::MAX);
        assert_eq!(r.effect, SyscallEffect::ReportUnknown { id });
        assert_eq!(states(&table), before);
        assert_eq!(current_slot(&table), 1);
        assert_eq!(task_count(&table), 3);
    }
}

#[test]
fn powers_of_two() {
    for k in 0..64 {
        assert!(power_of_two(1u64 << k));
    }
    for n in [0u64, 3, 5, 6, 7, 12, 1000, (1 << 40) + 1, u64::MAX] {
        assert!(!power_of_two(n));
    }
}

#[test]
fn layouts() {
    let max = i64::MAX as u64;
    assert!(layout_is_valid(0, 1));
    assert!(layout_is_valid(32, 8));
    assert!(layout_is_valid(max, 1));
    assert!(!layout_is_valid(max, 2));
    assert!(layout_is_valid(max - 1, 2));
    assert!(layout_is_valid(max - 4095, 4096));
    assert!(!layout_is_valid(max - 4094, 4096));
    assert!(layout_is_valid(0, 1 << 62));
    assert!(layout_is_valid(0, 1 << 63));
    assert!(!layout_is_valid(1, 1 << 63));
    assert!(!layout_is_valid(8, 0));
    assert!(!layout_is_valid(8, 6));
    // the same answers as the standard library gives
    for (size, align) in [(0usize, 1usize), (32, 8), (8, 0), (8, 6), (usize::MAX, 1), (100, 4096), (0, 1 << 63), (1, 1 << 63)] {
        assert_eq!(
            layout_is_valid(size as u64, align as u64),
            std::alloc::Layout::from_size_align(size, align).is_ok()
        );
    }
}

#[test]
fn alloc_returns_the_address_or_zero() {
    assert_eq!(alloc_result(0x4100_8000), 0x4100_8000);
    assert_eq!(alloc_result(0), 0);
    assert_eq!(alloc_result(u64::MAX), u64::MAX);
}

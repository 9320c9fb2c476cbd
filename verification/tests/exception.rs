use aprk_kernel::exception::{
    exception_class, handle_irq_exception, handle_sync_exception, IrqStep, SyncOutcome,
    TrapFrame, EC_SVC64, TICK_MILLIS, TRAP_FRAME_WORDS,
};
use aprk_kernel::sched::{
    current_slot, enable, init, schedule, spawn_named, Priority, Scheduler, SwitchAction,
};
use aprk_kernel::syscall::{SyscallEffect, SyscallOutcome};

fn frame_counting_from(base: u64) -> TrapFrame {
    let mut words = [0u64; 31];
    for (i, w) in words.iter_mut().enumerate() {
        *w = base + i as u64;
    }
    TrapFrame::from_words(&words)
}

fn svc() -> u64 {
    (0x15u64 << 26) | (1 << 25)
}

fn table() -> Scheduler {
    let mut table = init();
    spawn_named(&mut table, 0x1000, 0x2000, 0x4100_0000, "a", Priority::Normal).unwrap();
    spawn_named(&mut table, 0x1100, 0x2000, 0x4102_0000, "b", Priority::Normal).unwrap();
    enable(&mut table);
    schedule(&mut table);
    table
}

#[test]
fn trap_frame_holds_register_n_in_word_n() {
    assert_eq!(TRAP_FRAME_WORDS, 31);
    let f = frame_counting_from(1000);
    assert_eq!(f.x0, 1000);
    assert_eq!(f.x1, 1001);
    assert_eq!(f.x2, 1002);
    assert_eq!(f.x8, 1008);
    assert_eq!(f.x18, 1018);
    assert_eq!(f.x19, 1019);
    assert_eq!(f.x29, 1029);
    assert_eq!(f.x30, 1030);
    let words = f.to_words();
    for (i, w) in words.iter().enumerate() {
        assert_eq!(*w, 1000 + i as u64);
    }
    assert_eq!(TrapFrame::from_words(&words), f);
}

#[test]
fn exception_class_is_bits_26_to_31() {
    assert_eq!(EC_SVC64, 0x15);
    assert_eq!(exception_class(0x5600_0000), 0x15);
    assert_eq!(exception_class(0x9600_0045), 0x25);
    assert_eq!(exception_class(0xffff_ffff_03ff_ffff), 0);
    assert_eq!(exception_class(u64::MAX), 0x3f);
}

#[test]
fn supervisor_call_is_dispatched_and_resumes_after_the_instruction() {
    let mut t = table();
    let mut f = frame_counting_from(0);
    f.x8 = 2;
    let before = f;
    let r = handle_sync_exception(&mut t, &mut f, svc(), 0x4040_0010);
    assert_eq!(
        r,
        SyncOutcome::Syscall {
            outcome: SyscallOutcome { result: 1, effect: SyscallEffect::Nothing },
            resume_at: 0x4040_0014,
        }
    );
    assert_eq!(f, TrapFrame { x0: 1, ..before });
}

#[test]
fn supervisor_call_takes_its_arguments_from_x0_x1_x2() {
    let mut t = table();
    let mut f = frame_counting_from(0);
    f.x8 = 6;
    f.x0 = 0x4100_8000;
    f.x1 = 64;
    f.x2 = 16;
    let r = handle_sync_exception(&mut t, &mut f, svc(), 0x4040_0020);
    match r {
        SyncOutcome::Syscall { outcome, resume_at } => {
            assert_eq!(outcome.result, 0);
            assert_eq!(
                outcome.effect,
                SyscallEffect::Release { ptr: 0x4100_8000, size: 64, align: 16 }
            );
            assert_eq!(resume_at, 0x4040_0024);
        }
        other => panic!("{:?}", other),
    }
    assert_eq!(f.x0, 0);
    let mut f = frame_counting_from(0);
    f.x8 = 0;
    f.x0 = 0x4040_2000;
    f.x1 = 12;
    let r = handle_sync_exception(&mut t, &mut f, svc(), 0x4040_0028);
    match r {
        SyncOutcome::Syscall { outcome, .. } => {
            assert_eq!(outcome.effect, SyscallEffect::Write { ptr: 0x4040_2000, len: 12 });
        }
        other => panic!("{:?}", other),
    }
}

#[test]
fn unknown_supervisor_call_leaves_the_sentinel_in_x0() {
    let mut t = table();
    let mut f = frame_counting_from(0);
    f.x8 = 99;
    let r = handle_sync_exception(&mut t, &mut f, svc(), 0x4040_0000);
    match r {
        SyncOutcome::Syscall { outcome, resume_at } => {
            assert_eq!(outcome.result, u64::MAX);
            assert_eq!(outcome.effect, SyscallEffect::ReportUnknown { id: 99 });
            assert_eq!(resume_at, 0x4040_0004);
        }
        other => panic!("{:?}", other),
    }
    assert_eq!(f.x0, u64::MAX);
    assert_eq!(current_slot(&t), 1);
}

#[test]
fn yield_by_supervisor_call_switches_tasks() {
    let mut t = table();
    let mut f = frame_counting_from(0);
    f.x8 = 3;
    let r = handle_sync_exception(&mut t, &mut f, svc(), 0x4040_0000);
    match r {
        SyncOutcome::Syscall { outcome, .. } => {
            assert_eq!(
                outcome.effect,
                SyscallEffect::Reschedule(SwitchAction::Switch { from: 1, to: 2 })
            );
        }
        other => panic!("{:?}", other),
    }
    assert_eq!(current_slot(&t), 2);
}

#[test]
fn resume_address_wraps_at_the_end_of_the_address_space() {
    let mut t = table();
    let mut f = frame_counting_from(0);
    f.x8 = 2;
    let r = handle_sync_exception(&mut t, &mut f, svc(), u64::MAX - 1);
    match r {
        SyncOutcome::Syscall { resume_at, .. } => assert_eq!(resume_at, 2),
        other => panic!("{:?}", other),
    }
}

#[test]
fn any_other_synchronous_exception_is_fatal() {
    let mut t = table();
    let mut f = frame_counting_from(7);
    let before = f;
    // a data abort
    let esr = 0x9600_0045;
    let r = handle_sync_exception(&mut t, &mut f, esr, 0x4008_1234);
    assert_eq!(r, SyncOutcome::Fatal { esr, elr: 0x4008_1234 });
    assert_eq!(f, before);
    assert_eq!(current_slot(&t), 1);
}

#[test]
fn timer_interrupt_is_rearmed_and_ended_before_the_tick() {
    for id in [27u32, 30] {
        assert_eq!(
            handle_irq_exception(id),
            vec![
                IrqStep::RearmTimer { millis: 500 },
                IrqStep::EndOfInterrupt { iar: id },
                IrqStep::Tick
            ]
        );
    }
    assert_eq!(TICK_MILLIS, 500);
}

#[test]
fn console_interrupt_is_forwarded_then_ended() {
    assert_eq!(
        handle_irq_exception(33),
        vec![IrqStep::ConsoleReceive, IrqStep::EndOfInterrupt { iar: 33 }]
    );
}

#[test]
fn spurious_interrupt_is_ignored_without_end_of_interrupt() {
    assert_eq!(handle_irq_exception(1023), vec![]);
}

#[test]
fn unknown_interrupt_is_reported_and_ended() {
    assert_eq!(
        handle_irq_exception(42),
        vec![IrqStep::ReportUnknown { id: 42 }, IrqStep::EndOfInterrupt { iar: 42 }]
    );
    assert_eq!(
        handle_irq_exception(0),
        vec![IrqStep::ReportUnknown { id: 0 }, IrqStep::EndOfInterrupt { iar: 0 }]
    );
}

#[test]
fn interrupt_identifier_is_the_low_ten_bits() {
    // the acknowledge value carries the CPU number above the identifier
    let iar = (3 << 10) | 27;
    assert_eq!(
        handle_irq_exception(iar),
        vec![
            IrqStep::RearmTimer { millis: 500 },
            IrqStep::EndOfInterrupt { iar },
            IrqStep::Tick
        ]
    );
    let iar = (1 << 10) | 1023;
    assert_eq!(handle_irq_exception(iar), vec![]);
}

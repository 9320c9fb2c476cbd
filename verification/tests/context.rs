use aprk_kernel::context::{
    Context, PreservedRegisters, SwitchFrame, FRAME_BYTES, FRAME_WORDS, KERNEL_STACK_SIZE,
    USER_STACK_SIZE,
};
use aprk_kernel::sched::{init, spawn_named, spawn_user, Priority};

fn sample() -> PreservedRegisters {
    PreservedRegisters {
        x19: 19,
        x20: 20,
        x21: 21,
        x22: 22,
        x23: 23,
        x24: 24,
        x25: 25,
        x26: 26,
        x27: 27,
        x28: 28,
        x29: 0x4100_3f00,
        x30: 0x4008_0abc,
        sp_el0: 0x4201_0000,
    }
}

#[test]
fn frame_is_fourteen_words_of_eight_bytes() {
    assert_eq!(FRAME_WORDS, 14);
    assert_eq!(FRAME_BYTES, 112);
    assert_eq!(FRAME_BYTES as usize, FRAME_WORDS * 8);
    assert_eq!(KERNEL_STACK_SIZE, 16 * 1024);
    assert_eq!(USER_STACK_SIZE, 64 * 1024);
}

#[test]
fn capture_lays_registers_out_in_order() {
    let frame = SwitchFrame::capture(&sample());
    assert_eq!(
        frame.words,
        [19, 20, 21, 22, 23, 24, 25, 26, 27, 28, 0x4100_3f00, 0x4008_0abc, 0x4201_0000, 0]
    );
}

#[test]
fn restore_reads_the_words_back() {
    let mut words = [0u64; 14];
    for (i, w) in words.iter_mut().enumerate() {
        *w = 100 + i as u64;
    }
    let regs = SwitchFrame { words }.restore();
    assert_eq!(regs.x19, 100);
    assert_eq!(regs.x20, 101);
    assert_eq!(regs.x28, 109);
    assert_eq!(regs.x29, 110);
    assert_eq!(regs.x30, 111);
    assert_eq!(regs.sp_el0, 112);
}

#[test]
fn switching_away_and_back_keeps_the_registers() {
    let start = sample();
    let mut regs = start;
    for _ in 0..1000 {
        let frame = SwitchFrame::capture(&regs);
        regs = frame.restore();
        assert_eq!(regs, start);
    }
}

#[test]
fn kernel_task_starts_in_the_trampoline_with_its_entry_in_x19() {
    let regs = SwitchFrame::for_kernel_task(0x4009_0000, 0x4008_1000).restore();
    assert_eq!(regs.x19, 0x4009_0000);
    assert_eq!(regs.x30, 0x4008_1000);
    assert_eq!(regs.x20, 0);
    assert_eq!(regs.x29, 0);
    assert_eq!(regs.sp_el0, 0);
}

#[test]
fn user_task_starts_in_the_trampoline_with_entry_and_stack() {
    let frame = SwitchFrame::for_user_task(0x4040_0000, 0x4201_0000, 0x4008_2000);
    let regs = frame.restore();
    assert_eq!(regs.x19, 0x4040_0000);
    assert_eq!(regs.x20, 0x4201_0000);
    assert_eq!(regs.x30, 0x4008_2000);
    assert_eq!(regs.sp_el0, 0x4201_0000);
    assert_eq!(frame.words[13], 0);
    assert_eq!(frame.words[2..11], [0u64; 9]);
}

#[test]
fn suspend_stores_the_frame_below_the_stack_pointer() {
    let c = Context { regs: sample(), sp: 0x4100_4000 };
    let (frame, saved) = c.suspend();
    assert_eq!(saved, 0x4100_4000 - 112);
    assert_eq!(frame.words, SwitchFrame::capture(&sample()).words);
    assert_eq!(Context::resume(&frame, saved), c);
}

#[test]
fn a_task_switched_away_from_and_back_is_where_it_was() {
    let start = Context { regs: sample(), sp: 0x4100_3f00 };
    let mut c = start;
    for _ in 0..500 {
        let (frame, saved) = c.suspend();
        // another task runs in between, on its own stack
        let other = Context { regs: SwitchFrame { words: [0xaa; 14] }.restore(), sp: 0x4200_0000 };
        let (other_frame, other_saved) = other.suspend();
        assert_eq!(Context::resume(&other_frame, other_saved), other);
        c = Context::resume(&frame, saved);
        assert_eq!(c, start);
    }
}

#[test]
fn stack_pointer_wraps_at_the_ends_of_the_address_space() {
    let low = Context { regs: sample(), sp: 100 };
    let (frame, saved) = low.suspend();
    assert_eq!(saved, u64::MAX - 11);
    assert_eq!(Context::resume(&frame, saved), low);
}

#[test]
fn a_new_task_first_runs_on_an_empty_stack() {
    let mut table = init();
    let base = 0x4100_0000;
    let plan = spawn_named(&mut table, 0x4009_0000, 0x4008_1000, base, "t", Priority::Low).unwrap();
    let c = Context::resume(&plan.frame, plan.frame_address);
    assert_eq!(c.sp, base + KERNEL_STACK_SIZE);
    assert_eq!(c.regs.x19, 0x4009_0000);
    assert_eq!(c.regs.x30, 0x4008_1000);
    let plan = spawn_user(&mut table, 0x4040_0000, 0x4008_2000, 0x4110_0000, 0x4200_0000, "u")
        .unwrap();
    let c = Context::resume(&plan.frame, plan.frame_address);
    assert_eq!(c.sp, 0x4110_0000 + KERNEL_STACK_SIZE);
    assert_eq!(c.regs.x19, 0x4040_0000);
    assert_eq!(c.regs.x20, 0x4200_0000 + USER_STACK_SIZE);
    assert_eq!(c.regs.sp_el0, 0x4200_0000 + USER_STACK_SIZE);
    assert_eq!(c.regs.x30, 0x4008_2000);
}

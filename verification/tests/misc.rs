use aprk_kernel::cpu::{clean_dcache_range, current_el, CacheLines, CACHE_LINE};
use aprk_kernel::gic::{
    Gic, GicBlock, GicWrite, GICC_BASE, GICC_EOIR, GICC_IAR, GICD_BASE, TIMER_IRQ, UART_IRQ,
};
use aprk_kernel::text::{bytes_eq, decode_or, field_text, split_words, str_eq, trim};
use aprk_kernel::timer::{Timer, TimerWrite};
use aprk_kernel::userlib::print_num;

#[test]
fn exception_level_is_bits_two_and_three() {
    assert_eq!(current_el(0b0000), 0);
    assert_eq!(current_el(0b0100), 1);
    assert_eq!(current_el(0b1000), 2);
    assert_eq!(current_el(0b1100), 3);
    assert_eq!(current_el(0xffff_ffff_ffff_fff7), 1);
    assert_eq!(current_el(0b0011), 0);
}

#[test]
fn cache_lines_cover_the_range() {
    assert_eq!(CACHE_LINE, 64);
    assert_eq!(clean_dcache_range(0x1000, 64), CacheLines { first: 0x1000, count: 1 });
    assert_eq!(clean_dcache_range(0x1000, 65), CacheLines { first: 0x1000, count: 2 });
    assert_eq!(clean_dcache_range(0x1001, 64), CacheLines { first: 0x1000, count: 2 });
    assert_eq!(clean_dcache_range(0x103f, 1), CacheLines { first: 0x1000, count: 1 });
    assert_eq!(clean_dcache_range(0x103f, 2), CacheLines { first: 0x1000, count: 2 });
    assert_eq!(clean_dcache_range(0x4040_0000, 4096), CacheLines { first: 0x4040_0000, count: 64 });
    // nothing to clean from the start of a line, one line from inside it
    assert_eq!(clean_dcache_range(0x1000, 0), CacheLines { first: 0x1000, count: 0 });
    assert_eq!(clean_dcache_range(0x1010, 0), CacheLines { first: 0x1000, count: 1 });
}

#[test]
fn gic_is_set_up_in_order() {
    assert_eq!(GICD_BASE, 0x0800_0000);
    assert_eq!(GICC_BASE, 0x0801_0000);
    assert_eq!(GICC_IAR, 0x0c);
    assert_eq!((TIMER_IRQ, UART_IRQ), (27, 33));
    assert_eq!(
        Gic::init(0x0000_0001, 0x8000_0000),
        vec![
            GicWrite { block: GicBlock::Distributor, offset: 0x000, value: 1 },
            GicWrite { block: GicBlock::Distributor, offset: 0x100, value: 0x0800_0001 },
            GicWrite { block: GicBlock::Distributor, offset: 0x104, value: 0x8000_0002 },
            GicWrite { block: GicBlock::CpuInterface, offset: 0x004, value: 0xff },
            GicWrite { block: GicBlock::CpuInterface, offset: 0x000, value: 1 },
        ]
    );
}

#[test]
fn gic_enable_registers_hold_thirty_two_interrupts_each() {
    assert_eq!(Gic::enable_register_of(0), 0x100);
    assert_eq!(Gic::enable_register_of(27), 0x100);
    assert_eq!(Gic::enable_register_of(31), 0x100);
    assert_eq!(Gic::enable_register_of(32), 0x104);
    assert_eq!(Gic::enable_register_of(33), 0x104);
    assert_eq!(Gic::enable_register_of(1019), 0x100 + 31 * 4);
}

#[test]
fn gic_end_of_interrupt_writes_the_acknowledged_value() {
    assert_eq!(GICC_EOIR, 0x10);
    assert_eq!(
        Gic::end_interrupt(0x41b),
        GicWrite { block: GicBlock::CpuInterface, offset: 0x10, value: 0x41b }
    );
}

#[test]
fn timer_counts_ticks_for_a_duration() {
    // 62.5 MHz, the counter of the QEMU virt machine
    let freq = 62_500_000;
    assert_eq!(Timer::set_next_tick(freq, 500_000_000), Some(31_250_000));
    assert_eq!(Timer::set_next_tick(freq, 1_000_000_000), Some(62_500_000));
    assert_eq!(Timer::set_next_tick(freq, 1), Some(0));
    assert_eq!(Timer::set_next_tick(freq, 16), Some(1));
    assert_eq!(Timer::set_next_tick(freq, 0), Some(0));
    assert_eq!(Timer::set_next_tick(0, 500_000_000), Some(0));
    assert_eq!(Timer::set_next_tick(3, 999_999_999), Some(2));
}

#[test]
fn timer_refuses_what_does_not_fit() {
    assert_eq!(Timer::set_next_tick(u64::MAX, 2), None);
    assert_eq!(Timer::set_next_tick(1 << 32, 1 << 32), None);
    assert_eq!(Timer::set_next_tick(1 << 32, (1 << 32) - 1), Some(18_446_744_069));
    assert_eq!(Timer::init(u64::MAX), None);
}

#[test]
fn timer_starts_off_then_counts_then_on() {
    assert_eq!(
        Timer::init(24_000_000),
        Some(vec![
            TimerWrite::Control(0),
            TimerWrite::Countdown(24_000_000),
            TimerWrite::Control(1)
        ])
    );
}

#[test]
fn numbers_are_printed_in_decimal() {
    assert_eq!(print_num(0), b"0".to_vec());
    assert_eq!(print_num(7), b"7".to_vec());
    assert_eq!(print_num(10), b"10".to_vec());
    assert_eq!(print_num(1234567890), b"1234567890".to_vec());
    assert_eq!(print_num(u64::MAX), b"18446744073709551615".to_vec());
    for n in [1u64, 9, 99, 100, 101, 4096, 1 << 40] {
        assert_eq!(print_num(n), n.to_string().into_bytes());
    }
}

#[test]
fn text_is_decoded_or_replaced() {
    assert_eq!(decode_or(b"plain", "?"), "plain");
    assert_eq!(decode_or("\u{20ac}".as_bytes(), "?"), "\u{20ac}");
    assert_eq!(decode_or(&[0xe2, 0x82], "?"), "?");
    assert_eq!(decode_or(&[0x80], "fallback"), "fallback");
    assert_eq!(decode_or(&[], "?"), "");
}

#[test]
fn fields_end_at_the_first_zero_byte() {
    assert_eq!(field_text(b"abc\0def\0"), b"abc");
    assert_eq!(field_text(b"\0abc"), b"");
    assert_eq!(field_text(b"abc"), b"abc");
    assert_eq!(field_text(b""), b"");
}

#[test]
fn bytes_and_strings_are_compared() {
    assert!(bytes_eq(b"", b""));
    assert!(bytes_eq(b"abc", b"abc"));
    assert!(!bytes_eq(b"abc", b"abd"));
    assert!(!bytes_eq(b"abc", b"ab"));
    assert!(str_eq("caf\u{e9}", "caf\u{e9}"));
    assert!(!str_eq("cafe", "caf\u{e9}"));
}

#[test]
fn trimming_and_words() {
    assert_eq!(trim(b"  a b \n"), b"a b");
    assert_eq!(trim(b"a"), b"a");
    assert_eq!(trim(b" \t\r\n\x0b\x0c"), b"");
    assert_eq!(trim(b""), b"");
    assert_eq!(trim(b"\x08a\x08"), b"\x08a\x08");
    let none: Vec<&[u8]> = Vec::new();
    assert_eq!(split_words(b""), none);
    assert_eq!(split_words(b"  \t "), none);
    assert_eq!(split_words(b"one"), vec![&b"one"[..]]);
    assert_eq!(split_words(b" one  two\tthree\n"), vec![&b"one"[..], &b"two"[..], &b"three"[..]]);
}

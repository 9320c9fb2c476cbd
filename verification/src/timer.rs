//! The ARM generic timer: counting down to the next interrupt.
//!
//! The timer counts at a fixed frequency, which the caller reads from the
//! hardware, and fires when its countdown register reaches zero.

use vstd::prelude::*;

verus! {

/// Nanoseconds in a second.
pub const NANOS_PER_SECOND: u64 = 1_000_000_000;

/// Control value: timer off.
pub const TIMER_DISABLE: u64 = 0;

/// Control value: timer on, interrupt not masked.
pub const TIMER_ENABLE: u64 = 1;

/// Something to write to the timer.
#[derive(Debug, Clone, Copy, PartialEq, Eq, Structural)]
pub enum TimerWrite {
    /// A value for the control register.
    Control(u64),
    /// A value for the countdown register.
    Countdown(u64),
}

/// The timer.
#[derive(Debug, Clone, Copy, PartialEq, Eq, Structural)]
pub struct Timer;

/// The ticks that a timer of frequency `freq` counts in `nanos`
/// nanoseconds, rounded down.
pub open spec fn ticks_in(freq: u64, nanos: u64) -> int {
    freq * nanos / NANOS_PER_SECOND as int
}

/// Whether the tick count can be worked out in 64 bits.
pub open spec fn countable(freq: u64, nanos: u64) -> bool {
    freq * nanos <= u64::MAX
}

impl Timer {
    /// The writes that start the timer with a first interrupt after one
    /// second: off, count down one second, on. None where the frequency is
    /// too high for that.
    pub fn init(freq: u64) -> (writes: Option<Vec<TimerWrite>>)
        ensures
            match writes {
                Some(w) => countable(freq, NANOS_PER_SECOND) && w@ == seq![
                    TimerWrite::Control(TIMER_DISABLE),
                    TimerWrite::Countdown(ticks_in(freq, NANOS_PER_SECOND) as u64),
                    TimerWrite::Control(TIMER_ENABLE),
                ],
                None => !countable(freq, NANOS_PER_SECOND),
            },
    {
        match Timer::set_next_tick(freq, NANOS_PER_SECOND) {
            Some(ticks) => {
                let mut w: Vec<TimerWrite> = Vec::new();
                w.push(TimerWrite::Control(TIMER_DISABLE));
                w.push(TimerWrite::Countdown(ticks));
                w.push(TimerWrite::Control(TIMER_ENABLE));
                assert(w@ =~= seq![
                    TimerWrite::Control(TIMER_DISABLE),
                    TimerWrite::Countdown(ticks_in(freq, NANOS_PER_SECOND) as u64),
                    TimerWrite::Control(TIMER_ENABLE),
                ]);
                Some(w)
            },
            None => None,
        }
    }

    /// The value for the countdown register that makes a timer of
    /// frequency `freq` fire after `nanos` nanoseconds. None where the
    /// product of the two does not fit in 64 bits.
    pub fn set_next_tick(freq: u64, nanos: u64) -> (ticks: Option<u64>)
        ensures
            ticks == if countable(freq, nanos) {
                Some(ticks_in(freq, nanos) as u64)
            } else {
                None
            },
    {
        match freq.checked_mul(nanos) {
            Some(product) => Some(product / NANOS_PER_SECOND),
            None => None,
        }
    }
}

} // verus!

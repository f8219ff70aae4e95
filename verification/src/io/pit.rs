//! The Programmable Interval Timer.
use vstd::prelude::*;
use super::PortWrite;

verus! {

/// The command port of the PIT.
pub const PIT_COMMAND: u16 = 0x43;
/// The data port of the first channel of the PIT.
pub const PIT_CHANNEL_0: u16 = 0x40;
/// The command that selects channel 0, low-then-high access and the rate generator mode.
pub const PIT_RATE_GENERATOR_COMMAND: u8 = 0x34;
/// Three times the frequency of the PIT's oscillator, in Hz.
pub const PIT_BASE_FREQUENCY_X3: u64 = 3579545;
/// The frequency at which the kernel programs the timer, in Hz.
pub const TIMER_FREQUENCY: u64 = 1000;

/// The quotient of `num` by `denom`, rounded to the nearest integer (halves up).
pub open spec fn rounded_div(num: int, denom: int) -> int {
    (num + denom / 2) / denom
}

/// Divides `num` by `denom`, rounding to the nearest integer.
pub fn divide_rounded(num: u64, denom: u64) -> (r: u64)
    requires
        denom > 0,
        num + denom / 2 <= u64::MAX,
    ensures
        r == rounded_div(num as int, denom as int),
{
    (num + denom / 2) / denom
}

/// The reload value that makes the timer fire at `freq` Hz.
pub open spec fn reload_value_for(freq: u64) -> u64 {
    if freq <= 18 {
        0x10000
    } else if freq >= 1193181 {
        1
    } else {
        rounded_div(PIT_BASE_FREQUENCY_X3 as int, 3 * freq) as u64
    }
}

/// Computes the reload value that makes the timer fire at `freq` Hz: the slowest the timer can
/// go below 19 Hz, the fastest above 1193180 Hz.
pub fn freq_to_reload_value(freq: u64) -> (r: u64)
    ensures
        r == reload_value_for(freq),
{
    if freq <= 18 {
        0x10000
    } else if freq >= 1193181 {
        1
    } else {
        divide_rounded(PIT_BASE_FREQUENCY_X3, 3 * freq)
    }
}

/// The duration of a tick of the timer, in nanoseconds, for the provided reload value.
pub open spec fn tick_ns(rl: u64) -> int {
    rounded_div(3 * rl * 1_000_000_000, PIT_BASE_FREQUENCY_X3 as int)
}

/// Computes the duration of a tick of the timer, in nanoseconds, for the provided reload value,
/// which must be at most `0x10000`.
pub fn reload_value_to_ns(rl: u64) -> (r: u32)
    requires
        rl <= 0x10000,
    ensures
        r == tick_ns(rl),
{
    assert(3 * rl * 1_000_000_000 <= 3 * 0x10000 * 1_000_000_000) by (nonlinear_arith)
        requires
            rl <= 0x10000,
    ;
    let ns = divide_rounded(3 * rl * 1_000_000_000, PIT_BASE_FREQUENCY_X3);
    assert(ns <= u32::MAX) by (nonlinear_arith)
        requires
            ns == (3 * rl * 1_000_000_000 + PIT_BASE_FREQUENCY_X3 / 2) / (PIT_BASE_FREQUENCY_X3 as int),
            rl <= 0x10000,
    ;
    ns as u32
}

/// How the kernel programs the timer: the duration of a tick and the writes that configure it.
#[derive(Debug)]
pub struct PitSetup {
    /// The duration of a tick, in nanoseconds.
    pub interval_ns: u32,
    /// The writes that program the timer.
    pub writes: Vec<PortWrite>,
}

/// Computes how to program the timer to fire every millisecond.
pub fn init() -> (r: PitSetup)
    ensures
        r.interval_ns == tick_ns(reload_value_for(TIMER_FREQUENCY)),
        r.writes@ == seq![
            PortWrite { port: PIT_COMMAND, value: PIT_RATE_GENERATOR_COMMAND },
            PortWrite { port: PIT_CHANNEL_0, value: (reload_value_for(TIMER_FREQUENCY) & 0xFF) as u8 },
            PortWrite { port: PIT_CHANNEL_0, value: ((reload_value_for(TIMER_FREQUENCY) >> 8u64) & 0xFF) as u8 },
        ],
{
    let rl = freq_to_reload_value(TIMER_FREQUENCY);
    assert(rl <= 0x1000);
    let interval_ns = reload_value_to_ns(rl);
    let mut writes: Vec<PortWrite> = Vec::new();
    writes.push(PortWrite { port: PIT_COMMAND, value: PIT_RATE_GENERATOR_COMMAND });
    let data: u16 = rl as u16;
    let low: u8 = (data & 0xFF) as u8;
    let high: u8 = ((data >> 8u16) & 0xFF) as u8;
    assert((rl & 0xFF) as u8 == ((rl as u16) & 0xFF) as u8) by (bit_vector)
        requires
            rl <= 0x1000,
    ;
    assert(((rl >> 8u64) & 0xFF) as u8 == (((rl as u16) >> 8u16) & 0xFF) as u8) by (bit_vector)
        requires
            rl <= 0x1000,
    ;
    writes.push(PortWrite { port: PIT_CHANNEL_0, value: low });
    writes.push(PortWrite { port: PIT_CHANNEL_0, value: high });
    PitSetup { interval_ns, writes }
}

} // verus!

//! Timer settings.
use vstd::prelude::*;

verus! {

/// How a timer is armed: its due time in units of 100 ns, negative because it
/// is relative, and its period in milliseconds, zero for a single shot.
#[derive(Debug, Clone, Copy, PartialEq, Eq, Structural)]
pub struct TimerSetting {
    pub due_100ns: i64,
    pub period_ms: i32,
}

/// The units of 100 ns in a duration.
pub open spec fn units_of(secs: u64, nanos: u32) -> int {
    secs * 10_000_000 + nanos / 100
}

/// The milliseconds in a duration.
pub open spec fn millis_of(secs: u64, nanos: u32) -> int {
    secs * 1000 + nanos / 1_000_000
}

/// What an `i64` keeps of a number: its low 64 bits, in two's complement.
pub open spec fn kept_i64(x: int) -> int {
    let low = x % 0x1_0000_0000_0000_0000;
    if low < 0x8000_0000_0000_0000 {
        low
    } else {
        low - 0x1_0000_0000_0000_0000
    }
}

/// What an `i32` keeps of a number: its low 32 bits, in two's complement.
pub open spec fn kept_i32(x: int) -> int {
    let low = x % 0x1_0000_0000;
    if low < 0x8000_0000 {
        low
    } else {
        low - 0x1_0000_0000
    }
}

/// Durations in the range of the setting are kept whole.
pub proof fn settings_keep_durations(secs: u64, nanos: u32, int_secs: u64, int_nanos: u32)
    requires
        units_of(secs, nanos) <= i64::MAX,
        millis_of(int_secs, int_nanos) <= i32::MAX,
    ensures
        kept_i64(units_of(secs, nanos)) == units_of(secs, nanos),
        kept_i32(millis_of(int_secs, int_nanos)) == millis_of(int_secs, int_nanos),
{
}

/// The setting of a timer that fires after a duration of `secs` seconds and
/// `nanos` nanoseconds, and then at an interval of `int_secs` and `int_nanos`.
/// Of longer times it keeps the low bits.
pub fn timer_setting(secs: u64, nanos: u32, int_secs: u64, int_nanos: u32) -> (t: TimerSetting)
    requires
        nanos < 1_000_000_000,
        int_nanos < 1_000_000_000,
        kept_i64(units_of(secs, nanos)) > i64::MIN,
    ensures
        t.due_100ns == -kept_i64(units_of(secs, nanos)),
        t.period_ms == kept_i32(millis_of(int_secs, int_nanos)),
{
    let due: u128 = secs as u128 * 10_000_000 + (nanos / 100) as u128;
    let low: u64 = (due % 0x1_0000_0000_0000_0000) as u64;
    let kept: i64 = if low < 0x8000_0000_0000_0000 {
        low as i64
    } else {
        -((u64::MAX - low) as i64) - 1
    };
    let period: u128 = int_secs as u128 * 1000 + (int_nanos / 1_000_000) as u128;
    let low: u32 = (period % 0x1_0000_0000) as u32;
    let period_ms: i32 = if low < 0x8000_0000 {
        low as i32
    } else {
        -((u32::MAX - low) as i32) - 1
    };
    TimerSetting { due_100ns: -kept, period_ms }
}

/// The number of expirations of a wait: at least one is reported where the
/// count is missing.
pub fn expirations(count: Option<u64>) -> (n: u64)
    ensures
        n == match count {
            Some(c) => c,
            None => 1,
        },
{
    match count {
        Some(c) => c,
        None => 1,
    }
}

/// The units of a duration are its whole tenths of a microsecond, and its
/// milliseconds are whole too.
pub proof fn durations_are_rounded_down(secs: u64, nanos: u32)
    ensures
        units_of(secs, nanos) * 100 <= secs * 1_000_000_000 + nanos < units_of(secs, nanos) * 100
            + 100,
        millis_of(secs, nanos) * 1_000_000 <= secs * 1_000_000_000 + nanos < millis_of(secs, nanos)
            * 1_000_000 + 1_000_000,
{
}

/// What is kept of a number differs from it by a multiple of 2^64 or 2^32, and is in
/// the range of its type.
pub proof fn low_bits_are_kept(x: int)
    ensures
        (x - kept_i64(x)) % 0x1_0000_0000_0000_0000 == 0,
        -0x8000_0000_0000_0000 <= kept_i64(x) < 0x8000_0000_0000_0000,
        (x - kept_i32(x)) % 0x1_0000_0000 == 0,
        -0x8000_0000 <= kept_i32(x) < 0x8000_0000,
{
    let a = 0x1_0000_0000_0000_0000;
    let b = 0x1_0000_0000;
    let qa = x / a;
    let qb = x / b;
    assert(x == a * qa + x % a);
    assert(x == b * qb + x % b);
    if x % a < 0x8000_0000_0000_0000 {
        vstd::arithmetic::div_mod::lemma_mod_multiples_basic(qa, a);
    } else {
        vstd::arithmetic::div_mod::lemma_mod_multiples_basic(qa + 1, a);
    }
    if x % b < 0x8000_0000 {
        vstd::arithmetic::div_mod::lemma_mod_multiples_basic(qb, b);
    } else {
        vstd::arithmetic::div_mod::lemma_mod_multiples_basic(qb + 1, b);
    }
}

} // verus!

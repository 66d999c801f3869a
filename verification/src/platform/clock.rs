//! Broken-down time for clock devices.
use vstd::prelude::*;

verus! {

/// Broken-down UTC time.
#[derive(Debug, Clone, Copy, PartialEq, Eq, Structural)]
pub struct UtcTime {
    pub sec: i32,
    pub min: i32,
    pub hour: i32,
    pub mday: i32,
    /// Month, 0 to 11
    pub mon: i32,
    /// Years since 1900
    pub year: i32,
    /// Day of the week, 0 is Sunday
    pub wday: i32,
    /// Nanoseconds in the second
    pub nsec: i64,
}

impl Default for UtcTime {
    fn default() -> (t: Self)
        ensures
            t == (UtcTime {
                sec: 0,
                min: 0,
                hour: 0,
                mday: 0,
                mon: 0,
                year: 0,
                wday: 0,
                nsec: 0,
            }),
    {
        UtcTime { sec: 0, min: 0, hour: 0, mday: 0, mon: 0, year: 0, wday: 0, nsec: 0 }
    }
}

/// System time as Windows reports it: months from 1, whole years, and
/// milliseconds.
#[derive(Debug, Clone, Copy, PartialEq, Eq, Structural)]
pub struct SystemTime {
    pub year: u16,
    pub month: u16,
    pub day_of_week: u16,
    pub day: u16,
    pub hour: u16,
    pub minute: u16,
    pub second: u16,
    pub milliseconds: u16,
}

/// The broken-down time that a system time stands for.
pub open spec fn utc_of(st: SystemTime) -> UtcTime {
    UtcTime {
        sec: st.second as i32,
        min: st.minute as i32,
        hour: st.hour as i32,
        mday: st.day as i32,
        mon: (st.month - 1) as i32,
        year: (st.year - 1900) as i32,
        wday: st.day_of_week as i32,
        nsec: (st.milliseconds * 1_000_000) as i64,
    }
}

/// Broken-down time from system time.
pub fn utc_from_system_time(st: &SystemTime) -> (t: UtcTime)
    ensures
        t == utc_of(*st),
{
    UtcTime {
        sec: st.second as i32,
        min: st.minute as i32,
        hour: st.hour as i32,
        mday: st.day as i32,
        mon: st.month as i32 - 1,
        year: st.year as i32 - 1900,
        wday: st.day_of_week as i32,
        nsec: st.milliseconds as i64 * 1_000_000,
    }
}

/// A system time with its fields in range gives a broken-down time in range.
pub proof fn utc_times_are_in_range(st: SystemTime)
    requires
        1 <= st.month <= 12,
        1 <= st.day <= 31,
        st.day_of_week < 7,
        st.hour < 24,
        st.minute < 60,
        st.second < 60,
        st.milliseconds < 1000,
    ensures
        0 <= utc_of(st).sec < 60,
        0 <= utc_of(st).min < 60,
        0 <= utc_of(st).hour < 24,
        1 <= utc_of(st).mday <= 31,
        0 <= utc_of(st).mon < 12,
        utc_of(st).year == st.year - 1900,
        0 <= utc_of(st).wday < 7,
        0 <= utc_of(st).nsec < 1_000_000_000,
{
}

/// Each field of a broken-down time is that of the system time: months count from
/// zero, years from 1900, and a millisecond is a million nanoseconds.
pub proof fn utc_fields_are_those_of_the_system_time(st: SystemTime)
    ensures
        utc_of(st).sec == st.second,
        utc_of(st).min == st.minute,
        utc_of(st).hour == st.hour,
        utc_of(st).mday == st.day,
        utc_of(st).mon + 1 == st.month,
        utc_of(st).year + 1900 == st.year,
        utc_of(st).wday == st.day_of_week,
        utc_of(st).nsec == st.milliseconds * 1_000_000,
{
}

} // verus!

//! Counting events and termination requests.
use vstd::prelude::*;

verus! {

/// Flag that makes reads of an event fail instead of block.
pub const EFD_NONBLOCK: i32 = 0x800;

/// What a read of an event counter ends with.
#[derive(Debug, Clone, Copy, PartialEq, Eq, Structural)]
pub enum EventRead {
    /// The count, which was drained.
    Count(u64),
    /// Nothing was there, and the read does not wait.
    WouldBlock,
    /// Nothing was there: wait for the event and read again.
    Wait,
}

/// An event that counts how often it was signalled.
#[derive(Debug, Clone, Copy, PartialEq, Eq, Structural)]
pub struct EventCounter {
    /// The count
    pub counter: u64,
    /// Whether a read that finds nothing fails
    pub nonblock: bool,
}

/// Whether the flags hold the flag that makes reads fail.
pub open spec fn is_nonblock(flags: i32) -> bool {
    flags & EFD_NONBLOCK != 0
}

impl EventCounter {
    /// The event after `v` was added to its count, which wraps around.
    pub open spec fn signalled(self, v: u64) -> EventCounter {
        EventCounter {
            counter: ((self.counter + v) % 0x1_0000_0000_0000_0000) as u64,
            ..self
        }
    }

    /// What a read finds.
    pub open spec fn found(self) -> EventRead {
        if self.counter > 0 {
            EventRead::Count(self.counter)
        } else if self.nonblock {
            EventRead::WouldBlock
        } else {
            EventRead::Wait
        }
    }

    /// The event after a read.
    pub open spec fn drained(self) -> EventCounter {
        EventCounter { counter: 0, ..self }
    }

    /// A new event that was not signalled.
    pub fn new(flags: i32) -> (e: Self)
        ensures
            e.counter == 0,
            e.nonblock == is_nonblock(flags),
    {
        EventCounter { counter: 0, nonblock: flags & EFD_NONBLOCK != 0 }
    }

    /// Adds `v` to the count.
    pub fn write(&mut self, v: u64)
        ensures
            *final(self) == old(self).signalled(v),
    {
        self.counter = self.counter.wrapping_add(v);
    }

    /// Takes the count.
    pub fn read(&mut self) -> (r: EventRead)
        ensures
            r == old(self).found(),
            *final(self) == old(self).drained(),
    {
        let val: u64 = self.counter;
        self.counter = 0;
        if val > 0 {
            EventRead::Count(val)
        } else if self.nonblock {
            EventRead::WouldBlock
        } else {
            EventRead::Wait
        }
    }
}

/// Signals between two reads add up: after writes of `a` and of `b`, which fit
/// together, a read of a drained event gives their sum, and the next read finds
/// nothing.
pub proof fn signals_add_up(event: EventCounter, a: u64, b: u64)
    requires
        0 < a + b <= u64::MAX,
    ensures
        event.drained().signalled(a).signalled(b).found() == EventRead::Count((a + b) as u64),
        !(event.drained().signalled(a).signalled(b).drained().found() is Count),
{
}

/// Whether a console control event asks for termination: Ctrl+C (0),
/// Ctrl+Break (1) and closing the console (2).
pub fn is_termination_event(ctrl_type: u32) -> (b: bool)
    ensures
        b == (ctrl_type <= 2),
{
    ctrl_type == 0 || ctrl_type == 2 || ctrl_type == 1
}

/// A read finds the count of an event and drains it; where that is zero it fails on
/// an event that does not block and waits on any other. A signal adds to the count,
/// as a `u64` counts, and neither changes whether the event blocks. The flag that
/// keeps it from blocking is bit 11.
pub proof fn reads_drain_the_count(event: EventCounter, v: u64, flags: i32)
    ensures
        event.counter > 0 ==> event.found() == EventRead::Count(event.counter),
        event.counter == 0 && event.nonblock ==> event.found() == EventRead::WouldBlock,
        event.counter == 0 && !event.nonblock ==> event.found() == EventRead::Wait,
        event.drained().counter == 0,
        event.drained().nonblock == event.nonblock,
        event.signalled(v).nonblock == event.nonblock,
        event.counter + v <= u64::MAX ==> event.signalled(v).counter == event.counter + v,
        event.counter + v > u64::MAX ==> event.signalled(v).counter == event.counter + v
            - 0x1_0000_0000_0000_0000,
        0 <= flags ==> (is_nonblock(flags) <==> flags as int / 2048 % 2 == 1),
{
    if 0 <= flags {
        assert((flags & 0x800i32 != 0) == (flags as u32 / 2048 % 2 == 1)) by (bit_vector)
            requires
                0 <= flags,
        ;
    }
}

} // verus!

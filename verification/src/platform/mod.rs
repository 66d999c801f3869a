//! Platform primitives: events, polling, timers, clock and terminal.

pub mod clock;
pub mod event;
pub mod mmap;
pub mod poll;
pub mod terminal;
pub mod timer;

use cloud_hypervisor::epoll::{
    after_wait, event_action, expects_event, plan_dispatch, EventAction, LoopStep, WaitOutcome,
    CTRL_QUEUE_EVENT, EPOLL_HELPER_EVENT_KILL, EPOLL_HELPER_EVENT_LAST, EPOLL_HELPER_EVENT_PAUSE,
    EVENT_QUEUE_EVENT, REQUEST_QUEUE_EVENT,
};
use cloud_hypervisor::platform::clock::{utc_from_system_time, SystemTime, UtcTime};
use cloud_hypervisor::platform::event::{
    is_termination_event, EventCounter, EventRead, EFD_NONBLOCK,
};
use cloud_hypervisor::platform::mmap::{
    align_up_to_2mib, place_in_reservation, plan_mmap, prot_is_valid, ranges_to_release, AddressRange,
    MapError, MapPlan, TWO_MIB,
};
use cloud_hypervisor::platform::poll::{
    wait_timeout, EventPoll, PollError, PollEvent, MAX_EVENTS,
};
use cloud_hypervisor::platform::terminal::raw_console_mode;
use cloud_hypervisor::platform::timer::{expirations, timer_setting, TimerSetting};
use cloud_hypervisor::scsi::device::WorkerKind;

// ─── Events ──────────────────────────────────────────────────────────────────

#[test]
fn signals_add_up_until_they_are_read() {
    let mut e = EventCounter::new(EFD_NONBLOCK);
    assert_eq!(e.read(), EventRead::WouldBlock);
    e.write(2);
    e.write(3);
    assert_eq!(e.read(), EventRead::Count(5));
    assert_eq!(e.read(), EventRead::WouldBlock);
    let mut blocking = EventCounter::new(0);
    assert_eq!(blocking.read(), EventRead::Wait);
}

#[test]
fn termination_events() {
    assert!(is_termination_event(0));
    assert!(is_termination_event(2));
    assert!(!is_termination_event(5));
}

// ─── Poll ────────────────────────────────────────────────────────────────────

#[test]
fn sources_are_added_and_removed() {
    let mut poll = EventPoll::new();
    assert_eq!(poll.handles(), Err(PollError::NoEvents));
    poll.add_event(10, 1).unwrap();
    poll.add_event(20, 2).unwrap();
    poll.add_event(30, 1).unwrap();
    assert_eq!(poll.handles(), Ok(vec![10, 20, 30]));
    assert_eq!(poll.del_event_by_token(1), Ok(()));
    assert_eq!(poll.handles(), Ok(vec![20, 30]));
    assert_eq!(poll.del_event_by_token(9), Err(PollError::NoToken(9)));
    assert_eq!(poll.del_event(30), Ok(()));
    assert_eq!(poll.del_event(30), Err(PollError::NoHandle));
    assert_eq!(poll.handles(), Ok(vec![20]));
}

#[test]
fn a_poll_has_room_for_64_sources() {
    let mut poll = EventPoll::new();
    for i in 0..MAX_EVENTS as u64 {
        poll.add_event(i, i).unwrap();
    }
    assert_eq!(poll.add_event(99, 99), Err(PollError::TooManyEvents));
    assert_eq!(poll.handles().unwrap().len(), 64);
}

#[test]
fn ready_sources_are_collected_in_order() {
    let mut poll = EventPoll::new();
    for i in 0..4u64 {
        poll.add_event(i, 100 + i).unwrap();
    }
    assert_eq!(poll.woken(2, 0), Ok(2));
    assert_eq!(poll.woken(0x80, 0x80), Ok(0));
    assert_eq!(poll.woken(4, 0), Err(PollError::WaitFailed(4)));
    let ready = [true, true, false, true];
    let tokens = |max: usize| -> Vec<u64> {
        poll.collect_events(1, &ready, max).iter().map(|e| e.data).collect()
    };
    assert_eq!(tokens(10), vec![101, 103]);
    assert_eq!(tokens(1), vec![101]);
}

#[test]
fn poll_errors_have_texts() {
    assert!(PollError::NoToken(7).to_text().contains('7'));
    assert!(!PollError::TooManyEvents.to_text().is_empty());
    assert_ne!(PollError::NoHandle.to_text(), PollError::NoEvents.to_text());
}

#[test]
fn negative_timeouts_wait_forever() {
    assert_eq!(wait_timeout(-1), u32::MAX);
    assert_eq!(wait_timeout(0), 0);
    assert_eq!(wait_timeout(250), 250);
}

// ─── Timer, clock, terminal ──────────────────────────────────────────────────

#[test]
fn timers_count_in_the_units_of_the_system() {
    assert_eq!(
        timer_setting(2, 500_000_000, 0, 10_000_000),
        TimerSetting { due_100ns: -25_000_000, period_ms: 10 }
    );
    assert_eq!(timer_setting(0, 150, 1, 0), TimerSetting { due_100ns: -1, period_ms: 1000 });
    // An hour-long interval fits; of one of fifty days the low bits are kept.
    assert_eq!(timer_setting(0, 0, 3600, 0).period_ms, 3_600_000);
    assert_eq!(timer_setting(0, 0, 4_320_000, 0).period_ms, 4_320_000_000u64 as i32);
    assert_eq!(timer_setting(u64::MAX, 0, 0, 0).due_100ns, 10_000_000);
    assert_eq!(expirations(Some(3)), 3);
    assert_eq!(expirations(None), 1);
}

#[test]
fn system_time_is_converted() {
    let st = SystemTime {
        year: 2024,
        month: 2,
        day_of_week: 4,
        day: 29,
        hour: 23,
        minute: 59,
        second: 58,
        milliseconds: 7,
    };
    let t = UtcTime {
        sec: 58,
        min: 59,
        hour: 23,
        mday: 29,
        mon: 1,
        year: 124,
        wday: 4,
        nsec: 7_000_000,
    };
    assert_eq!(utc_from_system_time(&st), t);
}

#[test]
fn raw_mode_changes_four_bits() {
    assert_eq!(raw_console_mode(0x01F7), 0x03F0);
    assert_eq!(raw_console_mode(0), 0x0200);
    assert_eq!(raw_console_mode(u32::MAX), 0xFFFF_FFF8);
}

// ─── Mappings ────────────────────────────────────────────────────────────────

#[test]
fn addresses_are_aligned_to_large_pages() {
    assert_eq!(align_up_to_2mib(0), 0);
    assert_eq!(align_up_to_2mib(1), TWO_MIB);
    assert_eq!(align_up_to_2mib(TWO_MIB), TWO_MIB);
}

#[test]
fn mappings_are_planned() {
    assert_eq!(plan_mmap(4096, 1, 2), Ok(MapPlan::Plain { len: 4096, offset: 3 }));
    assert_eq!(
        plan_mmap(2 * TWO_MIB as u64, 0, 0),
        Ok(MapPlan::Aligned { len: 2 * TWO_MIB, offset: 0, reserve: 3 * TWO_MIB })
    );
    assert_eq!(plan_mmap(4096, u64::MAX, 1), Err(MapError::BadOffset));
    assert_eq!(plan_mmap(4096, i64::MAX as u64, 1), Err(MapError::BadOffset));
    assert_eq!(plan_mmap(u64::MAX, 0, 0), Err(MapError::BadLength));
}

#[test]
fn protections_are_checked() {
    assert!(prot_is_valid(0));
    assert!(prot_is_valid(7));
    assert!(!prot_is_valid(8));
    assert!(!prot_is_valid(-1));
}

#[test]
fn mappings_are_placed_in_their_reservation() {
    let p = place_in_reservation(TWO_MIB + 0x1000, 4 * TWO_MIB);
    assert_eq!(p.mapping, AddressRange { addr: 2 * TWO_MIB, len: 4 * TWO_MIB });
    assert_eq!(p.head, AddressRange { addr: TWO_MIB + 0x1000, len: TWO_MIB - 0x1000 });
    assert_eq!(p.tail, AddressRange { addr: 6 * TWO_MIB, len: 0x1000 });
    let base = TWO_MIB + 0x1000;
    assert_eq!(ranges_to_release(base, p, true), vec![p.head, p.tail]);
    assert_eq!(
        ranges_to_release(base, p, false),
        vec![AddressRange { addr: base, len: 5 * TWO_MIB }]
    );
    let p = place_in_reservation(0, TWO_MIB);
    assert_eq!(p.head.len, 0);
    assert_eq!(ranges_to_release(0, p, true), vec![p.tail]);
    assert_eq!(p.tail, AddressRange { addr: TWO_MIB, len: TWO_MIB });
}

// ─── Event loop ──────────────────────────────────────────────────────────────

#[test]
fn waits_are_retried_or_dispatched() {
    assert_eq!(after_wait(WaitOutcome::Interrupted), LoopStep::Retry);
    assert_eq!(after_wait(WaitOutcome::Failed), LoopStep::Fail);
    assert_eq!(after_wait(WaitOutcome::Events(0)), LoopStep::Timeout);
    assert_eq!(after_wait(WaitOutcome::Events(3)), LoopStep::Dispatch(3));
}

#[test]
fn nothing_is_dispatched_behind_a_stop() {
    let event = |token: u16| PollEvent { data: token as u64 };
    assert_eq!(event_action(&event(EPOLL_HELPER_EVENT_KILL)), EventAction::Stop);
    assert_eq!(event_action(&event(EPOLL_HELPER_EVENT_PAUSE)), EventAction::Pause);
    assert_eq!(event_action(&event(18)), EventAction::Handle(18));
    let actions = plan_dispatch(&[event(18), event(0), event(1), event(17)]);
    assert_eq!(actions, vec![EventAction::Handle(18), EventAction::Pause, EventAction::Stop]);
    assert!(plan_dispatch(&[]).is_empty());
}

#[test]
fn workers_expect_their_own_event() {
    assert_eq!(CTRL_QUEUE_EVENT, EPOLL_HELPER_EVENT_LAST + 1);
    assert!(expects_event(WorkerKind::Control, CTRL_QUEUE_EVENT));
    assert!(expects_event(WorkerKind::Event, EVENT_QUEUE_EVENT));
    assert!(expects_event(WorkerKind::Request, REQUEST_QUEUE_EVENT));
    assert!(!expects_event(WorkerKind::Request, CTRL_QUEUE_EVENT));
}

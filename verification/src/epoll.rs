//! The event loop of device workers.
use vstd::prelude::*;

use crate::platform::poll::PollEvent;
use crate::scsi::device::WorkerKind;

verus! {

/// Token of the event that pauses a worker.
pub const EPOLL_HELPER_EVENT_PAUSE: u16 = 0;

/// Token of the event that stops a worker.
pub const EPOLL_HELPER_EVENT_KILL: u16 = 1;

/// Last token that workers cannot use for their own events.
pub const EPOLL_HELPER_EVENT_LAST: u16 = 15;

/// Token of the control queue's event.
pub const CTRL_QUEUE_EVENT: u16 = 16;

/// Token of the event queue's event.
pub const EVENT_QUEUE_EVENT: u16 = 17;

/// Token of a request queue's event.
pub const REQUEST_QUEUE_EVENT: u16 = 18;

/// The number of events that one wait takes.
pub const EPOLL_EVENTS_LEN: usize = 100;

/// How a wait for events ended.
#[derive(Debug, Clone, Copy, PartialEq, Eq, Structural)]
pub enum WaitOutcome {
    /// With this many events, none where the time was up
    Events(usize),
    /// By a signal
    Interrupted,
    /// With an error
    Failed,
}

/// What a worker does after a wait.
#[derive(Debug, Clone, Copy, PartialEq, Eq, Structural)]
pub enum LoopStep {
    /// Wait again.
    Retry,
    /// End with an error.
    Fail,
    /// Handle the timeout and wait again.
    Timeout,
    /// Dispatch the events and wait again.
    Dispatch(usize),
}

/// Decides what a worker does after a wait.
pub fn after_wait(outcome: WaitOutcome) -> (step: LoopStep)
    ensures
        step == match outcome {
            WaitOutcome::Events(n) => if n == 0 {
                LoopStep::Timeout
            } else {
                LoopStep::Dispatch(n)
            },
            WaitOutcome::Interrupted => LoopStep::Retry,
            WaitOutcome::Failed => LoopStep::Fail,
        },
{
    match outcome {
        WaitOutcome::Events(n) => if n == 0 {
            LoopStep::Timeout
        } else {
            LoopStep::Dispatch(n)
        },
        WaitOutcome::Interrupted => LoopStep::Retry,
        WaitOutcome::Failed => LoopStep::Fail,
    }
}

/// What a worker does about an event.
#[derive(Debug, Clone, Copy, PartialEq, Eq, Structural)]
pub enum EventAction {
    /// Stop.
    Stop,
    /// Wait until it is resumed.
    Pause,
    /// Hand the event, with this token, to the device.
    Handle(u16),
}

/// What a worker does about an event: the low 16 bits of its data are the
/// token.
pub open spec fn action_of(event: PollEvent) -> EventAction {
    let token = (event.data % 0x1_0000) as u16;
    if token == EPOLL_HELPER_EVENT_KILL {
        EventAction::Stop
    } else if token == EPOLL_HELPER_EVENT_PAUSE {
        EventAction::Pause
    } else {
        EventAction::Handle(token)
    }
}

/// Decides what a worker does about an event.
pub fn event_action(event: &PollEvent) -> (action: EventAction)
    ensures
        action == action_of(*event),
{
    let token: u16 = (event.data % 0x1_0000) as u16;
    if token == EPOLL_HELPER_EVENT_KILL {
        EventAction::Stop
    } else if token == EPOLL_HELPER_EVENT_PAUSE {
        EventAction::Pause
    } else {
        EventAction::Handle(token)
    }
}

/// What a worker does about the events of a wait, in order: nothing behind the
/// first that stops it.
pub open spec fn actions_of(events: Seq<PollEvent>) -> Seq<EventAction>
    decreases events.len(),
{
    if events.len() == 0 {
        Seq::empty()
    } else if action_of(events[0]) == EventAction::Stop {
        seq![EventAction::Stop]
    } else {
        seq![action_of(events[0])] + actions_of(events.skip(1))
    }
}

/// Plans what a worker does about the events of a wait.
pub fn plan_dispatch(events: &[PollEvent]) -> (actions: Vec<EventAction>)
    ensures
        actions@ == actions_of(events@),
{
    let mut actions: Vec<EventAction> = Vec::new();
    let ghost all = actions_of(events@);
    let mut i: usize = 0;
    assert(events@.skip(0) =~= events@);
    while i < events.len()
        invariant
            i <= events@.len(),
            all == actions@ + actions_of(events@.skip(i as int)),
            all == actions_of(events@),
        decreases events@.len() - i,
    {
        let action = event_action(&events[i]);
        let ghost rest = events@.skip(i as int);
        assert(rest[0] == events@[i as int]);
        assert(rest.skip(1) =~= events@.skip(i + 1));
        actions.push(action);
        if action == EventAction::Stop {
            assert(actions@ =~= all);
            return actions;
        }
        assert(actions@ + actions_of(events@.skip(i + 1)) =~= all);
        i += 1;
    }
    assert(actions@ =~= all);
    actions
}

/// A worker does nothing after it was told to stop: a stop is the last of its
/// actions, and comes exactly where one of the events asks for it.
pub proof fn stops_are_last(events: Seq<PollEvent>)
    ensures
        forall|i: int|
            0 <= i < actions_of(events).len() - 1 ==> #[trigger] actions_of(events)[i]
                != EventAction::Stop,
        (exists|i: int|
            0 <= i < events.len() && #[trigger] action_of(events[i]) == EventAction::Stop) <==> (
        actions_of(events).len() > 0 && actions_of(events).last() == EventAction::Stop),
    decreases events.len(),
{
    if events.len() > 0 {
        let rest = events.skip(1);
        let a = actions_of(events);
        stops_are_last(rest);
        if action_of(events[0]) != EventAction::Stop {
            assert forall|i: int| 0 <= i < a.len() - 1 implies #[trigger] a[i]
                != EventAction::Stop by {
                if i > 0 {
                    assert(a[i] == actions_of(rest)[i - 1]);
                }
            }
            if exists|i: int|
                0 <= i < events.len() && #[trigger] action_of(events[i]) == EventAction::Stop {
                let i = choose|i: int|
                    0 <= i < events.len() && #[trigger] action_of(events[i]) == EventAction::Stop;
                assert(action_of(rest[i - 1]) == EventAction::Stop);
            }
            if a.last() == EventAction::Stop {
                assert(actions_of(rest).len() > 0);
                let i = choose|i: int|
                    0 <= i < rest.len() && #[trigger] action_of(rest[i]) == EventAction::Stop;
                assert(action_of(events[i + 1]) == EventAction::Stop);
            }
        } else {
            assert(action_of(events[0]) == EventAction::Stop);
        }
    }
}

/// The token that a worker's own event has.
pub open spec fn own_token(kind: WorkerKind) -> u16 {
    match kind {
        WorkerKind::Control => CTRL_QUEUE_EVENT,
        WorkerKind::Event => EVENT_QUEUE_EVENT,
        WorkerKind::Request => REQUEST_QUEUE_EVENT,
    }
}

/// Whether a worker expects an event with this token: its queue's alone.
pub fn expects_event(kind: WorkerKind, token: u16) -> (b: bool)
    ensures
        b == (token == own_token(kind)),
{
    match kind {
        WorkerKind::Control => token == CTRL_QUEUE_EVENT,
        WorkerKind::Event => token == EVENT_QUEUE_EVENT,
        WorkerKind::Request => token == REQUEST_QUEUE_EVENT,
    }
}

/// What a worker does about an event, by the low 16 bits of its data: it pauses at
/// 0, stops at 1, and hands any other to its device with those bits as its token.
/// The tokens of the queues are 16 for control, 17 for events and 18 for requests.
pub proof fn workers_follow_the_token(event: PollEvent)
    ensures
        event.data % 0x1_0000 == 0 ==> action_of(event) == EventAction::Pause,
        event.data % 0x1_0000 == 1 ==> action_of(event) == EventAction::Stop,
        event.data % 0x1_0000 > 1 ==> action_of(event) == EventAction::Handle(
            (event.data % 0x1_0000) as u16,
        ),
        own_token(WorkerKind::Control) == 16,
        own_token(WorkerKind::Event) == 17,
        own_token(WorkerKind::Request) == 18,
{
}

/// A worker acts on the events of a wait in their order, each by itself, and on all
/// of them unless one stops it.
pub proof fn events_are_handled_in_order(events: Seq<PollEvent>, k: int)
    requires
        0 <= k < events.len(),
        forall|i: int| 0 <= i < k ==> (#[trigger] events[i]).data % 0x1_0000 != 1,
    ensures
        k < actions_of(events).len() <= events.len(),
        actions_of(events)[k] == action_of(events[k]),
        events[k].data % 0x1_0000 == 1 ==> actions_of(events).len() == k + 1,
        k == events.len() - 1 ==> actions_of(events).len() == events.len(),
    decreases events.len(),
{
    let rest = events.skip(1);
    workers_follow_the_token(events[0]);
    if k > 0 {
        assert(events[0].data % 0x1_0000 != 1);
        assert forall|i: int| 0 <= i < k - 1 implies (#[trigger] rest[i]).data % 0x1_0000
            != 1 by {
            assert(rest[i] == events[i + 1]);
        }
        events_are_handled_in_order(rest, k - 1);
        assert(rest[k - 1] == events[k]);
        assert(actions_of(events)[k] == actions_of(rest)[k - 1]);
    } else if action_of(events[0]) != EventAction::Stop {
        actions_are_no_more(rest);
        if events.len() == 1 {
            assert(actions_of(rest).len() == 0);
        }
    }
}

/// There are no more actions than events.
proof fn actions_are_no_more(events: Seq<PollEvent>)
    ensures
        actions_of(events).len() <= events.len(),
    decreases events.len(),
{
    if events.len() > 0 {
        actions_are_no_more(events.skip(1));
    }
}

} // verus!

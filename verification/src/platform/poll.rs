//! Polling of a set of event sources.
use vstd::prelude::*;
use vstd::string::*;

use crate::text::{decimal, decimal_string};

verus! {

/// Most event sources of a set.
pub const MAX_EVENTS: usize = 64;

/// An event that a wait returns.
#[derive(Debug, Clone, Copy, PartialEq, Eq, Structural)]
pub struct PollEvent {
    /// Token of the event source
    pub data: u64,
}

/// A registered event source.
#[derive(Debug, Clone, Copy, PartialEq, Eq, Structural)]
pub struct PollEntry {
    /// The source
    pub handle: u64,
    /// Its token
    pub token: u64,
}

/// Why an operation on a set of event sources failed.
#[derive(Debug, Clone, Copy, PartialEq, Eq, Structural)]
pub enum PollError {
    /// The set is full.
    TooManyEvents,
    /// No source has the token.
    NoToken(u64),
    /// The source is not in the set.
    NoHandle,
    /// The set is empty.
    NoEvents,
    /// The wait failed with this result.
    WaitFailed(u32),
}

impl PollError {
    /// The error as text.
    pub open spec fn text(self) -> Seq<char> {
        match self {
            PollError::TooManyEvents => "EventPoll: too many events (max 64)"@,
            PollError::NoToken(token) => "EventPoll: no event with token "@ + decimal(
                token as nat,
            ),
            PollError::NoHandle => "EventPoll: handle not found"@,
            PollError::NoEvents => "EventPoll: no events registered"@,
            PollError::WaitFailed(result) => "WaitForMultipleObjects failed: result="@ + decimal(
                result as nat,
            ),
        }
    }

    /// The error as text.
    pub fn to_text(&self) -> (s: String)
        ensures
            s@ == self.text(),
    {
        match self {
            PollError::TooManyEvents => "EventPoll: too many events (max 64)".to_owned(),
            PollError::NoToken(token) => {
                let mut s: String = "EventPoll: no event with token ".to_owned();
                let n: String = decimal_string(*token);
                s.append(n.as_str());
                s
            },
            PollError::NoHandle => "EventPoll: handle not found".to_owned(),
            PollError::NoEvents => "EventPoll: no events registered".to_owned(),
            PollError::WaitFailed(result) => {
                let mut s: String = "WaitForMultipleObjects failed: result=".to_owned();
                let n: String = decimal_string(*result as u64);
                s.append(n.as_str());
                s
            },
        }
    }
}

/// A set of event sources, in the order of their registration.
#[derive(Debug, Clone)]
pub struct EventPoll {
    entries: Vec<PollEntry>,
}

impl View for EventPoll {
    type V = Seq<PollEntry>;

    closed spec fn view(&self) -> Seq<PollEntry> {
        self.entries@
    }
}

/// The first entry with the token.
pub open spec fn is_first_with_token(entries: Seq<PollEntry>, token: u64, i: int) -> bool {
    &&& 0 <= i < entries.len()
    &&& entries[i].token == token
    &&& forall|k: int| 0 <= k < i ==> (#[trigger] entries[k]).token != token
}

/// The first entry with the source.
pub open spec fn is_first_with_handle(entries: Seq<PollEntry>, handle: u64, i: int) -> bool {
    &&& 0 <= i < entries.len()
    &&& entries[i].handle == handle
    &&& forall|k: int| 0 <= k < i ==> (#[trigger] entries[k]).handle != handle
}

/// The tokens of the sources from `from` on that are signalled.
pub open spec fn signalled_tokens(
    entries: Seq<PollEntry>,
    signalled: Seq<bool>,
    from: int,
) -> Seq<u64>
    decreases entries.len() - from,
{
    if from < 0 || from >= entries.len() {
        Seq::empty()
    } else if signalled[from] {
        seq![entries[from].token] + signalled_tokens(entries, signalled, from + 1)
    } else {
        signalled_tokens(entries, signalled, from + 1)
    }
}

/// What a wait found, by the source that woke it.
pub open spec fn ready_tokens(
    entries: Seq<PollEntry>,
    first: int,
    signalled: Seq<bool>,
) -> Seq<u64> {
    seq![entries[first].token] + signalled_tokens(entries, signalled, first + 1)
}

/// The wait's timeout in milliseconds: a negative one waits without end.
pub fn wait_timeout(timeout_ms: i32) -> (t: u32)
    ensures
        t == if timeout_ms < 0 {
            0xFFFF_FFFFu32
        } else {
            timeout_ms as u32
        },
{
    if timeout_ms < 0 {
        0xFFFF_FFFF
    } else {
        timeout_ms as u32
    }
}

impl EventPoll {
    /// A set without event sources.
    pub fn new() -> (p: Self)
        ensures
            p@.len() == 0,
    {
        EventPoll { entries: Vec::new() }
    }

    /// Registers an event source with a token.
    pub fn add_event(&mut self, handle: u64, token: u64) -> (r: Result<(), PollError>)
        ensures
            if old(self)@.len() >= MAX_EVENTS {
                r == Err::<(), PollError>(PollError::TooManyEvents) && final(self)@ == old(self)@
            } else {
                r is Ok && final(self)@ == old(self)@.push(PollEntry { handle, token })
            },
    {
        if self.entries.len() >= MAX_EVENTS {
            return Err(PollError::TooManyEvents);
        }
        self.entries.push(PollEntry { handle, token });
        Ok(())
    }

    /// Removes the first event source with the token.
    pub fn del_event_by_token(&mut self, token: u64) -> (r: Result<(), PollError>)
        ensures
            match r {
                Ok(_) => exists|i: int|
                    is_first_with_token(old(self)@, token, i) && final(self)@
                        == #[trigger] old(self)@.remove(i),
                Err(e) => {
                    &&& e == PollError::NoToken(token)
                    &&& final(self)@ == old(self)@
                    &&& forall|i: int|
                        0 <= i < old(self)@.len() ==> (#[trigger] old(self)@[i]).token != token
                },
            },
    {
        let mut i: usize = 0;
        while i < self.entries.len()
            invariant
                i <= self.entries@.len(),
                self.entries@ == old(self)@,
                forall|k: int| 0 <= k < i ==> (#[trigger] self.entries@[k]).token != token,
            decreases self.entries@.len() - i,
        {
            if self.entries[i].token == token {
                assert(is_first_with_token(old(self)@, token, i as int));
                let _entry = self.entries.remove(i);
                assert(self.entries@ == old(self)@.remove(i as int));
                return Ok(());
            }
            i += 1;
        }
        Err(PollError::NoToken(token))
    }

    /// Removes the first registration of an event source.
    pub fn del_event(&mut self, handle: u64) -> (r: Result<(), PollError>)
        ensures
            match r {
                Ok(_) => exists|i: int|
                    is_first_with_handle(old(self)@, handle, i) && final(self)@
                        == #[trigger] old(self)@.remove(i),
                Err(e) => {
                    &&& e == PollError::NoHandle
                    &&& final(self)@ == old(self)@
                    &&& forall|i: int|
                        0 <= i < old(self)@.len() ==> (#[trigger] old(self)@[i]).handle != handle
                },
            },
    {
        let mut i: usize = 0;
        while i < self.entries.len()
            invariant
                i <= self.entries@.len(),
                self.entries@ == old(self)@,
                forall|k: int| 0 <= k < i ==> (#[trigger] self.entries@[k]).handle != handle,
            decreases self.entries@.len() - i,
        {
            if self.entries[i].handle == handle {
                assert(is_first_with_handle(old(self)@, handle, i as int));
                let _entry = self.entries.remove(i);
                assert(self.entries@ == old(self)@.remove(i as int));
                return Ok(());
            }
            i += 1;
        }
        Err(PollError::NoHandle)
    }

    /// The sources to wait for, in order.
    pub fn handles(&self) -> (r: Result<Vec<u64>, PollError>)
        ensures
            match r {
                Ok(handles) => self@.len() > 0 && handles@ == self@.map_values(
                    |e: PollEntry| e.handle,
                ),
                Err(e) => e == PollError::NoEvents && self@.len() == 0,
            },
    {
        if self.entries.len() == 0 {
            return Err(PollError::NoEvents);
        }
        let mut handles: Vec<u64> = Vec::new();
        let mut i: usize = 0;
        while i < self.entries.len()
            invariant
                i <= self.entries@.len(),
                handles@.len() == i,
                forall|k: int| 0 <= k < i ==> handles@[k] == self.entries@[k].handle,
            decreases self.entries@.len() - i,
        {
            handles.push(self.entries[i].handle);
            i += 1;
        }
        assert(handles@ =~= self@.map_values(|e: PollEntry| e.handle));
        Ok(handles)
    }

    /// The index of the source that woke a wait with the given result, counted
    /// from `base`, the result for the first source.
    pub fn woken(&self, result: u32, base: u32) -> (r: Result<usize, PollError>)
        requires
            base <= result,
        ensures
            match r {
                Ok(i) => i == result - base && i < self@.len(),
                Err(e) => e == PollError::WaitFailed(result) && result - base >= self@.len(),
            },
    {
        let first: usize = (result - base) as usize;
        if first >= self.entries.len() {
            return Err(PollError::WaitFailed(result));
        }
        Ok(first)
    }

    /// The events of a wait that the source at `first` woke, where `signalled`
    /// says of each source whether it is signalled: that source and those
    /// behind it, as far as `max` reaches.
    pub fn collect_events(&self, first: usize, signalled: &[bool], max: usize) -> (events: Vec<
        PollEvent,
    >)
        requires
            first < self@.len(),
            signalled@.len() == self@.len(),
        ensures
            ({
                let all = ready_tokens(self@, first as int, signalled@);
                let n = if max < all.len() {
                    max as int
                } else {
                    all.len() as int
                };
                &&& events@.len() == n
                &&& forall|k: int| 0 <= k < n ==> (#[trigger] events@[k]).data == all[k]
            }),
    {
        let mut events: Vec<PollEvent> = Vec::new();
        let count: usize = self.entries.len();
        let ghost all = ready_tokens(self@, first as int, signalled@);
        if max == 0 {
            return events;
        }
        events.push(PollEvent { data: self.entries[first].token });
        let mut i: usize = first + 1;
        assert(all == seq![self@[first as int].token] + signalled_tokens(
            self@,
            signalled@,
            i as int,
        ));
        let ghost mut taken: Seq<u64> = seq![self@[first as int].token];
        while i < count && events.len() < max
            invariant
                first < i <= count == self.entries@.len(),
                self@ == self.entries@,
                signalled@.len() == self@.len(),
                1 <= events@.len() <= max,
                taken.len() == events@.len(),
                forall|k: int| 0 <= k < taken.len() ==> (#[trigger] events@[k]).data == taken[k],
                all == taken + signalled_tokens(self@, signalled@, i as int),
            decreases self.entries@.len() - i,
        {
            if signalled[i] {
                events.push(PollEvent { data: self.entries[i].token });
                proof {
                    taken = taken.push(self@[i as int].token);
                    assert(taken + signalled_tokens(self@, signalled@, i + 1) =~= all);
                }
            }
            i += 1;
        }
        assert(forall|k: int| 0 <= k < taken.len() ==> all[k] == taken[k]);
        events
    }
}

/// An event source that was added to a set is found by its token and by
/// itself, and its removal gives the set back where no other has either.
pub proof fn added_sources_can_be_removed(entries: Seq<PollEntry>, handle: u64, token: u64)
    requires
        forall|i: int|
            0 <= i < entries.len() ==> (#[trigger] entries[i]).token != token && entries[i].handle
                != handle,
    ensures
        ({
            let with = entries.push(PollEntry { handle, token });
            let i = entries.len() as int;
            &&& is_first_with_token(with, token, i)
            &&& is_first_with_handle(with, handle, i)
            &&& with.remove(i) == entries
        }),
{
    let with = entries.push(PollEntry { handle, token });
    assert(with.remove(entries.len() as int) =~= entries);
}

/// The events of a wait are in the order of their sources: the source that woke it
/// first, and then each that is signalled behind it, none twice and none left out.
pub proof fn ready_sources_keep_their_order(
    entries: Seq<PollEntry>,
    signalled: Seq<bool>,
    first: int,
    k: int,
)
    requires
        0 <= first < k < entries.len(),
        signalled.len() == entries.len(),
    ensures
        ready_tokens(entries, first, signalled)[0] == entries[first].token,
        ({
            let front = ready_tokens(entries.take(k), first, signalled.take(k));
            let all = ready_tokens(entries, first, signalled);
            &&& signalled[k] ==> front.len() < all.len() && all[front.len() as int]
                == entries[k].token
            &&& signalled[k] ==> front.len() + 1 == ready_tokens(
                entries.take(k + 1),
                first,
                signalled.take(k + 1),
            ).len()
            &&& !signalled[k] ==> front == ready_tokens(
                entries.take(k + 1),
                first,
                signalled.take(k + 1),
            )
        }),
{
    signalled_sources(entries, signalled, first + 1, k);
    signalled_sources(entries.take(k + 1), signalled.take(k + 1), first + 1, k);
    assert(entries.take(k + 1).take(k) =~= entries.take(k));
    assert(signalled.take(k + 1).take(k) =~= signalled.take(k));
    assert(signalled_tokens(entries.take(k + 1), signalled.take(k + 1), k + 1) =~= Seq::empty());
}

/// The signalled sources from `from` on, before and from the `k`-th.
proof fn signalled_sources(entries: Seq<PollEntry>, signalled: Seq<bool>, from: int, k: int)
    requires
        0 <= from <= k < entries.len(),
        signalled.len() == entries.len(),
    ensures
        signalled_tokens(entries, signalled, from) == signalled_tokens(
            entries.take(k),
            signalled.take(k),
            from,
        ) + signalled_tokens(entries, signalled, k),
        signalled_tokens(entries, signalled, k) == if signalled[k] {
            seq![entries[k].token] + signalled_tokens(entries, signalled, k + 1)
        } else {
            signalled_tokens(entries, signalled, k + 1)
        },
    decreases k - from,
{
    if from < k {
        signalled_sources(entries, signalled, from + 1, k);
        assert(signalled_tokens(entries, signalled, from) =~= signalled_tokens(
            entries.take(k),
            signalled.take(k),
            from,
        ) + signalled_tokens(entries, signalled, k));
    } else {
        assert(signalled_tokens(entries.take(k), signalled.take(k), from) =~= Seq::empty());
        assert(signalled_tokens(entries, signalled, from) =~= Seq::<u64>::empty()
            + signalled_tokens(entries, signalled, k));
    }
}

} // verus!

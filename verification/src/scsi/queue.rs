//! Serving the queues of a SCSI controller: taking chains from a queue one
//! after another, processing each, and putting it on the used ring.
use crate::disk::DiskOps;
use crate::guest_memory::{device_writes, is_mapped, mapped_addresses, untouched};
use crate::scsi::commands::{ProcessorView, ScsiCommandProcessor};
use crate::scsi::handler::{
    bounded_chains_are_well_formed, chain_len, chain_processed, chain_wf, ctrl_answered, ctrl_read,
    is_first_writable, lun_views, luns_wf, process_ctrl_request, process_request, CtrlOutcome,
    Descriptor, LunDisk, ResponseError,
};
use virtio_queue::{Queue, QueueT};
use vm_memory::GuestMemoryMmap;
use vstd::prelude::*;

verus! {

/// `virtio_queue::Queue`, a split virtqueue.
#[verifier::external_type_specification]
#[verifier::external_body]
pub struct ExQueue(virtio_queue::Queue);

/// The chains that [`add_used`] succeeded to put on the used ring of `queue`,
/// each as the index of its head and the number of bytes written.
pub uninterp spec fn used_chains(queue: Queue) -> Seq<(u16, u32)>;

/// The chains that [`pop_chain`] took from `queue`, each as the index of its
/// head and its descriptors.
pub uninterp spec fn taken_chains(queue: Queue) -> Seq<(u16, Seq<Descriptor>)>;

/// The looks at `queue` for a chain by [`pop_chain`]: for each whether it found
/// one.
pub uninterp spec fn looks(queue: Queue) -> Seq<bool>;

/// Calls `virtio_queue::QueueT::pop_descriptor_chain` and walks the chain.
/// Claimed: the call counts as a look at the queue, which found a chain where
/// one comes back. That chain is the last that was taken from the queue, and
/// its buffers have no more bytes than a `u32` counts, because the walk ends
/// before it exceeds that. The used ring is left as it is. Whether there is a
/// chain, and what it holds, is up to the guest.
#[verifier::external_body]
fn pop_chain(queue: &mut Queue, mem: &GuestMemoryMmap<()>) -> (r: Option<(u16, Vec<Descriptor>)>)
    ensures
        looks(*final(queue)) == looks(*old(queue)).push(r is Some),
        used_chains(*final(queue)) == used_chains(*old(queue)),
        r matches Some((_, descs)) ==> chain_len(descs@) <= u32::MAX,
        taken_chains(*final(queue)) == match r {
            Some((head, descs)) => taken_chains(*old(queue)).push((head, descs@)),
            None => taken_chains(*old(queue)),
        },
{
    let chain = queue.pop_descriptor_chain(mem)?;
    let head = chain.head_index();
    let descs = chain
        .map(|d| Descriptor { addr: d.addr().0, len: d.len(), write_only: d.is_write_only() })
        .collect();
    Some((head, descs))
}

/// Calls `virtio_queue::QueueT::add_used` for the chain with that head.
/// Claimed: where it succeeds, the chain is the last on the used ring, with
/// that number of bytes; and it looks for no chain. Whether it succeeds is up to
/// the guest, which chooses the head, and where the ring is. What is left in
/// the ring where it fails is not stated.
#[verifier::external_body]
fn add_used(queue: &mut Queue, mem: &GuestMemoryMmap<()>, head: u16, len: u32) -> (ok: bool)
    ensures
        used_chains(*final(queue)) == if ok {
            used_chains(*old(queue)).push((head, len))
        } else {
            used_chains(*old(queue))
        },
        taken_chains(*final(queue)) == taken_chains(*old(queue)),
        looks(*final(queue)) == looks(*old(queue)),
{
    queue.add_used(mem, head, len).is_ok()
}

/// Why serving a queue stopped before the queue was empty.
#[derive(Debug, Clone, Copy, PartialEq, Eq)]
pub enum QueueError {
    /// A control request is not in guest memory.
    ReadRequest,
    /// The answer to a control request could not be written.
    WriteAnswer,
    /// A response could not be written.
    Response(ResponseError),
    /// A chain could not be put on the used ring.
    AddUsed,
}

/// As many looks at a queue, each of which found a chain.
pub open spec fn found(n: nat) -> Seq<bool> {
    Seq::new(n, |i: int| true)
}

/// How a queue was looked at while it was served: one chain after another was
/// found and served, until a look found none, or until as many were served as
/// can be counted; or until a chain was found that could not be served.
pub open spec fn drained(
    before: Seq<bool>,
    after: Seq<bool>,
    r: Result<u64, QueueError>,
) -> bool {
    match r {
        Ok(n) => after == if n < u64::MAX {
            before + found(n as nat).push(false)
        } else {
            before + found(n as nat)
        },
        Err(_) => exists|n: nat| after == #[trigger] (before + found(n)) && n > 0,
    }
}

/// A queue that was served without an error, and not as often as can be counted,
/// was found empty at the end.
pub proof fn served_queues_are_empty(before: Seq<bool>, after: Seq<bool>, n: u64)
    requires
        drained(before, after, Ok(n)),
        n < u64::MAX,
    ensures
        after.len() == before.len() + n + 1,
        !after.last(),
        forall|i: int| before.len() <= i < after.len() - 1 ==> #[trigger] after[i],
{
}

// ─── Request queues ──────────────────────────────────────────────────────────

/// What serving a request queue works on.
pub struct RequestQueueState<D> {
    pub luns: Seq<ProcessorView>,
    pub disks: Seq<LunDisk<D>>,
    pub mem: GuestMemoryMmap<()>,
    pub taken: Seq<(u16, Seq<Descriptor>)>,
    pub used: Seq<(u16, u32)>,
}

impl<D: DiskOps> RequestQueueState<D> {
    /// The state of the given parts.
    pub open spec fn of(
        queue: Queue,
        mem: GuestMemoryMmap<()>,
        luns: Seq<ScsiCommandProcessor>,
        disks: Seq<LunDisk<D>>,
    ) -> Self {
        RequestQueueState {
            luns: lun_views(luns),
            disks,
            mem,
            taken: taken_chains(queue),
            used: used_chains(queue),
        }
    }

    /// A chain with the given descriptors was processed, with `r` for its
    /// result. The two logs of the queue aside, this is all that happened.
    pub open spec fn processed(
        self,
        after: Self,
        descs: Seq<Descriptor>,
        r: Result<u32, ResponseError>,
    ) -> bool {
        chain_processed(
            descs,
            self.luns,
            after.luns,
            self.disks,
            after.disks,
            self.mem,
            after.mem,
            r,
        )
    }

    /// What becomes of a chain with the given head and descriptors. It is
    /// processed, and put on the used ring with the number of bytes written to
    /// its buffers; it fails where its response does, or the used ring does not
    /// take it.
    pub open spec fn chain_done(
        self,
        after: Self,
        head: u16,
        descs: Seq<Descriptor>,
        r: Result<(), QueueError>,
    ) -> bool {
        match r {
            Ok(_) => exists|n: u32|
                #[trigger] self.processed(after, descs, Ok(n)) && after.used == self.used.push(
                    (head, n),
                ),
            Err(QueueError::Response(e)) => self.processed(after, descs, Err(e)) && after.used
                == self.used,
            Err(QueueError::AddUsed) => after.used == self.used && exists|n: u32|
                #[trigger] self.processed(after, descs, Ok(n)),
            Err(_) => false,
        }
    }

    /// One more chain was taken from the queue, and came to `r`.
    pub open spec fn stepped(self, after: Self, r: Result<(), QueueError>) -> bool {
        &&& after.taken.len() > 0
        &&& after.taken == self.taken.push(after.taken.last())
        &&& self.chain_done(after, after.taken.last().0, after.taken.last().1, r)
    }

    /// One more chain was taken from the queue and served.
    pub open spec fn served(self, after: Self) -> bool {
        self.stepped(after, Ok(()))
    }

    /// One more chain was taken from the queue, and could not be served for the
    /// given reason.
    pub open spec fn failed(self, after: Self, e: QueueError) -> bool {
        self.stepped(after, Err(e))
    }
}

/// Each state but the first came of the one before by serving a chain.
pub open spec fn is_request_run<D: DiskOps>(states: Seq<RequestQueueState<D>>) -> bool {
    &&& states.len() > 0
    &&& forall|i: int| 0 <= i < states.len() - 1 ==> (#[trigger] states[i]).served(states[i + 1])
}

/// `n` chains were served, one after another.
pub open spec fn requests_served<D: DiskOps>(
    before: RequestQueueState<D>,
    after: RequestQueueState<D>,
    n: int,
) -> bool {
    exists|states: Seq<RequestQueueState<D>>|
        {
            &&& #[trigger] is_request_run(states)
            &&& states.len() == n + 1
            &&& states.first() == before
            &&& states.last() == after
        }
}

/// Some chains were served, and the next one could not be.
pub open spec fn requests_failed<D: DiskOps>(
    before: RequestQueueState<D>,
    after: RequestQueueState<D>,
    e: QueueError,
) -> bool {
    exists|middle: RequestQueueState<D>, n: int|
        #[trigger] requests_served(before, middle, n) && middle.failed(after, e)
}

/// Serves what was taken from a request queue: a chain, by the index of its
/// head and its descriptors, or nothing. Returns whether it was a chain.
pub fn serve_taken_request<D: DiskOps>(
    chain: Option<(u16, Vec<Descriptor>)>,
    queue: &mut Queue,
    mem: &mut GuestMemoryMmap<()>,
    luns: &mut Vec<ScsiCommandProcessor>,
    disks: &mut Vec<LunDisk<D>>,
) -> (r: Result<bool, QueueError>)
    requires
        luns_wf(lun_views(old(luns)@)),
        chain matches Some((_, descs)) ==> chain_wf(descs@),
    ensures
        taken_chains(*final(queue)) == taken_chains(*old(queue)),
        looks(*final(queue)) == looks(*old(queue)),
        luns_wf(lun_views(final(luns)@)),
        lun_views(final(luns)@).len() == lun_views(old(luns)@).len(),
        forall|i: int|
            0 <= i < lun_views(old(luns)@).len() ==> (#[trigger] lun_views(final(luns)@)[i]).config
                == lun_views(old(luns)@)[i].config,
        match chain {
            Some((head, descs)) => {
                &&& r != Ok::<bool, QueueError>(false)
                &&& RequestQueueState::of(
                    *old(queue),
                    *old(mem),
                    old(luns)@,
                    old(disks)@,
                ).chain_done(
                    RequestQueueState::of(*final(queue), *final(mem), final(luns)@, final(disks)@),
                    head,
                    descs@,
                    match r {
                        Ok(_) => Ok(()),
                        Err(e) => Err(e),
                    },
                )
            },
            None => {
                &&& r == Ok::<bool, QueueError>(false)
                &&& RequestQueueState::of(
                    *final(queue),
                    *final(mem),
                    final(luns)@,
                    final(disks)@,
                ) == RequestQueueState::of(*old(queue), *old(mem), old(luns)@, old(disks)@)
            },
        },
{
    let ghost before = RequestQueueState::of(*queue, *mem, luns@, disks@);
    let (head, descs) = match chain {
        Some(chain) => chain,
        None => {
            return Ok(false);
        },
    };
    match process_request(mem, descs.as_slice(), luns, disks) {
        Ok(n) => {
            let ok: bool = add_used(queue, mem, head, n);
            let ghost after = RequestQueueState::of(*queue, *mem, luns@, disks@);
            assert(before.processed(after, descs@, Ok(n)));
            if ok {
                Ok(true)
            } else {
                Err(QueueError::AddUsed)
            }
        },
        Err(e) => Err(QueueError::Response(e)),
    }
}

/// Serves the next chain of a request queue. Returns whether there was one.
pub fn serve_request<D: DiskOps>(
    queue: &mut Queue,
    mem: &mut GuestMemoryMmap<()>,
    luns: &mut Vec<ScsiCommandProcessor>,
    disks: &mut Vec<LunDisk<D>>,
) -> (r: Result<bool, QueueError>)
    requires
        luns_wf(lun_views(old(luns)@)),
    ensures
        looks(*final(queue)) == looks(*old(queue)).push(r != Ok::<bool, QueueError>(false)),
        luns_wf(lun_views(final(luns)@)),
        lun_views(final(luns)@).len() == lun_views(old(luns)@).len(),
        forall|i: int|
            0 <= i < lun_views(old(luns)@).len() ==> (#[trigger] lun_views(final(luns)@)[i]).config
                == lun_views(old(luns)@)[i].config,
        match r {
            Ok(true) => RequestQueueState::of(
                *old(queue),
                *old(mem),
                old(luns)@,
                old(disks)@,
            ).served(
                RequestQueueState::of(*final(queue), *final(mem), final(luns)@, final(disks)@),
            ),
            Ok(false) => RequestQueueState::of(
                *final(queue),
                *final(mem),
                final(luns)@,
                final(disks)@,
            ) == RequestQueueState::of(*old(queue), *old(mem), old(luns)@, old(disks)@),
            Err(e) => RequestQueueState::of(
                *old(queue),
                *old(mem),
                old(luns)@,
                old(disks)@,
            ).failed(
                RequestQueueState::of(*final(queue), *final(mem), final(luns)@, final(disks)@),
                e,
            ),
        },
{
    let ghost before = RequestQueueState::of(*queue, *mem, luns@, disks@);
    let chain = pop_chain(queue, mem);
    let ghost taken = chain;
    proof {
        if let Some((_, descs)) = taken {
            bounded_chains_are_well_formed(descs@);
        }
    }
    let ghost middle = RequestQueueState::of(*queue, *mem, luns@, disks@);
    let r = serve_taken_request(chain, queue, mem, luns, disks);
    proof {
        if let Some((head, descs)) = taken {
            let after = RequestQueueState::of(*queue, *mem, luns@, disks@);
            let outcome = match r {
                Ok(_) => Ok(()),
                Err(e) => Err(e),
            };
            taking_decides_nothing(before, middle, after, head, descs@, outcome);
        }
    }
    r
}

/// What becomes of a chain does not depend on the chains taken before.
proof fn taking_decides_nothing<D: DiskOps>(
    a: RequestQueueState<D>,
    b: RequestQueueState<D>,
    after: RequestQueueState<D>,
    head: u16,
    descs: Seq<Descriptor>,
    r: Result<(), QueueError>,
)
    requires
        b == (RequestQueueState { taken: b.taken, ..a }),
        b.chain_done(after, head, descs, r),
    ensures
        a.chain_done(after, head, descs, r),
{
    assert forall|n: u32| #[trigger] b.processed(after, descs, Ok(n)) implies a.processed(
        after,
        descs,
        Ok(n),
    ) by {}
}

/// A run goes on with one more chain.
proof fn run_grows<D: DiskOps>(
    before: RequestQueueState<D>,
    middle: RequestQueueState<D>,
    after: RequestQueueState<D>,
    n: int,
)
    requires
        requests_served(before, middle, n),
        middle.served(after),
    ensures
        requests_served(before, after, n + 1),
{
    let states = choose|states: Seq<RequestQueueState<D>>|
        {
            &&& #[trigger] is_request_run(states)
            &&& states.len() == n + 1
            &&& states.first() == before
            &&& states.last() == middle
        };
    let longer = states.push(after);
    assert forall|i: int| 0 <= i < longer.len() - 1 implies (#[trigger] longer[i]).served(
        longer[i + 1],
    ) by {
        if i < states.len() - 1 {
            assert(states[i].served(states[i + 1]));
        }
    }
    assert(is_request_run(longer));
}

/// Serves the chains of a request queue until it is empty, or one cannot be
/// served. Returns how many were served; at `u64::MAX` it stops without looking
/// for another.
pub fn process_requests<D: DiskOps>(
    queue: &mut Queue,
    mem: &mut GuestMemoryMmap<()>,
    luns: &mut Vec<ScsiCommandProcessor>,
    disks: &mut Vec<LunDisk<D>>,
) -> (r: Result<u64, QueueError>)
    requires
        luns_wf(lun_views(old(luns)@)),
    ensures
        drained(looks(*old(queue)), looks(*final(queue)), r),
        luns_wf(lun_views(final(luns)@)),
        lun_views(final(luns)@).len() == lun_views(old(luns)@).len(),
        forall|i: int|
            0 <= i < lun_views(old(luns)@).len() ==> (#[trigger] lun_views(final(luns)@)[i]).config
                == lun_views(old(luns)@)[i].config,
        match r {
            Ok(n) => requests_served(
                RequestQueueState::of(*old(queue), *old(mem), old(luns)@, old(disks)@),
                RequestQueueState::of(*final(queue), *final(mem), final(luns)@, final(disks)@),
                n as int,
            ),
            Err(e) => requests_failed(
                RequestQueueState::of(*old(queue), *old(mem), old(luns)@, old(disks)@),
                RequestQueueState::of(*final(queue), *final(mem), final(luns)@, final(disks)@),
                e,
            ),
        },
{
    let ghost before = RequestQueueState::of(*queue, *mem, luns@, disks@);
    let ghost first = lun_views(luns@);
    let ghost seen = looks(*queue);
    assert(seen =~= seen + found(0));
    let mut served: u64 = 0;
    assert(is_request_run(seq![before]));
    while served < u64::MAX
        invariant
            seen == looks(*old(queue)),
            looks(*queue) == seen + found(served as nat),
            before == RequestQueueState::of(*old(queue), *old(mem), old(luns)@, old(disks)@),
            first == lun_views(old(luns)@),
            luns_wf(lun_views(luns@)),
            lun_views(luns@).len() == first.len(),
            forall|i: int|
                0 <= i < first.len() ==> (#[trigger] lun_views(luns@)[i]).config == first[i].config,
            requests_served(
                before,
                RequestQueueState::of(*queue, *mem, luns@, disks@),
                served as int,
            ),
        decreases u64::MAX - served,
    {
        let ghost middle = RequestQueueState::of(*queue, *mem, luns@, disks@);
        let ghost views = lun_views(luns@);
        let step = serve_request(queue, mem, luns, disks);
        let ghost after = RequestQueueState::of(*queue, *mem, luns@, disks@);
        assert forall|i: int| 0 <= i < first.len() implies (#[trigger] lun_views(luns@)[i]).config
            == first[i].config by {
            assert(views[i].config == first[i].config);
        }
        assert(seen + found((served + 1) as nat) =~= (seen + found(served as nat)).push(true));
        assert(seen + found(served as nat).push(false) =~= (seen + found(served as nat)).push(
            false,
        ));
        match step {
            Ok(true) => {
                proof {
                    run_grows(before, middle, after, served as int);
                }
                served += 1;
            },
            Ok(false) => {
                return Ok(served);
            },
            Err(e) => {
                assert(requests_served(before, middle, served as int) && middle.failed(after, e));
                return Err(e);
            },
        }
    }
    Ok(served)
}

/// Each chain that is taken and served is put on the used ring once, in the
/// order in which they are taken, behind those already there.
pub proof fn served_chains_are_used<D: DiskOps>(
    before: RequestQueueState<D>,
    after: RequestQueueState<D>,
    n: int,
)
    requires
        requests_served(before, after, n),
    ensures
        after.used.len() == before.used.len() + n,
        after.used.take(before.used.len() as int) == before.used,
        after.taken.len() == before.taken.len() + n,
        after.taken.take(before.taken.len() as int) == before.taken,
        forall|i: int|
            0 <= i < n ==> (#[trigger] after.used[before.used.len() + i]).0
                == after.taken[before.taken.len() + i].0,
        mapped_addresses(after.mem) == mapped_addresses(before.mem),
    decreases n,
{
    let states = choose|states: Seq<RequestQueueState<D>>|
        {
            &&& #[trigger] is_request_run(states)
            &&& states.len() == n + 1
            &&& states.first() == before
            &&& states.last() == after
        };
    if n > 0 {
        let shorter = states.drop_last();
        assert forall|i: int| 0 <= i < shorter.len() - 1 implies (#[trigger] shorter[i]).served(
            shorter[i + 1],
        ) by {
            assert(states[i].served(states[i + 1]));
        }
        assert(is_request_run(shorter));
        assert(requests_served(before, shorter.last(), n - 1));
        served_chains_are_used(before, shorter.last(), n - 1);
        assert(states[n - 1].served(states[n]));
        let last = shorter.last();
        assert(after.taken.take(before.taken.len() as int) =~= last.taken.take(
            before.taken.len() as int,
        ));
        assert forall|i: int| 0 <= i < n implies (#[trigger] after.used[before.used.len() + i]).0
            == after.taken[before.taken.len() + i].0 by {
            if i < n - 1 {
                assert(after.used[before.used.len() + i] == last.used[before.used.len() + i]);
                assert(after.taken[before.taken.len() + i] == last.taken[before.taken.len() + i]);
            }
        }
        assert(after.used.take(before.used.len() as int) =~= shorter.last().used.take(
            before.used.len() as int,
        ));
    } else {
        assert(after.used.take(before.used.len() as int) =~= before.used);
        assert(after.taken.take(before.taken.len() as int) =~= before.taken);
    }
}

// ─── The control queue ───────────────────────────────────────────────────────

/// What serving the control queue works on.
pub struct CtrlQueueState {
    pub mem: GuestMemoryMmap<()>,
    pub taken: Seq<(u16, Seq<Descriptor>)>,
    pub used: Seq<(u16, u32)>,
}

/// A chain holds a control request: its first buffer has room for one.
pub open spec fn holds_ctrl_request(descs: Seq<Descriptor>) -> bool {
    descs.len() > 0 && descs[0].len >= 4
}

/// The answer to a control request has a buffer that is not in guest memory.
pub open spec fn ctrl_answer_lost(mem: GuestMemoryMmap<()>, descs: Seq<Descriptor>) -> bool {
    exists|i: int|
        is_first_writable(descs, 1, i) && !is_mapped(
            mem,
            (#[trigger] descs[i]).addr as int,
            1,
        )
}

impl CtrlQueueState {
    /// The state of the given parts.
    pub open spec fn of(queue: Queue, mem: GuestMemoryMmap<()>) -> Self {
        CtrlQueueState { mem, taken: taken_chains(queue), used: used_chains(queue) }
    }

    /// What becomes of a chain with the given head and descriptors. One without
    /// a request is passed over. One whose request is not in guest memory, or
    /// whose answer has no place there, fails with nothing written. Any other
    /// is answered, and put on the used ring with the one byte of the answer;
    /// it fails where the used ring does not take it.
    pub open spec fn chain_done(
        self,
        after: Self,
        head: u16,
        descs: Seq<Descriptor>,
        r: Result<(), QueueError>,
    ) -> bool {
        if !holds_ctrl_request(descs) {
            r is Ok && after.used == self.used && untouched(self.mem, after.mem)
        } else if !is_mapped(self.mem, descs[0].addr as int, 4) {
            &&& r == Err::<(), QueueError>(QueueError::ReadRequest)
            &&& after.used == self.used
            &&& untouched(self.mem, after.mem)
        } else {
            &&& mapped_addresses(after.mem) == mapped_addresses(self.mem)
            &&& if ctrl_answer_lost(self.mem, descs) {
                &&& r == Err::<(), QueueError>(QueueError::WriteAnswer)
                &&& after.used == self.used
                &&& ctrl_read(descs, self.mem, after.mem)
                &&& device_writes(after.mem) == device_writes(self.mem)
            } else {
                &&& ctrl_answered(descs, self.mem, after.mem)
                &&& match r {
                    Ok(_) => after.used == self.used.push((head, 1u32)),
                    Err(e) => e == QueueError::AddUsed && after.used == self.used,
                }
            }
        }
    }

    /// One more chain was taken from the queue, and came to `r`.
    pub open spec fn stepped(self, after: Self, r: Result<(), QueueError>) -> bool {
        &&& after.taken.len() > 0
        &&& after.taken == self.taken.push(after.taken.last())
        &&& self.chain_done(after, after.taken.last().0, after.taken.last().1, r)
    }

    /// One more chain was taken from the queue, and answered or passed over.
    pub open spec fn served(self, after: Self) -> bool {
        self.stepped(after, Ok(()))
    }

    /// One more chain was taken from the queue, and could not be served for the
    /// given reason.
    pub open spec fn failed(self, after: Self, e: QueueError) -> bool {
        self.stepped(after, Err(e))
    }
}

/// Each state but the first came of the one before by serving a chain.
pub open spec fn is_ctrl_run(states: Seq<CtrlQueueState>) -> bool {
    &&& states.len() > 0
    &&& forall|i: int| 0 <= i < states.len() - 1 ==> (#[trigger] states[i]).served(states[i + 1])
}

/// `n` chains were served, one after another.
pub open spec fn ctrl_requests_served(
    before: CtrlQueueState,
    after: CtrlQueueState,
    n: int,
) -> bool {
    exists|states: Seq<CtrlQueueState>|
        {
            &&& #[trigger] is_ctrl_run(states)
            &&& states.len() == n + 1
            &&& states.first() == before
            &&& states.last() == after
        }
}

/// Some chains were served, and the next one could not be.
pub open spec fn ctrl_requests_failed(
    before: CtrlQueueState,
    after: CtrlQueueState,
    e: QueueError,
) -> bool {
    exists|middle: CtrlQueueState, n: int|
        #[trigger] ctrl_requests_served(before, middle, n) && middle.failed(after, e)
}

/// Serves what was taken from the control queue: a chain, by the index of its
/// head and its descriptors, or nothing. Returns whether it was a chain.
pub fn serve_taken_ctrl_request(
    chain: Option<(u16, Vec<Descriptor>)>,
    queue: &mut Queue,
    mem: &mut GuestMemoryMmap<()>,
) -> (r: Result<bool, QueueError>)
    ensures
        taken_chains(*final(queue)) == taken_chains(*old(queue)),
        looks(*final(queue)) == looks(*old(queue)),
        match chain {
            Some((head, descs)) => {
                &&& r != Ok::<bool, QueueError>(false)
                &&& CtrlQueueState::of(*old(queue), *old(mem)).chain_done(
                    CtrlQueueState::of(*final(queue), *final(mem)),
                    head,
                    descs@,
                    match r {
                        Ok(_) => Ok(()),
                        Err(e) => Err(e),
                    },
                )
            },
            None => {
                &&& r == Ok::<bool, QueueError>(false)
                &&& CtrlQueueState::of(*final(queue), *final(mem)) == CtrlQueueState::of(
                    *old(queue),
                    *old(mem),
                )
            },
        },
{
    let (head, descs) = match chain {
        Some(chain) => chain,
        None => {
            return Ok(false);
        },
    };
    match process_ctrl_request(mem, descs.as_slice()) {
        CtrlOutcome::Skipped => Ok(true),
        CtrlOutcome::ReadFailed => Err(QueueError::ReadRequest),
        CtrlOutcome::WriteFailed => Err(QueueError::WriteAnswer),
        CtrlOutcome::Used(n) => if add_used(queue, mem, head, n) {
            Ok(true)
        } else {
            Err(QueueError::AddUsed)
        },
    }
}

/// Serves the next chain of the control queue. Returns whether there was one.
pub fn serve_ctrl_request(queue: &mut Queue, mem: &mut GuestMemoryMmap<()>) -> (r: Result<
    bool,
    QueueError,
>)
    ensures
        looks(*final(queue)) == looks(*old(queue)).push(r != Ok::<bool, QueueError>(false)),
        match r {
            Ok(true) => CtrlQueueState::of(*old(queue), *old(mem)).served(
                CtrlQueueState::of(*final(queue), *final(mem)),
            ),
            Ok(false) => CtrlQueueState::of(*final(queue), *final(mem)) == CtrlQueueState::of(
                *old(queue),
                *old(mem),
            ),
            Err(e) => CtrlQueueState::of(*old(queue), *old(mem)).failed(
                CtrlQueueState::of(*final(queue), *final(mem)),
                e,
            ),
        },
{
    let chain = pop_chain(queue, mem);
    serve_taken_ctrl_request(chain, queue, mem)
}

/// A run goes on with one more chain.
proof fn ctrl_run_grows(
    before: CtrlQueueState,
    middle: CtrlQueueState,
    after: CtrlQueueState,
    n: int,
)
    requires
        ctrl_requests_served(before, middle, n),
        middle.served(after),
    ensures
        ctrl_requests_served(before, after, n + 1),
{
    let states = choose|states: Seq<CtrlQueueState>|
        {
            &&& #[trigger] is_ctrl_run(states)
            &&& states.len() == n + 1
            &&& states.first() == before
            &&& states.last() == middle
        };
    let longer = states.push(after);
    assert forall|i: int| 0 <= i < longer.len() - 1 implies (#[trigger] longer[i]).served(
        longer[i + 1],
    ) by {
        if i < states.len() - 1 {
            assert(states[i].served(states[i + 1]));
        }
    }
    assert(is_ctrl_run(longer));
}

/// Serves the chains of the control queue until it is empty, or one cannot be
/// served. Returns how many were taken; at `u64::MAX` it stops without looking
/// for another.
pub fn process_ctrl_requests(queue: &mut Queue, mem: &mut GuestMemoryMmap<()>) -> (r: Result<
    u64,
    QueueError,
>)
    ensures
        drained(looks(*old(queue)), looks(*final(queue)), r),
        match r {
            Ok(n) => ctrl_requests_served(
                CtrlQueueState::of(*old(queue), *old(mem)),
                CtrlQueueState::of(*final(queue), *final(mem)),
                n as int,
            ),
            Err(e) => ctrl_requests_failed(
                CtrlQueueState::of(*old(queue), *old(mem)),
                CtrlQueueState::of(*final(queue), *final(mem)),
                e,
            ),
        },
{
    let ghost before = CtrlQueueState::of(*queue, *mem);
    let ghost seen = looks(*queue);
    assert(seen =~= seen + found(0));
    let mut served: u64 = 0;
    assert(is_ctrl_run(seq![before]));
    while served < u64::MAX
        invariant
            seen == looks(*old(queue)),
            looks(*queue) == seen + found(served as nat),
            before == CtrlQueueState::of(*old(queue), *old(mem)),
            ctrl_requests_served(before, CtrlQueueState::of(*queue, *mem), served as int),
        decreases u64::MAX - served,
    {
        let ghost middle = CtrlQueueState::of(*queue, *mem);
        let step = serve_ctrl_request(queue, mem);
        let ghost after = CtrlQueueState::of(*queue, *mem);
        assert(seen + found((served + 1) as nat) =~= (seen + found(served as nat)).push(true));
        assert(seen + found(served as nat).push(false) =~= (seen + found(served as nat)).push(
            false,
        ));
        match step {
            Ok(true) => {
                proof {
                    ctrl_run_grows(before, middle, after, served as int);
                }
                served += 1;
            },
            Ok(false) => {
                return Ok(served);
            },
            Err(e) => {
                assert(ctrl_requests_served(before, middle, served as int) && middle.failed(
                    after,
                    e,
                ));
                return Err(e);
            },
        }
    }
    Ok(served)
}

/// A chain that is served was taken from the queue, was processed as the chain that it
/// is, and is on the used ring by its head, with the count of bytes that its response
/// came to.
pub proof fn served_chains_have_their_count<D: DiskOps>(
    before: RequestQueueState<D>,
    after: RequestQueueState<D>,
) -> (n: u32)
    requires
        before.served(after),
    ensures
        after.taken.len() == before.taken.len() + 1,
        after.used.len() == before.used.len() + 1,
        after.used.last().0 == after.taken.last().0,
        after.used.last().1 == n,
        chain_processed(
            after.taken.last().1,
            before.luns,
            after.luns,
            before.disks,
            after.disks,
            before.mem,
            after.mem,
            Ok(n),
        ),
{
    let descs = after.taken.last().1;
    let n = choose|n: u32|
        #[trigger] before.processed(after, descs, Ok(n)) && after.used == before.used.push(
            (after.taken.last().0, n),
        );
    n
}

/// A control request that is served is answered, and is on the used ring by its head
/// with a count of one; a chain that holds none is passed over and nothing is read or
/// written.
pub proof fn served_control_requests_are_answered(before: CtrlQueueState, after: CtrlQueueState)
    requires
        before.served(after),
    ensures
        ({
            let descs = after.taken.last().1;
            &&& after.taken.len() == before.taken.len() + 1
            &&& descs.len() == 0 || descs[0].len < 4 ==> after.used == before.used && untouched(
                before.mem,
                after.mem,
            )
            &&& descs.len() > 0 && descs[0].len >= 4 ==> {
                &&& after.used == before.used.push((after.taken.last().0, 1u32))
                &&& ctrl_answered(descs, before.mem, after.mem)
            }
        }),
{
}

/// A request queue that could not be served to its end has one more chain taken than was
/// put on the used ring, and those on it are the ones that were served before, in order.
pub proof fn failed_chains_are_not_used<D: DiskOps>(
    before: RequestQueueState<D>,
    after: RequestQueueState<D>,
    e: QueueError,
) -> (n: int)
    requires
        requests_failed(before, after, e),
    ensures
        0 <= n,
        after.taken.len() == before.taken.len() + n + 1,
        after.used.len() == before.used.len() + n,
        forall|i: int|
            0 <= i < n ==> (#[trigger] after.used[before.used.len() + i]).0
                == after.taken[before.taken.len() + i].0,
{
    let (middle, n) = choose|middle: RequestQueueState<D>, n: int|
        #[trigger] requests_served(before, middle, n) && middle.failed(after, e);
    let states = choose|states: Seq<RequestQueueState<D>>|
        {
            &&& #[trigger] is_request_run(states)
            &&& states.len() == n + 1
            &&& states.first() == before
            &&& states.last() == middle
        };
    served_chains_are_used(before, middle, n);
    assert(after.used == middle.used);
    assert forall|i: int| 0 <= i < n implies (#[trigger] after.used[before.used.len() + i]).0
        == after.taken[before.taken.len() + i].0 by {
        assert(after.taken[before.taken.len() + i] == middle.taken[before.taken.len() + i]);
        assert(middle.used[before.used.len() + i].0 == middle.taken[before.taken.len() + i].0);
    }
    n
}

/// Each chain of a control queue that is served was taken from it, and no more are put
/// on the used ring than were taken.
pub proof fn served_control_chains_are_taken(before: CtrlQueueState, after: CtrlQueueState, n: int)
    requires
        ctrl_requests_served(before, after, n),
    ensures
        0 <= n,
        after.taken.len() == before.taken.len() + n,
        before.used.len() <= after.used.len() <= before.used.len() + n,
        mapped_addresses(after.mem) == mapped_addresses(before.mem),
    decreases n,
{
    let states = choose|states: Seq<CtrlQueueState>|
        {
            &&& #[trigger] is_ctrl_run(states)
            &&& states.len() == n + 1
            &&& states.first() == before
            &&& states.last() == after
        };
    if n > 0 {
        let shorter = states.drop_last();
        assert forall|i: int| 0 <= i < shorter.len() - 1 implies (#[trigger] shorter[i]).served(
            shorter[i + 1],
        ) by {
            assert(states[i].served(states[i + 1]));
        }
        assert(is_ctrl_run(shorter));
        assert(ctrl_requests_served(before, shorter.last(), n - 1));
        served_control_chains_are_taken(before, shorter.last(), n - 1);
        assert(states[n - 1].served(states[n]));
        served_control_requests_are_answered(states[n - 1], states[n]);
    }
}

} // verus!

//! Synchronous block I/O whose completions are queued.
use std::collections::VecDeque;

use vstd::prelude::*;

use crate::bytes::{push_zeros, zeros};
use crate::disk::{written, DiskError, DiskOps};

verus! {

/// Size of a sector, the alignment of requests.
pub const SECTOR_SIZE: u64 = 512;

/// Most zeros that are written at a time: 1 MiB.
pub const ZERO_CHUNK: u64 = 0x10_0000;

/// Completions of requests, each with its request's data and its result.
pub struct RawFileSync {
    completion_list: VecDeque<(u64, i32)>,
}

impl View for RawFileSync {
    type V = Seq<(u64, i32)>;

    closed spec fn view(&self) -> Seq<(u64, i32)> {
        self.completion_list@
    }
}

/// The sum of the byte counts of the buffers of a request.
pub open spec fn total_bytes(counts: Seq<usize>) -> int
    decreases counts.len(),
{
    if counts.len() == 0 {
        0
    } else {
        total_bytes(counts.drop_last()) + counts.last()
    }
}

proof fn total_bytes_grows(counts: Seq<usize>, n: int)
    requires
        0 <= n <= counts.len(),
    ensures
        0 <= total_bytes(counts.take(n)) <= total_bytes(counts),
    decreases counts.len(),
{
    if counts.len() > 0 {
        if n < counts.len() {
            total_bytes_grows(counts.drop_last(), n);
            assert(counts.drop_last().take(n) =~= counts.take(n));
        } else {
            total_bytes_grows(counts.drop_last(), n - 1);
            assert(counts.take(n) =~= counts);
        }
    } else {
        assert(counts.take(n) =~= counts);
    }
}

/// Writing zeros in two pieces is writing them in one.
proof fn zeros_in_pieces(c: Seq<u8>, at: int, a: nat, b: nat)
    requires
        0 <= at,
        a > 0,
        b > 0,
    ensures
        written(written(c, at, zeros(a)), at + a, zeros(b)) == written(c, at, zeros(a + b)),
{
    assert(written(written(c, at, zeros(a)), at + a, zeros(b)) =~= written(c, at, zeros(a + b)));
}

impl RawFileSync {
    /// A backend without completions.
    pub fn new() -> (io: Self)
        ensures
            io@ == Seq::<(u64, i32)>::empty(),
    {
        RawFileSync { completion_list: VecDeque::new() }
    }

    /// The alignment of requests.
    pub fn alignment(&self) -> (a: u64)
        ensures
            a == SECTOR_SIZE,
    {
        SECTOR_SIZE
    }

    /// Queues the completion of a vectored read or write that transferred the
    /// given numbers of bytes.
    pub fn complete_vectored(&mut self, user_data: u64, counts: &[usize])
        requires
            total_bytes(counts@) <= i32::MAX,
        ensures
            final(self)@ == old(self)@.push((user_data, total_bytes(counts@) as i32)),
    {
        let mut total: i32 = 0;
        let mut i: usize = 0;
        assert(counts@.take(0) =~= Seq::<usize>::empty());
        while i < counts.len()
            invariant
                i <= counts@.len(),
                total_bytes(counts@) <= i32::MAX,
                total == total_bytes(counts@.take(i as int)),
            decreases counts@.len() - i,
        {
            proof {
                assert(counts@.take(i + 1).drop_last() =~= counts@.take(i as int));
                total_bytes_grows(counts@, i + 1);
                total_bytes_grows(counts@, i as int);
            }
            total = total + counts[i] as i32;
            i += 1;
        }
        assert(counts@.take(i as int) =~= counts@);
        self.completion_list.push_back((user_data, total));
    }

    /// Writes back the disk, and queues a completion where one is asked for.
    pub fn fsync<D: DiskOps>(&mut self, disk: &mut D, user_data: Option<u64>) -> (r: Result<
        (),
        DiskError,
    >)
        ensures
            final(disk).contents() == old(disk).contents(),
            r is Ok ==> final(disk).stored() == final(disk).contents(),
            old(disk).reliable() ==> r is Ok && final(disk).reliable(),
            final(self)@ == if r is Ok && user_data is Some {
                old(self)@.push((user_data->Some_0, 0i32))
            } else {
                old(self)@
            },
    {
        match disk.flush() {
            Ok(_) => {},
            Err(e) => {
                return Err(e);
            },
        }
        if let Some(data) = user_data {
            self.completion_list.push_back((data, 0));
        }
        Ok(())
    }

    /// Takes the oldest completion.
    pub fn next_completed_request(&mut self) -> (r: Option<(u64, i32)>)
        ensures
            if old(self)@.len() == 0 {
                r is None && final(self)@ == old(self)@
            } else {
                r == Some(old(self)@[0]) && final(self)@ == old(self)@.skip(1)
            },
    {
        let r = self.completion_list.pop_front();
        proof {
            if old(self)@.len() > 0 {
                assert(self@ =~= old(self)@.skip(1));
            }
        }
        r
    }

    /// Queues the completion of a request to punch a hole, which does nothing.
    pub fn punch_hole(&mut self, _offset: u64, _length: u64, user_data: u64)
        ensures
            final(self)@ == old(self)@.push((user_data, 0i32)),
    {
        self.completion_list.push_back((user_data, 0));
    }

    /// Writes zeros to the disk, at most 1 MiB at a time, and queues the
    /// completion.
    pub fn write_zeroes<D: DiskOps>(
        &mut self,
        disk: &mut D,
        offset: u64,
        length: u64,
        user_data: u64,
    ) -> (r: Result<(), DiskError>)
        ensures
            r is Ok ==> final(disk).contents() == written(
                old(disk).contents(),
                offset as int,
                zeros(length as nat),
            ),
            old(disk).reliable() && offset + length <= old(disk).contents().len() ==> r is Ok
                && final(disk).reliable(),
            final(self)@ == if r is Ok {
                old(self)@.push((user_data, 0i32))
            } else {
                old(self)@
            },
    {
        match disk.seek(offset) {
            Ok(_) => {},
            Err(e) => {
                return Err(e);
            },
        }
        let size: u64 = if length < ZERO_CHUNK {
            length
        } else {
            ZERO_CHUNK
        };
        let mut block: Vec<u8> = Vec::new();
        push_zeros(&mut block, size as usize);
        assert(block@ =~= zeros(size as nat));
        let mut remaining: u64 = length;
        let ghost c = disk.contents();
        assert(written(c, offset as int, zeros(0)) == c);
        while remaining > 0
            invariant
                remaining <= length,
                size == if length < ZERO_CHUNK {
                    length
                } else {
                    ZERO_CHUNK
                },
                block@ == zeros(size as nat),
                block@.len() == size,
                self@ == old(self)@,
                disk.cursor() == offset + length - remaining,
                disk.contents() == written(c, offset as int, zeros((length - remaining) as nat)),
                c == old(disk).contents(),
                old(disk).reliable() && offset + length <= c.len() ==> disk.reliable(),
            decreases remaining,
        {
            let chunk: u64 = if remaining < size {
                remaining
            } else {
                size
            };
            let part: &[u8] = vstd::slice::slice_subrange(block.as_slice(), 0, chunk as usize);
            assert(part@ =~= zeros(chunk as nat));
            let ghost done = (length - remaining) as nat;
            match disk.write_all(part) {
                Ok(_) => {},
                Err(e) => {
                    return Err(e);
                },
            }
            proof {
                if done > 0 {
                    zeros_in_pieces(c, offset as int, done, chunk as nat);
                }
            }
            remaining = remaining - chunk;
            assert((length - remaining) as nat == done + chunk);
        }
        self.completion_list.push_back((user_data, 0));
        Ok(())
    }
}

/// Completions come out in the order in which they were queued: one that is
/// queued behind `queue` comes out once all of those have, and what is queued
/// behind it comes out later.
pub proof fn completions_are_fifo(queue: Seq<(u64, i32)>, a: (u64, i32), later: Seq<(u64, i32)>)
    ensures
        (queue.push(a) + later).take(queue.len() as int) == queue,
        (queue.push(a) + later).skip(queue.len() as int)[0] == a,
        (queue.push(a) + later).skip(queue.len() as int).skip(1) == later,
{
    let all = queue.push(a) + later;
    assert(all.take(queue.len() as int) =~= queue);
    assert(all.skip(queue.len() as int).skip(1) =~= later);
}

/// The bytes of a vectored request are those of its buffers, one after another.
pub proof fn transferred_bytes_add_up(counts: Seq<usize>, ends: Seq<int>)
    requires
        ends.len() == counts.len() + 1,
        ends[0] == 0,
        forall|k: int| 0 <= k < counts.len() ==> #[trigger] ends[k + 1] == ends[k] + counts[k],
    ensures
        total_bytes(counts) == ends.last(),
    decreases counts.len(),
{
    if counts.len() > 0 {
        let front = counts.drop_last();
        let e = ends.drop_last();
        assert forall|k: int| 0 <= k < front.len() implies #[trigger] e[k + 1] == e[k]
            + front[k] by {
            assert(ends[k + 1] == ends[k] + counts[k]);
        }
        transferred_bytes_add_up(front, e);
        let n = counts.len() - 1;
        assert(ends[n + 1] == ends[n] + counts[n]);
    }
}

} // verus!

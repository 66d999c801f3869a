//! Disks as the command processors see them: a cursor over bytes.
use vstd::prelude::*;

use crate::bytes::{copy_range, push_zeros, put_bytes};

verus! {

/// A disk operation failed.
#[derive(Debug, Clone, Copy, PartialEq, Eq, Structural)]
pub struct DiskError;

/// The bytes of a disk that held `c` after `d` was written at `at`: the disk
/// grows where the data reaches behind its end, and a gap is filled with zeros.
pub open spec fn written(c: Seq<u8>, at: int, d: Seq<u8>) -> Seq<u8> {
    if d.len() == 0 {
        c
    } else {
        Seq::new(
            if c.len() > at + d.len() {
                c.len()
            } else {
                (at + d.len()) as nat
            },
            |i: int|
                if at <= i < at + d.len() {
                    d[i - at]
                } else if i < c.len() {
                    c[i]
                } else {
                    0u8
                },
        )
    }
}

/// Disk operations: seek, read and write at the cursor, and flush. An
/// operation may fail at any time. Whatever comes of it, only a write changes
/// the bytes of the disk. A reliable disk does not fail where the operation
/// stays within its bytes.
pub trait DiskOps {
    /// The bytes of the disk: some bytes, of which an implementation may say
    /// which.
    closed spec fn contents(&self) -> Seq<u8> {
        arbitrary()
    }

    /// The cursor, a byte offset: some offset, of which an implementation may
    /// say which.
    closed spec fn cursor(&self) -> int {
        arbitrary()
    }

    /// The bytes that have reached the medium behind the disk: some bytes, of
    /// which an implementation may say which. They may lag behind those of the
    /// disk until it is flushed.
    closed spec fn stored(&self) -> Seq<u8> {
        arbitrary()
    }

    /// Whether the disk is reliable, of which an implementation may say when.
    closed spec fn reliable(&self) -> bool {
        arbitrary()
    }

    /// Moves the cursor to `offset` from the start.
    fn seek(&mut self, offset: u64) -> (r: Result<(), DiskError>)
        ensures
            old(self).reliable() ==> r is Ok && final(self).reliable(),
            final(self).contents() == old(self).contents(),
            r is Ok ==> final(self).cursor() == offset,
    ;

    /// Fills `buf` from the cursor on.
    fn read_exact(&mut self, buf: &mut [u8]) -> (r: Result<(), DiskError>)
        ensures
            final(buf)@.len() == old(buf)@.len(),
            final(self).contents() == old(self).contents(),
            old(self).reliable() && 0 <= old(self).cursor() && old(self).cursor() + old(buf)@.len()
                <= old(self).contents().len() ==> r is Ok && final(self).reliable(),
            r is Ok ==> {
                let end = old(self).cursor() + old(buf)@.len();
                &&& 0 <= old(self).cursor() <= end <= old(self).contents().len()
                &&& final(buf)@ == old(self).contents().subrange(old(self).cursor(), end)
                &&& final(self).cursor() == end
            },
    ;

    /// Writes all of `data` from the cursor on.
    fn write_all(&mut self, data: &[u8]) -> (r: Result<(), DiskError>)
        ensures
            old(self).reliable() && 0 <= old(self).cursor() && old(self).cursor() + data@.len()
                <= old(self).contents().len() ==> r is Ok && final(self).reliable(),
            r is Ok ==> {
                &&& 0 <= old(self).cursor()
                &&& final(self).contents() == written(
                    old(self).contents(),
                    old(self).cursor(),
                    data@,
                )
                &&& final(self).cursor() == old(self).cursor() + data@.len()
            },
    ;

    /// Writes back what the disk has cached, so that all of it has reached the
    /// medium.
    fn flush(&mut self) -> (r: Result<(), DiskError>)
        ensures
            old(self).reliable() ==> r is Ok && final(self).reliable(),
            final(self).contents() == old(self).contents(),
            r is Ok ==> final(self).cursor() == old(self).cursor() && final(self).stored()
                == final(self).contents(),
    ;
}

/// A disk that can be cloned for use in another thread. The clone has the
/// bytes of the disk and its cursor. A reliable disk can be cloned, into one
/// that is reliable.
pub trait ScsiDisk: DiskOps + Send + Sized {
    /// Clones the disk.
    fn try_clone(&self) -> (r: Result<Self, DiskError>)
        ensures
            self.reliable() ==> r is Ok,
            r matches Ok(d) ==> d.contents() == self.contents() && d.cursor() == self.cursor() && (
            self.reliable() ==> d.reliable()),
    ;
}

/// A read of what was just written gives it back, whatever the disk held.
pub proof fn read_gives_back_write(c: Seq<u8>, at: int, d: Seq<u8>)
    requires
        0 <= at,
        d.len() > 0,
    ensures
        at + d.len() <= written(c, at, d).len(),
        written(c, at, d).subrange(at, at + d.len()) == d,
{
    assert(written(c, at, d).subrange(at, at + d.len()) =~= d);
}

/// A write within the disk keeps its size and every byte outside the range.
pub proof fn write_keeps_the_rest(c: Seq<u8>, at: int, d: Seq<u8>)
    requires
        0 <= at,
        at + d.len() <= c.len(),
    ensures
        written(c, at, d).len() == c.len(),
        forall|i: int|
            0 <= i < c.len() && !(at <= i < at + d.len()) ==> #[trigger] written(c, at, d)[i]
                == c[i],
{
}

/// A disk held in memory.
#[derive(Debug, Clone)]
pub struct MemDisk {
    data: Vec<u8>,
    position: u64,
}

impl MemDisk {
    /// A disk with the given bytes, its cursor at the start.
    pub fn new(data: Vec<u8>) -> (disk: Self)
        ensures
            disk.contents() == data@,
            disk.cursor() == 0,
            disk.reliable(),
    {
        MemDisk { data, position: 0 }
    }

    /// The bytes of the disk.
    pub fn bytes(&self) -> (b: &[u8])
        ensures
            b@ == self.contents(),
    {
        self.data.as_slice()
    }
}

impl DiskOps for MemDisk {
    closed spec fn contents(&self) -> Seq<u8> {
        self.data@
    }

    closed spec fn cursor(&self) -> int {
        self.position as int
    }

    closed spec fn stored(&self) -> Seq<u8> {
        self.data@
    }

    closed spec fn reliable(&self) -> bool {
        true
    }

    fn seek(&mut self, offset: u64) -> (r: Result<(), DiskError>) {
        self.position = offset;
        Ok(())
    }

    fn read_exact(&mut self, buf: &mut [u8]) -> (r: Result<(), DiskError>) {
        let size: usize = self.data.len();
        let n: usize = buf.len();
        if self.position > size as u64 || n > size - self.position as usize {
            return Err(DiskError);
        }
        let from: usize = self.position as usize;
        let part: Vec<u8> = copy_range(self.data.as_slice(), from, from + n);
        put_bytes(buf, 0, part.as_slice());
        self.position = (from + n) as u64;
        assert(buf@ =~= self.data@.subrange(from as int, from + n));
        Ok(())
    }

    fn write_all(&mut self, data: &[u8]) -> (r: Result<(), DiskError>) {
        let n: usize = data.len();
        let size: usize = self.data.len();
        if n == 0 {
            return Ok(());
        }
        if self.position > (usize::MAX - n) as u64 {
            return Err(DiskError);
        }
        let at: usize = self.position as usize;
        let ghost before = self.data@;
        if size < at + n {
            push_zeros(&mut self.data, at + n - size);
        }
        put_bytes(self.data.as_mut_slice(), at, data);
        self.position = (at + n) as u64;
        assert(self.data@ =~= written(before, at as int, data@));
        Ok(())
    }

    fn flush(&mut self) -> (r: Result<(), DiskError>) {
        Ok(())
    }
}

impl ScsiDisk for MemDisk {
    fn try_clone(&self) -> (r: Result<Self, DiskError>) {
        let data: Vec<u8> = copy_range(self.data.as_slice(), 0, self.data.len());
        assert(data@ =~= self.data@);
        Ok(MemDisk { data, position: self.position })
    }
}

/// What a disk holds after a write, byte by byte: the data where it was written,
/// what was there before it and behind it, and zeros in a gap behind the old end.
/// It is as long as it was, or ends with the data where that reaches further.
pub proof fn writes_may_grow_the_disk(c: Seq<u8>, at: int, d: Seq<u8>, i: int)
    requires
        0 <= at,
        d.len() > 0,
        0 <= i < written(c, at, d).len(),
    ensures
        at + d.len() <= c.len() ==> written(c, at, d).len() == c.len(),
        at + d.len() > c.len() ==> written(c, at, d).len() == at + d.len(),
        at <= i < at + d.len() ==> written(c, at, d)[i] == d[i - at],
        i < c.len() && !(at <= i < at + d.len()) ==> written(c, at, d)[i] == c[i],
        c.len() <= i < at ==> written(c, at, d)[i] == 0,
        written(c, at, Seq::empty()) == c,
{
}

} // verus!

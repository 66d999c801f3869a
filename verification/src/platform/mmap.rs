//! Plans for mapping files into memory.
use vstd::prelude::*;

verus! {

/// 2 MiB, the size of a huge page.
pub const TWO_MIB: usize = 0x20_0000;

/// Page protection: read.
pub const PROT_READ: i32 = 1;

/// Page protection: write.
pub const PROT_WRITE: i32 = 2;

/// Page protection: execute.
pub const PROT_EXEC: i32 = 4;

/// Why a mapping is refused.
#[derive(Debug, Clone, Copy, PartialEq, Eq, Structural)]
pub enum MapError {
    /// The offset does not fit the type of file offsets.
    BadOffset,
    /// The length does not fit the types of sizes.
    BadLength,
}

/// How to map a file.
#[derive(Debug, Clone, Copy, PartialEq, Eq, Structural)]
pub enum MapPlan {
    /// Map it anywhere.
    Plain { len: usize, offset: i64 },
    /// Reserve address space, and map it at a huge page boundary in it.
    Aligned { len: usize, offset: i64, reserve: usize },
}

/// The smallest multiple of 2 MiB that is no less than `addr`.
pub open spec fn aligned_up(addr: int) -> int {
    (addr + 0x1F_FFFF) / 0x20_0000 * 0x20_0000
}

/// Round `addr` up to the next 2 MiB boundary.
pub fn align_up_to_2mib(addr: usize) -> (r: usize)
    requires
        aligned_up(addr as int) <= usize::MAX,
    ensures
        r == aligned_up(addr as int),
        r % TWO_MIB == 0,
        addr <= r < addr + TWO_MIB,
{
    let rest: usize = addr % TWO_MIB;
    if rest == 0 {
        addr
    } else {
        addr + (TWO_MIB - rest)
    }
}

/// What is wrong with a mapping, if anything: the two offsets must add up to a
/// file offset, and the length must be a size; for a length of whole huge
/// pages there must be room for alignment.
pub open spec fn map_error(len: u64, offset1: u64, offset2: u64) -> Option<MapError> {
    if offset1 + offset2 > i64::MAX {
        Some(MapError::BadOffset)
    } else if len > isize::MAX {
        Some(MapError::BadLength)
    } else if len % 0x20_0000 == 0 && len + TWO_MIB > usize::MAX {
        Some(MapError::BadLength)
    } else {
        None
    }
}

/// Plans the mapping of `len` bytes of a file at the sum of two offsets. Only a
/// length of whole huge pages is worth aligning.
pub fn plan_mmap(len: u64, offset1: u64, offset2: u64) -> (r: Result<MapPlan, MapError>)
    ensures
        match r {
            Ok(plan) => {
                &&& map_error(len, offset1, offset2) is None
                &&& plan == if len % 0x20_0000 == 0 {
                    MapPlan::Aligned {
                        len: len as usize,
                        offset: (offset1 + offset2) as i64,
                        reserve: (len + TWO_MIB) as usize,
                    }
                } else {
                    MapPlan::Plain { len: len as usize, offset: (offset1 + offset2) as i64 }
                }
            },
            Err(e) => map_error(len, offset1, offset2) == Some(e),
        },
{
    let offset: u64 = match offset1.checked_add(offset2) {
        Some(o) => o,
        None => {
            return Err(MapError::BadOffset);
        },
    };
    if offset > i64::MAX as u64 {
        return Err(MapError::BadOffset);
    }
    if len > isize::MAX as u64 {
        return Err(MapError::BadLength);
    }
    let n: usize = len as usize;
    if n % TWO_MIB != 0 {
        return Ok(MapPlan::Plain { len: n, offset: offset as i64 });
    }
    match n.checked_add(TWO_MIB) {
        Some(reserve) => Ok(MapPlan::Aligned { len: n, offset: offset as i64, reserve }),
        None => Err(MapError::BadLength),
    }
}

/// Whether a protection is made of read, write and execute alone.
pub fn prot_is_valid(prot: i32) -> (b: bool)
    ensures
        b == (prot & !(PROT_READ | PROT_WRITE | PROT_EXEC) == 0),
        b == (0 <= prot <= 7),
{
    let b: bool = prot & !(PROT_READ | PROT_WRITE | PROT_EXEC) == 0;
    proof {
        assert((prot & !(1i32 | 2i32 | 4i32) == 0) == (0 <= prot <= 7)) by (bit_vector);
    }
    b
}

/// A range of addresses.
#[derive(Debug, Clone, Copy, PartialEq, Eq, Structural)]
pub struct AddressRange {
    pub addr: usize,
    pub len: usize,
}

/// Where a file is mapped in a reservation, and what of it is given back.
#[derive(Debug, Clone, Copy, PartialEq, Eq, Structural)]
pub struct Placement {
    /// The mapping
    pub mapping: AddressRange,
    /// The part of the reservation before it
    pub head: AddressRange,
    /// The part of the reservation behind it
    pub tail: AddressRange,
}

/// Places a mapping of `len` bytes at the first huge page boundary of a
/// reservation at `base` that is a huge page longer.
pub fn place_in_reservation(base: usize, len: usize) -> (p: Placement)
    requires
        base + len + TWO_MIB <= usize::MAX,
    ensures
        p.mapping.addr == aligned_up(base as int),
        p.mapping.len == len,
        p.head == (AddressRange { addr: base, len: (p.mapping.addr - base) as usize }),
        p.tail.addr == p.mapping.addr + len,
        p.tail.addr + p.tail.len == base + len + TWO_MIB,
{
    let aligned: usize = align_up_to_2mib(base);
    let tail_addr: usize = aligned + len;
    Placement {
        mapping: AddressRange { addr: aligned, len },
        head: AddressRange { addr: base, len: aligned - base },
        tail: AddressRange { addr: tail_addr, len: (base + (len + TWO_MIB)) - tail_addr },
    }
}

/// The mapping and the parts given back make up the reservation without gap or
/// overlap, and the mapping is at a huge page boundary.
pub proof fn placements_partition_the_reservation(base: usize, len: usize, p: Placement)
    requires
        base + len + TWO_MIB <= usize::MAX,
        p.mapping.addr == aligned_up(base as int),
        p.mapping.len == len,
        p.head == (AddressRange { addr: base, len: (p.mapping.addr - base) as usize }),
        p.tail.addr == p.mapping.addr + len,
        p.tail.addr + p.tail.len == base + len + TWO_MIB,
    ensures
        p.mapping.addr % TWO_MIB == 0,
        p.head.addr + p.head.len == p.mapping.addr,
        p.mapping.addr + p.mapping.len == p.tail.addr,
        p.head.len + p.mapping.len + p.tail.len == len + TWO_MIB,
        p.head.len < TWO_MIB,
        p.tail.len > 0,
{
}

/// The range, unless it is empty.
pub open spec fn unless_empty(range: AddressRange) -> Seq<AddressRange> {
    if range.len > 0 {
        seq![range]
    } else {
        Seq::empty()
    }
}

/// What is given back of a reservation at `base`: what lies before and behind
/// the mapping where there is one, and else all of it; of these the ranges that
/// are not empty.
pub open spec fn released(base: usize, p: Placement, mapped: bool) -> Seq<AddressRange> {
    if mapped {
        unless_empty(p.head) + unless_empty(p.tail)
    } else {
        unless_empty(
            AddressRange { addr: base, len: (p.tail.addr + p.tail.len - base) as usize },
        )
    }
}

/// The ranges to give back of a reservation at `base`, by whether the mapping
/// was made.
pub fn ranges_to_release(base: usize, p: Placement, mapped: bool) -> (r: Vec<AddressRange>)
    requires
        base <= p.tail.addr + p.tail.len <= usize::MAX,
    ensures
        r@ == released(base, p, mapped),
{
    let mut r: Vec<AddressRange> = Vec::new();
    if mapped {
        if p.head.len > 0 {
            r.push(p.head);
        }
        if p.tail.len > 0 {
            r.push(p.tail);
        }
    } else {
        let len: usize = p.tail.addr + p.tail.len - base;
        if len > 0 {
            r.push(AddressRange { addr: base, len });
        }
    }
    assert(r@ =~= released(base, p, mapped));
    r
}

/// Rounding up gives the next multiple of 2 MiB, and leaves a multiple as it is.
pub proof fn boundaries_are_the_next(addr: int)
    requires
        0 <= addr,
    ensures
        aligned_up(addr) % 0x20_0000 == 0,
        addr <= aligned_up(addr) < addr + 0x20_0000,
{
}

/// What is given back of a reservation with a mapping in it is what lies before and
/// behind the mapping, and without one all of it; never the mapping itself.
pub proof fn mappings_are_kept(base: usize, p: Placement, mapped: bool, i: int, a: int)
    requires
        p.head.addr == base,
        p.head.addr + p.head.len == p.mapping.addr,
        p.mapping.addr + p.mapping.len == p.tail.addr,
        p.tail.addr + p.tail.len <= usize::MAX,
        base <= a < p.tail.addr + p.tail.len,
        0 <= i < released(base, p, mapped).len(),
    ensures
        released(base, p, mapped)[i].len > 0,
        mapped && p.mapping.addr <= a < p.tail.addr ==> !(released(base, p, mapped)[i].addr <= a
            < released(base, p, mapped)[i].addr + released(base, p, mapped)[i].len),
        !mapped ==> released(base, p, mapped).len() == 1 && released(base, p, mapped)[0].addr
            == base && released(base, p, mapped)[0].len == p.tail.addr + p.tail.len - base,
        mapped && p.head.len > 0 ==> released(base, p, mapped)[0] == p.head,
        mapped && p.tail.len > 0 ==> released(base, p, mapped).last() == p.tail,
{
}

/// When a mapping is refused: for an offset that is more than a file can have, and
/// for a length that is more than an object can have, or that leaves no room for
/// alignment where it is of whole huge pages.
pub proof fn mappings_are_refused_for_a_reason(len: u64, offset1: u64, offset2: u64)
    ensures
        map_error(len, offset1, offset2) == Some(MapError::BadOffset) <==> offset1 + offset2
            > 0x7FFF_FFFF_FFFF_FFFF,
        offset1 + offset2 <= 0x7FFF_FFFF_FFFF_FFFF ==> (map_error(len, offset1, offset2) is Some
            <==> len > isize::MAX || len % 0x20_0000 == 0 && len + 0x20_0000 > usize::MAX),
{
}

} // verus!

//! Accesses to guest memory that starts at address zero.
//!
//! A read of a number succeeds where all of it is memory. A copy starts where
//! its first byte is memory, and stops at the end of memory; a number is
//! written as a copy of its bytes.
use vstd::prelude::*;

use crate::bytes::{
    get_le16, get_le32, get_le64, le16, le16_at, le32, le32_at, le64_at, le_value,
    little_endian_numbers, push_le16, push_le32,
};

verus! {

/// The number at `addr`, or `default` where it is not memory.
pub open spec fn u16_or(ram: Seq<u8>, addr: u64, default: u16) -> u16 {
    if addr + 2 <= ram.len() {
        le16_at(ram, addr as int)
    } else {
        default
    }
}

/// The number at `addr`, or `default` where it is not memory.
pub open spec fn u32_or(ram: Seq<u8>, addr: u64, default: u32) -> u32 {
    if addr + 4 <= ram.len() {
        le32_at(ram, addr as int)
    } else {
        default
    }
}

/// The number at `addr`, or `default` where it is not memory.
pub open spec fn u64_or(ram: Seq<u8>, addr: u64, default: u64) -> u64 {
    if addr + 8 <= ram.len() {
        le64_at(ram, addr as int)
    } else {
        default
    }
}

/// A copy of `len` bytes at `addr` can start.
pub open spec fn copy_starts(ram: Seq<u8>, addr: u64, len: int) -> bool {
    len == 0 || addr < ram.len()
}

/// Memory after a copy of `b` to `addr`.
pub open spec fn copied_in(ram: Seq<u8>, addr: u64, b: Seq<u8>) -> Seq<u8> {
    Seq::new(
        ram.len(),
        |i: int|
            if addr <= i < addr + b.len() {
                b[i - addr]
            } else {
                ram[i]
            },
    )
}

/// A copy of `len` bytes from `addr`, with zeros behind the end of memory.
pub open spec fn copied_out(ram: Seq<u8>, addr: u64, len: int) -> Seq<u8> {
    Seq::new(
        len as nat,
        |i: int|
            if addr + i < ram.len() {
                ram[addr + i]
            } else {
                0u8
            },
    )
}

/// Reads a `u16`.
pub fn read_u16(ram: &[u8], addr: u64, default: u16) -> (x: u16)
    ensures
        x == u16_or(ram@, addr, default),
{
    let n: usize = ram.len();
    if n >= 2 && addr <= (n - 2) as u64 {
        get_le16(ram, addr as usize)
    } else {
        default
    }
}

/// Reads a `u32`.
pub fn read_u32(ram: &[u8], addr: u64, default: u32) -> (x: u32)
    ensures
        x == u32_or(ram@, addr, default),
{
    let n: usize = ram.len();
    if n >= 4 && addr <= (n - 4) as u64 {
        get_le32(ram, addr as usize)
    } else {
        default
    }
}

/// Reads a `u64`.
pub fn read_u64(ram: &[u8], addr: u64, default: u64) -> (x: u64)
    ensures
        x == u64_or(ram@, addr, default),
{
    let n: usize = ram.len();
    if n >= 8 && addr <= (n - 8) as u64 {
        get_le64(ram, addr as usize)
    } else {
        default
    }
}

/// Writes a byte.
pub fn write_u8(ram: &mut [u8], addr: u64, x: u8)
    ensures
        final(ram)@ == copied_in(old(ram)@, addr, seq![x]),
{
    let mut b: Vec<u8> = Vec::new();
    b.push(x);
    assert(b@ =~= seq![x]);
    let _ok = copy_in(ram, addr, b.as_slice());
}

/// Writes a `u16`.
pub fn write_u16(ram: &mut [u8], addr: u64, x: u16)
    ensures
        final(ram)@ == copied_in(old(ram)@, addr, le16(x)),
{
    let mut b: Vec<u8> = Vec::new();
    push_le16(&mut b, x);
    assert(b@ =~= le16(x));
    let _ok = copy_in(ram, addr, b.as_slice());
}

/// Writes a `u32`.
pub fn write_u32(ram: &mut [u8], addr: u64, x: u32)
    ensures
        final(ram)@ == copied_in(old(ram)@, addr, le32(x)),
{
    let mut b: Vec<u8> = Vec::new();
    push_le32(&mut b, x);
    assert(b@ =~= le32(x));
    let _ok = copy_in(ram, addr, b.as_slice());
}

/// Copies `b` to `addr`. Returns whether the copy could start.
pub fn copy_in(ram: &mut [u8], addr: u64, b: &[u8]) -> (ok: bool)
    ensures
        ok == copy_starts(old(ram)@, addr, b@.len() as int),
        final(ram)@ == copied_in(old(ram)@, addr, b@),
{
    let ghost before = ram@;
    let n: usize = ram.len();
    let len: usize = b.len();
    if addr >= n as u64 {
        assert(ram@ =~= copied_in(before, addr, b@));
        return len == 0;
    }
    let from: usize = addr as usize;
    let mut i: usize = 0;
    while i < len && i < n - from
        invariant
            i <= len == b@.len(),
            from == addr,
            i <= n - from,
            from < n == ram@.len() == before.len(),
            forall|k: int| 0 <= k < n && !(from <= k < from + i) ==> #[trigger] ram@[k] == before[k],
            forall|k: int| from <= k < from + i ==> #[trigger] ram@[k] == b@[k - from],
        decreases len - i,
    {
        ram[from + i] = b[i];
        i += 1;
    }
    assert(ram@ =~= copied_in(before, addr, b@));
    true
}

/// Copies `len` bytes from `addr`, where the copy can start.
pub fn copy_out(ram: &[u8], addr: u64, len: u32) -> (r: Option<Vec<u8>>)
    ensures
        match r {
            Some(v) => copy_starts(ram@, addr, len as int) && v@ == copied_out(
                ram@,
                addr,
                len as int,
            ),
            None => !copy_starts(ram@, addr, len as int),
        },
{
    let n: usize = ram.len();
    if len > 0 && addr >= n as u64 {
        return None;
    }
    let mut v: Vec<u8> = Vec::new();
    let mut i: u32 = 0;
    while i < len
        invariant
            i <= len,
            n == ram@.len(),
            len > 0 ==> addr < n,
            v@ == copied_out(ram@, addr, i as int),
        decreases len - i,
    {
        if (i as u64) < n as u64 - addr {
            v.push(ram[(addr + i as u64) as usize]);
        } else {
            v.push(0);
        }
        i += 1;
        assert(v@ =~= copied_out(ram@, addr, i as int));
    }
    Some(v)
}

/// A copy back of bytes that were copied in, all of it in memory, gives them.
pub proof fn copies_read_back(ram: Seq<u8>, addr: u64, b: Seq<u8>)
    requires
        addr + b.len() <= ram.len(),
    ensures
        copied_out(copied_in(ram, addr, b), addr, b.len() as int) == b,
{
    assert(copied_out(copied_in(ram, addr, b), addr, b.len() as int) =~= b);
}

/// Numbers are read in little-endian order where all of their bytes are memory,
/// and are the default anywhere else.
pub proof fn memory_numbers_are_their_bytes(
    ram: Seq<u8>,
    addr: u64,
    default16: u16,
    default32: u32,
    default64: u64,
)
    ensures
        u16_or(ram, addr, default16) == if addr + 2 <= ram.len() {
            le_value(ram.subrange(addr as int, addr + 2))
        } else {
            default16 as nat
        },
        u32_or(ram, addr, default32) == if addr + 4 <= ram.len() {
            le_value(ram.subrange(addr as int, addr + 4))
        } else {
            default32 as nat
        },
        u64_or(ram, addr, default64) == if addr + 8 <= ram.len() {
            le_value(ram.subrange(addr as int, addr + 8))
        } else {
            default64 as nat
        },
{
    little_endian_numbers(ram, addr as int);
}

/// A copy to memory puts each byte in its place, as far as there is memory, and
/// keeps all others; a copy from memory finds each byte, and zeros behind the end.
pub proof fn copies_keep_their_order(ram: Seq<u8>, addr: u64, b: Seq<u8>, len: int, i: int)
    requires
        0 <= i,
        0 <= len,
    ensures
        copied_in(ram, addr, b).len() == ram.len(),
        i < b.len() && addr + i < ram.len() ==> copied_in(ram, addr, b)[addr + i] == b[i],
        i < ram.len() && (i < addr || addr + b.len() <= i) ==> copied_in(ram, addr, b)[i] == ram[i],
        copied_out(ram, addr, len).len() == len,
        i < len && addr + i < ram.len() ==> copied_out(ram, addr, len)[i] == ram[addr + i],
        i < len && addr + i >= ram.len() ==> copied_out(ram, addr, len)[i] == 0,
        copy_starts(ram, addr, len) <==> len == 0 || addr < ram.len(),
{
}

} // verus!

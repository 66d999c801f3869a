//! Access to the memory that the guest shares with its devices.
//!
//! The guest runs while a device works, so what a read finds there can differ
//! from one read to the next: nothing is claimed of what a read will find. What
//! it did find is kept track of, and so is what a device has written, though
//! the guest may overwrite it. Which addresses are memory at all does not
//! change, and decides which accesses succeed.
use vm_memory::{Bytes, GuestAddress, GuestMemoryMmap};
use vstd::prelude::*;

verus! {

/// `vm_memory::GuestRegionCollection`, the regions that make up a guest's
/// memory.
#[verifier::external_type_specification]
#[verifier::external_body]
#[verifier::reject_recursive_types(R)]
pub struct ExGuestRegionCollection<R>(vm_memory::GuestRegionCollection<R>);

/// `vm_memory::GuestRegionMmap`, one region mapped into this process.
#[verifier::external_type_specification]
#[verifier::external_body]
#[verifier::reject_recursive_types(B)]
pub struct ExGuestRegionMmap<B>(vm_memory::GuestRegionMmap<B>);

/// The guest addresses that lie in the regions of `mem`.
pub uninterp spec fn mapped_addresses(mem: GuestMemoryMmap<()>) -> Set<int>;

/// The bytes of those writes to guest memory through `mem` by [`write_guest`]
/// that succeeded, of those for one address the last.
pub uninterp spec fn device_writes(mem: GuestMemoryMmap<()>) -> Map<int, u8>;

/// The reads of guest memory through `mem` by [`read_guest`] that succeeded, in
/// order: each as its address and the bytes that it found.
pub uninterp spec fn device_reads(mem: GuestMemoryMmap<()>) -> Seq<(int, Seq<u8>)>;

/// The reads that succeeded between two states of guest memory.
pub open spec fn new_reads(mem: GuestMemoryMmap<()>, after: GuestMemoryMmap<()>) -> Seq<
    (int, Seq<u8>),
> {
    device_reads(after).skip(device_reads(mem).len() as int)
}

/// Nothing was read or written between two states of guest memory.
pub open spec fn untouched(mem: GuestMemoryMmap<()>, after: GuestMemoryMmap<()>) -> bool {
    &&& mapped_addresses(after) == mapped_addresses(mem)
    &&& device_writes(after) == device_writes(mem)
    &&& device_reads(after) == device_reads(mem)
}

/// Bytes at addresses, with `data` from `addr` on in place of what was there.
pub open spec fn written_over(m: Map<int, u8>, addr: int, data: Seq<u8>) -> Map<int, u8> {
    Map::new(
        |a: int| m.contains_key(a) || addr <= a < addr + data.len(),
        |a: int|
            if addr <= a < addr + data.len() {
                data[a - addr]
            } else {
                m[a]
            },
    )
}

/// All `len` addresses from `addr` on are memory.
pub open spec fn is_mapped(mem: GuestMemoryMmap<()>, addr: int, len: int) -> bool {
    forall|a: int| addr <= a < addr + len ==> #[trigger] mapped_addresses(mem).contains(a)
}

/// Calls `vm_memory::Bytes::read_slice` for `len` bytes at `addr`. Claimed:
/// what comes back has that length, and counts as read at that address; it
/// comes back exactly where the whole range is memory, which no range that
/// reaches the top of the address space is, as no region does; and nothing is
/// written. Which bytes the read finds is not stated, as the guest may change
/// them at any time.
#[verifier::external_body]
pub(crate) fn read_guest(mem: &mut GuestMemoryMmap<()>, addr: u64, len: u32) -> (r: Option<
    Vec<u8>,
>)
    ensures
        mapped_addresses(*final(mem)) == mapped_addresses(*old(mem)),
        device_writes(*final(mem)) == device_writes(*old(mem)),
        device_reads(*final(mem)) == match r {
            Some(v) => device_reads(*old(mem)).push((addr as int, v@)),
            None => device_reads(*old(mem)),
        },
        r matches Some(v) ==> v@.len() == len,
        r is Some <==> forall|a: int|
            addr <= a < addr + len ==> #[trigger] mapped_addresses(*old(mem)).contains(a),
{
    let mut buf = vec![0u8; len as usize];
    match mem.read_slice(&mut buf, GuestAddress(addr)) {
        Ok(()) => Some(buf),
        Err(_) => None,
    }
}

/// Calls `vm_memory::Bytes::write_slice` for `data` at `addr`. Claimed: it
/// succeeds exactly where the whole range is memory, which no range that
/// reaches the top of the address space is; the data then counts as written;
/// and nothing is read, and no address becomes memory or ceases to be. That the memory still
/// holds the data afterwards is not stated, as the guest may overwrite it at
/// once, nor what a write that fails has left of its data.
#[verifier::external_body]
pub(crate) fn write_guest(mem: &mut GuestMemoryMmap<()>, addr: u64, data: &[u8]) -> (ok: bool)
    ensures
        mapped_addresses(*final(mem)) == mapped_addresses(*old(mem)),
        ok <==> forall|a: int|
            addr <= a < addr + data@.len() ==> #[trigger] mapped_addresses(*old(mem)).contains(a),
        device_writes(*final(mem)) == if ok {
            written_over(device_writes(*old(mem)), addr as int, data@)
        } else {
            device_writes(*old(mem))
        },
        device_reads(*final(mem)) == device_reads(*old(mem)),
{
    mem.write_slice(data, GuestAddress(addr)).is_ok()
}

/// Bytes that are written are found at their addresses, each in its place, and all
/// other addresses hold what they held.
pub proof fn writes_put_each_byte(m: Map<int, u8>, addr: int, data: Seq<u8>, a: int)
    ensures
        addr <= a < addr + data.len() ==> written_over(m, addr, data).contains_key(a)
            && written_over(m, addr, data)[a] == data[a - addr],
        !(addr <= a < addr + data.len()) ==> written_over(m, addr, data).contains_key(a)
            == m.contains_key(a),
        !(addr <= a < addr + data.len()) && m.contains_key(a) ==> written_over(m, addr, data)[a]
            == m[a],
{
}

} // verus!

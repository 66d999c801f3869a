//! The request queue of the block device.
use vstd::prelude::*;

use crate::blk::config::{Interrupt, PciBlkDevice, BLK_QUEUE_SIZE};
use crate::blk::ram::{
    copied_in, copied_out, copy_in, copy_out, read_u16, read_u32,
    read_u64, u16_or, u32_or, u64_or, write_u16, write_u32, write_u8,
};
use crate::bytes::{copy_range, le16, le32, le64, le_value, little_endian_numbers, prefix};
use crate::disk::{written, DiskOps};

verus! {

pub const VIRTIO_BLK_T_IN: u32 = 0;

pub const VIRTIO_BLK_T_OUT: u32 = 1;

pub const VIRTIO_BLK_T_FLUSH: u32 = 4;

pub const VIRTIO_BLK_T_GET_ID: u32 = 8;

pub const VIRTIO_BLK_S_OK: u8 = 0;

pub const VIRTIO_BLK_S_IOERR: u8 = 1;

pub const VIRTIO_BLK_S_UNSUPP: u8 = 2;

/// The smallest multiple of `align`, a power of two, that is no less than
/// `val`.
pub fn align_up(val: u64, align: u64) -> (r: u64)
    requires
        exists|k: nat| align == vstd::arithmetic::power2::pow2(k),
        val + align - 1 <= u64::MAX,
    ensures
        r % align == 0,
        val <= r < val + align,
{
    proof {
        let k = choose|k: nat| align == vstd::arithmetic::power2::pow2(k);
        vstd::arithmetic::power2::lemma_pow2_pos(k);
        let x = val + align - 1;
        vstd::arithmetic::div_mod::lemma_fundamental_div_mod(x, align as int);
        vstd::arithmetic::div_mod::lemma_mod_bound(x, align as int);
        vstd::arithmetic::div_mod::lemma_mod_multiples_basic(x / align as int, align as int);
        assert(x / align as int * align == align * (x / align as int)) by (nonlinear_arith);
    }
    (val + (align - 1)) / align * align
}

// ─── Descriptor chains ───────────────────────────────────────────────────────

/// A descriptor of the queue.
#[derive(Debug, Clone, Copy, PartialEq, Eq, Structural)]
pub struct BlkDesc {
    /// Guest address of the buffer
    pub addr: u64,
    /// Length of the buffer
    pub len: u32,
    /// Flags: bit 0 continues the chain, bit 1 has the device write
    pub flags: u16,
}

impl BlkDesc {
    /// Whether the device writes the buffer.
    pub open spec fn is_writable(self) -> bool {
        self.flags / 2 % 2 == 1
    }

    /// Whether the device writes the buffer.
    fn writable(&self) -> (b: bool)
        ensures
            b == self.is_writable(),
    {
        self.flags / 2 % 2 == 1
    }
}

/// The address of a descriptor in the table.
pub open spec fn desc_addr(table: u64, idx: u16) -> u64 {
    (table + idx * 16) as u64
}

/// A descriptor of the table, zeros where it is not memory.
pub open spec fn desc_at(ram: Seq<u8>, table: u64, idx: u16) -> BlkDesc {
    let at = desc_addr(table, idx);
    BlkDesc {
        addr: u64_or(ram, at, 0),
        len: u32_or(ram, (at + 8) as u64, 0),
        flags: u16_or(ram, (at + 12) as u64, 0),
    }
}

/// The chain of descriptors from `idx` on, at most `fuel` of them.
pub open spec fn chain_from(ram: Seq<u8>, table: u64, idx: u16, fuel: nat) -> Seq<BlkDesc>
    decreases fuel,
{
    if fuel == 0 {
        Seq::empty()
    } else {
        let d = desc_at(ram, table, idx);
        if d.flags % 2 == 0 {
            seq![d]
        } else {
            seq![d] + chain_from(
                ram,
                table,
                u16_or(ram, (desc_addr(table, idx) + 14) as u64, 0),
                (fuel - 1) as nat,
            )
        }
    }
}

/// The chain of descriptors that starts at `first`: no longer than the queue,
/// so that a loop in the table ends.
pub open spec fn chain(ram: Seq<u8>, table: u64, first: u16) -> Seq<BlkDesc> {
    chain_from(ram, table, first, BLK_QUEUE_SIZE as nat)
}

/// Collects a chain of descriptors.
pub fn collect_chain(ram: &[u8], table: u64, first: u16) -> (descs: Vec<BlkDesc>)
    requires
        table + 0x10_0000 <= u64::MAX,
    ensures
        descs@ == chain(ram@, table, first),
        1 <= descs@.len() <= BLK_QUEUE_SIZE,
{
    let mut descs: Vec<BlkDesc> = Vec::new();
    let mut idx: u16 = first;
    let mut count: u16 = 0;
    let ghost all = chain(ram@, table, first);
    loop
        invariant_except_break
            table + 0x10_0000 <= u64::MAX,
            count < BLK_QUEUE_SIZE,
            descs@.len() == count,
            all == descs@ + chain_from(ram@, table, idx, (BLK_QUEUE_SIZE - count) as nat),
        ensures
            descs@ == all,
            1 <= descs@.len() <= BLK_QUEUE_SIZE,
        decreases BLK_QUEUE_SIZE - count,
    {
        let at: u64 = table + idx as u64 * 16;
        let addr: u64 = read_u64(ram, at, 0);
        let len: u32 = read_u32(ram, at + 8, 0);
        let flags: u16 = read_u16(ram, at + 12, 0);
        let next: u16 = read_u16(ram, at + 14, 0);
        let ghost before = descs@;
        let d = BlkDesc { addr, len, flags };
        descs.push(d);
        assert(d == desc_at(ram@, table, idx));
        if flags % 2 == 0 {
            assert(descs@ =~= all);
            break;
        }
        count += 1;
        idx = next;
        assert(all =~= descs@ + chain_from(ram@, table, idx, (BLK_QUEUE_SIZE - count) as nat));
        if count >= BLK_QUEUE_SIZE {
            assert(descs@ =~= all);
            break;
        }
    }
    descs
}

// ─── Requests ────────────────────────────────────────────────────────────────

/// A transfer between the disk and guest memory.
pub struct Transfer {
    pub offset: int,
    pub addr: u64,
    pub len: int,
}

/// The transfers of a request, up to the first buffer that cannot be
/// transferred: one that the device may not write in a read, one that reaches
/// beyond the disk, or one that is not memory.
pub open spec fn transfers(
    descs: Seq<BlkDesc>,
    offset: int,
    capacity: int,
    ram_len: int,
    read: bool,
) -> Seq<Transfer>
    decreases descs.len(),
{
    if descs.len() == 0 || transfer_refused(descs[0], offset, capacity, ram_len, read) {
        Seq::empty()
    } else {
        seq![Transfer { offset, addr: descs[0].addr, len: descs[0].len as int }] + transfers(
            descs.skip(1),
            offset + descs[0].len,
            capacity,
            ram_len,
            read,
        )
    }
}

/// A buffer cannot be transferred at a disk offset.
pub open spec fn transfer_refused(
    d: BlkDesc,
    offset: int,
    capacity: int,
    ram_len: int,
    read: bool,
) -> bool {
    ||| read && !d.is_writable()
    ||| offset + d.len > capacity * 512
    ||| d.len > 0 && d.addr >= ram_len
}

/// Memory after the first `n` transfers of a read from a disk that holds `c`.
pub open spec fn ram_after_reads(ram: Seq<u8>, c: Seq<u8>, t: Seq<Transfer>, n: int) -> Seq<u8>
    decreases n,
{
    if n <= 0 {
        ram
    } else {
        copied_in(
            ram_after_reads(ram, c, t, n - 1),
            t[n - 1].addr,
            c.subrange(t[n - 1].offset, t[n - 1].offset + t[n - 1].len),
        )
    }
}

/// What a disk that held `c` holds after the first `n` transfers of a write.
pub open spec fn disk_after_writes(ram: Seq<u8>, c: Seq<u8>, t: Seq<Transfer>, n: int) -> Seq<u8>
    decreases n,
{
    if n <= 0 {
        c
    } else {
        written(
            disk_after_writes(ram, c, t, n - 1),
            t[n - 1].offset,
            copied_out(ram, t[n - 1].addr, t[n - 1].len),
        )
    }
}

/// The number of bytes in the first `n` transfers, as a `u32` counts.
pub open spec fn transferred(t: Seq<Transfer>, n: int) -> u32
    decreases n,
{
    if n <= 0 {
        0
    } else {
        ((transferred(t, n - 1) + t[n - 1].len) % 0x1_0000_0000) as u32
    }
}

/// The status of a request after `n` of the transfers of its `count` buffers.
pub open spec fn status_after(n: int, count: int) -> u8 {
    if n == count {
        VIRTIO_BLK_S_OK
    } else {
        VIRTIO_BLK_S_IOERR
    }
}

/// The identification of the device: virtio-blk-whp, filled up with zeros to 20
/// bytes.
pub open spec fn device_id() -> Seq<u8> {
    seq![
        0x76u8, 0x69, 0x72, 0x74, 0x69, 0x6F, 0x2D, 0x62, 0x6C, 0x6B, 0x2D, 0x77, 0x68, 0x70, 0, 0,
        0, 0, 0, 0,
    ]
}

/// Memory after the identification was copied to the first `n` buffers, to
/// those that the device may write.
pub open spec fn ram_after_id(ram: Seq<u8>, descs: Seq<BlkDesc>, n: int) -> Seq<u8>
    decreases n,
{
    if n <= 0 {
        ram
    } else {
        let before = ram_after_id(ram, descs, n - 1);
        let d = descs[n - 1];
        if d.is_writable() {
            copied_in(before, d.addr, prefix(device_id(), d.len as int))
        } else {
            before
        }
    }
}

/// The number of identification bytes for the first `n` buffers.
pub open spec fn id_len(descs: Seq<BlkDesc>, n: int) -> int
    decreases n,
{
    if n <= 0 {
        0
    } else {
        id_len(descs, n - 1) + if descs[n - 1].is_writable() {
            prefix(device_id(), descs[n - 1].len as int).len() as int
        } else {
            0
        }
    }
}

/// The disk does not fail, and has the sectors of the device.
pub open spec fn sound<D: DiskOps>(disk: D, capacity: u64) -> bool {
    disk.reliable() && capacity * 512 <= disk.contents().len()
}

/// The outcome of a request on its data buffers: the status, the number of
/// bytes written to guest memory, and what became of memory and of the disk.
/// Where the disk fails, the transfers end there; a reliable disk with all its
/// sectors does not. Only a write changes the bytes of the disk.
pub open spec fn request_done<D: DiskOps>(
    request: u32,
    sector: u64,
    data: Seq<BlkDesc>,
    capacity: u64,
    ram: Seq<u8>,
    ram_after: Seq<u8>,
    disk: D,
    disk_after: D,
    status: u8,
    count: u32,
) -> bool {
    let c = disk.contents();
    if request == VIRTIO_BLK_T_IN || request == VIRTIO_BLK_T_OUT {
        let read = request == VIRTIO_BLK_T_IN;
        if sector >= capacity {
            status == VIRTIO_BLK_S_IOERR && count == 0 && ram_after == ram && disk_after == disk
        } else {
            let t = transfers(data, sector * 512, capacity as int, ram.len() as int, read);
            exists|n: int|
                {
                    &&& 0 <= n <= t.len()
                    &&& status == #[trigger] status_after(n, data.len() as int)
                    &&& count == if read {
                        transferred(t, n)
                    } else {
                        0
                    }
                    &&& ram_after == if read {
                        ram_after_reads(ram, c, t, n)
                    } else {
                        ram
                    }
                    &&& read || status == VIRTIO_BLK_S_OK || sound(disk, capacity)
                        ==> disk_after.contents() == if read {
                        c
                    } else {
                        disk_after_writes(ram, c, t, n)
                    }
                    &&& sound(disk, capacity) ==> n == t.len() && sound(disk_after, capacity)
                }
        }
    } else if request == VIRTIO_BLK_T_FLUSH {
        &&& status == VIRTIO_BLK_S_OK || status == VIRTIO_BLK_S_IOERR
        &&& disk_after.contents() == c
        &&& status == VIRTIO_BLK_S_OK ==> disk_after.stored() == c
        &&& disk.reliable() ==> status == VIRTIO_BLK_S_OK && disk_after.reliable()
        &&& count == 0
        &&& ram_after == ram
    } else if request == VIRTIO_BLK_T_GET_ID {
        &&& status == VIRTIO_BLK_S_OK
        &&& count == id_len(data, data.len() as int)
        &&& ram_after == ram_after_id(ram, data, data.len() as int)
        &&& disk_after == disk
    } else {
        status == VIRTIO_BLK_S_UNSUPP && count == 0 && ram_after == ram && disk_after == disk
    }
}

/// The outcome of a descriptor chain: the number of bytes written to guest
/// memory, and what became of memory and of the disk. A chain without a header
/// and a status buffer, or whose status buffer the device may not write, is
/// left alone; one with a bad header fails.
#[verifier::opaque]
pub open spec fn chain_done<D: DiskOps>(
    descs: Seq<BlkDesc>,
    capacity: u64,
    ram: Seq<u8>,
    ram_after: Seq<u8>,
    disk: D,
    disk_after: D,
    count: u32,
) -> bool {
    let last = descs[descs.len() - 1];
    if descs.len() < 2 {
        count == 0 && ram_after == ram && disk_after == disk
    } else if descs[0].len < 16 || descs[0].is_writable() {
        &&& count == 1
        &&& ram_after == copied_in(ram, last.addr, seq![VIRTIO_BLK_S_IOERR])
        &&& disk_after == disk
    } else if last.len < 1 || !last.is_writable() {
        count == 0 && ram_after == ram && disk_after == disk
    } else {
        exists|m: Seq<u8>, status: u8, n: u32|
            {
                &&& #[trigger] request_done(
                    u32_or(ram, descs[0].addr, u32::MAX),
                    sector_of(ram, descs[0].addr),
                    descs.subrange(1, descs.len() - 1),
                    capacity,
                    ram,
                    m,
                    disk,
                    disk_after,
                    status,
                    n,
                )
                &&& ram_after == copied_in(m, last.addr, seq![status])
                &&& count == ((n + 1) % 0x1_0000_0000) as u32
            }
    }
}

/// The sector in a request header, eight bytes behind its start.
pub open spec fn sector_of(ram: Seq<u8>, header: u64) -> u64 {
    if header + 16 <= ram.len() {
        u64_or(ram, (header + 8) as u64, 0)
    } else {
        0
    }
}

/// Sums of lengths of buffers stay small.
proof fn id_len_bounds(descs: Seq<BlkDesc>, n: int)
    ensures
        n >= 0 ==> 0 <= id_len(descs, n) <= 20 * n,
    decreases n,
{
    if n > 0 {
        id_len_bounds(descs, n - 1);
    }
}

/// The transfers of a chain of buffers, one by one: where the first `k` are
/// transferred, the next is refused or is the next transfer.
proof fn transfer_step(
    descs: Seq<BlkDesc>,
    offset: int,
    capacity: int,
    ram_len: int,
    read: bool,
    k: int,
)
    requires
        0 <= k <= descs.len(),
        k <= transfers(descs, offset, capacity, ram_len, read).len(),
    ensures
        transfers(descs, offset, capacity, ram_len, read).len() <= descs.len(),
        k < descs.len() ==> {
            let t = transfers(descs, offset, capacity, ram_len, read);
            let at = offset_after(descs, offset, k);
            if transfer_refused(descs[k], at, capacity, ram_len, read) {
                t.len() == k
            } else {
                &&& k < t.len()
                &&& t[k] == (Transfer { offset: at, addr: descs[k].addr, len: descs[k].len as int })
            }
        },
    decreases descs.len(),
{
    let t = transfers(descs, offset, capacity, ram_len, read);
    if descs.len() > 0 && !transfer_refused(descs[0], offset, capacity, ram_len, read) {
        let rest = transfers(descs.skip(1), offset + descs[0].len, capacity, ram_len, read);
        transfer_step(
            descs.skip(1),
            offset + descs[0].len,
            capacity,
            ram_len,
            read,
            if k > 0 {
                k - 1
            } else {
                0
            },
        );
        if k > 0 {
            offset_after_skip(descs, offset, k);
            if k < descs.len() {
                assert(descs.skip(1)[k - 1] == descs[k]);
                if k < t.len() {
                    assert(t[k] == rest[k - 1]);
                }
            }
        }
    }
}

/// The disk offset behind the first `k` buffers.
pub open spec fn offset_after(descs: Seq<BlkDesc>, offset: int, k: int) -> int
    decreases k,
{
    if k <= 0 {
        offset
    } else {
        offset_after(descs, offset, k - 1) + descs[k - 1].len
    }
}

proof fn offset_after_skip(descs: Seq<BlkDesc>, offset: int, k: int)
    requires
        0 < k <= descs.len(),
    ensures
        offset_after(descs, offset, k) == offset_after(
            descs.skip(1),
            offset + descs[0].len,
            k - 1,
        ),
    decreases k,
{
    if k > 1 {
        offset_after_skip(descs, offset, k - 1);
        assert(descs.skip(1)[k - 2] == descs[k - 1]);
    } else {
        assert(offset_after(descs, offset, 0) == offset);
    }
}

/// Memory after reads keeps its size.
proof fn ram_after_reads_len(ram: Seq<u8>, c: Seq<u8>, t: Seq<Transfer>, n: int)
    ensures
        ram_after_reads(ram, c, t, n).len() == ram.len(),
    decreases n,
{
    if n > 0 {
        ram_after_reads_len(ram, c, t, n - 1);
    }
}

proof fn ram_after_id_len(ram: Seq<u8>, descs: Seq<BlkDesc>, n: int)
    ensures
        ram_after_id(ram, descs, n).len() == ram.len(),
    decreases n,
{
    if n > 0 {
        ram_after_id_len(ram, descs, n - 1);
    }
}

/// Reads sectors from the disk into the buffers. Returns the status and the
/// number of bytes written to guest memory.
fn read_sectors<D: DiskOps>(
    capacity: u64,
    sector: u64,
    data: &[BlkDesc],
    ram: &mut [u8],
    disk: &mut D,
) -> (r: (u8, u32))
    requires
        sector < capacity,
        capacity * 512 <= u64::MAX,
    ensures
        final(ram)@.len() == old(ram)@.len(),
        request_done(
            VIRTIO_BLK_T_IN,
            sector,
            data@,
            capacity,
            old(ram)@,
            final(ram)@,
            *old(disk),
            *final(disk),
            r.0,
            r.1,
        ),
{
    let ghost ram0 = ram@;
    let ghost c = disk.contents();
    let ghost t = transfers(data@, sector * 512, capacity as int, ram0.len() as int, true);
    let limit: u64 = capacity * 512;
    let mut offset: u64 = sector * 512;
    let mut total: u32 = 0;
    let mut i: usize = 0;
    proof {
        transfer_step(data@, sector * 512, capacity as int, ram0.len() as int, true, 0);
    }
    while i < data.len()
        invariant
            i <= data@.len(),
            i <= t.len() <= data@.len(),
            t == transfers(data@, sector * 512, capacity as int, ram0.len() as int, true),
            limit == capacity * 512,
            sector < capacity,
            offset == offset_after(data@, sector * 512, i as int),
            offset <= limit,
            ram@.len() == ram0.len(),
            ram@ == ram_after_reads(ram0, c, t, i as int),
            ram0 == old(ram)@,
            c == old(disk).contents(),
            total == transferred(t, i as int),
            disk.contents() == c,
            sound(*old(disk), capacity) ==> sound(*disk, capacity),
        decreases data@.len() - i,
    {
        let d: BlkDesc = data[i];
        proof {
            transfer_step(
                data@,
                sector * 512,
                capacity as int,
                ram0.len() as int,
                true,
                i as int,
            );
            assert(status_after(i as int, data@.len() as int) == VIRTIO_BLK_S_IOERR);
        }
        if !d.writable() || d.len as u64 > limit - offset {
            return (VIRTIO_BLK_S_IOERR, total);
        }
        if disk.seek(offset).is_err() {
            return (VIRTIO_BLK_S_IOERR, total);
        }
        let mut buf: Vec<u8> = vec![0u8; d.len as usize];
        if disk.read_exact(buf.as_mut_slice()).is_err() {
            return (VIRTIO_BLK_S_IOERR, total);
        }
        let ghost before = ram@;
        if !copy_in(ram, d.addr, buf.as_slice()) {
            assert(ram@ =~= before);
            return (VIRTIO_BLK_S_IOERR, total);
        }
        proof {
            assert(t[i as int] == (Transfer {
                offset: offset as int,
                addr: d.addr,
                len: d.len as int,
            }));
        }
        offset = offset + d.len as u64;
        total = total.wrapping_add(d.len);
        i += 1;
        proof {
            assert(transferred(t, i as int) == total);
            assert(ram@ == ram_after_reads(ram0, c, t, i as int));
        }
    }
    proof {
        assert(status_after(i as int, data@.len() as int) == VIRTIO_BLK_S_OK);
    }
    (VIRTIO_BLK_S_OK, total)
}

/// Writes sectors from the buffers to the disk. Returns the status.
fn write_sectors<D: DiskOps>(
    capacity: u64,
    sector: u64,
    data: &[BlkDesc],
    ram: &[u8],
    disk: &mut D,
) -> (status: u8)
    requires
        sector < capacity,
        capacity * 512 <= u64::MAX,
    ensures
        request_done(
            VIRTIO_BLK_T_OUT,
            sector,
            data@,
            capacity,
            ram@,
            ram@,
            *old(disk),
            *final(disk),
            status,
            0,
        ),
{
    let ghost c = disk.contents();
    let ghost t = transfers(data@, sector * 512, capacity as int, ram@.len() as int, false);
    let limit: u64 = capacity * 512;
    let mut offset: u64 = sector * 512;
    let mut i: usize = 0;
    proof {
        transfer_step(data@, sector * 512, capacity as int, ram@.len() as int, false, 0);
    }
    while i < data.len()
        invariant
            i <= data@.len(),
            i <= t.len() <= data@.len(),
            t == transfers(data@, sector * 512, capacity as int, ram@.len() as int, false),
            limit == capacity * 512,
            sector < capacity,
            offset == offset_after(data@, sector * 512, i as int),
            offset <= limit,
            c == old(disk).contents(),
            disk.contents() == disk_after_writes(ram@, c, t, i as int),
            sound(*old(disk), capacity) ==> sound(*disk, capacity),
        decreases data@.len() - i,
    {
        let d: BlkDesc = data[i];
        proof {
            transfer_step(
                data@,
                sector * 512,
                capacity as int,
                ram@.len() as int,
                false,
                i as int,
            );
            assert(status_after(i as int, data@.len() as int) == VIRTIO_BLK_S_IOERR);
        }
        if d.len as u64 > limit - offset {
            return VIRTIO_BLK_S_IOERR;
        }
        let buf: Vec<u8> = match copy_out(ram, d.addr, d.len) {
            Some(buf) => buf,
            None => {
                return VIRTIO_BLK_S_IOERR;
            },
        };
        if disk.seek(offset).is_err() {
            return VIRTIO_BLK_S_IOERR;
        }
        if disk.write_all(buf.as_slice()).is_err() {
            return VIRTIO_BLK_S_IOERR;
        }
        proof {
            assert(t[i as int] == (Transfer {
                offset: offset as int,
                addr: d.addr,
                len: d.len as int,
            }));
        }
        offset = offset + d.len as u64;
        i += 1;
        assert(disk.contents() == disk_after_writes(ram@, c, t, i as int));
    }
    proof {
        assert(status_after(i as int, data@.len() as int) == VIRTIO_BLK_S_OK);
    }
    VIRTIO_BLK_S_OK
}

/// Copies the identification to the buffers that the device may write. Returns
/// the number of bytes.
fn write_device_id(data: &[BlkDesc], ram: &mut [u8]) -> (count: u32)
    requires
        data@.len() <= BLK_QUEUE_SIZE,
    ensures
        count == id_len(data@, data@.len() as int),
        final(ram)@ == ram_after_id(old(ram)@, data@, data@.len() as int),
        final(ram)@.len() == old(ram)@.len(),
{
    let id: [u8; 20] = [
        0x76, 0x69, 0x72, 0x74, 0x69, 0x6F, 0x2D, 0x62, 0x6C, 0x6B, 0x2D, 0x77, 0x68, 0x70, 0, 0, 0,
        0, 0, 0,
    ];
    assert(id@ =~= device_id());
    let ghost ram0 = ram@;
    let mut count: u32 = 0;
    let mut i: usize = 0;
    while i < data.len()
        invariant
            i <= data@.len() <= BLK_QUEUE_SIZE,
            id@ == device_id(),
            count == id_len(data@, i as int),
            count <= 20 * i,
            ram@ == ram_after_id(ram0, data@, i as int),
            ram@.len() == ram0.len(),
        decreases data@.len() - i,
    {
        let d: BlkDesc = data[i];
        proof {
            id_len_bounds(data@, i + 1);
        }
        if d.writable() {
            let n: usize = if d.len < 20 {
                d.len as usize
            } else {
                20
            };
            let part: Vec<u8> = copy_range(id.as_slice(), 0, n);
            assert(part@ =~= prefix(device_id(), d.len as int));
            let _ok = copy_in(ram, d.addr, part.as_slice());
            count = count + n as u32;
        }
        i += 1;
    }
    count
}

impl PciBlkDevice {
    /// Processes a single descriptor chain. Returns the number of bytes
    /// written to guest memory.
    pub fn process_descriptor_chain<D: DiskOps>(
        &self,
        desc_table: u64,
        first_idx: u16,
        ram: &mut [u8],
        disk: &mut D,
    ) -> (count: u32)
        requires
            desc_table + 0x10_0000 <= u64::MAX,
            self.capacity * 512 <= u64::MAX,
        ensures
            final(ram)@.len() == old(ram)@.len(),
            chain_done(
                chain(old(ram)@, desc_table, first_idx),
                self.capacity,
                old(ram)@,
                final(ram)@,
                *old(disk),
                *final(disk),
                count,
            ),
    {
        proof {
            reveal(chain_done);
        }
        let descs: Vec<BlkDesc> = collect_chain(ram, desc_table, first_idx);
        let ghost ram0 = ram@;
        let ghost disk0 = *disk;
        let n: usize = descs.len();
        if n < 2 {
            return 0;
        }
        let header: BlkDesc = descs[0];
        let last: BlkDesc = descs[n - 1];
        if header.len < 16 || header.writable() {
            self.write_status_byte(descs.as_slice(), VIRTIO_BLK_S_IOERR, ram);
            return 1;
        }
        let req_type: u32 = read_u32(ram, header.addr, u32::MAX);
        let size: usize = ram.len();
        let sector: u64 = if header.addr <= u64::MAX - 16 && header.addr + 16 <= size as u64 {
            read_u64(ram, header.addr + 8, 0)
        } else {
            0
        };
        if last.len < 1 || !last.writable() {
            return 0;
        }
        let data: &[BlkDesc] = vstd::slice::slice_subrange(descs.as_slice(), 1, n - 1);
        let mut total: u32 = 0;
        let status: u8 = if req_type == VIRTIO_BLK_T_IN {
            if sector >= self.capacity {
                VIRTIO_BLK_S_IOERR
            } else {
                let (status, count): (u8, u32) = read_sectors(
                    self.capacity,
                    sector,
                    data,
                    ram,
                    disk,
                );
                total = count;
                status
            }
        } else if req_type == VIRTIO_BLK_T_OUT {
            if sector >= self.capacity {
                VIRTIO_BLK_S_IOERR
            } else {
                write_sectors(self.capacity, sector, data, ram, disk)
            }
        } else if req_type == VIRTIO_BLK_T_FLUSH {
            if disk.flush().is_ok() {
                VIRTIO_BLK_S_OK
            } else {
                VIRTIO_BLK_S_IOERR
            }
        } else if req_type == VIRTIO_BLK_T_GET_ID {
            total = write_device_id(data, ram);
            VIRTIO_BLK_S_OK
        } else {
            VIRTIO_BLK_S_UNSUPP
        };
        let ghost m = ram@;
        proof {
            assert(data@ == descs@.subrange(1, n - 1));
            assert(sector == sector_of(ram0, header.addr));
            assert(request_done(
                u32_or(ram0, descs@[0].addr, u32::MAX),
                sector_of(ram0, descs@[0].addr),
                descs@.subrange(1, n - 1),
                self.capacity,
                ram0,
                m,
                disk0,
                *disk,
                status,
                total,
            ));
        }
        write_u8(ram, last.addr, status);
        total.wrapping_add(1)
    }

    /// Writes a status to the last buffer of a chain.
    fn write_status_byte(&self, descs: &[BlkDesc], status: u8, ram: &mut [u8])
        ensures
            final(ram)@ == if descs@.len() > 0 {
                copied_in(old(ram)@, descs@[descs@.len() - 1].addr, seq![status])
            } else {
                old(ram)@
            },
    {
        if descs.len() > 0 {
            write_u8(ram, descs[descs.len() - 1].addr, status);
        }
    }
}

// ─── The queue ───────────────────────────────────────────────────────────────

/// The address of the available ring of a queue at `queue`.
pub open spec fn avail_ring(queue: u64) -> u64 {
    (queue + 16 * BLK_QUEUE_SIZE) as u64
}

/// The address of the used ring of a queue on a page boundary: the page behind
/// the available ring.
pub open spec fn used_ring(queue: u64) -> u64 {
    (queue + 4096) as u64
}

/// Memory with a used element for the chain `id` with `count` bytes, and the
/// used index moved on.
pub open spec fn with_used(ram: Seq<u8>, queue: u64, id: u16, count: u32) -> Seq<u8> {
    let ring = used_ring(queue);
    let idx = u16_or(ram, (ring + 2) as u64, 0);
    let elem = (ring + 4 + idx % BLK_QUEUE_SIZE * 8) as u64;
    let a = copied_in(ram, elem, le32(id as u32));
    let b = copied_in(a, (elem + 4) as u64, le32(count));
    copied_in(b, (ring + 2) as u64, le16(((idx + 1) % 0x1_0000) as u16))
}

/// The chain at an index of the available ring.
pub open spec fn avail_chain(ram: Seq<u8>, queue: u64, index: u16) -> u16 {
    u16_or(ram, (avail_ring(queue) + 4 + index % BLK_QUEUE_SIZE * 2) as u64, 0)
}

/// One request: the chain at an index of the available ring is processed, and
/// put on the used ring.
#[verifier::opaque]
pub open spec fn slot_done<D: DiskOps>(
    queue: u64,
    index: u16,
    capacity: u64,
    ram: Seq<u8>,
    ram_after: Seq<u8>,
    disk: D,
    disk_after: D,
) -> bool {
    let id = avail_chain(ram, queue, index);
    exists|m: Seq<u8>, count: u32|
        {
            &&& #[trigger] chain_done(
                chain(ram, queue, id),
                capacity,
                ram,
                m,
                disk,
                disk_after,
                count,
            )
            &&& ram_after == with_used(m, queue, id, count)
        }
}

/// The index `n` behind `first`, as a `u16` counts.
pub open spec fn index_after(first: u16, n: int) -> u16 {
    ((first + n) % 0x1_0000) as u16
}

/// `n` requests, from index `first` of the available ring on, one after
/// another.
pub open spec fn slots_done<D: DiskOps>(
    queue: u64,
    first: u16,
    n: nat,
    capacity: u64,
    ram: Seq<u8>,
    ram_after: Seq<u8>,
    disk: D,
    disk_after: D,
) -> bool
    decreases n,
{
    if n == 0 {
        ram_after == ram && disk_after == disk
    } else {
        exists|m: Seq<u8>, d: D|
            {
                &&& slots_done(
                    queue,
                    first,
                    (n - 1) as nat,
                    capacity,
                    ram,
                    m,
                    disk,
                    d,
                )
                &&& #[trigger] slot_done(
                    queue,
                    index_after(first, n - 1),
                    capacity,
                    m,
                    ram_after,
                    d,
                    disk_after,
                )
            }
    }
}

/// One request more.
proof fn slots_extend<D: DiskOps>(
    queue: u64,
    first: u16,
    n: nat,
    capacity: u64,
    ram: Seq<u8>,
    m: Seq<u8>,
    ram_after: Seq<u8>,
    disk: D,
    d: D,
    disk_after: D,
)
    requires
        slots_done(queue, first, n, capacity, ram, m, disk, d),
        slot_done(queue, index_after(first, n as int), capacity, m, ram_after, d, disk_after),
    ensures
        slots_done(queue, first, n + 1, capacity, ram, ram_after, disk, disk_after),
{
    let k: nat = n + 1;
    assert((k - 1) as nat == n);
    assert(slot_done(queue, index_after(first, k - 1), capacity, m, ram_after, d, disk_after));
}

/// The number of requests between two indices of the available ring.
pub open spec fn pending(from: u16, to: u16) -> nat {
    ((to - from) % 0x1_0000) as nat
}

/// One index on.
proof fn index_step(first: u16, done: int, to: u16)
    requires
        0 <= done < pending(first, to),
    ensures
        index_after(first, done + 1) == index_after(first, done).wrapping_add(1),
        pending(index_after(first, done), to) == pending(first, to) - done,
        pending(index_after(first, done + 1), to) == pending(first, to) - done - 1,
{
    let n: int = if to >= first {
        to - first
    } else {
        to - first + 0x1_0000
    };
    assert(pending(first, to) == n);
    let a: int = if first + done < 0x1_0000 {
        first + done
    } else {
        first + done - 0x1_0000
    };
    assert(index_after(first, done) == a);
    let b: int = if a == 0xFFFF {
        0
    } else {
        a + 1
    };
    assert(index_after(first, done + 1) == b);
    assert(pending(a as u16, to) == n - done);
    assert(pending(b as u16, to) == n - done - 1);
}

impl PciBlkDevice {
    /// The address of the request queue.
    pub open spec fn queue_addr(self) -> u64 {
        (self.queue_pfn * 4096) as u64
    }

    /// The device after its pending requests, `n` of them.
    pub open spec fn after_requests(self, avail: u16, n: nat) -> PciBlkDevice {
        PciBlkDevice {
            last_avail_idx: avail,
            isr_status: if n > 0 && self.isr_status % 2 == 0 {
                (self.isr_status + 1) as u8
            } else {
                self.isr_status
            },
            ..self
        }
    }

    /// Processes the request at an index of the available ring.
    fn process_slot<D: DiskOps>(
        &self,
        queue: u64,
        used: u64,
        index: u16,
        ram: &mut [u8],
        disk: &mut D,
    )
        requires
            queue <= 0x1000_0000_0000,
            used == used_ring(queue),
            self.capacity * 512 <= u64::MAX,
        ensures
            final(ram)@.len() == old(ram)@.len(),
            slot_done(
                queue,
                index,
                self.capacity,
                old(ram)@,
                final(ram)@,
                *old(disk),
                *final(disk),
            ),
    {
        let avail: u64 = queue + BLK_QUEUE_SIZE as u64 * 16;
        let slot: u64 = (index % BLK_QUEUE_SIZE) as u64;
        let desc_idx: u16 = read_u16(ram, avail + 4 + slot * 2, 0);
        let ghost m0 = ram@;
        let ghost d0 = *disk;
        assert(desc_idx == avail_chain(m0, queue, index));
        let count: u32 = self.process_descriptor_chain(queue, desc_idx, ram, disk);
        let ghost m1 = ram@;
        let used_idx: u16 = read_u16(ram, used + 2, 0);
        let elem: u64 = used + 4 + (used_idx % BLK_QUEUE_SIZE) as u64 * 8;
        write_u32(ram, elem, desc_idx as u32);
        write_u32(ram, elem + 4, count);
        write_u16(ram, used + 2, used_idx.wrapping_add(1));
        assert(ram@ == with_used(m1, queue, desc_idx, count));
        proof {
            reveal(slot_done);
        }
    }

    /// Processes the pending requests of the queue: all that the available
    /// index, read once, announces. Returns the interrupt to inject, where
    /// there was a request.
    pub fn process_queue<D: DiskOps>(
        &mut self,
        ram: &mut [u8],
        disk: &mut D,
        msix_table: &[u8],
    ) -> (interrupt: Option<Interrupt>)
        requires
            old(self).capacity * 512 <= u64::MAX,
            msix_table@.len() >= 32,
        ensures
            final(ram)@.len() == old(ram)@.len(),
            if old(self).queue_pfn == 0 {
                &&& *final(self) == *old(self)
                &&& final(ram)@ == old(ram)@
                &&& *final(disk) == *old(disk)
                &&& interrupt is None
            } else {
                let queue = old(self).queue_addr();
                let avail = u16_or(old(ram)@, (avail_ring(queue) + 2) as u64, 0);
                let n = pending(old(self).last_avail_idx, avail);
                &&& *final(self) == old(self).after_requests(avail, n)
                &&& slots_done(
                    queue,
                    old(self).last_avail_idx,
                    n,
                    old(self).capacity,
                    old(ram)@,
                    final(ram)@,
                    *old(disk),
                    *final(disk),
                )
                &&& interrupt == if n > 0 {
                    old(self).queue_interrupt(msix_table@)
                } else {
                    None
                }
            },
    {
        if self.queue_pfn == 0 {
            return None;
        }
        let queue: u64 = self.queue_pfn as u64 * 4096;
        let avail: u64 = queue + BLK_QUEUE_SIZE as u64 * 16;
        proof {
            vstd::arithmetic::power2::lemma2_to64();
            assert(4096u64 == vstd::arithmetic::power2::pow2(12));
        }
        let used: u64 = align_up(avail + 6 + 2 * BLK_QUEUE_SIZE as u64, 4096);
        assert(used == used_ring(queue));
        let avail_idx: u16 = read_u16(ram, avail + 2, 0);
        let ghost ram0 = ram@;
        let ghost disk0 = *disk;
        let ghost first = self.last_avail_idx;
        let ghost total = pending(first, avail_idx);
        let ghost mut done: nat = 0;
        let mut processed: bool = false;
        while self.last_avail_idx != avail_idx
            invariant
                queue == old(self).queue_addr(),
                queue <= 0x1000_0000_0000,
                avail == avail_ring(queue),
                used == used_ring(queue),
                first == old(self).last_avail_idx,
                total == pending(first, avail_idx),
                done <= total,
                self.last_avail_idx == index_after(first, done as int),
                total - done == pending(self.last_avail_idx, avail_idx),
                processed == (done > 0),
                *self == (PciBlkDevice { last_avail_idx: self.last_avail_idx, ..*old(self) }),
                self.capacity * 512 <= u64::MAX,
                ram0 == old(ram)@,
                disk0 == *old(disk),
                ram@.len() == ram0.len(),
                slots_done(queue, first, done, self.capacity, ram0, ram@, disk0, *disk),
            decreases total - done,
        {
            let ghost m0 = ram@;
            let ghost d0 = *disk;
            self.process_slot(queue, used, self.last_avail_idx, ram, disk);
            proof {
                index_step(first, done as int, avail_idx);
                slots_extend(
                    queue,
                    first,
                    done,
                    self.capacity,
                    ram0,
                    m0,
                    ram@,
                    disk0,
                    d0,
                    *disk,
                );
                done = done + 1;
            }
            self.last_avail_idx = self.last_avail_idx.wrapping_add(1);
            processed = true;
        }
        if processed {
            if self.isr_status % 2 == 0 {
                self.isr_status = self.isr_status + 1;
            }
            self.inject_interrupt(msix_table)
        } else {
            None
        }
    }

    /// Writes to the register BAR; a notification processes the queue. Returns
    /// the interrupt to inject.
    pub fn io_write<D: DiskOps>(
        &mut self,
        offset: u16,
        data: &[u8],
        ram: &mut [u8],
        disk: &mut D,
        msix_table: &[u8],
    ) -> (interrupt: Option<Interrupt>)
        requires
            old(self).capacity * 512 <= u64::MAX,
            msix_table@.len() >= 32,
        ensures
            final(ram)@.len() == old(ram)@.len(),
            if old(self).notifies(offset, data@) {
                let queue = old(self).queue_addr();
                let avail = u16_or(old(ram)@, (avail_ring(queue) + 2) as u64, 0);
                let n = pending(old(self).last_avail_idx, avail);
                &&& *final(self) == old(self).after_requests(avail, n)
                &&& slots_done(
                    queue,
                    old(self).last_avail_idx,
                    n,
                    old(self).capacity,
                    old(ram)@,
                    final(ram)@,
                    *old(disk),
                    *final(disk),
                )
                &&& interrupt == if n > 0 {
                    old(self).queue_interrupt(msix_table@)
                } else {
                    None
                }
            } else {
                &&& *final(self) == old(self).register_written(offset, data@)
                &&& final(ram)@ == old(ram)@
                &&& *final(disk) == *old(disk)
                &&& interrupt is None
            },
    {
        if self.write_register(offset, data) {
            self.process_queue(ram, disk, msix_table)
        } else {
            None
        }
    }
}

// ─── Laws ────────────────────────────────────────────────────────────────────

/// Every transfer of a request stays on the disk.
pub proof fn transfers_stay_on_the_disk(
    descs: Seq<BlkDesc>,
    offset: int,
    capacity: int,
    ram_len: int,
    read: bool,
    k: int,
)
    requires
        0 <= offset,
        0 <= k < transfers(descs, offset, capacity, ram_len, read).len(),
    ensures
        ({
            let t = transfers(descs, offset, capacity, ram_len, read)[k];
            0 <= t.offset && t.offset + t.len <= capacity * 512
        }),
    decreases descs.len(),
{
    if k > 0 {
        transfers_stay_on_the_disk(
            descs.skip(1),
            offset + descs[0].len,
            capacity,
            ram_len,
            read,
            k - 1,
        );
        assert(transfers(descs, offset, capacity, ram_len, read)[k] == transfers(
            descs.skip(1),
            offset + descs[0].len,
            capacity,
            ram_len,
            read,
        )[k - 1]);
    }
}

/// A write that succeeded, followed by a read of the same sectors that
/// succeeded, from and to one buffer that is memory, gives the data back.
pub proof fn sectors_read_back<D: DiskOps>(
    capacity: u64,
    sector: u64,
    out: BlkDesc,
    back: BlkDesc,
    ram: Seq<u8>,
    ram2: Seq<u8>,
    ram3: Seq<u8>,
    d0: D,
    d1: D,
    d2: D,
    n1: u32,
    n2: u32,
)
    requires
        out.len == back.len,
        out.len > 0,
        out.addr + out.len <= ram.len(),
        back.addr + back.len <= ram2.len(),
        request_done(
            VIRTIO_BLK_T_OUT,
            sector,
            seq![out],
            capacity,
            ram,
            ram,
            d0,
            d1,
            VIRTIO_BLK_S_OK,
            n1,
        ),
        request_done(
            VIRTIO_BLK_T_IN,
            sector,
            seq![back],
            capacity,
            ram2,
            ram3,
            d1,
            d2,
            VIRTIO_BLK_S_OK,
            n2,
        ),
    ensures
        ram3.subrange(back.addr as int, back.addr + back.len) == ram.subrange(
            out.addr as int,
            out.addr + out.len,
        ),
{
    let offset = sector * 512;
    let w = transfers(seq![out], offset, capacity as int, ram.len() as int, false);
    let r = transfers(seq![back], offset, capacity as int, ram2.len() as int, true);
    transfer_step(seq![out], offset, capacity as int, ram.len() as int, false, 0);
    transfer_step(seq![back], offset, capacity as int, ram2.len() as int, true, 0);
    assert(w.len() == 1 && r.len() == 1) by {
        let n = choose|n: int|
            0 <= n <= w.len() && VIRTIO_BLK_S_OK == #[trigger] status_after(n, 1);
        let k = choose|k: int|
            0 <= k <= r.len() && VIRTIO_BLK_S_OK == #[trigger] status_after(k, 1);
        assert(status_after(0, 1) == VIRTIO_BLK_S_IOERR);
    }
    let data = copied_out(ram, out.addr, out.len as int);
    assert(disk_after_writes(ram, d0.contents(), w, 0) == d0.contents());
    assert(d1.contents() == written(d0.contents(), offset, data));
    crate::disk::read_gives_back_write(d0.contents(), offset, data);
    assert(ram_after_reads(ram2, d1.contents(), r, 0) == ram2);
    assert(ram3 == copied_in(ram2, back.addr, data));
    assert(ram3.subrange(back.addr as int, back.addr + back.len) =~= ram.subrange(
        out.addr as int,
        out.addr + out.len,
    ));
}

// ─── Chains by the bytes of memory ───────────────────────────────────────────

/// The descriptor at place `idx` of a table, which is memory: the address of its
/// buffer in eight bytes, then the length in four, the flags in two, and the
/// place of the next descriptor in two.
pub open spec fn is_descriptor(ram: Seq<u8>, table: int, idx: int, d: BlkDesc, next: int) -> bool {
    let at = table + 16 * idx;
    &&& at + 16 <= ram.len()
    &&& d.addr == le_value(ram.subrange(at, at + 8))
    &&& d.len == le_value(ram.subrange(at + 8, at + 12))
    &&& d.flags == le_value(ram.subrange(at + 12, at + 14))
    &&& next == le_value(ram.subrange(at + 14, at + 16))
}

/// A descriptor of the table is what its bytes say.
proof fn descriptor_bytes(ram: Seq<u8>, table: u64, idx: u16, d: BlkDesc, next: int)
    requires
        table + 0x10_0000 <= u64::MAX,
        is_descriptor(ram, table as int, idx as int, d, next),
    ensures
        desc_at(ram, table, idx) == d,
        u16_or(ram, (desc_addr(table, idx) + 14) as u64, 0) == next,
{
    let at = table + 16 * idx;
    little_endian_numbers(ram, at);
    little_endian_numbers(ram, at + 8);
    little_endian_numbers(ram, at + 12);
    little_endian_numbers(ram, at + 14);
}

/// A path through the descriptor table from `fuel` descriptors on.
proof fn paths_are_chains(
    ram: Seq<u8>,
    table: u64,
    path: Seq<u16>,
    descs: Seq<BlkDesc>,
    next: Seq<int>,
    fuel: nat,
)
    requires
        table + 0x10_0000 <= u64::MAX,
        1 <= path.len() == descs.len() == next.len() <= fuel,
        forall|k: int|
            0 <= k < path.len() ==> is_descriptor(
                ram,
                table as int,
                #[trigger] path[k] as int,
                descs[k],
                next[k],
            ),
        forall|k: int| 0 <= k < path.len() - 1 ==> (#[trigger] descs[k]).flags % 2 == 1,
        forall|k: int| 0 <= k < path.len() - 1 ==> #[trigger] next[k] == path[k + 1],
        descs.last().flags % 2 == 0,
    ensures
        chain_from(ram, table, path[0], fuel) == descs,
    decreases path.len(),
{
    descriptor_bytes(ram, table, path[0], descs[0], next[0]);
    if path.len() > 1 {
        assert(descs[0].flags % 2 == 1);
        assert(next[0] == path[1]);
        let p = path.skip(1);
        let d = descs.skip(1);
        let n = next.skip(1);
        assert forall|k: int| 0 <= k < p.len() implies is_descriptor(
            ram,
            table as int,
            #[trigger] p[k] as int,
            d[k],
            n[k],
        ) by {
            assert(p[k] == path[k + 1]);
        }
        assert forall|k: int| 0 <= k < p.len() - 1 implies (#[trigger] d[k]).flags % 2 == 1 by {
            assert(d[k] == descs[k + 1]);
        }
        assert forall|k: int| 0 <= k < p.len() - 1 implies #[trigger] n[k] == p[k + 1] by {
            assert(n[k] == next[k + 1]);
        }
        paths_are_chains(ram, table, p, d, n, (fuel - 1) as nat);
        assert(seq![descs[0]] + d =~= descs);
    } else {
        assert(seq![descs[0]] =~= descs);
    }
}

/// The chain that starts at a place of the table is found by its bytes: each
/// descriptor whose bit 0 of the flags is set is followed by the one at its next
/// place, and the first whose bit is clear ends the chain, for chains of up to
/// 128 descriptors.
pub proof fn chains_follow_the_table(
    ram: Seq<u8>,
    table: u64,
    path: Seq<u16>,
    descs: Seq<BlkDesc>,
    next: Seq<int>,
)
    requires
        table + 0x10_0000 <= u64::MAX,
        1 <= path.len() == descs.len() == next.len() <= 128,
        forall|k: int|
            0 <= k < path.len() ==> is_descriptor(
                ram,
                table as int,
                #[trigger] path[k] as int,
                descs[k],
                next[k],
            ),
        forall|k: int| 0 <= k < path.len() - 1 ==> (#[trigger] descs[k]).flags % 2 == 1,
        forall|k: int| 0 <= k < path.len() - 1 ==> #[trigger] next[k] == path[k + 1],
        descs.last().flags % 2 == 0,
    ensures
        chain(ram, table, path[0]) == descs,
{
    paths_are_chains(ram, table, path, descs, next, BLK_QUEUE_SIZE as nat);
}

// ─── Requests by the bytes of memory and of the disk ─────────────────────────

/// The header of a request, 16 bytes of memory that the device does not write:
/// the type in its first four bytes and the sector in its last eight; and the
/// status buffer, which the device writes.
pub open spec fn is_request(ram: Seq<u8>, descs: Seq<BlkDesc>, request: int, sector: int) -> bool {
    let h = descs[0].addr as int;
    &&& descs.len() >= 2
    &&& descs[0].len >= 16
    &&& descs[0].flags / 2 % 2 == 0
    &&& h + 16 <= ram.len() <= u64::MAX
    &&& request == le_value(ram.subrange(h, h + 4))
    &&& sector == le_value(ram.subrange(h + 8, h + 16))
    &&& descs.last().len >= 1
    &&& descs.last().flags / 2 % 2 == 1
    &&& descs.last().addr < ram.len()
}

/// The bytes of the disk at which the data buffers of a request start, one behind
/// another from its sector of 512 bytes on, and behind them where the last ends.
pub open spec fn are_starts(descs: Seq<BlkDesc>, sector: int, starts: Seq<int>) -> bool {
    &&& starts.len() == descs.len() - 1
    &&& starts[0] == 512 * sector
    &&& forall|k: int|
        0 <= k < starts.len() - 1 ==> #[trigger] starts[k + 1] == starts[k] + descs[k + 1].len
}

/// What a request came to, by the bytes of its header.
proof fn request_outcome<D: DiskOps>(
    descs: Seq<BlkDesc>,
    capacity: u64,
    ram: Seq<u8>,
    ram_after: Seq<u8>,
    disk: D,
    disk_after: D,
    count: u32,
    request: int,
    sector: int,
) -> (r: (Seq<u8>, u32))
    requires
        is_request(ram, descs, request, sector),
        chain_done(descs, capacity, ram, ram_after, disk, disk_after, count),
    ensures
        r.0.len() == ram.len(),
        ram_after.len() == ram.len(),
        request_done(
            request as u32,
            sector as u64,
            descs.subrange(1, descs.len() - 1),
            capacity,
            ram,
            r.0,
            disk,
            disk_after,
            ram_after[descs.last().addr as int],
            r.1,
        ),
        request == request as u32,
        sector == sector as u64,
        forall|a: int|
            0 <= a < ram.len() && a != descs.last().addr ==> #[trigger] ram_after[a] == r.0[a],
        count == (r.1 + 1) % 0x1_0000_0000,
{
    reveal(chain_done);
    let h = descs[0].addr as int;
    little_endian_numbers(ram, h);
    little_endian_numbers(ram, h + 8);
    let data = descs.subrange(1, descs.len() - 1);
    let last = descs[descs.len() - 1];
    let kind = u32_or(ram, descs[0].addr, u32::MAX);
    let start = sector_of(ram, descs[0].addr);
    assert(kind == request);
    assert(start == sector);
    assert(!descs[0].is_writable() && last.is_writable());
    let (m, status, n) = choose|m: Seq<u8>, status: u8, n: u32|
        {
            &&& #[trigger] request_done(
                kind,
                start,
                data,
                capacity,
                ram,
                m,
                disk,
                disk_after,
                status,
                n,
            )
            &&& ram_after == copied_in(m, last.addr, seq![status])
            &&& count == ((n + 1) % 0x1_0000_0000) as u32
        };
    memory_keeps_its_size(
        request as u32,
        sector as u64,
        data,
        capacity,
        ram,
        m,
        disk,
        disk_after,
        status,
        n,
    );
    assert(ram_after[last.addr as int] == status);
    (m, n)
}

/// A request keeps the size of memory.
proof fn memory_keeps_its_size<D: DiskOps>(
    request: u32,
    sector: u64,
    data: Seq<BlkDesc>,
    capacity: u64,
    ram: Seq<u8>,
    m: Seq<u8>,
    disk: D,
    disk_after: D,
    status: u8,
    count: u32,
)
    requires
        request_done(
            request,
            sector,
            data,
            capacity,
            ram,
            m,
            disk,
            disk_after,
            status,
            count,
        ),
    ensures
        m.len() == ram.len(),
{
    ram_after_id_len(ram, data, data.len() as int);
    if request == VIRTIO_BLK_T_IN && sector < capacity {
        let t = transfers(data, sector * 512, capacity as int, ram.len() as int, true);
        let n = choose|n: int|
            {
                &&& 0 <= n <= t.len()
                &&& status == #[trigger] status_after(n, data.len() as int)
                &&& m == ram_after_reads(ram, disk.contents(), t, n)
            };
        ram_after_reads_len(ram, disk.contents(), t, n);
    }
}

/// Where the transfers of a request go: the first `n` data buffers are those of
/// the first `n` transfers, each at its start on the disk; and where all buffers
/// are in order, all are transferred.
proof fn transfers_by_starts(
    descs: Seq<BlkDesc>,
    sector: int,
    starts: Seq<int>,
    capacity: int,
    ram_len: int,
    read: bool,
    n: int,
)
    requires
        descs.len() >= 2,
        are_starts(descs, sector, starts),
        0 <= n <= transfers(
            descs.subrange(1, descs.len() - 1),
            sector * 512,
            capacity,
            ram_len,
            read,
        ).len(),
    ensures
        ({
            let data = descs.subrange(1, descs.len() - 1);
            let t = transfers(data, sector * 512, capacity, ram_len, read);
            &&& t.len() <= data.len()
            &&& offset_after(data, sector * 512, n) == starts[n]
            &&& forall|k: int|
                0 <= k < n ==> #[trigger] t[k] == (Transfer {
                    offset: starts[k],
                    addr: descs[k + 1].addr,
                    len: descs[k + 1].len as int,
                })
            &&& forall|k: int|
                0 <= k < n ==> !transfer_refused(
                    #[trigger] descs[k + 1],
                    starts[k],
                    capacity,
                    ram_len,
                    read,
                )
            &&& n == t.len() && n < data.len() ==> transfer_refused(
                descs[n + 1],
                starts[n],
                capacity,
                ram_len,
                read,
            )
        }),
    decreases n,
{
    let data = descs.subrange(1, descs.len() - 1);
    let t = transfers(data, sector * 512, capacity, ram_len, read);
    transfer_step(data, sector * 512, capacity, ram_len, read, 0);
    if n > 0 {
        transfers_by_starts(descs, sector, starts, capacity, ram_len, read, n - 1);
        transfer_step(data, sector * 512, capacity, ram_len, read, n - 1);
        assert(data[n - 1] == descs[n]);
        assert(starts[n - 1 + 1] == starts[n - 1] + descs[n - 1 + 1].len);
        assert forall|k: int| 0 <= k < n implies #[trigger] t[k] == (Transfer {
            offset: starts[k],
            addr: descs[k + 1].addr,
            len: descs[k + 1].len as int,
        }) by {}
        assert forall|k: int| 0 <= k < n implies !transfer_refused(
            #[trigger] descs[k + 1],
            starts[k],
            capacity,
            ram_len,
            read,
        ) by {
            if k < n - 1 {
                assert(!transfer_refused(descs[k + 1], starts[k], capacity, ram_len, read));
            }
        }
    }
    if n < data.len() {
        transfer_step(data, sector * 512, capacity, ram_len, read, n);
        assert(data[n] == descs[n + 1]);
    }
}

/// The starts grow with the buffers.
proof fn starts_grow(descs: Seq<BlkDesc>, sector: int, starts: Seq<int>, i: int, j: int)
    requires
        are_starts(descs, sector, starts),
        0 <= i <= j < starts.len(),
    ensures
        starts[i] <= starts[j],
        i < j ==> starts[i] + descs[i + 1].len <= starts[j],
    decreases j - i,
{
    if i < j {
        starts_grow(descs, sector, starts, i + 1, j);
        assert(starts[i + 1] == starts[i] + descs[i + 1].len);
    }
}

/// A byte of memory after reads that the transfers from `from` up to `n` do not
/// reach.
proof fn unread_bytes_stay(
    ram: Seq<u8>,
    c: Seq<u8>,
    t: Seq<Transfer>,
    from: int,
    n: int,
    a: int,
)
    requires
        0 <= from <= n <= t.len(),
        0 <= a < ram.len(),
        forall|k: int|
            from <= k < n ==> (#[trigger] t[k]).len >= 0 && t[k].offset >= 0 && t[k].offset
                + t[k].len <= c.len() && !(t[k].addr <= a < t[k].addr + t[k].len),
    ensures
        ram_after_reads(ram, c, t, n)[a] == ram_after_reads(ram, c, t, from)[a],
    decreases n - from,
{
    if from < n {
        unread_bytes_stay(ram, c, t, from, n - 1, a);
        ram_after_reads_len(ram, c, t, n - 1);
        assert(t[n - 1].len >= 0);
    }
}

/// The bytes of the first transfers add up.
proof fn transferred_by_starts(
    descs: Seq<BlkDesc>,
    sector: int,
    starts: Seq<int>,
    t: Seq<Transfer>,
    n: int,
)
    requires
        are_starts(descs, sector, starts),
        0 <= n < starts.len(),
        n <= t.len(),
        forall|k: int| 0 <= k < n ==> (#[trigger] t[k]).len == descs[k + 1].len,
    ensures
        transferred(t, n) == (starts[n] - starts[0]) % 0x1_0000_0000,
    decreases n,
{
    if n > 0 {
        transferred_by_starts(descs, sector, starts, t, n - 1);
        assert(t[n - 1].len == descs[n].len);
        assert(starts[n - 1 + 1] == starts[n - 1] + descs[n - 1 + 1].len);
    }
}

/// What a read request does, by the bytes of its header, of memory and of the
/// disk. Where its status is good, the sector is one of the device, all its data
/// buffers may be written and end on the disk, the count is their bytes and one
/// for the status, and each byte of each buffer is the byte of the disk as far
/// behind the start of the sector as it is behind the start of the buffers,
/// unless a later buffer or the status took its place. A good status is owed
/// where the disk is sound and all the buffers are in order, and any other is an
/// I/O error. The disk keeps its bytes.
pub proof fn read_requests_return_their_sectors<D: DiskOps>(
    descs: Seq<BlkDesc>,
    capacity: u64,
    ram: Seq<u8>,
    ram_after: Seq<u8>,
    disk: D,
    disk_after: D,
    count: u32,
    sector: int,
    starts: Seq<int>,
    k: int,
    i: int,
)
    requires
        is_request(ram, descs, 0, sector),
        starts.len() == descs.len() - 1,
        starts[0] == 512 * sector,
        forall|j: int|
            0 <= j < starts.len() - 1 ==> #[trigger] starts[j + 1] == starts[j] + descs[j + 1].len,
        chain_done(descs, capacity, ram, ram_after, disk, disk_after, count),
    ensures
        disk_after.contents() == disk.contents(),
        ram_after.len() == ram.len(),
        ({
            let status = ram_after[descs.last().addr as int];
            let n = descs.len() - 2;
            let in_order = {
                &&& sector < capacity
                &&& starts[n] <= 512 * capacity
                &&& forall|j: int|
                    1 <= j <= n ==> (#[trigger] descs[j]).flags / 2 % 2 == 1 && (descs[j].len > 0
                        ==> descs[j].addr < ram.len())
            };
            &&& status == 0 || status == 1
            &&& status == 0 ==> {
                &&& in_order
                &&& count == (starts[n] - starts[0] + 1) % 0x1_0000_0000
            }
            &&& in_order && disk.reliable() && 512 * capacity <= disk.contents().len() ==> status
                == 0
            &&& status == 0 && 1 <= k <= n && 0 <= i < descs[k].len && descs[k].addr + i < ram.len()
                && descs[k].addr + i != descs.last().addr && 512 * capacity <= disk.contents().len()
                && (forall|j: int|
                k < j <= n ==> !((#[trigger] descs[j]).addr <= descs[k].addr + i < descs[j].addr
                    + descs[j].len)) ==> ram_after[descs[k].addr + i] == disk.contents()[starts[k
                - 1] + i]
        }),
{
    let (m, got) = request_outcome(
        descs,
        capacity,
        ram,
        ram_after,
        disk,
        disk_after,
        count,
        0,
        sector,
    );
    let status = ram_after[descs.last().addr as int];
    let n = descs.len() - 2;
    let c = disk.contents();
    let data = descs.subrange(1, descs.len() - 1);
    if sector < capacity {
        let t = transfers(data, sector * 512, capacity as int, ram.len() as int, true);
        let r = choose|r: int|
            {
                &&& 0 <= r <= t.len()
                &&& status == #[trigger] status_after(r, data.len() as int)
                &&& got == transferred(t, r)
                &&& m == ram_after_reads(ram, c, t, r)
                &&& disk_after.contents() == c
                &&& sound(disk, capacity) ==> r == t.len()
            };
        transfers_by_starts(
            descs,
            sector,
            starts,
            capacity as int,
            ram.len() as int,
            true,
            t.len() as int,
        );
        transfers_by_starts(descs, sector, starts, capacity as int, ram.len() as int, true, r);
        if status == 0 {
            assert(r == n && t.len() == n);
            assert forall|j: int| 1 <= j <= n implies (#[trigger] descs[j]).flags / 2 % 2 == 1 && (
            descs[j].len > 0 ==> descs[j].addr < ram.len()) by {
                assert(!transfer_refused(
                    descs[j - 1 + 1],
                    starts[j - 1],
                    capacity as int,
                    ram.len() as int,
                    true,
                ));
            }
            if n > 0 {
                assert(!transfer_refused(
                    descs[n - 1 + 1],
                    starts[n - 1],
                    capacity as int,
                    ram.len() as int,
                    true,
                ));
                assert(starts[n - 1 + 1] == starts[n - 1] + descs[n - 1 + 1].len);
            }
            assert forall|j: int| 0 <= j < n implies (#[trigger] t[j]).len == descs[j + 1].len by {}
            transferred_by_starts(descs, sector, starts, t, n);
            starts_grow(descs, sector, starts, 0, n);
            let total = starts[n] - starts[0];
            assert((total % 0x1_0000_0000 + 1) % 0x1_0000_0000 == (total + 1) % 0x1_0000_0000);
            if 1 <= k <= n && 0 <= i < descs[k].len && descs[k].addr + i < ram.len() && descs[k].addr
                + i != descs.last().addr && 512 * capacity <= c.len() && (forall|j: int|
                k < j <= n ==> !((#[trigger] descs[j]).addr <= descs[k].addr + i < descs[j].addr
                    + descs[j].len)) {
                let a = descs[k].addr + i;
                assert forall|j: int| k <= j < n implies (#[trigger] t[j]).len >= 0 && t[j].offset
                    >= 0 && t[j].offset + t[j].len <= c.len() && !(t[j].addr <= a < t[j].addr
                    + t[j].len) by {
                    starts_grow(descs, sector, starts, 0, j);
                    starts_grow(descs, sector, starts, j, n);
                    assert(t[j].addr == descs[j + 1].addr);
                }
                unread_bytes_stay(ram, c, t, k, n, a);
                starts_grow(descs, sector, starts, 0, k - 1);
                starts_grow(descs, sector, starts, k - 1, n);
                assert(t[k - 1].addr == descs[k - 1 + 1].addr);
                ram_after_reads_len(ram, c, t, k - 1);
                assert(ram_after_reads(ram, c, t, k)[a] == c[starts[k - 1] + i]);
                assert(m[a] == c[starts[k - 1] + i]);
            }
        } else if t.len() < n {
            let r2 = t.len() as int;
            assert(transfer_refused(
                descs[r2 + 1],
                starts[r2],
                capacity as int,
                ram.len() as int,
                true,
            ));
            starts_grow(descs, sector, starts, r2, n);
        }
    }
}

/// A byte of a disk that writes do not reach.
proof fn unwritten_bytes_stay(
    ram: Seq<u8>,
    c: Seq<u8>,
    t: Seq<Transfer>,
    from: int,
    n: int,
    a: int,
)
    requires
        0 <= from <= n <= t.len(),
        0 <= a,
        a < disk_after_writes(ram, c, t, from).len(),
        forall|k: int|
            from <= k < n ==> (#[trigger] t[k]).len >= 0 && t[k].offset >= 0 && !(t[k].offset <= a
                < t[k].offset + t[k].len),
    ensures
        a < disk_after_writes(ram, c, t, n).len(),
        disk_after_writes(ram, c, t, n)[a] == disk_after_writes(ram, c, t, from)[a],
    decreases n - from,
{
    if from < n {
        unwritten_bytes_stay(ram, c, t, from, n - 1, a);
        assert(t[n - 1].len >= 0);
    }
}

/// What a write request does, by the bytes of its header, of memory and of the
/// disk. Where its status is good, the sector is one of the device, all its data
/// buffers end on the disk, and each byte of each buffer is the byte of the disk
/// as far behind the start of the sector as it is behind the start of the
/// buffers; the bytes of the disk before and behind them stay as they were. A
/// good status is owed where the disk is sound and all the buffers are in order,
/// and any other is an I/O error. Of memory only the status changes, which is
/// all that is counted.
pub proof fn write_requests_fill_their_sectors<D: DiskOps>(
    descs: Seq<BlkDesc>,
    capacity: u64,
    ram: Seq<u8>,
    ram_after: Seq<u8>,
    disk: D,
    disk_after: D,
    count: u32,
    sector: int,
    starts: Seq<int>,
    k: int,
    i: int,
)
    requires
        is_request(ram, descs, 1, sector),
        starts.len() == descs.len() - 1,
        starts[0] == 512 * sector,
        forall|j: int|
            0 <= j < starts.len() - 1 ==> #[trigger] starts[j + 1] == starts[j] + descs[j + 1].len,
        chain_done(descs, capacity, ram, ram_after, disk, disk_after, count),
    ensures
        ram_after.len() == ram.len(),
        forall|a: int|
            0 <= a < ram.len() && a != descs.last().addr ==> #[trigger] ram_after[a] == ram[a],
        count == 1,
        ({
            let status = ram_after[descs.last().addr as int];
            let n = descs.len() - 2;
            let c = disk.contents();
            let d = disk_after.contents();
            let in_order = {
                &&& sector < capacity
                &&& starts[n] <= 512 * capacity
                &&& forall|j: int|
                    1 <= j <= n ==> ((#[trigger] descs[j]).len > 0 ==> descs[j].addr < ram.len())
            };
            &&& status == 0 || status == 1
            &&& status == 0 ==> in_order
            &&& in_order && disk.reliable() && 512 * capacity <= c.len() ==> status == 0
            &&& sector >= capacity ==> d == c
            &&& status == 0 && 1 <= k <= n && 0 <= i < descs[k].len && descs[k].addr + i
                < ram.len() ==> starts[k - 1] + i < d.len() && d[starts[k - 1] + i]
                == ram[descs[k].addr + i]
            &&& status == 0 && 0 <= i < c.len() && (i < starts[0] || starts[n] <= i) ==> i < d.len()
                && d[i] == c[i]
        }),
{
    let (m, got) = request_outcome(
        descs,
        capacity,
        ram,
        ram_after,
        disk,
        disk_after,
        count,
        1,
        sector,
    );
    let status = ram_after[descs.last().addr as int];
    let n = descs.len() - 2;
    let c = disk.contents();
    let data = descs.subrange(1, descs.len() - 1);
    if sector < capacity {
        let t = transfers(data, sector * 512, capacity as int, ram.len() as int, false);
        let r = choose|r: int|
            {
                &&& 0 <= r <= t.len()
                &&& status == #[trigger] status_after(r, data.len() as int)
                &&& m == ram
                &&& status == VIRTIO_BLK_S_OK || sound(disk, capacity) ==> disk_after.contents()
                    == disk_after_writes(ram, c, t, r)
                &&& sound(disk, capacity) ==> r == t.len()
            };
        transfers_by_starts(
            descs,
            sector,
            starts,
            capacity as int,
            ram.len() as int,
            false,
            t.len() as int,
        );
        if status == 0 {
            assert(r == n && t.len() == n);
            assert forall|j: int| 1 <= j <= n && (#[trigger] descs[j]).len > 0 implies descs[j].addr
                < ram.len() by {
                assert(!transfer_refused(
                    descs[j - 1 + 1],
                    starts[j - 1],
                    capacity as int,
                    ram.len() as int,
                    false,
                ));
            }
            if n > 0 {
                assert(!transfer_refused(
                    descs[n - 1 + 1],
                    starts[n - 1],
                    capacity as int,
                    ram.len() as int,
                    false,
                ));
                assert(starts[n - 1 + 1] == starts[n - 1] + descs[n - 1 + 1].len);
            }
            if 1 <= k <= n && 0 <= i < descs[k].len && descs[k].addr + i < ram.len() {
                let a = starts[k - 1] + i;
                starts_grow(descs, sector, starts, 0, k - 1);
                assert(t[k - 1].addr == descs[k - 1 + 1].addr);
                assert(disk_after_writes(ram, c, t, k)[a] == ram[descs[k].addr + i]);
                assert forall|j: int| k <= j < n implies (#[trigger] t[j]).len >= 0 && t[j].offset
                    >= 0 && !(t[j].offset <= a < t[j].offset + t[j].len) by {
                    starts_grow(descs, sector, starts, k - 1, j);
                    assert(t[j].offset == starts[j]);
                }
                unwritten_bytes_stay(ram, c, t, k, n, a);
            }
            if 0 <= i < c.len() && (i < starts[0] || starts[n] <= i) {
                assert forall|j: int| 0 <= j < n implies (#[trigger] t[j]).len >= 0 && t[j].offset
                    >= 0 && !(t[j].offset <= i < t[j].offset + t[j].len) by {
                    starts_grow(descs, sector, starts, 0, j);
                    starts_grow(descs, sector, starts, j, n);
                    assert(t[j].offset == starts[j]);
                }
                unwritten_bytes_stay(ram, c, t, 0, n, i);
            }
        } else if t.len() < n {
            let r2 = t.len() as int;
            assert(transfer_refused(
                descs[r2 + 1],
                starts[r2],
                capacity as int,
                ram.len() as int,
                false,
            ));
            starts_grow(descs, sector, starts, r2, n);
        }
    }
}

/// What the other requests do, by the type in their header. A flush (4) has the
/// bytes of the disk reach the medium where its status is good, which a reliable
/// disk owes, and is an I/O error otherwise; an identification (8) leaves the
/// disk alone and is good; any other type is unsupported. Each keeps the bytes of
/// the disk, and a flush and an unsupported request change nothing of memory but
/// the status, which is all that they count.
pub proof fn other_requests_keep_the_disk<D: DiskOps>(
    descs: Seq<BlkDesc>,
    capacity: u64,
    ram: Seq<u8>,
    ram_after: Seq<u8>,
    disk: D,
    disk_after: D,
    count: u32,
    request: int,
    sector: int,
)
    requires
        is_request(ram, descs, request, sector),
        request > 1,
        chain_done(descs, capacity, ram, ram_after, disk, disk_after, count),
    ensures
        disk_after.contents() == disk.contents(),
        ram_after.len() == ram.len(),
        ({
            let status = ram_after[descs.last().addr as int];
            &&& request == 4 ==> {
                &&& status == 0 || status == 1
                &&& status == 0 ==> disk_after.stored() == disk.contents()
                &&& disk.reliable() ==> status == 0
            }
            &&& request == 8 ==> status == 0 && disk_after == disk
            &&& request != 4 && request != 8 ==> status == 2 && disk_after == disk
        }),
        request != 8 ==> count == 1 && forall|a: int|
            0 <= a < ram.len() && a != descs.last().addr ==> #[trigger] ram_after[a] == ram[a],
{
    let r = request_outcome(
        descs,
        capacity,
        ram,
        ram_after,
        disk,
        disk_after,
        count,
        request,
        sector,
    );
}

/// An identification request with one data buffer, which the device may write and
/// which is memory, puts the 14 characters virtio-blk-whp and six zeros at its start,
/// as far as it is long enough for them, and counts them and the status.
pub proof fn identification_is_returned<D: DiskOps>(
    descs: Seq<BlkDesc>,
    capacity: u64,
    ram: Seq<u8>,
    ram_after: Seq<u8>,
    disk: D,
    disk_after: D,
    count: u32,
    sector: int,
    n: int,
)
    requires
        is_request(ram, descs, 8, sector),
        descs.len() == 3,
        descs[1].flags / 2 % 2 == 1,
        n == if descs[1].len < 20 {
            descs[1].len as int
        } else {
            20
        },
        descs[1].addr + n <= ram.len(),
        !(descs[1].addr <= descs[2].addr < descs[1].addr + n),
        chain_done(descs, capacity, ram, ram_after, disk, disk_after, count),
    ensures
        count == n + 1,
        ram_after.subrange(descs[1].addr as int, descs[1].addr + n) == seq![
            0x76u8, 0x69, 0x72, 0x74, 0x69, 0x6F, 0x2D, 0x62, 0x6C, 0x6B, 0x2D, 0x77, 0x68, 0x70,
            0, 0, 0, 0, 0, 0,
        ].take(n),
        forall|a: int|
            0 <= a < ram.len() && a != descs[2].addr && !(descs[1].addr <= a < descs[1].addr + n)
                ==> #[trigger] ram_after[a] == ram[a],
{
    let (m, got) = request_outcome(
        descs,
        capacity,
        ram,
        ram_after,
        disk,
        disk_after,
        count,
        8,
        sector,
    );
    let data = descs.subrange(1, 2);
    assert(data[0] == descs[1]);
    assert(data.len() == 1);
    assert(ram_after_id(ram, data, 0) == ram);
    assert(id_len(data, 0) == 0);
    assert(prefix(device_id(), descs[1].len as int) =~= device_id().take(n));
    assert(m == copied_in(ram, descs[1].addr, device_id().take(n)));
    assert(ram_after.subrange(descs[1].addr as int, descs[1].addr + n) =~= device_id().take(n));
}

/// Where several buffers take the identification, each that the device may write does,
/// and they do not end at the first.
pub proof fn identification_counts_each_buffer(data: Seq<BlkDesc>, n: int)
    requires
        0 <= n < data.len(),
    ensures
        id_len(data, 0) == 0,
        id_len(data, n + 1) == id_len(data, n) + if data[n].flags / 2 % 2 == 0 {
            0int
        } else if data[n].len < 20 {
            data[n].len as int
        } else {
            20
        },
{
}

/// A chain whose header is shorter than 16 bytes, or may be written by the
/// device, is answered with an I/O error in the first byte of its last buffer;
/// one that is no request at all, of a single descriptor or without a status
/// buffer for the device to write, changes nothing and counts nothing. Neither
/// reaches the disk.
pub proof fn malformed_chains_do_nothing<D: DiskOps>(
    descs: Seq<BlkDesc>,
    capacity: u64,
    ram: Seq<u8>,
    ram_after: Seq<u8>,
    disk: D,
    disk_after: D,
    count: u32,
)
    requires
        chain_done(descs, capacity, ram, ram_after, disk, disk_after, count),
        descs.len() >= 1,
    ensures
        descs.len() == 1 ==> count == 0 && ram_after == ram && disk_after == disk,
        descs.len() >= 2 && (descs[0].len < 16 || descs[0].flags / 2 % 2 == 1) ==> {
            &&& count == 1
            &&& disk_after == disk
            &&& ram_after.len() == ram.len()
            &&& descs.last().addr < ram.len() ==> ram_after[descs.last().addr as int] == 1
            &&& forall|a: int|
                0 <= a < ram.len() && a != descs.last().addr ==> #[trigger] ram_after[a] == ram[a]
        },
        descs.len() >= 2 && descs[0].len >= 16 && descs[0].flags / 2 % 2 == 0 && (
        descs.last().len == 0 || descs.last().flags / 2 % 2 == 0) ==> count == 0 && ram_after == ram
            && disk_after == disk,
{
    reveal(chain_done);
}

// ─── The rings by the bytes of memory ────────────────────────────────────────

/// Memory keeps what identifications do not reach.
proof fn unidentified_bytes_stay(ram: Seq<u8>, data: Seq<BlkDesc>, n: int, a: int)
    requires
        0 <= n <= data.len(),
        0 <= a < ram.len(),
        forall|k: int|
            0 <= k < n && (#[trigger] data[k]).flags / 2 % 2 == 1 ==> !(data[k].addr <= a
                < data[k].addr + data[k].len),
    ensures
        ram_after_id(ram, data, n)[a] == ram[a],
    decreases n,
{
    if n > 0 {
        unidentified_bytes_stay(ram, data, n - 1, a);
        ram_after_id_len(ram, data, n - 1);
        assert(data[n - 1].is_writable() == (data[n - 1].flags / 2 % 2 == 1));
    }
}

/// Memory keeps what reads do not reach.
proof fn unreached_bytes_stay(
    ram: Seq<u8>,
    c: Seq<u8>,
    data: Seq<BlkDesc>,
    offset: int,
    capacity: int,
    n: int,
    a: int,
)
    requires
        0 <= offset,
        0 <= n <= transfers(data, offset, capacity, ram.len() as int, true).len(),
        capacity * 512 <= c.len(),
        0 <= a < ram.len(),
        forall|k: int|
            0 <= k < data.len() && (#[trigger] data[k]).flags / 2 % 2 == 1 ==> !(data[k].addr <= a
                < data[k].addr + data[k].len),
    ensures
        ram_after_reads(ram, c, transfers(data, offset, capacity, ram.len() as int, true), n)[a]
            == ram[a],
    decreases n,
{
    let t = transfers(data, offset, capacity, ram.len() as int, true);
    if n > 0 {
        unreached_bytes_stay(ram, c, data, offset, capacity, n - 1, a);
        transfer_step(data, offset, capacity, ram.len() as int, true, 0);
        transfer_step(data, offset, capacity, ram.len() as int, true, n - 1);
        transfers_stay_on_the_disk(data, offset, capacity, ram.len() as int, true, n - 1);
        ram_after_reads_len(ram, c, t, n - 1);
        assert(data[n - 1].is_writable());
        assert(data[n - 1].flags / 2 % 2 == 1);
        assert(t[n - 1].addr == data[n - 1].addr);
    }
}

/// A request changes no byte of memory outside the buffers that its chain lets
/// the device write and the first byte of its last buffer, on a disk that has
/// all the sectors of the device.
pub proof fn requests_write_only_their_buffers<D: DiskOps>(
    descs: Seq<BlkDesc>,
    capacity: u64,
    ram: Seq<u8>,
    ram_after: Seq<u8>,
    disk: D,
    disk_after: D,
    count: u32,
    a: int,
)
    requires
        chain_done(descs, capacity, ram, ram_after, disk, disk_after, count),
        descs.len() >= 1,
        512 * capacity <= disk.contents().len(),
        0 <= a < ram.len(),
        a != descs.last().addr,
        forall|k: int|
            0 <= k < descs.len() && (#[trigger] descs[k]).flags / 2 % 2 == 1 ==> !(descs[k].addr
                <= a < descs[k].addr + descs[k].len),
    ensures
        ram_after.len() == ram.len(),
        ram_after[a] == ram[a],
{
    reveal(chain_done);
    let last = descs[descs.len() - 1];
    if descs.len() >= 2 && !(descs[0].len < 16 || descs[0].is_writable()) && !(last.len < 1
        || !last.is_writable()) {
        let kind = u32_or(ram, descs[0].addr, u32::MAX);
        let sector = sector_of(ram, descs[0].addr);
        let data = descs.subrange(1, descs.len() - 1);
        let (m, status, got) = choose|m: Seq<u8>, status: u8, n: u32|
            {
                &&& #[trigger] request_done(
                    kind,
                    sector,
                    data,
                    capacity,
                    ram,
                    m,
                    disk,
                    disk_after,
                    status,
                    n,
                )
                &&& ram_after == copied_in(m, last.addr, seq![status])
                &&& count == ((n + 1) % 0x1_0000_0000) as u32
            };
        memory_keeps_its_size(
            kind,
            sector,
            data,
            capacity,
            ram,
            m,
            disk,
            disk_after,
            status,
            got,
        );
        assert forall|k: int|
            0 <= k < data.len() && (#[trigger] data[k]).flags / 2 % 2 == 1 implies !(data[k].addr
            <= a < data[k].addr + data[k].len) by {
            assert(data[k] == descs[k + 1]);
        }
        if kind == VIRTIO_BLK_T_IN && sector < capacity {
            let c = disk.contents();
            let t = transfers(data, sector * 512, capacity as int, ram.len() as int, true);
            let n = choose|n: int|
                {
                    &&& 0 <= n <= t.len()
                    &&& status == #[trigger] status_after(n, data.len() as int)
                    &&& m == ram_after_reads(ram, c, t, n)
                };
            unreached_bytes_stay(ram, c, data, sector * 512, capacity as int, n, a);
        }
        unidentified_bytes_stay(ram, data, data.len() as int, a);
    }
}

/// The used ring of a queue after a chain was put on it, wherever the queue lies
/// in memory: the ring starts 4096 bytes behind the queue, with two bytes of
/// flags, the used index in two bytes, and 128 elements of eight bytes. The
/// element at the index holds the head of the chain in its first four bytes and
/// the count in the others, the index is one more, and all other memory is as it
/// was.
pub proof fn used_elements_hold_their_chain(ram: Seq<u8>, queue: u64, id: u16, count: u32)
    requires
        queue <= 0x1000_0000_0000,
        queue + 5124 <= ram.len(),
    ensures
        ({
            let m = with_used(ram, queue, id, count);
            let index = le_value(ram.subrange(queue + 4098, queue + 4100));
            let elem = queue + 4100 + 8 * (index % 128);
            &&& m.len() == ram.len()
            &&& le_value(m.subrange(elem, elem + 4)) == id
            &&& le_value(m.subrange(elem + 4, elem + 8)) == count
            &&& le_value(m.subrange(queue + 4098, queue + 4100)) == (index + 1) % 0x1_0000
            &&& forall|a: int|
                0 <= a < ram.len() && !(elem <= a < elem + 8) && !(queue + 4098 <= a < queue + 4100)
                    ==> #[trigger] m[a] == ram[a]
        }),
{
    let m = with_used(ram, queue, id, count);
    little_endian_numbers(ram, queue + 4098);
    let index = le_value(ram.subrange(queue + 4098, queue + 4100));
    let elem = queue + 4100 + 8 * (index % 128);
    let next = ((index + 1) % 0x1_0000) as u16;
    assert(u16_or(ram, (used_ring(queue) + 2) as u64, 0) == index);
    crate::bytes::bytes_stand_for_their_number(next, id as u32, 0);
    crate::bytes::bytes_stand_for_their_number(next, count, 0);
    assert(m.subrange(elem, elem + 4) =~= le32(id as u32));
    assert(m.subrange(elem + 4, elem + 8) =~= le32(count));
    assert(m.subrange(queue + 4098, queue + 4100) =~= le16(next));
}

/// The head of the chain at an index of the available ring, which lies behind
/// the 128 descriptors of 16 bytes of the queue and has its entries of two bytes
/// behind its flags and its index.
pub open spec fn head_at(ram: Seq<u8>, queue: int, index: int) -> nat {
    let at = queue + 2052 + 2 * (index % 128);
    le_value(ram.subrange(at, at + 2))
}

/// What one request does to the rings: the chain whose head stands at the index of
/// the available ring is carried out, and then the element of the used ring at the
/// used index holds that head and the count of the chain, and the used index is
/// one more; all other memory is as the chain left it.
pub proof fn completed_chains_are_returned<D: DiskOps>(
    queue: u64,
    index: u16,
    capacity: u64,
    ram: Seq<u8>,
    ram_after: Seq<u8>,
    disk: D,
    disk_after: D,
) -> (r: (Seq<u8>, u32))
    requires
        queue <= 0x1000_0000_0000,
        queue + 5124 <= ram.len(),
        slot_done(queue, index, capacity, ram, ram_after, disk, disk_after),
    ensures
        ({
            let (m, count) = r;
            let at = queue + 2052 + 2 * (index % 128);
            let head = le_value(ram.subrange(at, at + 2));
            let used = le_value(m.subrange(queue + 4098, queue + 4100));
            let elem = queue + 4100 + 8 * (used % 128);
            &&& chain_done(
                chain(ram, queue, head as u16),
                capacity,
                ram,
                m,
                disk,
                disk_after,
                count,
            )
            &&& head <= 0xFFFF
            &&& m.len() == ram.len()
            &&& ram_after.len() == ram.len()
            &&& le_value(ram_after.subrange(elem, elem + 4)) == head
            &&& le_value(ram_after.subrange(elem + 4, elem + 8)) == count
            &&& le_value(ram_after.subrange(queue + 4098, queue + 4100)) == (used + 1) % 0x1_0000
            &&& forall|a: int|
                0 <= a < ram.len() && !(elem <= a < elem + 8) && !(queue + 4098 <= a < queue + 4100)
                    ==> #[trigger] ram_after[a] == m[a]
        }),
{
    reveal(slot_done);
    let at = queue + 2052 + 2 * (index % 128);
    little_endian_numbers(ram, at);
    let id = avail_chain(ram, queue, index);
    assert(id == head_at(ram, queue as int, index as int));
    let (m, count) = choose|m: Seq<u8>, count: u32|
        {
            &&& #[trigger] chain_done(
                chain(ram, queue, id),
                capacity,
                ram,
                m,
                disk,
                disk_after,
                count,
            )
            &&& ram_after == with_used(m, queue, id, count)
        };
    chains_keep_the_size_of_memory(
        chain(ram, queue, id),
        capacity,
        ram,
        m,
        disk,
        disk_after,
        count,
    );
    used_elements_hold_their_chain(m, queue, id, count);
    (m, count)
}

/// A chain keeps the size of memory.
proof fn chains_keep_the_size_of_memory<D: DiskOps>(
    descs: Seq<BlkDesc>,
    capacity: u64,
    ram: Seq<u8>,
    m: Seq<u8>,
    disk: D,
    disk_after: D,
    count: u32,
)
    requires
        chain_done(descs, capacity, ram, m, disk, disk_after, count),
    ensures
        m.len() == ram.len(),
{
    reveal(chain_done);
    let last = descs[descs.len() - 1];
    if descs.len() >= 2 && !(descs[0].len < 16 || descs[0].is_writable()) && !(last.len < 1
        || !last.is_writable()) {
        let kind = u32_or(ram, descs[0].addr, u32::MAX);
        let sector = sector_of(ram, descs[0].addr);
        let data = descs.subrange(1, descs.len() - 1);
        let (x, status, got) = choose|x: Seq<u8>, status: u8, n: u32|
            {
                &&& #[trigger] request_done(
                    kind,
                    sector,
                    data,
                    capacity,
                    ram,
                    x,
                    disk,
                    disk_after,
                    status,
                    n,
                )
                &&& m == copied_in(x, last.addr, seq![status])
                &&& count == ((n + 1) % 0x1_0000_0000) as u32
            };
        memory_keeps_its_size(
            kind,
            sector,
            data,
            capacity,
            ram,
            x,
            disk,
            disk_after,
            status,
            got,
        );
    }
}

/// Requests take memory and the disk through the states, one after another, from
/// index `first` of the available ring on.
pub open spec fn is_queue_run<D: DiskOps>(
    queue: u64,
    first: u16,
    capacity: u64,
    rams: Seq<Seq<u8>>,
    disks: Seq<D>,
) -> bool {
    &&& rams.len() == disks.len()
    &&& rams.len() > 0
    &&& forall|k: int|
        0 <= k < rams.len() - 1 ==> slot_done(
            queue,
            ((first + k) % 0x1_0000) as u16,
            capacity,
            #[trigger] rams[k],
            rams[k + 1],
            disks[k],
            disks[k + 1],
        )
}

/// The pending requests of a queue are carried out one after another, each from
/// the state that the one before it left.
pub proof fn pending_requests_are_a_run<D: DiskOps>(
    queue: u64,
    first: u16,
    n: nat,
    capacity: u64,
    ram: Seq<u8>,
    ram_after: Seq<u8>,
    disk: D,
    disk_after: D,
) -> (r: (Seq<Seq<u8>>, Seq<D>))
    requires
        slots_done(queue, first, n, capacity, ram, ram_after, disk, disk_after),
    ensures
        is_queue_run(queue, first, capacity, r.0, r.1),
        r.0.len() == n + 1,
        r.0[0] == ram,
        r.0.last() == ram_after,
        r.1[0] == disk,
        r.1.last() == disk_after,
    decreases n,
{
    if n == 0 {
        (seq![ram], seq![disk])
    } else {
        let (m, d) = choose|m: Seq<u8>, d: D|
            {
                &&& slots_done(queue, first, (n - 1) as nat, capacity, ram, m, disk, d)
                &&& #[trigger] slot_done(
                    queue,
                    index_after(first, n - 1),
                    capacity,
                    m,
                    ram_after,
                    d,
                    disk_after,
                )
            };
        let (rams, disks) = pending_requests_are_a_run(
            queue,
            first,
            (n - 1) as nat,
            capacity,
            ram,
            m,
            disk,
            d,
        );
        let rams2 = rams.push(ram_after);
        let disks2 = disks.push(disk_after);
        assert forall|k: int| 0 <= k < rams2.len() - 1 implies slot_done(
            queue,
            ((first + k) % 0x1_0000) as u16,
            capacity,
            #[trigger] rams2[k],
            rams2[k + 1],
            disks2[k],
            disks2[k + 1],
        ) by {
            if k < n - 1 {
                assert(rams2[k] == rams[k] && rams2[k + 1] == rams[k + 1]);
                assert(disks2[k] == disks[k] && disks2[k + 1] == disks[k + 1]);
            }
        }
        (rams2, disks2)
    }
}

/// The buffers of a chain lie outside the queue.
pub open spec fn spares_the_queue(descs: Seq<BlkDesc>, queue: u64) -> bool {
    forall|k: int|
        0 <= k < descs.len() ==> {
            ||| (#[trigger] descs[k]).addr < queue && descs[k].addr + descs[k].len <= queue
            ||| queue + 5124 <= descs[k].addr
        }
}

/// A chain has a descriptor.
proof fn chains_are_not_empty(ram: Seq<u8>, table: u64, first: u16)
    ensures
        chain(ram, table, first).len() >= 1,
{
    assert(BLK_QUEUE_SIZE as nat == 128);
}

/// One request of a chain that lies outside the queue.
proof fn one_request_moves_the_used_ring<D: DiskOps>(
    queue: u64,
    index: u16,
    capacity: u64,
    ram: Seq<u8>,
    ram_after: Seq<u8>,
    disk: D,
    disk_after: D,
)
    requires
        queue <= 0x1000_0000_0000,
        queue + 5124 <= ram.len(),
        512 * capacity <= disk.contents().len(),
        slot_done(queue, index, capacity, ram, ram_after, disk, disk_after),
        spares_the_queue(
            chain(ram, queue, head_at(ram, queue as int, index as int) as u16),
            queue,
        ),
    ensures
        ({
            let used = le_value(ram.subrange(queue + 4098, queue + 4100));
            let elem = queue + 4100 + 8 * (used % 128);
            &&& ram_after.len() == ram.len()
            &&& le_value(ram_after.subrange(elem, elem + 4)) == head_at(
                ram,
                queue as int,
                index as int,
            )
            &&& le_value(ram_after.subrange(queue + 4098, queue + 4100)) == (used + 1) % 0x1_0000
            &&& forall|a: int|
                queue <= a < queue + 5124 && !(elem <= a < elem + 8) && !(queue + 4098 <= a < queue
                    + 4100) ==> #[trigger] ram_after[a] == ram[a]
        }),
{
    let (m, count) = completed_chains_are_returned(
        queue,
        index,
        capacity,
        ram,
        ram_after,
        disk,
        disk_after,
    );
    let descs = chain(ram, queue, head_at(ram, queue as int, index as int) as u16);
    chains_are_not_empty(ram, queue, head_at(ram, queue as int, index as int) as u16);
    assert forall|a: int| queue <= a < queue + 5124 implies #[trigger] m[a] == ram[a] by {
        assert(descs[descs.len() - 1].addr != a);
        requests_write_only_their_buffers(
            descs,
            capacity,
            ram,
            m,
            disk,
            disk_after,
            count,
            a,
        );
    }
    assert(m.subrange(queue + 4098, queue + 4100) =~= ram.subrange(queue + 4098, queue + 4100));
}

/// Places on the used ring, as a `u16` counts.
proof fn ring_places(used: int, n: int, k: int)
    requires
        0 <= used,
        0 < n <= 128,
    ensures
        ((used + n - 1) % 0x1_0000) % 128 == (used + (n - 1)) % 128,
        ((used + n - 1) % 0x1_0000 + 1) % 0x1_0000 == (used + n) % 0x1_0000,
        0 <= k < n - 1 ==> (used + k) % 128 != (used + (n - 1)) % 128,
{
    let x = used + (n - 1);
    let q = x / 0x1_0000;
    let r = x % 0x1_0000;
    vstd::arithmetic::div_mod::lemma_fundamental_div_mod_converse(
        x,
        128,
        512 * q + r / 128,
        r % 128,
    );
    if r + 1 < 0x1_0000 {
        vstd::arithmetic::div_mod::lemma_fundamental_div_mod_converse(x + 1, 0x1_0000, q, r + 1);
    } else {
        vstd::arithmetic::div_mod::lemma_fundamental_div_mod_converse(x + 1, 0x1_0000, q + 1, 0);
    }
    if 0 <= k < n - 1 {
        vstd::arithmetic::div_mod::lemma_fundamental_div_mod(used + k, 128);
        vstd::arithmetic::div_mod::lemma_fundamental_div_mod(x, 128);
    }
}

/// The used ring of memory `m`, after `n` requests from `ram` on: the used index
/// has moved on by `n`, the `k`-th element behind it as it was holds the `k`-th
/// head, and what lies before the used index is as it was.
pub open spec fn has_used_heads(
    ram: Seq<u8>,
    m: Seq<u8>,
    queue: int,
    first: int,
    n: int,
    k: int,
) -> bool {
    let used = le_value(ram.subrange(queue + 4098, queue + 4100));
    let elem = queue + 4100 + 8 * ((used + k) % 128);
    &&& m.len() == ram.len()
    &&& le_value(m.subrange(queue + 4098, queue + 4100)) == (used + n) % 0x1_0000
    &&& 0 <= k < n ==> le_value(m.subrange(elem, elem + 4)) == head_at(
        ram,
        queue,
        (first + k) % 0x1_0000,
    )
    &&& forall|a: int| queue <= a < queue + 4098 ==> #[trigger] m[a] == ram[a]
}

/// One request more on the used ring.
proof fn used_ring_step(
    ram: Seq<u8>,
    m: Seq<u8>,
    after: Seq<u8>,
    queue: int,
    first: int,
    n: int,
    k: int,
)
    requires
        0 <= queue,
        0 <= first,
        queue + 5124 <= ram.len(),
        0 < n <= 128,
        has_used_heads(ram, m, queue, first, n - 1, k),
        ({
            let used = le_value(m.subrange(queue + 4098, queue + 4100));
            let elem = queue + 4100 + 8 * (used % 128);
            &&& after.len() == m.len()
            &&& le_value(after.subrange(elem, elem + 4)) == head_at(
                m,
                queue,
                (first + (n - 1)) % 0x1_0000,
            )
            &&& le_value(after.subrange(queue + 4098, queue + 4100)) == (used + 1) % 0x1_0000
            &&& forall|a: int|
                queue <= a < queue + 5124 && !(elem <= a < elem + 8) && !(queue + 4098 <= a < queue
                    + 4100) ==> #[trigger] after[a] == m[a]
        }),
    ensures
        has_used_heads(ram, after, queue, first, n, k),
{
    let used = le_value(ram.subrange(queue + 4098, queue + 4100)) as int;
    ring_places(used, n, k);
    let index = (first + (n - 1)) % 0x1_0000;
    let at = queue + 2052 + 2 * (index % 128);
    assert(m.subrange(at, at + 2) =~= ram.subrange(at, at + 2));
    if 0 <= k < n - 1 {
        let elem = queue + 4100 + 8 * ((used + k) % 128);
        let here = queue + 4100 + 8 * ((used + (n - 1)) % 128);
        assert(elem + 8 <= here || here + 8 <= elem);
        assert(after.subrange(elem, elem + 4) =~= m.subrange(elem, elem + 4));
    }
}

/// The used ring after the first `n` requests of a run.
proof fn used_ring_after<D: DiskOps>(
    queue: u64,
    first: u16,
    capacity: u64,
    rams: Seq<Seq<u8>>,
    disks: Seq<D>,
    n: int,
    k: int,
)
    requires
        is_queue_run(queue, first, capacity, rams, disks),
        queue <= 0x1000_0000_0000,
        queue + 5124 <= rams[0].len(),
        0 <= n <= rams.len() - 1,
        n <= 128,
        forall|j: int|
            0 <= j < disks.len() ==> 512 * capacity <= (#[trigger] disks[j]).contents().len(),
        forall|j: int|
            0 <= j < rams.len() - 1 ==> spares_the_queue(
                chain(
                    #[trigger] rams[j],
                    queue,
                    head_at(rams[j], queue as int, (first + j) % 0x1_0000) as u16,
                ),
                queue,
            ),
    ensures
        has_used_heads(rams[0], rams[n], queue as int, first as int, n, k),
    decreases n,
{
    if n > 0 {
        used_ring_after(queue, first, capacity, rams, disks, n - 1, k);
        let m = rams[n - 1];
        let index = ((first + (n - 1)) % 0x1_0000) as u16;
        assert(512 * capacity <= disks[n - 1].contents().len());
        assert(slot_done(queue, index, capacity, m, rams[n - 1 + 1], disks[n - 1], disks[n - 1 + 1]));
        one_request_moves_the_used_ring(
            queue,
            index,
            capacity,
            m,
            rams[n],
            disks[n - 1],
            disks[n],
        );
        used_ring_step(rams[0], m, rams[n], queue as int, first as int, n, k);
    } else {
        little_endian_numbers(rams[0], queue + 4098);
    }
}

/// The heads on the used ring are those of the available ring, in order: after up
/// to 128 requests whose buffers lie outside the queue, on a disk that has all the
/// sectors of the device, the `k`-th element behind the used index as it was holds
/// the head that stood at the `k`-th index of the available ring, and the used
/// index has moved on by the number of requests. The descriptors and the available
/// ring are as they were.
pub proof fn used_heads_are_the_available_heads<D: DiskOps>(
    queue: u64,
    first: u16,
    capacity: u64,
    rams: Seq<Seq<u8>>,
    disks: Seq<D>,
    k: int,
)
    requires
        is_queue_run(queue, first, capacity, rams, disks),
        queue <= 0x1000_0000_0000,
        queue + 5124 <= rams[0].len(),
        rams.len() - 1 <= 128,
        forall|j: int|
            0 <= j < disks.len() ==> 512 * capacity <= (#[trigger] disks[j]).contents().len(),
        forall|j: int|
            0 <= j < rams.len() - 1 ==> spares_the_queue(
                chain(
                    #[trigger] rams[j],
                    queue,
                    head_at(rams[j], queue as int, (first + j) % 0x1_0000) as u16,
                ),
                queue,
            ),
    ensures
        has_used_heads(
            rams[0],
            rams.last(),
            queue as int,
            first as int,
            rams.len() - 1,
            k,
        ),
{
    used_ring_after(queue, first, capacity, rams, disks, rams.len() - 1, k);
}

/// Where the parts of a queue lie, and which requests are pending: the queue is
/// on the page that the driver named, the available ring behind 128 descriptors
/// of 16 bytes, and the used ring on the next page. As many requests are pending
/// as the available index is ahead, as a `u16` counts.
pub proof fn queues_are_laid_out(dev: PciBlkDevice, from: u16, to: u16)
    ensures
        dev.queue_addr() == 4096 * dev.queue_pfn,
        avail_ring(dev.queue_addr()) == 4096 * dev.queue_pfn + 2048,
        used_ring(dev.queue_addr()) == 4096 * dev.queue_pfn + 4096,
        pending(from, to) < 0x1_0000,
        (from + pending(from, to)) % 0x1_0000 == to,
        pending(from, to) == 0 <==> from == to,
{
}

/// What is left of a device after its pending requests: it has seen the available
/// index, bit 0 of its interrupt status is set where there was a request, and
/// nothing else of it changed.
pub proof fn served_devices_have_seen_the_index(dev: PciBlkDevice, avail: u16, n: nat)
    ensures
        ({
            let after = dev.after_requests(avail, n);
            &&& after.last_avail_idx == avail
            &&& n > 0 ==> after.isr_status % 2 == 1
            &&& n == 0 ==> after.isr_status == dev.isr_status
            &&& after.isr_status / 2 == dev.isr_status / 2
            &&& after == (PciBlkDevice {
                last_avail_idx: after.last_avail_idx,
                isr_status: after.isr_status,
                ..dev
            })
        }),
{
}

/// A chain has at least one descriptor and at most 128, so that one that leads back to
/// itself ends: each but its last goes on, and its last does not, unless it is the
/// 128th.
pub proof fn chains_end(ram: Seq<u8>, table: u64, first: u16, k: int)
    requires
        0 <= k < chain(ram, table, first).len(),
    ensures
        1 <= chain(ram, table, first).len() <= 128,
        k < chain(ram, table, first).len() - 1 ==> chain(ram, table, first)[k].flags % 2 == 1,
        chain(ram, table, first).last().flags % 2 == 0 || chain(ram, table, first).len() == 128,
{
    chain_ends_within(ram, table, first, BLK_QUEUE_SIZE as nat, k);
}

proof fn chain_ends_within(ram: Seq<u8>, table: u64, first: u16, fuel: nat, k: int)
    requires
        fuel > 0,
        0 <= k,
    ensures
        ({
            let c = chain_from(ram, table, first, fuel);
            &&& 1 <= c.len() <= fuel
            &&& k < c.len() - 1 ==> c[k].flags % 2 == 1
            &&& c.last().flags % 2 == 0 || c.len() == fuel
        }),
    decreases fuel,
{
    let d = desc_at(ram, table, first);
    let c = chain_from(ram, table, first, fuel);
    if d.flags % 2 == 1 {
        let next = u16_or(ram, (desc_addr(table, first) + 14) as u64, 0);
        let rest = chain_from(ram, table, next, (fuel - 1) as nat);
        assert(c == seq![d] + rest);
        if fuel > 1 {
            chain_ends_within(
                ram,
                table,
                next,
                (fuel - 1) as nat,
                if k > 0 {
                    k - 1
                } else {
                    0
                },
            );
            assert(c.last() == rest.last());
        }
    }
}

/// Sixteen bytes of the table that are an address, a length, flags and a place in
/// little-endian order are the descriptor with those.
pub proof fn descriptors_are_made_of_their_fields(
    ram: Seq<u8>,
    table: int,
    idx: int,
    addr: u64,
    len: u32,
    flags: u16,
    next: u16,
)
    requires
        0 <= table,
        0 <= idx,
        table + 16 * idx + 16 <= ram.len(),
        ram.subrange(table + 16 * idx, table + 16 * idx + 16) == le64(addr) + le32(len) + le16(
            flags,
        ) + le16(next),
    ensures
        is_descriptor(ram, table, idx, BlkDesc { addr, len, flags }, next as int),
{
    let at = table + 16 * idx;
    let w = ram.subrange(at, at + 16);
    crate::bytes::bytes_stand_for_their_number(flags, len, addr);
    crate::bytes::bytes_stand_for_their_number(next, len, addr);
    assert(ram.subrange(at, at + 8) =~= w.subrange(0, 8));
    assert(ram.subrange(at + 8, at + 12) =~= w.subrange(8, 12));
    assert(ram.subrange(at + 12, at + 14) =~= w.subrange(12, 14));
    assert(ram.subrange(at + 14, at + 16) =~= w.subrange(14, 16));
    assert(w.subrange(0, 8) =~= le64(addr));
    assert(w.subrange(8, 12) =~= le32(len));
    assert(w.subrange(12, 14) =~= le16(flags));
    assert(w.subrange(14, 16) =~= le16(next));
}

/// A chain whose first buffer is 16 bytes of memory for the device to read, with a type,
/// four more bytes and a sector in little-endian order, and whose last is for it to
/// write, is a request of that type for that sector.
pub proof fn requests_are_made_of_their_fields(
    ram: Seq<u8>,
    descs: Seq<BlkDesc>,
    request: u32,
    reserved: u32,
    sector: u64,
)
    requires
        descs.len() >= 2,
        descs[0].len >= 16,
        descs[0].flags / 2 % 2 == 0,
        descs[0].addr + 16 <= ram.len() <= u64::MAX,
        ram.subrange(descs[0].addr as int, descs[0].addr + 16) == le32(request) + le32(reserved)
            + le64(sector),
        descs.last().len >= 1,
        descs.last().flags / 2 % 2 == 1,
        descs.last().addr < ram.len(),
    ensures
        is_request(ram, descs, request as int, sector as int),
{
    let h = descs[0].addr as int;
    let w = ram.subrange(h, h + 16);
    crate::bytes::bytes_stand_for_their_number(0, request, sector);
    assert(ram.subrange(h, h + 4) =~= w.subrange(0, 4));
    assert(ram.subrange(h + 8, h + 16) =~= w.subrange(8, 16));
    assert(w.subrange(0, 4) =~= le32(request));
    assert(w.subrange(8, 16) =~= le64(sector));
}

// ─── Requests that cannot be finished ────────────────────────────────────────

/// The `m`-th descriptor of a request is the first of its data buffers that cannot be
/// transferred: one that the device may not write in a read, one that ends beyond the
/// disk, or one that is not memory.
pub open spec fn is_first_bad_buffer(
    descs: Seq<BlkDesc>,
    starts: Seq<int>,
    capacity: int,
    ram_len: int,
    read: bool,
    m: int,
) -> bool {
    &&& 1 <= m <= descs.len() - 2
    &&& read && descs[m].flags / 2 % 2 == 0 || starts[m] > 512 * capacity || descs[m].len > 0
        && descs[m].addr >= ram_len
    &&& forall|j: int|
        1 <= j < m ==> (read ==> (#[trigger] descs[j]).flags / 2 % 2 == 1) && starts[j] <= 512
            * capacity && (descs[j].len > 0 ==> descs[j].addr < ram_len)
}

/// The transfers of a request end before its first bad buffer.
proof fn transfers_end_at_the_bad_buffer(
    descs: Seq<BlkDesc>,
    sector: int,
    starts: Seq<int>,
    capacity: int,
    ram_len: int,
    read: bool,
    m: int,
)
    requires
        descs.len() >= 2,
        are_starts(descs, sector, starts),
        is_first_bad_buffer(descs, starts, capacity, ram_len, read, m),
    ensures
        transfers(
            descs.subrange(1, descs.len() - 1),
            sector * 512,
            capacity,
            ram_len,
            read,
        ).len() == m - 1,
{
    let data = descs.subrange(1, descs.len() - 1);
    let t = transfers(data, sector * 512, capacity, ram_len, read);
    let n = t.len() as int;
    transfers_by_starts(descs, sector, starts, capacity, ram_len, read, n);
    if n < m - 1 {
        assert(transfer_refused(descs[n + 1], starts[n], capacity, ram_len, read));
        assert(starts[n + 1] == starts[n] + descs[n + 1].len);
        assert(descs[n + 1].is_writable() == (descs[n + 1].flags / 2 % 2 == 1));
    } else if n > m - 1 {
        assert(!transfer_refused(descs[m - 1 + 1], starts[m - 1], capacity, ram_len, read));
        assert(starts[m - 1 + 1] == starts[m - 1] + descs[m - 1 + 1].len);
        assert(descs[m].is_writable() == (descs[m].flags / 2 % 2 == 1));
    }
}

/// A read on a sound disk that has a bad buffer ends with an I/O error, with the buffers
/// before that one filled from the disk, and with the count of their bytes and the
/// status. One for a sector that the device does not have counts the status alone.
pub proof fn failed_reads_fill_the_buffers_before<D: DiskOps>(
    descs: Seq<BlkDesc>,
    capacity: u64,
    ram: Seq<u8>,
    ram_after: Seq<u8>,
    disk: D,
    disk_after: D,
    count: u32,
    sector: int,
    starts: Seq<int>,
    m: int,
    k: int,
    i: int,
)
    requires
        is_request(ram, descs, 0, sector),
        starts.len() == descs.len() - 1,
        starts[0] == 512 * sector,
        forall|j: int|
            0 <= j < starts.len() - 1 ==> #[trigger] starts[j + 1] == starts[j] + descs[j + 1].len,
        chain_done(descs, capacity, ram, ram_after, disk, disk_after, count),
        disk.reliable(),
        512 * capacity <= disk.contents().len(),
    ensures
        sector >= capacity ==> ram_after[descs.last().addr as int] == 1 && count == 1,
        sector < capacity && is_first_bad_buffer(
            descs,
            starts,
            capacity as int,
            ram.len() as int,
            true,
            m,
        ) ==> {
            &&& ram_after[descs.last().addr as int] == 1
            &&& count == (starts[m - 1] - starts[0] + 1) % 0x1_0000_0000
            &&& 1 <= k < m && 0 <= i < descs[k].len && descs[k].addr + i < ram.len()
                && descs[k].addr + i != descs.last().addr && (forall|j: int|
                k < j < m ==> !((#[trigger] descs[j]).addr <= descs[k].addr + i < descs[j].addr
                    + descs[j].len)) ==> ram_after[descs[k].addr + i] == disk.contents()[starts[k
                - 1] + i]
        },
{
    let (mem, got) = request_outcome(
        descs,
        capacity,
        ram,
        ram_after,
        disk,
        disk_after,
        count,
        0,
        sector,
    );
    let status = ram_after[descs.last().addr as int];
    let c = disk.contents();
    let data = descs.subrange(1, descs.len() - 1);
    let len = ram.len() as int;
    if sector < capacity && is_first_bad_buffer(descs, starts, capacity as int, len, true, m) {
        assert(are_starts(descs, sector, starts));
        let t = transfers(data, sector * 512, capacity as int, len, true);
        transfers_end_at_the_bad_buffer(descs, sector, starts, capacity as int, len, true, m);
        let n = m - 1;
        transfers_by_starts(descs, sector, starts, capacity as int, len, true, n);
        let r = choose|r: int|
            {
                &&& 0 <= r <= t.len()
                &&& status == #[trigger] status_after(r, data.len() as int)
                &&& got == transferred(t, r)
                &&& mem == ram_after_reads(ram, c, t, r)
                &&& sound(disk, capacity) ==> r == t.len()
            };
        assert(r == n);
        assert forall|j: int| 0 <= j < n implies (#[trigger] t[j]).len == descs[j + 1].len by {}
        transferred_by_starts(descs, sector, starts, t, n);
        starts_grow(descs, sector, starts, 0, n);
        let total = starts[n] - starts[0];
        assert((total % 0x1_0000_0000 + 1) % 0x1_0000_0000 == (total + 1) % 0x1_0000_0000);
        if 1 <= k < m && 0 <= i < descs[k].len && descs[k].addr + i < ram.len() && descs[k].addr + i
            != descs.last().addr && (forall|j: int|
            k < j < m ==> !((#[trigger] descs[j]).addr <= descs[k].addr + i < descs[j].addr
                + descs[j].len)) {
            let a = descs[k].addr + i;
            assert(starts[n] <= 512 * capacity) by {
                assert(descs[m - 1].len >= 0);
            }
            assert forall|j: int| k <= j < n implies (#[trigger] t[j]).len >= 0 && t[j].offset >= 0
                && t[j].offset + t[j].len <= c.len() && !(t[j].addr <= a < t[j].addr
                + t[j].len) by {
                starts_grow(descs, sector, starts, 0, j);
                starts_grow(descs, sector, starts, j, n);
                assert(t[j].addr == descs[j + 1].addr);
            }
            unread_bytes_stay(ram, c, t, k, n, a);
            starts_grow(descs, sector, starts, 0, k - 1);
            starts_grow(descs, sector, starts, k - 1, n);
            assert(t[k - 1].addr == descs[k - 1 + 1].addr);
            ram_after_reads_len(ram, c, t, k - 1);
            assert(ram_after_reads(ram, c, t, k)[a] == c[starts[k - 1] + i]);
            assert(mem[a] == c[starts[k - 1] + i]);
        }
    }
}

/// A write on a sound disk that has a bad buffer ends with an I/O error, with the buffers
/// before that one on the disk; the bytes of the disk before and behind those stay as
/// they were.
pub proof fn failed_writes_keep_the_buffers_before<D: DiskOps>(
    descs: Seq<BlkDesc>,
    capacity: u64,
    ram: Seq<u8>,
    ram_after: Seq<u8>,
    disk: D,
    disk_after: D,
    count: u32,
    sector: int,
    starts: Seq<int>,
    m: int,
    k: int,
    i: int,
)
    requires
        is_request(ram, descs, 1, sector),
        starts.len() == descs.len() - 1,
        starts[0] == 512 * sector,
        forall|j: int|
            0 <= j < starts.len() - 1 ==> #[trigger] starts[j + 1] == starts[j] + descs[j + 1].len,
        chain_done(descs, capacity, ram, ram_after, disk, disk_after, count),
        disk.reliable(),
        512 * capacity <= disk.contents().len(),
        sector < capacity,
        is_first_bad_buffer(descs, starts, capacity as int, ram.len() as int, false, m),
    ensures
        ram_after[descs.last().addr as int] == 1,
        ({
            let c = disk.contents();
            let d = disk_after.contents();
            &&& 1 <= k < m && 0 <= i < descs[k].len && descs[k].addr + i < ram.len() ==> starts[k
                - 1] + i < d.len() && d[starts[k - 1] + i] == ram[descs[k].addr + i]
            &&& 0 <= i < c.len() && (i < starts[0] || starts[m - 1] <= i) ==> i < d.len() && d[i]
                == c[i]
        }),
{
    let (mem, got) = request_outcome(
        descs,
        capacity,
        ram,
        ram_after,
        disk,
        disk_after,
        count,
        1,
        sector,
    );
    let status = ram_after[descs.last().addr as int];
    let c = disk.contents();
    let data = descs.subrange(1, descs.len() - 1);
    let len = ram.len() as int;
    assert(are_starts(descs, sector, starts));
    let t = transfers(data, sector * 512, capacity as int, len, false);
    transfers_end_at_the_bad_buffer(descs, sector, starts, capacity as int, len, false, m);
    let n = m - 1;
    transfers_by_starts(descs, sector, starts, capacity as int, len, false, n);
    let r = choose|r: int|
        {
            &&& 0 <= r <= t.len()
            &&& status == #[trigger] status_after(r, data.len() as int)
            &&& status == VIRTIO_BLK_S_OK || sound(disk, capacity) ==> disk_after.contents()
                == disk_after_writes(ram, c, t, r)
            &&& sound(disk, capacity) ==> r == t.len()
        };
    assert(r == n);
    if 1 <= k < m && 0 <= i < descs[k].len && descs[k].addr + i < ram.len() {
        let a = starts[k - 1] + i;
        starts_grow(descs, sector, starts, 0, k - 1);
        assert(t[k - 1].addr == descs[k - 1 + 1].addr);
        assert(disk_after_writes(ram, c, t, k)[a] == ram[descs[k].addr + i]);
        assert forall|j: int| k <= j < n implies (#[trigger] t[j]).len >= 0 && t[j].offset >= 0
            && !(t[j].offset <= a < t[j].offset + t[j].len) by {
            starts_grow(descs, sector, starts, k - 1, j);
            assert(t[j].offset == starts[j]);
        }
        unwritten_bytes_stay(ram, c, t, k, n, a);
    }
    if 0 <= i < c.len() && (i < starts[0] || starts[n] <= i) {
        assert forall|j: int| 0 <= j < n implies (#[trigger] t[j]).len >= 0 && t[j].offset >= 0
            && !(t[j].offset <= i < t[j].offset + t[j].len) by {
            starts_grow(descs, sector, starts, 0, j);
            starts_grow(descs, sector, starts, j, n);
            assert(t[j].offset == starts[j]);
        }
        unwritten_bytes_stay(ram, c, t, 0, n, i);
    }
}

} // verus!

//! Segment descriptors and identity-mapping page tables.
use vstd::prelude::*;

use crate::boot::layout::{GDT_ADDR, LOW_MEM_SIZE, PDE_ADDR, PDPTE_ADDR, PML4_ADDR};
use crate::bytes::{
    le64, le64_at, push_le64, put_bytes, put_le64, store, store_keeps_le64, stored_le64_reads_back,
};

verus! {

/// The global descriptor table: null, 64-bit code (0x08), 32-bit code (0x10),
/// data (0x18) and a task state segment (0x20).
pub open spec fn gdt() -> Seq<u8> {
    le64(0) + le64(0x00AF_9A00_0000_FFFF) + le64(0x00CF_9A00_0000_FFFF) + le64(
        0x00CF_9200_0000_FFFF,
    ) + le64(0x0000_8B00_0000_FFFF)
}

/// Writes the global descriptor table.
pub fn setup_gdt(mem: &mut [u8])
    requires
        old(mem)@.len() >= LOW_MEM_SIZE,
    ensures
        final(mem)@ == store(old(mem)@, GDT_ADDR as int, gdt()),
{
    let mut table: Vec<u8> = Vec::new();
    push_le64(&mut table, 0);
    push_le64(&mut table, 0x00AF_9A00_0000_FFFF);
    push_le64(&mut table, 0x00CF_9A00_0000_FFFF);
    push_le64(&mut table, 0x00CF_9200_0000_FFFF);
    push_le64(&mut table, 0x0000_8B00_0000_FFFF);
    assert(table@ =~= gdt());
    put_bytes(mem, GDT_ADDR, table.as_slice());
}

/// The address of the `i`-th page directory entry: the four directories lie
/// one behind another.
pub open spec fn pde_addr(i: int) -> int {
    PDE_ADDR + 8 * i
}

/// The `i`-th page directory entry: the `i`-th 2 MiB page, present and
/// writable.
pub open spec fn pde(i: int) -> u64 {
    (i * 0x20_0000 + 0x83) as u64
}

/// Memory holds the page tables: one top-level entry, four directory pointers
/// and 2048 pages of 2 MiB.
pub open spec fn has_page_tables(mem: Seq<u8>) -> bool {
    &&& le64_at(mem, PML4_ADDR as int) == PDPTE_ADDR + 3
    &&& forall|i: int|
        0 <= i < 4 ==> #[trigger] le64_at(mem, PDPTE_ADDR + 8 * i) == PDE_ADDR + i * 0x1000 + 3
    &&& forall|i: int| 0 <= i < 2048 ==> #[trigger] le64_at(mem, pde_addr(i)) == pde(i)
}

/// The bytes that the page tables take up.
pub open spec fn in_page_tables(a: int) -> bool {
    ||| PML4_ADDR <= a < PML4_ADDR + 8
    ||| PDPTE_ADDR <= a < PDPTE_ADDR + 32
    ||| PDE_ADDR <= a < PDE_ADDR + 0x4000
}

/// Sets up identity-mapped page tables for the first 4 GiB with 2 MiB pages.
pub fn setup_page_tables(mem: &mut [u8])
    requires
        old(mem)@.len() >= LOW_MEM_SIZE,
    ensures
        final(mem)@.len() == old(mem)@.len(),
        has_page_tables(final(mem)@),
        forall|a: int|
            0 <= a < old(mem)@.len() && !in_page_tables(a) ==> #[trigger] final(mem)@[a] == old(
                mem,
            )@[a],
{
    let ghost before = mem@;
    put_le64(mem, PML4_ADDR, 0xB003);
    proof {
        stored_le64_reads_back(before, PML4_ADDR as int, 0xB003);
    }
    let mut i: usize = 0;
    while i < 4
        invariant
            i <= 4,
            mem@.len() == before.len(),
            mem@.len() >= LOW_MEM_SIZE,
            le64_at(mem@, PML4_ADDR as int) == PDPTE_ADDR + 3,
            forall|k: int|
                0 <= k < i ==> #[trigger] le64_at(mem@, PDPTE_ADDR + 8 * k) == PDE_ADDR + k * 0x1000
                    + 3,
            forall|a: int|
                0 <= a < before.len() && !in_page_tables(a) ==> #[trigger] mem@[a] == before[a],
        decreases 4 - i,
    {
        let ghost s = mem@;
        let at: usize = PDPTE_ADDR + 8 * i;
        let entry: u64 = (PDE_ADDR + i * 0x1000 + 3) as u64;
        put_le64(mem, at, entry);
        proof {
            stored_le64_reads_back(s, at as int, entry);
            store_keeps_le64(s, at as int, le64(entry), PML4_ADDR as int);
            assert forall|k: int| 0 <= k < i + 1 implies #[trigger] le64_at(
                mem@,
                PDPTE_ADDR + 8 * k,
            ) == PDE_ADDR + k * 0x1000 + 3 by {
                if k < i {
                    store_keeps_le64(s, at as int, le64(entry), PDPTE_ADDR + 8 * k);
                    assert(le64_at(s, PDPTE_ADDR + 8 * k) == PDE_ADDR + k * 0x1000 + 3);
                }
            }
        }
        i += 1;
    }
    let mut j: usize = 0;
    while j < 2048
        invariant
            j <= 2048,
            mem@.len() == before.len(),
            mem@.len() >= LOW_MEM_SIZE,
            le64_at(mem@, PML4_ADDR as int) == PDPTE_ADDR + 3,
            forall|k: int|
                0 <= k < 4 ==> #[trigger] le64_at(mem@, PDPTE_ADDR + 8 * k) == PDE_ADDR + k * 0x1000
                    + 3,
            forall|k: int| 0 <= k < j ==> #[trigger] le64_at(mem@, pde_addr(k)) == pde(k),
            forall|a: int|
                0 <= a < before.len() && !in_page_tables(a) ==> #[trigger] mem@[a] == before[a],
        decreases 2048 - j,
    {
        let ghost s = mem@;
        let at: usize = PDE_ADDR + 8 * j;
        let entry: u64 = j as u64 * 0x20_0000 + 0x83;
        put_le64(mem, at, entry);
        proof {
            stored_le64_reads_back(s, at as int, entry);
            store_keeps_le64(s, at as int, le64(entry), PML4_ADDR as int);
            assert forall|k: int| 0 <= k < 4 implies #[trigger] le64_at(mem@, PDPTE_ADDR + 8 * k)
                == PDE_ADDR + k * 0x1000 + 3 by {
                store_keeps_le64(s, at as int, le64(entry), PDPTE_ADDR + 8 * k);
                assert(le64_at(s, PDPTE_ADDR + 8 * k) == PDE_ADDR + k * 0x1000 + 3);
            }
            assert forall|k: int| 0 <= k < j + 1 implies #[trigger] le64_at(mem@, pde_addr(k))
                == pde(k) by {
                if k < j {
                    store_keeps_le64(s, at as int, le64(entry), pde_addr(k));
                    assert(le64_at(s, pde_addr(k)) == pde(k));
                } else {
                    assert(pde_addr(k) == at);
                }
            }
        }
        j += 1;
    }
}

// ─── Address translation ─────────────────────────────────────────────────────

/// Whether a page table entry is present and writable.
pub open spec fn is_mapped_entry(e: u64) -> bool {
    e % 4 == 3
}

/// The page that a page table entry points to.
pub open spec fn entry_page(e: u64) -> int {
    e / 0x1000 * 0x1000
}

/// The address that the four-level page tables at `PML4_ADDR` translate a
/// virtual address below 2^48 to, through a 2 MiB page that may be written.
pub open spec fn translated(mem: Seq<u8>, va: int) -> Option<int> {
    let e4 = le64_at(mem, PML4_ADDR + 8 * (va / 0x80_0000_0000));
    let e3 = le64_at(mem, entry_page(e4) + 8 * (va / 0x4000_0000 % 512));
    let e2 = le64_at(mem, entry_page(e3) + 8 * (va / 0x20_0000 % 512));
    if !is_mapped_entry(e4) || !is_mapped_entry(e3) || !is_mapped_entry(e2) || e3 / 128 % 2 == 1
        || e2 / 128 % 2 == 0 {
        None
    } else {
        Some(e2 / 0x20_0000 * 0x20_0000 + va % 0x20_0000)
    }
}

/// The indices of an address below 4 GiB in the page tables.
proof fn page_indices(va: int)
    requires
        0 <= va < 0x1_0000_0000,
    ensures
        va / 0x80_0000_0000 == 0,
        0 <= va / 0x4000_0000 < 4,
        va / 0x4000_0000 % 512 == va / 0x4000_0000,
        0 <= va / 0x20_0000 < 2048,
        va / 0x20_0000 == 512 * (va / 0x4000_0000) + va / 0x20_0000 % 512,
        va / 0x20_0000 * 0x20_0000 + va % 0x20_0000 == va,
{
}

/// What the page directory pointers and entries say of themselves.
proof fn page_entries(k: int, i: int)
    requires
        0 <= k < 4,
        0 <= i < 2048,
    ensures
        ({
            let e = (PDE_ADDR + k * 0x1000 + 3) as u64;
            &&& is_mapped_entry(e)
            &&& e / 128 % 2 == 0
            &&& entry_page(e) == PDE_ADDR + k * 0x1000
        }),
        is_mapped_entry(pde(i)),
        pde(i) / 128 % 2 == 1,
        pde(i) / 0x20_0000 == i,
{
}

/// The page tables map every address below 4 GiB to itself.
pub proof fn low_memory_is_identity_mapped(mem: Seq<u8>, va: int)
    requires
        has_page_tables(mem),
        0 <= va < 0x1_0000_0000,
    ensures
        translated(mem, va) == Some(va),
{
    let k = va / 0x4000_0000;
    let i = va / 0x20_0000;
    page_indices(va);
    page_entries(k, i);
    walk_entries(
        le64_at(mem, PML4_ADDR as int),
        le64_at(mem, PDPTE_ADDR + 8 * k),
        le64_at(mem, pde_addr(i)),
        k,
        i,
    );
    assert(entry_page(le64_at(mem, PML4_ADDR as int)) == PDPTE_ADDR);
    assert(entry_page(le64_at(mem, PDPTE_ADDR + 8 * k)) + 8 * (i % 512) == pde_addr(i));
}

/// The entries on the way to the `i`-th page, from the `k`-th directory.
proof fn walk_entries(e4: u64, e3: u64, e2: u64, k: int, i: int)
    requires
        e4 == PDPTE_ADDR + 3,
        0 <= k < 4,
        0 <= i < 2048,
        e3 == PDE_ADDR + k * 0x1000 + 3,
        e2 == pde(i),
    ensures
        is_mapped_entry(e4),
        entry_page(e4) == PDPTE_ADDR,
        entry_page(e3) == PDE_ADDR + k * 0x1000,
{
}

// ─── Laws ────────────────────────────────────────────────────────────────────

/// The descriptors of the global descriptor table, by their bits: the first is null;
/// the 64-bit code at 0x08, the 32-bit code at 0x10 and the data at 0x18 are present,
/// of privilege zero and cover all addresses in pages of 4 KiB. The codes are
/// executable and differ in the bits for 64 and for 32 bits; the data are writable.
/// The last is a busy task state segment of 64 KiB at address zero.
pub proof fn descriptors_have_their_bits()
    ensures
        gdt().len() == 40,
        le64_at(gdt(), 0x00) == 0,
        is_flat_segment(le64_at(gdt(), 0x08) as int, 0xA, true),
        is_flat_segment(le64_at(gdt(), 0x10) as int, 0xA, false),
        is_flat_segment(le64_at(gdt(), 0x18) as int, 0x2, false),
        le64_at(gdt(), 0x20) == 0x8B * 0x100_0000_0000 + 0xFFFF,
{
    let g = gdt();
    gdt_entry(0, 0);
    gdt_entry(1, 0x00AF_9A00_0000_FFFF);
    gdt_entry(2, 0x00CF_9A00_0000_FFFF);
    gdt_entry(3, 0x00CF_9200_0000_FFFF);
    gdt_entry(4, 0x0000_8B00_0000_FFFF);
}

/// A segment at address zero whose limit is all ones in pages of 4 KiB, present and of
/// privilege zero, of the given type, and for 64 bits or for 32.
pub open spec fn is_flat_segment(d: int, kind: int, long: bool) -> bool {
    &&& d % 0x1_0000 == 0xFFFF
    &&& d / 0x1_0000 % 0x100_0000 == 0
    &&& d / 0x100_0000_0000 % 16 == kind
    &&& d / 0x1000_0000_0000 % 2 == 1
    &&& d / 0x2000_0000_0000 % 4 == 0
    &&& d / 0x8000_0000_0000 % 2 == 1
    &&& d / 0x1_0000_0000_0000 % 16 == 0xF
    &&& d / 0x10_0000_0000_0000 % 2 == 0
    &&& (d / 0x20_0000_0000_0000 % 2 == 1) == long
    &&& (d / 0x40_0000_0000_0000 % 2 == 1) == !long
    &&& d / 0x80_0000_0000_0000 % 2 == 1
    &&& d / 0x100_0000_0000_0000 == 0
}

proof fn gdt_entry(i: int, value: u64)
    requires
        0 <= i < 5,
        i == 0 ==> value == 0,
        i == 1 ==> value == 0x00AF_9A00_0000_FFFF,
        i == 2 ==> value == 0x00CF_9A00_0000_FFFF,
        i == 3 ==> value == 0x00CF_9200_0000_FFFF,
        i == 4 ==> value == 0x0000_8B00_0000_FFFF,
    ensures
        le64_at(gdt(), 8 * i) == value,
        gdt().len() == 40,
{
    let g = gdt();
    let b = le64(value);
    crate::bytes::le_bytes_round_trip(0, 0, value);
    let at = 8 * i;
    assert(i == 0 || i == 1 || i == 2 || i == 3 || i == 4);
    assert(forall|k: int| 0 <= k < 8 ==> g[at + k] == b[k]);
    assert(g[at] == g[at + 0]);
}

/// The page tables lie at 0xA000, 0xB000 and 0xC000, and take up one entry, four and
/// 2048 of eight bytes each.
pub proof fn page_tables_lie_in_their_places(mem: Seq<u8>, a: int, i: int)
    requires
        has_page_tables(mem),
        0 <= i < 2048,
    ensures
        le64_at(mem, 0xA000) == 0xB003,
        i < 4 ==> le64_at(mem, 0xB000 + 8 * i) == 0xC003 + 0x1000 * i,
        le64_at(mem, 0xC000 + 8 * i) == 0x20_0000 * i + 0x83,
        in_page_tables(a) <==> 0xA000 <= a < 0xA008 || 0xB000 <= a < 0xB020 || 0xC000 <= a
            < 0x1_0000,
{
    assert(pde_addr(i) == 0xC000 + 8 * i);
    assert(le64_at(mem, pde_addr(i)) == pde(i));
    if i < 4 {
        assert(le64_at(mem, PDPTE_ADDR + 8 * i) == PDE_ADDR + i * 0x1000 + 3);
    }
}

} // verus!

//! MultiProcessor and ACPI tables.
use vstd::prelude::*;

use crate::boot::layout::{
    ACPI_MADT_ADDR, ACPI_RSDP_ADDR, ACPI_XSDT_ADDR, BOOT_PARAMS_ADDR, EBDA_SEGMENT_ADDR,
    LOW_MEM_SIZE, MP_FP_ADDR, MP_TABLE_ADDR, PVH_INFO_ADDR,
};
use crate::bytes::{
    byte_sum, le16, le32, le64, push_bytes, push_le16, push_le32, push_le64, push_zeros, put_bytes,
    put_le16, put_le64, store, zeros,
};

verus! {

// ─── Checksums ───────────────────────────────────────────────────────────────

/// The byte that makes the sum of the bytes zero modulo 256.
pub open spec fn checksum_of(s: Seq<u8>) -> u8 {
    ((256 - byte_sum(s) % 256) % 256) as u8
}

/// `raw` with its checksum in the byte at `at`.
pub open spec fn checksummed(raw: Seq<u8>, at: int) -> Seq<u8> {
    raw.update(at, checksum_of(raw))
}

/// The sum of bytes changes with a byte by the difference.
pub proof fn byte_sum_update(s: Seq<u8>, i: int, v: u8)
    requires
        0 <= i < s.len(),
    ensures
        byte_sum(s.update(i, v)) == byte_sum(s) - s[i] + v,
    decreases s.len(),
{
    let t = s.update(i, v);
    if i == s.len() - 1 {
        assert(t.drop_last() =~= s.drop_last());
    } else {
        byte_sum_update(s.drop_last(), i, v);
        assert(t.drop_last() =~= s.drop_last().update(i, v));
        assert(t.last() == s.last());
    }
}

/// The bytes of a table add up to zero modulo 256 once its checksum is in.
pub proof fn checksummed_bytes_sum_to_zero(raw: Seq<u8>, at: int)
    requires
        0 <= at < raw.len(),
        raw[at] == 0,
    ensures
        byte_sum(checksummed(raw, at)) % 256 == 0,
{
    byte_sum_update(raw, at, checksum_of(raw));
}

/// Computes the checksum: the sum of all bytes, with it, must be 0.
pub fn checksum(data: &[u8]) -> (c: u8)
    ensures
        c == checksum_of(data@),
{
    let mut sum: u8 = 0;
    let mut i: usize = 0;
    assert(data@.take(0) =~= Seq::<u8>::empty());
    while i < data.len()
        invariant
            i <= data@.len(),
            sum == byte_sum(data@.take(i as int)) % 256,
        decreases data@.len() - i,
    {
        assert(data@.take(i + 1).drop_last() =~= data@.take(i as int));
        sum = sum.wrapping_add(data[i]);
        i += 1;
    }
    assert(data@.take(i as int) =~= data@);
    if sum == 0 {
        0
    } else {
        255 - sum + 1
    }
}

/// Puts the checksum of `raw` into its byte at `at`.
fn seal(raw: &mut Vec<u8>, at: usize)
    requires
        at < old(raw)@.len(),
    ensures
        final(raw)@ == checksummed(old(raw)@, at as int),
{
    let c: u8 = checksum(raw.as_slice());
    raw[at] = c;
}

// ─── MultiProcessor tables ───────────────────────────────────────────────────

/// The MP configuration table header without its checksum (44 bytes): PCMP,
/// the table length, revision 1.4, OEM CLOUDH, product WHP DEMO, 21 entries,
/// and the local APIC.
pub open spec fn mp_header() -> Seq<u8> {
    seq![0x50u8, 0x43, 0x4D, 0x50] + le16(224) + seq![4u8, 0] + seq![
        0x43u8,
        0x4C,
        0x4F,
        0x55,
        0x44,
        0x48,
        0x20,
        0x20,
    ] + seq![0x57u8, 0x48, 0x50, 0x20, 0x44, 0x45, 0x4D, 0x4F, 0x20, 0x20, 0x20, 0x20] + le32(0)
        + le16(0) + le16(21) + le32(0xFEE0_0000) + zeros(4)
}

/// The processor (APIC 0, enabled, bootstrap), the PCI bus 0, the ISA bus 1
/// and the I/O APIC.
pub open spec fn mp_devices() -> Seq<u8> {
    seq![0u8, 0, 0x14, 0x03] + zeros(16) + seq![1u8, 0, 0x50, 0x43, 0x49, 0x20, 0x20, 0x20] + seq![
        1u8,
        1,
        0x49,
        0x53,
        0x41,
        0x20,
        0x20,
        0x20,
    ] + seq![2u8, 0, 0x11, 0x01] + le32(0xFEC0_0000)
}

/// The interrupt assignments of the first `n` ISA interrupts, each to the I/O
/// APIC input of its number.
pub open spec fn mp_isa_interrupts(n: nat) -> Seq<u8>
    decreases n,
{
    if n == 0 {
        Seq::empty()
    } else {
        mp_isa_interrupts((n - 1) as nat) + seq![3u8, 0, 0, 0, 1, (n - 1) as u8, 0, (n - 1) as u8]
    }
}

/// The interrupt assignment of the block device: PCI device 1, pin A, active
/// low and level triggered, to I/O APIC input 16.
pub open spec fn mp_pci_interrupt() -> Seq<u8> {
    seq![3u8, 0] + le16(0x000F) + seq![0u8, 4, 0, 16]
}

/// The MP configuration table without its checksum.
pub open spec fn mp_table_raw() -> Seq<u8> {
    mp_header() + mp_devices() + mp_isa_interrupts(16) + mp_pci_interrupt()
}

/// The MP configuration table, its checksum in byte 7.
pub open spec fn mp_table() -> Seq<u8> {
    checksummed(mp_table_raw(), 7)
}

/// The MP floating pointer without its checksum: _MP_, the address of the
/// configuration table, a length of one paragraph and revision 1.4.
pub open spec fn mp_pointer_raw() -> Seq<u8> {
    seq![0x5Fu8, 0x4D, 0x50, 0x5F] + le32(MP_TABLE_ADDR as u32) + seq![1u8, 4] + zeros(6)
}

/// The MP floating pointer, its checksum in byte 10.
pub open spec fn mp_pointer() -> Seq<u8> {
    checksummed(mp_pointer_raw(), 10)
}

proof fn mp_isa_interrupts_len(n: nat)
    ensures
        mp_isa_interrupts(n).len() == 8 * n,
    decreases n,
{
    if n > 0 {
        mp_isa_interrupts_len((n - 1) as nat);
    }
}

/// The MP tables are as long as they say, and their bytes add up to zero.
pub proof fn mp_tables_are_consistent()
    ensures
        mp_table().len() == 224,
        crate::bytes::le16_at(mp_table(), 4) == mp_table().len(),
        byte_sum(mp_table()) % 256 == 0,
        mp_pointer().len() == 16,
        crate::bytes::le32_at(mp_pointer(), 4) == MP_TABLE_ADDR,
        byte_sum(mp_pointer()) % 256 == 0,
{
    mp_isa_interrupts_len(16);
    crate::bytes::le_bytes_round_trip(224, MP_TABLE_ADDR as u32, 0);
    assert(mp_table_raw()[4] == le16(224)[0] && mp_table_raw()[5] == le16(224)[1]);
    assert(mp_table_raw()[7] == 0);
    checksummed_bytes_sum_to_zero(mp_table_raw(), 7);
    checksummed_bytes_sum_to_zero(mp_pointer_raw(), 10);
}

/// Builds the MP configuration table.
pub fn build_mp_table() -> (t: Vec<u8>)
    ensures
        t@ == mp_table(),
        t@.len() == 224,
{
    let mut t: Vec<u8> = vec![0x50, 0x43, 0x4D, 0x50];
    push_le16(&mut t, 224);
    t.push(4);
    t.push(0);
    let oem: [u8; 8] = [0x43, 0x4C, 0x4F, 0x55, 0x44, 0x48, 0x20, 0x20];
    push_bytes(&mut t, oem.as_slice());
    let product: [u8; 12] = [
        0x57, 0x48, 0x50, 0x20, 0x44, 0x45, 0x4D, 0x4F, 0x20, 0x20, 0x20, 0x20,
    ];
    push_bytes(&mut t, product.as_slice());
    push_le32(&mut t, 0);
    push_le16(&mut t, 0);
    push_le16(&mut t, 21);
    push_le32(&mut t, 0xFEE0_0000);
    push_zeros(&mut t, 4);
    assert(t@ =~= mp_header());
    let processor: [u8; 4] = [0, 0, 0x14, 0x03];
    push_bytes(&mut t, processor.as_slice());
    push_zeros(&mut t, 16);
    let pci: [u8; 8] = [1, 0, 0x50, 0x43, 0x49, 0x20, 0x20, 0x20];
    push_bytes(&mut t, pci.as_slice());
    let isa: [u8; 8] = [1, 1, 0x49, 0x53, 0x41, 0x20, 0x20, 0x20];
    push_bytes(&mut t, isa.as_slice());
    let ioapic: [u8; 4] = [2, 0, 0x11, 0x01];
    push_bytes(&mut t, ioapic.as_slice());
    push_le32(&mut t, 0xFEC0_0000);
    assert(t@ =~= mp_header() + mp_devices());
    let mut irq: u8 = 0;
    while irq < 16
        invariant
            irq <= 16,
            t@ == mp_header() + mp_devices() + mp_isa_interrupts(irq as nat),
        decreases 16 - irq,
    {
        let entry: [u8; 8] = [3, 0, 0, 0, 1, irq, 0, irq];
        push_bytes(&mut t, entry.as_slice());
        irq += 1;
        assert(entry@ =~= seq![3u8, 0, 0, 0, 1, (irq - 1) as u8, 0, (irq - 1) as u8]);
        assert(t@ =~= mp_header() + mp_devices() + mp_isa_interrupts(irq as nat));
    }
    t.push(3);
    t.push(0);
    push_le16(&mut t, 0x000F);
    t.push(0);
    t.push(4);
    t.push(0);
    t.push(16);
    assert(t@ =~= mp_table_raw());
    proof {
        mp_tables_are_consistent();
    }
    seal(&mut t, 7);
    t
}

/// Builds the MP floating pointer.
pub fn build_mp_pointer() -> (t: Vec<u8>)
    ensures
        t@ == mp_pointer(),
        t@.len() == 16,
{
    let mut t: Vec<u8> = vec![0x5F, 0x4D, 0x50, 0x5F];
    push_le32(&mut t, MP_TABLE_ADDR as u32);
    t.push(1);
    t.push(4);
    push_zeros(&mut t, 6);
    assert(t@ =~= mp_pointer_raw());
    seal(&mut t, 10);
    t
}

// ─── ACPI tables ─────────────────────────────────────────────────────────────

/// An ACPI table header without its checksum (36 bytes): signature, length,
/// revision, OEM CLOUDH, the OEM table identifier and the creator CLHV.
pub open spec fn acpi_header(signature: Seq<u8>, len: u32, revision: u8, table: Seq<u8>) -> Seq<u8> {
    signature + le32(len) + seq![revision, 0u8] + seq![0x43u8, 0x4C, 0x4F, 0x55, 0x44, 0x48] + table
        + le32(1) + seq![0x43u8, 0x4C, 0x48, 0x56] + le32(1)
}

/// The MADT without its checksum: the local APIC 0 and the I/O APIC.
pub open spec fn madt_raw() -> Seq<u8> {
    acpi_header(
        seq![0x41u8, 0x50, 0x49, 0x43],
        64,
        5,
        seq![0x43u8, 0x48, 0x4D, 0x41, 0x44, 0x54, 0x20, 0x20],
    ) + le32(0xFEE0_0000) + le32(1) + seq![0u8, 8, 0, 0] + le32(1) + seq![1u8, 12, 0, 0] + le32(
        0xFEC0_0000,
    ) + le32(0)
}

/// The MADT, its checksum in byte 9.
pub open spec fn madt() -> Seq<u8> {
    checksummed(madt_raw(), 9)
}

/// The XSDT without its checksum: the MADT alone.
pub open spec fn xsdt_raw() -> Seq<u8> {
    acpi_header(
        seq![0x58u8, 0x53, 0x44, 0x54],
        44,
        1,
        seq![0x43u8, 0x48, 0x58, 0x53, 0x44, 0x54, 0x20, 0x20],
    ) + le64(ACPI_MADT_ADDR as u64)
}

/// The XSDT, its checksum in byte 9.
pub open spec fn xsdt() -> Seq<u8> {
    checksummed(xsdt_raw(), 9)
}

/// The first 20 bytes of the RSDP without their checksum: revision 2.
pub open spec fn rsdp_front_raw() -> Seq<u8> {
    seq![0x52u8, 0x53, 0x44, 0x20, 0x50, 0x54, 0x52, 0x20] + seq![0u8] + seq![
        0x43u8,
        0x4C,
        0x4F,
        0x55,
        0x44,
        0x48,
    ] + seq![2u8] + le32(ACPI_XSDT_ADDR as u32)
}

/// The RSDP without its extended checksum: the first 20 bytes have theirs in
/// byte 8.
pub open spec fn rsdp_raw() -> Seq<u8> {
    checksummed(rsdp_front_raw(), 8) + le32(36) + le64(ACPI_XSDT_ADDR as u64) + zeros(4)
}

/// The RSDP, its extended checksum in byte 32.
pub open spec fn rsdp() -> Seq<u8> {
    checksummed(rsdp_raw(), 32)
}

/// The ACPI tables are as long as they say, point to each other, and the bytes
/// of each, and of the first 20 of the RSDP, add up to zero.
pub proof fn acpi_tables_are_consistent()
    ensures
        madt().len() == 64,
        crate::bytes::le32_at(madt(), 4) == madt().len(),
        byte_sum(madt()) % 256 == 0,
        xsdt().len() == 44,
        crate::bytes::le32_at(xsdt(), 4) == xsdt().len(),
        crate::bytes::le64_at(xsdt(), 36) == ACPI_MADT_ADDR,
        byte_sum(xsdt()) % 256 == 0,
        rsdp().len() == 36,
        crate::bytes::le64_at(rsdp(), 24) == ACPI_XSDT_ADDR,
        byte_sum(rsdp()) % 256 == 0,
        byte_sum(rsdp().take(20)) % 256 == 0,
{
    crate::bytes::le_bytes_round_trip(0, 64, ACPI_MADT_ADDR as u64);
    crate::bytes::le_bytes_round_trip(0, 44, ACPI_XSDT_ADDR as u64);
    let m = madt_raw();
    let x = xsdt_raw();
    let r = rsdp_raw();
    assert(m[9] == 0);
    assert(x[9] == 0);
    assert(r[32] == 0);
    assert(rsdp_front_raw()[8] == 0);
    checksummed_bytes_sum_to_zero(m, 9);
    checksummed_bytes_sum_to_zero(x, 9);
    checksummed_bytes_sum_to_zero(r, 32);
    checksummed_bytes_sum_to_zero(rsdp_front_raw(), 8);
    assert(rsdp().take(20) =~= checksummed(rsdp_front_raw(), 8));
    let a = le64(ACPI_MADT_ADDR as u64);
    assert(x[36] == a[0] && x[37] == a[1] && x[38] == a[2] && x[39] == a[3]);
    assert(x[40] == a[4] && x[41] == a[5] && x[42] == a[6] && x[43] == a[7]);
    let b = le64(ACPI_XSDT_ADDR as u64);
    assert(r[24] == b[0] && r[25] == b[1] && r[26] == b[2] && r[27] == b[3]);
    assert(r[28] == b[4] && r[29] == b[5] && r[30] == b[6] && r[31] == b[7]);
}

/// Builds an ACPI table header without its checksum.
fn build_acpi_header(signature: &[u8], len: u32, revision: u8, table: &[u8]) -> (t: Vec<u8>)
    ensures
        t@ == acpi_header(signature@, len, revision, table@),
{
    let mut t: Vec<u8> = Vec::new();
    push_bytes(&mut t, signature);
    push_le32(&mut t, len);
    t.push(revision);
    t.push(0);
    let oem: [u8; 6] = [0x43, 0x4C, 0x4F, 0x55, 0x44, 0x48];
    push_bytes(&mut t, oem.as_slice());
    push_bytes(&mut t, table);
    push_le32(&mut t, 1);
    let creator: [u8; 4] = [0x43, 0x4C, 0x48, 0x56];
    push_bytes(&mut t, creator.as_slice());
    push_le32(&mut t, 1);
    assert(t@ =~= acpi_header(signature@, len, revision, table@));
    t
}

/// Builds the MADT.
pub fn build_madt() -> (t: Vec<u8>)
    ensures
        t@ == madt(),
        t@.len() == 64,
{
    let signature: [u8; 4] = [0x41, 0x50, 0x49, 0x43];
    let table: [u8; 8] = [0x43, 0x48, 0x4D, 0x41, 0x44, 0x54, 0x20, 0x20];
    let mut t: Vec<u8> = build_acpi_header(signature.as_slice(), 64, 5, table.as_slice());
    push_le32(&mut t, 0xFEE0_0000);
    push_le32(&mut t, 1);
    t.push(0);
    t.push(8);
    t.push(0);
    t.push(0);
    push_le32(&mut t, 1);
    t.push(1);
    t.push(12);
    t.push(0);
    t.push(0);
    push_le32(&mut t, 0xFEC0_0000);
    push_le32(&mut t, 0);
    assert(signature@ =~= seq![0x41u8, 0x50, 0x49, 0x43]);
    assert(table@ =~= seq![0x43u8, 0x48, 0x4D, 0x41, 0x44, 0x54, 0x20, 0x20]);
    assert(t@ =~= madt_raw());
    seal(&mut t, 9);
    t
}

/// Builds the XSDT.
pub fn build_xsdt() -> (t: Vec<u8>)
    ensures
        t@ == xsdt(),
        t@.len() == 44,
{
    let signature: [u8; 4] = [0x58, 0x53, 0x44, 0x54];
    let table: [u8; 8] = [0x43, 0x48, 0x58, 0x53, 0x44, 0x54, 0x20, 0x20];
    let mut t: Vec<u8> = build_acpi_header(signature.as_slice(), 44, 1, table.as_slice());
    push_le64(&mut t, ACPI_MADT_ADDR as u64);
    assert(signature@ =~= seq![0x58u8, 0x53, 0x44, 0x54]);
    assert(table@ =~= seq![0x43u8, 0x48, 0x58, 0x53, 0x44, 0x54, 0x20, 0x20]);
    assert(t@ =~= xsdt_raw());
    seal(&mut t, 9);
    t
}

/// Builds the RSDP.
pub fn build_rsdp() -> (t: Vec<u8>)
    ensures
        t@ == rsdp(),
        t@.len() == 36,
{
    let mut t: Vec<u8> = vec![0x52, 0x53, 0x44, 0x20, 0x50, 0x54, 0x52, 0x20, 0];
    let oem: [u8; 6] = [0x43, 0x4C, 0x4F, 0x55, 0x44, 0x48];
    push_bytes(&mut t, oem.as_slice());
    t.push(2);
    push_le32(&mut t, ACPI_XSDT_ADDR as u32);
    assert(t@ =~= rsdp_front_raw());
    seal(&mut t, 8);
    push_le32(&mut t, 36);
    push_le64(&mut t, ACPI_XSDT_ADDR as u64);
    push_zeros(&mut t, 4);
    assert(t@ =~= rsdp_raw());
    seal(&mut t, 32);
    t
}

// ─── Guest memory ────────────────────────────────────────────────────────────

/// `table` filled up with zeros to `n` bytes.
pub open spec fn zero_filled(table: Seq<u8>, n: nat) -> Seq<u8> {
    table + zeros((n - table.len()) as nat)
}

/// Memory with the MP tables, and the segment of the extended BIOS data area
/// where they are found.
pub open spec fn with_mp_tables(mem: Seq<u8>) -> Seq<u8> {
    let a = store(mem, MP_TABLE_ADDR as int, zero_filled(mp_table(), 256));
    let b = store(a, MP_FP_ADDR as int, mp_pointer());
    store(b, EBDA_SEGMENT_ADDR as int, le16(0x9FC0))
}

/// Memory with the ACPI tables, and the root pointer's address in the boot
/// parameters and in the PVH start information.
pub open spec fn with_acpi_tables(mem: Seq<u8>) -> Seq<u8> {
    let a = store(mem, ACPI_MADT_ADDR as int, zero_filled(madt(), 128));
    let b = store(a, ACPI_XSDT_ADDR as int, zero_filled(xsdt(), 64));
    let c = store(b, ACPI_RSDP_ADDR as int, rsdp());
    let d = store(c, BOOT_PARAMS_ADDR + 0x70, le64(ACPI_RSDP_ADDR as u64));
    store(d, PVH_INFO_ADDR + 24, le64(ACPI_RSDP_ADDR as u64))
}

/// Sets up the MP and the ACPI tables.
pub fn setup_acpi_tables(mem: &mut [u8])
    requires
        old(mem)@.len() >= LOW_MEM_SIZE,
    ensures
        final(mem)@ == with_acpi_tables(with_mp_tables(old(mem)@)),
{
    let ghost before = mem@;
    let mut table: Vec<u8> = build_mp_table();
    push_zeros(&mut table, 32);
    put_bytes(mem, MP_TABLE_ADDR, table.as_slice());
    let pointer: Vec<u8> = build_mp_pointer();
    put_bytes(mem, MP_FP_ADDR, pointer.as_slice());
    put_le16(mem, EBDA_SEGMENT_ADDR, 0x9FC0);
    assert(mem@ == with_mp_tables(before));
    let mut madt_bytes: Vec<u8> = build_madt();
    push_zeros(&mut madt_bytes, 64);
    put_bytes(mem, ACPI_MADT_ADDR, madt_bytes.as_slice());
    let mut xsdt_bytes: Vec<u8> = build_xsdt();
    push_zeros(&mut xsdt_bytes, 20);
    put_bytes(mem, ACPI_XSDT_ADDR, xsdt_bytes.as_slice());
    let rsdp_bytes: Vec<u8> = build_rsdp();
    put_bytes(mem, ACPI_RSDP_ADDR, rsdp_bytes.as_slice());
    put_le64(mem, BOOT_PARAMS_ADDR + 0x70, ACPI_RSDP_ADDR as u64);
    put_le64(mem, PVH_INFO_ADDR + 24, ACPI_RSDP_ADDR as u64);
}

// ─── Laws ────────────────────────────────────────────────────────────────────

/// A checksum changes no byte of a table but its own.
proof fn checksums_keep_the_rest(raw: Seq<u8>, at: int, i: int)
    requires
        0 <= at < raw.len(),
        0 <= i < raw.len(),
        i != at,
    ensures
        checksummed(raw, at).len() == raw.len(),
        checksummed(raw, at)[i] == raw[i],
{
}

/// The checksum is the one byte that makes the sum of bytes a multiple of 256.
pub proof fn checksums_are_the_complement(s: Seq<u8>, c: u8)
    ensures
        (byte_sum(s) + checksum_of(s)) % 256 == 0,
        (byte_sum(s) + c) % 256 == 0 ==> c == checksum_of(s),
{
}

/// The entries of the MP configuration table, byte by byte: the processor with APIC 0,
/// enabled and the one that boots; the PCI bus 0 and the ISA bus 1 by their names; the
/// I/O APIC at 0xFEC00000; for each of the 16 ISA interrupts its assignment to the
/// input of its number; and the interrupt of the block device, level triggered and
/// active low, on input 16. There are 21 of them, as the header says, which names the
/// local APIC at 0xFEE00000.
pub proof fn mp_entries_are_laid_out(irq: int)
    requires
        0 <= irq < 16,
    ensures
        ({
            let t = mp_table();
            let at = 88 + 8 * irq;
            &&& t.len() == 224
            &&& t[0] == 0x50 && t[1] == 0x43 && t[2] == 0x4D && t[3] == 0x50
            &&& t[4] == 224 && t[5] == 0 && t[6] == 4
            &&& t[34] == 21 && t[35] == 0
            &&& t[36] == 0 && t[37] == 0 && t[38] == 0xE0 && t[39] == 0xFE
            &&& t[44] == 0 && t[45] == 0 && t[46] == 0x14 && t[47] == 3
            &&& t.subrange(64, 72) == seq![1u8, 0, 0x50, 0x43, 0x49, 0x20, 0x20, 0x20]
            &&& t.subrange(72, 80) == seq![1u8, 1, 0x49, 0x53, 0x41, 0x20, 0x20, 0x20]
            &&& t.subrange(80, 88) == seq![2u8, 0, 0x11, 1, 0, 0, 0xC0, 0xFE]
            &&& t.subrange(at, at + 8) == seq![3u8, 0, 0, 0, 1, irq as u8, 0, irq as u8]
            &&& t.subrange(216, 224) == seq![3u8, 0, 0x0F, 0, 0, 4, 0, 16]
        }),
{
    let t = mp_table();
    let raw = mp_table_raw();
    mp_isa_interrupts_len(16);
    assert(le16(224) =~= seq![224u8, 0]);
    assert(le16(21) =~= seq![21u8, 0]);
    assert(le16(0x000F) =~= seq![0x0Fu8, 0]);
    assert(le32(0xFEE0_0000) =~= seq![0u8, 0, 0xE0, 0xFE]);
    assert(le32(0xFEC0_0000) =~= seq![0u8, 0, 0xC0, 0xFE]);
    let h = mp_header();
    let d = mp_devices();
    assert(h.len() == 44 && d.len() == 44);
    assert forall|i: int| 0 <= i < 224 && i != 7 implies #[trigger] t[i] == raw[i] by {
        checksums_keep_the_rest(raw, 7, i);
    }
    assert(t.subrange(64, 72) =~= seq![1u8, 0, 0x50, 0x43, 0x49, 0x20, 0x20, 0x20]);
    assert(t.subrange(72, 80) =~= seq![1u8, 1, 0x49, 0x53, 0x41, 0x20, 0x20, 0x20]);
    assert(t.subrange(80, 88) =~= seq![2u8, 0, 0x11, 1, 0, 0, 0xC0, 0xFE]);
    isa_interrupt(16, irq);
    let at = 88 + 8 * irq;
    assert forall|k: int| 0 <= k < 8 implies #[trigger] t[at + k] == mp_isa_interrupts(16)[8 * irq + k] by {}
    assert(t.subrange(at, at + 8) =~= mp_isa_interrupts(16).subrange(8 * irq, 8 * irq + 8));
    assert(t.subrange(216, 224) =~= seq![3u8, 0, 0x0F, 0, 0, 4, 0, 16]);
}

/// The assignment of an ISA interrupt among the first `n`.
proof fn isa_interrupt(n: nat, irq: int)
    requires
        0 <= irq < n <= 16,
    ensures
        mp_isa_interrupts(n).len() == 8 * n,
        mp_isa_interrupts(n).subrange(8 * irq, 8 * irq + 8) == seq![
            3u8,
            0,
            0,
            0,
            1,
            irq as u8,
            0,
            irq as u8,
        ],
    decreases n,
{
    let front = mp_isa_interrupts((n - 1) as nat);
    mp_isa_interrupts_len((n - 1) as nat);
    let all = mp_isa_interrupts(n);
    if irq < n - 1 {
        isa_interrupt((n - 1) as nat, irq);
        assert(all.subrange(8 * irq, 8 * irq + 8) =~= front.subrange(8 * irq, 8 * irq + 8));
    } else {
        assert(all.subrange(8 * irq, 8 * irq + 8) =~= seq![
            3u8,
            0,
            0,
            0,
            1,
            irq as u8,
            0,
            irq as u8,
        ]);
    }
}

/// The entries of the ACPI tables, byte by byte: the MADT, of signature APIC and
/// revision 5, has the local APIC at 0xFEE00000 and PC-compatible interrupt
/// controllers, one enabled processor with APIC 0, and the I/O APIC 0 at 0xFEC00000
/// for interrupts from zero on; the XSDT leads to it at 0xE1040, and the RSDP, of
/// revision 2, to the XSDT at 0xE1000.
pub proof fn acpi_entries_are_laid_out()
    ensures
        ({
            let m = madt();
            &&& m.subrange(0, 4) == seq![0x41u8, 0x50, 0x49, 0x43]
            &&& m[8] == 5
            &&& m.subrange(36, 44) == seq![0u8, 0, 0xE0, 0xFE, 1, 0, 0, 0]
            &&& m.subrange(44, 52) == seq![0u8, 8, 0, 0, 1, 0, 0, 0]
            &&& m.subrange(52, 64) == seq![1u8, 12, 0, 0, 0, 0, 0xC0, 0xFE, 0, 0, 0, 0]
        }),
        ({
            let x = xsdt();
            &&& x.subrange(0, 4) == seq![0x58u8, 0x53, 0x44, 0x54]
            &&& x[8] == 1
            &&& x.subrange(36, 44) == seq![0x40u8, 0x10, 0x0E, 0, 0, 0, 0, 0]
        }),
        ({
            let r = rsdp();
            &&& r.subrange(0, 8) == seq![0x52u8, 0x53, 0x44, 0x20, 0x50, 0x54, 0x52, 0x20]
            &&& r[15] == 2
            &&& r.subrange(20, 24) == seq![36u8, 0, 0, 0]
            &&& r.subrange(24, 32) == seq![0u8, 0x10, 0x0E, 0, 0, 0, 0, 0]
        }),
{
    assert(le32(0xFEE0_0000) =~= seq![0u8, 0, 0xE0, 0xFE]);
    assert(le32(0xFEC0_0000) =~= seq![0u8, 0, 0xC0, 0xFE]);
    assert(le32(1) =~= seq![1u8, 0, 0, 0]);
    assert(le32(0) =~= seq![0u8, 0, 0, 0]);
    assert(le32(36) =~= seq![36u8, 0, 0, 0]);
    assert(le64(ACPI_MADT_ADDR as u64) =~= seq![0x40u8, 0x10, 0x0E, 0, 0, 0, 0, 0]);
    assert(le64(ACPI_XSDT_ADDR as u64) =~= seq![0u8, 0x10, 0x0E, 0, 0, 0, 0, 0]);
    let m = madt();
    assert(m.subrange(0, 4) =~= seq![0x41u8, 0x50, 0x49, 0x43]);
    assert(m.subrange(36, 44) =~= seq![0u8, 0, 0xE0, 0xFE, 1, 0, 0, 0]);
    assert(m.subrange(44, 52) =~= seq![0u8, 8, 0, 0, 1, 0, 0, 0]);
    assert(m.subrange(52, 64) =~= seq![1u8, 12, 0, 0, 0, 0, 0xC0, 0xFE, 0, 0, 0, 0]);
    let x = xsdt();
    assert(x.subrange(0, 4) =~= seq![0x58u8, 0x53, 0x44, 0x54]);
    assert(x.subrange(36, 44) =~= seq![0x40u8, 0x10, 0x0E, 0, 0, 0, 0, 0]);
    let r = rsdp();
    assert(r.subrange(0, 8) =~= seq![0x52u8, 0x53, 0x44, 0x20, 0x50, 0x54, 0x52, 0x20]);
    assert(r.subrange(20, 24) =~= seq![36u8, 0, 0, 0]);
    assert(r.subrange(24, 32) =~= seq![0u8, 0x10, 0x0E, 0, 0, 0, 0, 0]);
}

/// Where the tables lie: the MP configuration table at 0x9FD00, its pointer at 0x9FC00
/// and the segment of that in the BIOS data area at 0x40E; the MADT at 0xE1040, the
/// XSDT at 0xE1000 and the RSDP at 0xE0000, whose address is in the boot parameters at
/// 0x7070 and in the PVH start information at 0x6018.
pub proof fn tables_lie_in_their_places(mem: Seq<u8>)
    requires
        mem.len() >= 0x10_0000,
    ensures
        ({
            let m = with_acpi_tables(with_mp_tables(mem));
            &&& m.len() == mem.len()
            &&& m.subrange(0x9_FD00, 0x9_FDE0) == mp_table()
            &&& m.subrange(0x9_FC00, 0x9_FC10) == mp_pointer()
            &&& m[0x40E] == 0xC0 && m[0x40F] == 0x9F
            &&& m.subrange(0xE_1040, 0xE_1080) == madt()
            &&& m.subrange(0xE_1000, 0xE_102C) == xsdt()
            &&& m.subrange(0xE_0000, 0xE_0024) == rsdp()
            &&& m.subrange(0x7070, 0x7078) == seq![0u8, 0, 0x0E, 0, 0, 0, 0, 0]
            &&& m.subrange(0x6018, 0x6020) == seq![0u8, 0, 0x0E, 0, 0, 0, 0, 0]
        }),
{
    mp_tables_are_consistent();
    acpi_tables_are_consistent();
    let m = with_acpi_tables(with_mp_tables(mem));
    assert(le16(0x9FC0) =~= seq![0xC0u8, 0x9F]);
    assert(le64(ACPI_RSDP_ADDR as u64) =~= seq![0u8, 0, 0x0E, 0, 0, 0, 0, 0]);
    assert(m.subrange(0x9_FD00, 0x9_FDE0) =~= mp_table());
    assert(m.subrange(0x9_FC00, 0x9_FC10) =~= mp_pointer());
    assert(m.subrange(0xE_1040, 0xE_1080) =~= madt());
    assert(m.subrange(0xE_1000, 0xE_102C) =~= xsdt());
    assert(m.subrange(0xE_0000, 0xE_0024) =~= rsdp());
    assert(m.subrange(0x7070, 0x7078) =~= seq![0u8, 0, 0x0E, 0, 0, 0, 0, 0]);
    assert(m.subrange(0x6018, 0x6020) =~= seq![0u8, 0, 0x0E, 0, 0, 0, 0, 0]);
}

} // verus!

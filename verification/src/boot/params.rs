//! Linux boot parameters and PVH start information.
use vstd::prelude::*;
use vstd::string::*;

use crate::boot::layout::{
    BOOT_PARAMS_ADDR, CMDLINE_ADDR, GUEST_MEM_SIZE, LOW_MEM_SIZE, PVH_INFO_ADDR, PVH_MEMMAP_ADDR,
};
use crate::bytes::{
    le16, le32, le64, le_value, push_bytes, push_le32, push_le64, push_zeros, put_bytes, put_le16, put_le32,
    put_u8, store, zeros,
};

verus! {

/// The ASCII bytes of a text.
pub open spec fn ascii(text: Seq<char>) -> Seq<u8> {
    Seq::new(text.len(), |i: int| text[i] as u8)
}

/// The kernel command line for an ELF kernel, with its terminating zero.
pub open spec fn linux_cmdline(has_disk: bool) -> Seq<u8> {
    ascii(
        if has_disk {
            "console=ttyS0,115200 earlyprintk=serial,ttyS0,115200 nomodules lpj=1000000 no_timer_check tsc=reliable idle=halt root=/dev/vda rw rootwait"@
        } else {
            "console=ttyS0,115200 earlyprintk=serial,ttyS0,115200 nomodules lpj=1000000 no_timer_check tsc=reliable idle=halt rdinit=/init"@
        },
    ).push(0)
}

/// The kernel command line for a bzImage, with its terminating zero.
pub open spec fn bzimage_cmdline(has_disk: bool) -> Seq<u8> {
    ascii(
        if has_disk {
            "console=ttyS0 earlyprintk=serial noapic noacpi root=/dev/vda rw rootwait"@
        } else {
            "console=ttyS0 earlyprintk=serial noapic noacpi pci=off"@
        },
    ).push(0)
}

/// The bytes of an ASCII text and a terminating zero.
fn zero_terminated(text: &str) -> (v: Vec<u8>)
    requires
        is_ascii(text),
    ensures
        v@ == ascii(text@).push(0),
        v@.len() == text@.len() + 1,
{
    let mut v: Vec<u8> = Vec::new();
    push_bytes(&mut v, text.as_bytes());
    assert(v@ =~= ascii(text@)) by {
        is_ascii_spec_bytes(text);
    }
    v.push(0);
    v
}

/// Builds the command line for an ELF kernel.
pub fn build_linux_cmdline(has_disk: bool) -> (v: Vec<u8>)
    ensures
        v@ == linux_cmdline(has_disk),
        v@.len() <= 256,
{
    if has_disk {
        proof {
            reveal_strlit(
                "console=ttyS0,115200 earlyprintk=serial,ttyS0,115200 nomodules lpj=1000000 no_timer_check tsc=reliable idle=halt root=/dev/vda rw rootwait",
            );
        }
        zero_terminated(
            "console=ttyS0,115200 earlyprintk=serial,ttyS0,115200 nomodules lpj=1000000 no_timer_check tsc=reliable idle=halt root=/dev/vda rw rootwait",
        )
    } else {
        proof {
            reveal_strlit(
                "console=ttyS0,115200 earlyprintk=serial,ttyS0,115200 nomodules lpj=1000000 no_timer_check tsc=reliable idle=halt rdinit=/init",
            );
        }
        zero_terminated(
            "console=ttyS0,115200 earlyprintk=serial,ttyS0,115200 nomodules lpj=1000000 no_timer_check tsc=reliable idle=halt rdinit=/init",
        )
    }
}

/// Builds the command line for a bzImage.
pub fn build_bzimage_cmdline(has_disk: bool) -> (v: Vec<u8>)
    ensures
        v@ == bzimage_cmdline(has_disk),
        v@.len() <= 256,
{
    if has_disk {
        proof {
            reveal_strlit(
                "console=ttyS0 earlyprintk=serial noapic noacpi root=/dev/vda rw rootwait",
            );
        }
        zero_terminated("console=ttyS0 earlyprintk=serial noapic noacpi root=/dev/vda rw rootwait")
    } else {
        proof {
            reveal_strlit("console=ttyS0 earlyprintk=serial noapic noacpi pci=off");
        }
        zero_terminated("console=ttyS0 earlyprintk=serial noapic noacpi pci=off")
    }
}

// ─── Memory map ──────────────────────────────────────────────────────────────

/// An entry of the e820 memory map: a range of addresses, and whether it is
/// memory (1) or reserved (2).
pub struct E820Entry {
    pub addr: u64,
    pub size: u64,
    pub kind: u32,
}

/// The memory map: low memory up to the extended BIOS data area, what is
/// reserved up to 1 MiB, and the rest of guest memory.
pub open spec fn e820_map() -> Seq<E820Entry> {
    seq![
        E820Entry { addr: 0, size: 0x9_FC00, kind: 1 },
        E820Entry { addr: 0x9_FC00, size: 0x6_0400, kind: 2 },
        E820Entry { addr: 0x10_0000, size: (GUEST_MEM_SIZE - 0x10_0000) as u64, kind: 1 },
    ]
}

/// The bytes of a memory map entry.
pub open spec fn e820_bytes(e: E820Entry) -> Seq<u8> {
    le64(e.addr) + le64(e.size) + le32(e.kind)
}

/// The memory map starts at zero, has no gap and no overlap, and ends with
/// guest memory; the MP tables lie in what it reserves.
pub proof fn e820_map_covers_guest_memory()
    ensures
        e820_map()[0].addr == 0,
        forall|i: int|
            0 <= i < 2 ==> (#[trigger] e820_map()[i]).addr + e820_map()[i].size == e820_map()[i
                + 1].addr,
        e820_map()[2].addr + e820_map()[2].size == GUEST_MEM_SIZE,
        e820_map()[1].addr <= crate::boot::layout::MP_FP_ADDR,
        crate::boot::layout::MP_TABLE_ADDR + 256 <= e820_map()[1].addr + e820_map()[1].size,
{
    assert(e820_map()[1].addr == 0x9_FC00);
    assert(e820_map()[2].addr == 0x10_0000);
}

// ─── Boot parameters ─────────────────────────────────────────────────────────

/// The zero page for an ELF kernel: the setup header with boot protocol 2.14,
/// the loader type and flags, the command line's address, and the memory map.
pub open spec fn zero_page() -> Seq<u8> {
    let a = store(zeros(4096), 0x202, le32(0x5372_6448));
    let b = store(a, 0x206, le16(0x020E));
    let c = store(b, 0x210, seq![0xFFu8]);
    let d = store(c, 0x211, seq![0xC1u8]);
    let e = store(d, 0x228, le32(CMDLINE_ADDR as u32));
    let f = store(e, 0x1E8, seq![3u8]);
    store(
        f,
        0x2D0,
        e820_bytes(e820_map()[0]) + e820_bytes(e820_map()[1]) + e820_bytes(e820_map()[2]),
    )
}

/// The PVH start information: magic, version 1, the command line and a memory
/// map of one entry.
pub open spec fn pvh_info() -> Seq<u8> {
    le32(0x336e_c578) + le32(1) + zeros(8) + le64(CMDLINE_ADDR as u64) + zeros(16) + le64(
        PVH_MEMMAP_ADDR as u64,
    ) + le32(1) + zeros(204)
}

/// The PVH memory map: all of guest memory.
pub open spec fn pvh_memmap() -> Seq<u8> {
    le64(0) + le64(GUEST_MEM_SIZE as u64) + le32(1)
}

/// Memory with the boot parameters for an ELF kernel.
pub open spec fn with_boot_params(mem: Seq<u8>, has_disk: bool) -> Seq<u8> {
    let a = store(mem, BOOT_PARAMS_ADDR as int, zero_page());
    let b = store(a, CMDLINE_ADDR as int, linux_cmdline(has_disk));
    let c = store(b, PVH_INFO_ADDR as int, pvh_info());
    store(c, PVH_MEMMAP_ADDR as int, pvh_memmap())
}

/// Appends a memory map entry.
fn push_e820(v: &mut Vec<u8>, addr: u64, size: u64, kind: u32)
    ensures
        final(v)@ == old(v)@ + e820_bytes(E820Entry { addr, size, kind }),
{
    let ghost before = v@;
    push_le64(v, addr);
    push_le64(v, size);
    push_le32(v, kind);
    assert(v@ =~= before + e820_bytes(E820Entry { addr, size, kind }));
}

/// Builds the zero page.
fn build_zero_page() -> (page: Vec<u8>)
    ensures
        page@ == zero_page(),
        page@.len() == 4096,
{
    let mut page: Vec<u8> = Vec::new();
    push_zeros(&mut page, 4096);
    assert(page@ =~= zeros(4096));
    put_le32(page.as_mut_slice(), 0x202, 0x5372_6448);
    put_le16(page.as_mut_slice(), 0x206, 0x020E);
    put_u8(page.as_mut_slice(), 0x210, 0xFF);
    put_u8(page.as_mut_slice(), 0x211, 0xC1);
    put_le32(page.as_mut_slice(), 0x228, CMDLINE_ADDR as u32);
    put_u8(page.as_mut_slice(), 0x1E8, 3);
    let mut map: Vec<u8> = Vec::new();
    push_e820(&mut map, 0, 0x9_FC00, 1);
    push_e820(&mut map, 0x9_FC00, 0x6_0400, 2);
    push_e820(&mut map, 0x10_0000, (GUEST_MEM_SIZE - 0x10_0000) as u64, 1);
    assert(map@ =~= e820_bytes(e820_map()[0]) + e820_bytes(e820_map()[1]) + e820_bytes(
        e820_map()[2],
    ));
    assert(map@.len() == 60);
    put_bytes(page.as_mut_slice(), 0x2D0, map.as_slice());
    page
}

/// Builds the PVH start information.
fn build_pvh_info() -> (info: Vec<u8>)
    ensures
        info@ == pvh_info(),
        info@.len() == 256,
{
    let mut info: Vec<u8> = Vec::new();
    push_le32(&mut info, 0x336e_c578);
    push_le32(&mut info, 1);
    push_zeros(&mut info, 8);
    push_le64(&mut info, CMDLINE_ADDR as u64);
    push_zeros(&mut info, 16);
    push_le64(&mut info, PVH_MEMMAP_ADDR as u64);
    push_le32(&mut info, 1);
    push_zeros(&mut info, 204);
    assert(info@ =~= pvh_info());
    info
}

/// Sets up the boot parameters for an ELF kernel: the zero page, the command
/// line, and the PVH start information with its memory map.
pub fn setup_linux_boot_params(mem: &mut [u8], has_disk: bool)
    requires
        old(mem)@.len() >= LOW_MEM_SIZE,
    ensures
        final(mem)@ == with_boot_params(old(mem)@, has_disk),
{
    let page: Vec<u8> = build_zero_page();
    put_bytes(mem, BOOT_PARAMS_ADDR, page.as_slice());
    let cmdline: Vec<u8> = build_linux_cmdline(has_disk);
    put_bytes(mem, CMDLINE_ADDR, cmdline.as_slice());
    let info: Vec<u8> = build_pvh_info();
    put_bytes(mem, PVH_INFO_ADDR, info.as_slice());
    let mut memmap: Vec<u8> = Vec::new();
    push_le64(&mut memmap, 0);
    push_le64(&mut memmap, GUEST_MEM_SIZE as u64);
    push_le32(&mut memmap, 1);
    assert(memmap@ =~= pvh_memmap());
    put_bytes(mem, PVH_MEMMAP_ADDR, memmap.as_slice());
}

/// Memory with the place of an initramfs in the boot parameters.
pub open spec fn with_initrd_fields(mem: Seq<u8>, addr: u64, size: u64) -> Seq<u8> {
    store(
        store(mem, BOOT_PARAMS_ADDR + 0x218, le32(addr as u32)),
        BOOT_PARAMS_ADDR + 0x21C,
        le32(size as u32),
    )
}

/// Sets the place of an initramfs in the boot parameters.
pub fn set_initrd_fields(mem: &mut [u8], addr: u64, size: u64)
    requires
        old(mem)@.len() >= LOW_MEM_SIZE,
    ensures
        final(mem)@ == with_initrd_fields(old(mem)@, addr, size),
{
    put_le32(mem, BOOT_PARAMS_ADDR + 0x218, addr as u32);
    put_le32(mem, BOOT_PARAMS_ADDR + 0x21C, size as u32);
}

/// A command line fits in 256 bytes, its terminating zero with it.
pub proof fn command_lines_fit(has_disk: bool)
    ensures
        linux_cmdline(has_disk).len() <= 256,
        bzimage_cmdline(has_disk).len() <= 256,
        linux_cmdline(has_disk).last() == 0,
        bzimage_cmdline(has_disk).last() == 0,
{
    reveal_strlit(
        "console=ttyS0,115200 earlyprintk=serial,ttyS0,115200 nomodules lpj=1000000 no_timer_check tsc=reliable idle=halt root=/dev/vda rw rootwait",
    );
    reveal_strlit(
        "console=ttyS0,115200 earlyprintk=serial,ttyS0,115200 nomodules lpj=1000000 no_timer_check tsc=reliable idle=halt rdinit=/init",
    );
    reveal_strlit("console=ttyS0 earlyprintk=serial noapic noacpi root=/dev/vda rw rootwait");
    reveal_strlit("console=ttyS0 earlyprintk=serial noapic noacpi pci=off");
}

/// The place of an initramfs is found in the boot parameters: its address at
/// 0x7218 and its size at 0x721C, each in four bytes; all other memory stays as
/// it was.
pub proof fn initrd_fields_are_found(mem: Seq<u8>, addr: u64, size: u64)
    requires
        mem.len() >= 0x10_0000,
        addr <= 0xFFFF_FFFF,
        size <= 0xFFFF_FFFF,
    ensures
        ({
            let m = with_initrd_fields(mem, addr, size);
            &&& le_value(m.subrange(0x7218, 0x721C)) == addr
            &&& le_value(m.subrange(0x721C, 0x7220)) == size
            &&& m.len() == mem.len()
            &&& forall|a: int|
                0 <= a < mem.len() && !(0x7218 <= a < 0x7220) ==> #[trigger] m[a] == mem[a]
        }),
{
    let m = with_initrd_fields(mem, addr, size);
    assert(m.subrange(0x7218, 0x721C) =~= le32(addr as u32));
    assert(m.subrange(0x721C, 0x7220) =~= le32(size as u32));
    crate::bytes::bytes_stand_for_their_number(0, addr as u32, 0);
    crate::bytes::bytes_stand_for_their_number(0, size as u32, 0);
}

/// The command lines: of an ELF kernel its console, its early console, and how it
/// keeps time, and then its root on the disk, or its first program where there is no
/// disk; of a bzImage its console, and then the root on the disk, or no PCI bus. Each
/// ends with a zero.
pub proof fn command_lines_name_the_root(has_disk: bool)
    ensures
        linux_cmdline(has_disk) == ascii(
            "console=ttyS0,115200 earlyprintk=serial,ttyS0,115200 "@
                + "nomodules lpj=1000000 no_timer_check tsc=reliable idle=halt "@ + if has_disk {
                "root=/dev/vda rw rootwait"@
            } else {
                "rdinit=/init"@
            },
        ).push(0),
        bzimage_cmdline(has_disk) == ascii(
            "console=ttyS0 earlyprintk=serial noapic noacpi "@ + if has_disk {
                "root=/dev/vda rw rootwait"@
            } else {
                "pci=off"@
            },
        ).push(0),
{
    reveal_strlit("console=ttyS0,115200 earlyprintk=serial,ttyS0,115200 ");
    reveal_strlit("nomodules lpj=1000000 no_timer_check tsc=reliable idle=halt ");
    reveal_strlit("console=ttyS0 earlyprintk=serial noapic noacpi ");
    reveal_strlit("root=/dev/vda rw rootwait");
    reveal_strlit("rdinit=/init");
    reveal_strlit("pci=off");
    if has_disk {
        reveal_strlit(
            "console=ttyS0,115200 earlyprintk=serial,ttyS0,115200 nomodules lpj=1000000 no_timer_check tsc=reliable idle=halt root=/dev/vda rw rootwait",
        );
        reveal_strlit("console=ttyS0 earlyprintk=serial noapic noacpi root=/dev/vda rw rootwait");
        assert("console=ttyS0,115200 earlyprintk=serial,ttyS0,115200 nomodules lpj=1000000 no_timer_check tsc=reliable idle=halt root=/dev/vda rw rootwait"@
            =~= "console=ttyS0,115200 earlyprintk=serial,ttyS0,115200 "@
            + "nomodules lpj=1000000 no_timer_check tsc=reliable idle=halt "@
            + "root=/dev/vda rw rootwait"@);
        assert("console=ttyS0 earlyprintk=serial noapic noacpi root=/dev/vda rw rootwait"@
            =~= "console=ttyS0 earlyprintk=serial noapic noacpi "@
            + "root=/dev/vda rw rootwait"@);
    } else {
        reveal_strlit(
            "console=ttyS0,115200 earlyprintk=serial,ttyS0,115200 nomodules lpj=1000000 no_timer_check tsc=reliable idle=halt rdinit=/init",
        );
        reveal_strlit("console=ttyS0 earlyprintk=serial noapic noacpi pci=off");
        assert("console=ttyS0,115200 earlyprintk=serial,ttyS0,115200 nomodules lpj=1000000 no_timer_check tsc=reliable idle=halt rdinit=/init"@
            =~= "console=ttyS0,115200 earlyprintk=serial,ttyS0,115200 "@
            + "nomodules lpj=1000000 no_timer_check tsc=reliable idle=halt "@ + "rdinit=/init"@);
        assert("console=ttyS0 earlyprintk=serial noapic noacpi pci=off"@
            =~= "console=ttyS0 earlyprintk=serial noapic noacpi "@ + "pci=off"@);
    }
}

/// The fields of the `i`-th entry of the memory map in the zero page, which has three
/// of 20 bytes from 0x2D0 on.
proof fn map_entries_are_found(i: int)
    requires
        0 <= i < 3,
    ensures
        ({
            let at = 0x2D0 + 20 * i;
            let z = zero_page();
            let e = e820_map()[i];
            &&& le_value(z.subrange(at, at + 8)) == e.addr
            &&& le_value(z.subrange(at + 8, at + 16)) == e.size
            &&& le_value(z.subrange(at + 16, at + 20)) == e.kind
        }),
{
    let at = 0x2D0 + 20 * i;
    let z = zero_page();
    let e = e820_map()[i];
    assert(e820_bytes(e820_map()[0]).len() == 20);
    assert(e820_bytes(e820_map()[1]).len() == 20);
    assert(e820_bytes(e820_map()[2]).len() == 20);
    assert(i == 0 || i == 1 || i == 2);
    let b = e820_bytes(e);
    assert(forall|k: int| 0 <= k < 20 ==> z[at + k] == b[k]);
    assert(z.subrange(at, at + 8) =~= le64(e.addr));
    assert(z.subrange(at + 8, at + 16) =~= le64(e.size));
    assert(z.subrange(at + 16, at + 20) =~= le32(e.kind));
    crate::bytes::bytes_stand_for_their_number(0, e.kind, e.addr);
    crate::bytes::bytes_stand_for_their_number(0, e.kind, e.size);
}

/// The zero page, field by field: the magic HdrS and boot protocol 2.14, the loader's
/// type and flags, the command line at 0x20000, and three entries of the memory map,
/// of which the first and the last are memory up to 0x9FC00 and from 1 MiB up to 512
/// MiB, and the second is reserved. All other bytes are zero.
#[verifier::rlimit(40)]
pub proof fn zero_pages_are_laid_out(i: int)
    requires
        0 <= i < 4096,
    ensures
        ({
            let z = zero_page();
            &&& z.len() == 4096
            &&& z[0x202] == 0x48 && z[0x203] == 0x64 && z[0x204] == 0x72 && z[0x205] == 0x53
            &&& z[0x206] == 0x0E && z[0x207] == 0x02
            &&& z[0x210] == 0xFF && z[0x211] == 0xC1
            &&& z[0x228] == 0 && z[0x229] == 0 && z[0x22A] == 2 && z[0x22B] == 0
            &&& z[0x1E8] == 3
            &&& le_value(z.subrange(0x2D0, 0x2D8)) == 0
            &&& le_value(z.subrange(0x2D8, 0x2E0)) == 0x9_FC00
            &&& le_value(z.subrange(0x2E0, 0x2E4)) == 1
            &&& le_value(z.subrange(0x2E4, 0x2EC)) == 0x9_FC00
            &&& le_value(z.subrange(0x2EC, 0x2F4)) == 0x6_0400
            &&& le_value(z.subrange(0x2F4, 0x2F8)) == 2
            &&& le_value(z.subrange(0x2F8, 0x300)) == 0x10_0000
            &&& le_value(z.subrange(0x300, 0x308)) == 0x1FF0_0000
            &&& le_value(z.subrange(0x308, 0x30C)) == 1
            &&& i != 0x1E8 && !(0x202 <= i < 0x208) && i != 0x210 && i != 0x211 && !(0x228 <= i
                < 0x22C) && !(0x2D0 <= i < 0x30C) ==> z[i] == 0
        }),
{
    map_entries_are_found(0);
    map_entries_are_found(1);
    map_entries_are_found(2);
    let z = zero_page();
    assert(e820_bytes(e820_map()[0]).len() == 20);
    assert(e820_bytes(e820_map()[1]).len() == 20);
    assert(e820_bytes(e820_map()[2]).len() == 20);
    assert(le32(0x5372_6448) =~= seq![0x48u8, 0x64, 0x72, 0x53]);
    assert(le16(0x020E) =~= seq![0x0Eu8, 0x02]);
    assert(le32(CMDLINE_ADDR as u32) =~= seq![0u8, 0, 2, 0]);
}

/// The PVH start information, field by field: its magic and version 1, the command
/// line at 0x20000, and a memory map of one entry at 0x6100, which is all of the 512
/// MiB of memory; all other bytes are zero.
pub proof fn pvh_structures_are_laid_out(i: int)
    requires
        0 <= i < 256,
    ensures
        ({
            let p = pvh_info();
            let m = pvh_memmap();
            &&& p.len() == 256
            &&& le_value(p.subrange(0, 4)) == 0x336E_C578
            &&& le_value(p.subrange(4, 8)) == 1
            &&& le_value(p.subrange(16, 24)) == 0x2_0000
            &&& le_value(p.subrange(40, 48)) == 0x6100
            &&& le_value(p.subrange(48, 52)) == 1
            &&& 8 <= i < 16 || 24 <= i < 40 || 52 <= i ==> p[i] == 0
            &&& m.len() == 20
            &&& le_value(m.subrange(0, 8)) == 0
            &&& le_value(m.subrange(8, 16)) == 0x2000_0000
            &&& le_value(m.subrange(16, 20)) == 1
        }),
{
    let p = pvh_info();
    let m = pvh_memmap();
    crate::bytes::bytes_stand_for_their_number(0, 0x336E_C578, 0x2_0000);
    crate::bytes::bytes_stand_for_their_number(0, 1, 0x6100);
    crate::bytes::bytes_stand_for_their_number(0, 1, 0x2000_0000);
    crate::bytes::bytes_stand_for_their_number(0, 1, 0);
    assert(p.subrange(0, 4) =~= le32(0x336E_C578));
    assert(p.subrange(4, 8) =~= le32(1));
    assert(p.subrange(16, 24) =~= le64(0x2_0000));
    assert(p.subrange(40, 48) =~= le64(0x6100));
    assert(p.subrange(48, 52) =~= le32(1));
    assert(m.subrange(0, 8) =~= le64(0));
    assert(m.subrange(8, 16) =~= le64(0x2000_0000));
    assert(m.subrange(16, 20) =~= le32(1));
}

/// Where the boot parameters of an ELF kernel lie: the zero page at 0x7000, the
/// command line at 0x20000, and the PVH start information at 0x6000 with its memory
/// map at 0x6100; all other memory stays as it was.
pub proof fn boot_parameters_lie_in_their_places(mem: Seq<u8>, has_disk: bool, a: int)
    requires
        mem.len() >= 0x10_0000,
        0 <= a < mem.len(),
    ensures
        ({
            let m = with_boot_params(mem, has_disk);
            let line = linux_cmdline(has_disk);
            &&& m.len() == mem.len()
            &&& m.subrange(0x7000, 0x8000) == zero_page()
            &&& m.subrange(0x2_0000, 0x2_0000int + line.len()) == line
            &&& m.subrange(0x6000, 0x6100) == pvh_info()
            &&& m.subrange(0x6100, 0x6114) == pvh_memmap()
            &&& !(0x6000 <= a < 0x6114) && !(0x7000 <= a < 0x8000) && !(0x2_0000 <= a < 0x2_0000
                + line.len()) ==> m[a] == mem[a]
        }),
{
    command_lines_fit(has_disk);
    zero_pages_are_laid_out(0);
    pvh_structures_are_laid_out(0);
    let m = with_boot_params(mem, has_disk);
    let line = linux_cmdline(has_disk);
    assert(m.subrange(0x7000, 0x8000) =~= zero_page());
    assert(m.subrange(0x2_0000, 0x2_0000int + line.len()) =~= line);
    assert(m.subrange(0x6000, 0x6100) =~= pvh_info());
    assert(m.subrange(0x6100, 0x6114) =~= pvh_memmap());
}

} // verus!

//! The whole of guest memory before boot, and the pages that back device
//! registers.
use vstd::prelude::*;

use crate::boot::layout::{
    ACPI_MADT_ADDR, ACPI_RSDP_ADDR, ACPI_XSDT_ADDR, BOOT_PARAMS_ADDR, DEMO_PAYLOAD_ADDR,
    EBDA_SEGMENT_ADDR, GDT_ADDR,
    GUEST_MEM_SIZE, LOW_MEM_SIZE, MP_FP_ADDR, MP_TABLE_ADDR, PVH_INFO_ADDR,
};
use crate::boot::loader::{
    demo_payload, initramfs_addr, initramfs_fits, kernel_loaded, load_demo_payload, load_initramfs,
    load_kernel, LoadError,
};
use crate::boot::paging::{gdt, has_page_tables, in_page_tables, setup_gdt, setup_page_tables};
use crate::boot::params::{set_initrd_fields, with_initrd_fields};
use crate::boot::tables::{
    acpi_tables_are_consistent, madt, mp_pointer, mp_table, mp_tables_are_consistent, rsdp,
    setup_acpi_tables, with_acpi_tables, with_mp_tables, xsdt,
};
use crate::bytes::{le16, le32, le64, push_zeros, put_le32, store, zeros};

verus! {

/// Memory with an initramfs, where there is one.
pub open spec fn with_initramfs(mem: Seq<u8>, initramfs: Option<Seq<u8>>) -> Seq<u8> {
    match initramfs {
        Some(data) => store(mem, initramfs_addr(data.len() as int), data),
        None => mem,
    }
}

/// Memory with what a kernel finds beside itself, except for the page tables:
/// the descriptor table, the MP and ACPI tables, and the place of an initramfs
/// that is not empty.
pub open spec fn with_kernel_tables(mem: Seq<u8>, initramfs: Option<Seq<u8>>) -> Seq<u8> {
    let m = with_acpi_tables(with_mp_tables(store(mem, GDT_ADDR as int, gdt())));
    match initramfs {
        Some(data) => if data.len() > 0 {
            with_initrd_fields(m, initramfs_addr(data.len() as int) as u64, data.len() as u64)
        } else {
            m
        },
        None => m,
    }
}

/// `after` is `mem` with what a kernel finds beside itself.
pub open spec fn finished(mem: Seq<u8>, after: Seq<u8>, initramfs: Option<Seq<u8>>) -> bool {
    &&& after.len() == mem.len()
    &&& has_page_tables(after)
    &&& forall|a: int|
        0 <= a < mem.len() && !in_page_tables(a) ==> #[trigger] after[a] == with_kernel_tables(
            mem,
            initramfs,
        )[a]
}

/// The bytes of an optional image.
pub open spec fn image_view(image: Option<Vec<u8>>) -> Option<Seq<u8>> {
    match image {
        Some(v) => Some(v@),
        None => None,
    }
}

/// What becomes of memory when the payload is loaded: the kernel, or the demo
/// payload without one.
pub open spec fn payload_loaded(
    before: Seq<u8>,
    after: Seq<u8>,
    kernel: Option<Seq<u8>>,
    has_disk: bool,
    r: Result<u64, LoadError>,
) -> bool {
    match kernel {
        Some(file) => kernel_loaded(before, after, file, has_disk, r),
        None => r == Ok::<u64, LoadError>(DEMO_PAYLOAD_ADDR as u64) && after == store(
            before,
            DEMO_PAYLOAD_ADDR as int,
            demo_payload(),
        ),
    }
}

/// What becomes of memory once the payload is loaded: the initramfs, and for a
/// kernel its tables.
pub open spec fn completed(
    loaded: Seq<u8>,
    after: Seq<u8>,
    kernel: Option<Seq<u8>>,
    initramfs: Option<Seq<u8>>,
    l: Result<u64, LoadError>,
    r: Result<u64, LoadError>,
) -> bool {
    if l is Err {
        r == l && after == loaded
    } else if initramfs matches Some(data) && !initramfs_fits(data.len() as int) {
        r == Err::<u64, LoadError>(LoadError::TooLarge) && after == loaded
    } else if kernel is Some {
        r == l && finished(with_initramfs(loaded, initramfs), after, initramfs)
    } else {
        r == l && after == with_initramfs(loaded, initramfs)
    }
}

/// What becomes of memory when a guest is prepared.
pub open spec fn prepared(
    before: Seq<u8>,
    after: Seq<u8>,
    kernel: Option<Seq<u8>>,
    initramfs: Option<Seq<u8>>,
    has_disk: bool,
    r: Result<u64, LoadError>,
) -> bool {
    exists|loaded: Seq<u8>, l: Result<u64, LoadError>|
        {
            &&& #[trigger] payload_loaded(before, loaded, kernel, has_disk, l)
            &&& completed(loaded, after, kernel, initramfs, l, r)
        }
}

/// Prepares guest memory: loads the kernel, or the demo payload without one,
/// and the initramfs; and sets up the tables for a kernel. Returns the entry.
pub fn prepare_guest(
    mem: &mut [u8],
    kernel: &Option<Vec<u8>>,
    initramfs: &Option<Vec<u8>>,
    has_disk: bool,
) -> (r: Result<u64, LoadError>)
    requires
        old(mem)@.len() >= GUEST_MEM_SIZE,
    ensures
        final(mem)@.len() == old(mem)@.len(),
        prepared(
            old(mem)@,
            final(mem)@,
            image_view(*kernel),
            image_view(*initramfs),
            has_disk,
            r,
        ),
{
    let ghost before = mem@;
    let loaded: Result<u64, LoadError> = match kernel {
        Some(file) => load_kernel(mem, file.as_slice(), has_disk),
        None => Ok(load_demo_payload(mem)),
    };
    let ghost m1 = mem@;
    assert(payload_loaded(before, m1, image_view(*kernel), has_disk, loaded));
    let entry: u64 = match loaded {
        Ok(entry) => entry,
        Err(e) => {
            return Err(e);
        },
    };
    let mut initrd_addr: u64 = 0;
    let mut initrd_size: u64 = 0;
    if let Some(data) = initramfs {
        match load_initramfs(mem, data.as_slice()) {
            Ok(addr) => {
                initrd_addr = addr;
                initrd_size = data.len() as u64;
            },
            Err(e) => {
                return Err(e);
            },
        }
    }
    assert(mem@ == with_initramfs(m1, image_view(*initramfs)));
    if kernel.is_some() {
        let ghost m2 = mem@;
        setup_gdt(mem);
        setup_page_tables(mem);
        let ghost m3 = mem@;
        setup_acpi_tables(mem);
        if initrd_size > 0 {
            set_initrd_fields(mem, initrd_addr, initrd_size);
        }
        proof {
            tables_spare_the_page_tables(m3, mem@, initrd_addr, initrd_size);
            assert forall|a: int| 0 <= a < m2.len() && !in_page_tables(a) implies
                #[trigger] mem@[a] == with_kernel_tables(m2, image_view(*initramfs))[a] by {
                tables_depend_on_the_byte(
                    m3,
                    store(m2, GDT_ADDR as int, gdt()),
                    a,
                    initrd_addr,
                    initrd_size,
                );
            }
            assert(finished(m2, mem@, image_view(*initramfs)));
        }
    }
    Ok(entry)
}

/// Memory with the MP and ACPI tables, and the place of an initramfs of a size
/// other than zero.
pub open spec fn with_tables(mem: Seq<u8>, addr: u64, size: u64) -> Seq<u8> {
    let m = with_acpi_tables(with_mp_tables(mem));
    if size > 0 {
        with_initrd_fields(m, addr, size)
    } else {
        m
    }
}

/// The tables leave the page tables as they are.
#[verifier::rlimit(40)]
proof fn tables_spare_the_page_tables(mem: Seq<u8>, after: Seq<u8>, addr: u64, size: u64)
    requires
        mem.len() >= LOW_MEM_SIZE,
        has_page_tables(mem),
        after == with_tables(mem, addr, size),
    ensures
        after.len() == mem.len(),
        has_page_tables(after),
{
    mp_tables_are_consistent();
    acpi_tables_are_consistent();
    assert forall|a: int| 0xA000 <= a < 0x1_0000 implies #[trigger] after[a] == mem[a] by {}
    assert(crate::bytes::le64_at(after, 0xA000) == crate::bytes::le64_at(mem, 0xA000));
    assert forall|i: int| 0 <= i < 4 implies #[trigger] crate::bytes::le64_at(after, 0xB000 + 8 * i)
        == 0xC000 + i * 0x1000 + 3 by {
        assert(crate::bytes::le64_at(mem, 0xB000 + 8 * i) == 0xC000 + i * 0x1000 + 3);
    }
    assert forall|i: int| 0 <= i < 2048 implies #[trigger] crate::bytes::le64_at(
        after,
        crate::boot::paging::pde_addr(i),
    ) == crate::boot::paging::pde(i) by {
        assert(crate::bytes::le64_at(mem, crate::boot::paging::pde_addr(i))
            == crate::boot::paging::pde(i));
    }
}

/// Each byte of memory with the tables depends on that byte alone.
proof fn tables_depend_on_the_byte(m: Seq<u8>, n: Seq<u8>, a: int, addr: u64, size: u64)
    requires
        m.len() == n.len(),
        0 <= a < m.len(),
        m[a] == n[a],
    ensures
        with_tables(m, addr, size)[a] == with_tables(n, addr, size)[a],
{
}

/// The tables that a kernel finds beside itself do not overlap: after all are
/// written, each is found whole where it was put, and above 1 MiB memory is
/// what the payload and the initramfs made of it.
#[verifier::rlimit(40)]
pub proof fn kernel_tables_are_in_place(mem: Seq<u8>, after: Seq<u8>, initramfs: Option<Seq<u8>>)
    requires
        mem.len() >= LOW_MEM_SIZE,
        finished(mem, after, initramfs),
    ensures
        after.subrange(GDT_ADDR as int, GDT_ADDR + 40) == gdt(),
        after.subrange(MP_TABLE_ADDR as int, MP_TABLE_ADDR + 224) == mp_table(),
        after.subrange(MP_FP_ADDR as int, MP_FP_ADDR + 16) == mp_pointer(),
        after.subrange(EBDA_SEGMENT_ADDR as int, EBDA_SEGMENT_ADDR + 2) == le16(0x9FC0),
        after.subrange(ACPI_MADT_ADDR as int, ACPI_MADT_ADDR + 64) == madt(),
        after.subrange(ACPI_XSDT_ADDR as int, ACPI_XSDT_ADDR + 44) == xsdt(),
        after.subrange(ACPI_RSDP_ADDR as int, ACPI_RSDP_ADDR + 36) == rsdp(),
        after.subrange(BOOT_PARAMS_ADDR + 0x70, BOOT_PARAMS_ADDR + 0x78) == le64(
            ACPI_RSDP_ADDR as u64,
        ),
        after.subrange(PVH_INFO_ADDR + 24, PVH_INFO_ADDR + 32) == le64(ACPI_RSDP_ADDR as u64),
        forall|a: int| LOW_MEM_SIZE <= a < mem.len() ==> #[trigger] after[a] == mem[a],
{
    mp_tables_are_consistent();
    acpi_tables_are_consistent();
    let t = with_kernel_tables(mem, initramfs);
    assert(after.subrange(GDT_ADDR as int, GDT_ADDR + 40) =~= gdt());
    assert(after.subrange(MP_TABLE_ADDR as int, MP_TABLE_ADDR + 224) =~= mp_table());
    assert(after.subrange(MP_FP_ADDR as int, MP_FP_ADDR + 16) =~= mp_pointer());
    assert(after.subrange(EBDA_SEGMENT_ADDR as int, EBDA_SEGMENT_ADDR + 2) =~= le16(0x9FC0));
    assert(after.subrange(ACPI_MADT_ADDR as int, ACPI_MADT_ADDR + 64) =~= madt());
    assert(after.subrange(ACPI_XSDT_ADDR as int, ACPI_XSDT_ADDR + 44) =~= xsdt());
    assert(after.subrange(ACPI_RSDP_ADDR as int, ACPI_RSDP_ADDR + 36) =~= rsdp());
    assert(after.subrange(BOOT_PARAMS_ADDR + 0x70, BOOT_PARAMS_ADDR + 0x78) =~= le64(
        ACPI_RSDP_ADDR as u64,
    ));
    assert(after.subrange(PVH_INFO_ADDR + 24, PVH_INFO_ADDR + 32) =~= le64(ACPI_RSDP_ADDR as u64));
}

// ─── Device pages ────────────────────────────────────────────────────────────

/// The page that backs the I/O APIC: its register select and its version.
pub open spec fn ioapic_page() -> Seq<u8> {
    store(store(zeros(4096), 0, le32(1)), 0x10, le32(0x0017_0011))
}

/// Builds the page that backs the I/O APIC.
pub fn build_ioapic_page() -> (page: Vec<u8>)
    ensures
        page@ == ioapic_page(),
        page@.len() == 4096,
{
    let mut page: Vec<u8> = Vec::new();
    push_zeros(&mut page, 4096);
    assert(page@ =~= zeros(4096));
    put_le32(page.as_mut_slice(), 0, 1);
    put_le32(page.as_mut_slice(), 0x10, 0x0017_0011);
    page
}

/// The page that backs the MSI-X table: two entries, both masked.
pub open spec fn msix_page() -> Seq<u8> {
    store(store(zeros(4096), 12, le32(1)), 28, le32(1))
}

/// Builds the page that backs the MSI-X table.
pub fn build_msix_page() -> (page: Vec<u8>)
    ensures
        page@ == msix_page(),
        page@.len() == 4096,
{
    let mut page: Vec<u8> = Vec::new();
    push_zeros(&mut page, 4096);
    assert(page@ =~= zeros(4096));
    put_le32(page.as_mut_slice(), 12, 1);
    put_le32(page.as_mut_slice(), 28, 1);
    page
}

// ─── Laws ────────────────────────────────────────────────────────────────────

/// The page of the I/O APIC selects register 1 and reads its version, 0x11 with 24
/// inputs; that of the MSI-X table masks both entries. All other bytes are zero.
pub proof fn device_pages_are_preset(i: int)
    requires
        0 <= i < 4096,
    ensures
        ioapic_page().len() == 4096,
        msix_page().len() == 4096,
        ioapic_page()[i] == if i == 0 {
            1
        } else if i == 0x10 {
            0x11
        } else if i == 0x12 {
            0x17
        } else {
            0u8
        },
        msix_page()[i] == if i == 12 || i == 28 {
            1
        } else {
            0u8
        },
{
    assert(le32(1) =~= seq![1u8, 0, 0, 0]);
    assert(le32(0x0017_0011) =~= seq![0x11u8, 0, 0x17, 0]);
}

/// What a guest with a kernel finds in memory above 1 MiB: its initramfs, whole, where
/// there is one, and what the kernel's image made of all the rest; and the kernel's
/// entry is what is returned.
pub proof fn prepared_guests_have_their_images(
    loaded: Seq<u8>,
    after: Seq<u8>,
    kernel: Seq<u8>,
    initramfs: Option<Seq<u8>>,
    l: Result<u64, LoadError>,
    r: Result<u64, LoadError>,
    a: int,
)
    requires
        loaded.len() >= 0x2000_0000,
        completed(loaded, after, Some(kernel), initramfs, l, r),
        r is Ok,
        0x10_0000 <= a < loaded.len(),
    ensures
        r == l,
        match initramfs {
            Some(data) => {
                let at = initramfs_addr(data.len() as int);
                after[a] == if at <= a < at + data.len() { data[a - at] } else { loaded[a] }
            },
            None => after[a] == loaded[a],
        },
{
    kernel_tables_are_in_place(with_initramfs(loaded, initramfs), after, initramfs);
}

/// A kernel finds the place of its initramfs in the boot parameters: the address at
/// 0x7218 and the size at 0x721C, where the initramfs is not empty.
pub proof fn kernels_find_their_initramfs(mem: Seq<u8>, after: Seq<u8>, data: Seq<u8>)
    requires
        mem.len() >= 0x2000_0000,
        finished(mem, after, Some(data)),
        0 < data.len(),
        initramfs_fits(data.len() as int),
    ensures
        crate::bytes::le_value(after.subrange(0x7218, 0x721C)) == initramfs_addr(
            data.len() as int,
        ),
        crate::bytes::le_value(after.subrange(0x721C, 0x7220)) == data.len(),
{
    let addr = initramfs_addr(data.len() as int) as u64;
    let size = data.len() as u64;
    let m = with_acpi_tables(with_mp_tables(store(mem, GDT_ADDR as int, gdt())));
    let t = with_kernel_tables(mem, Some(data));
    crate::boot::loader::initramfs_is_loaded_whole(mem, data);
    mp_tables_are_consistent();
    acpi_tables_are_consistent();
    crate::boot::params::initrd_fields_are_found(m, addr, size);
    assert(after.subrange(0x7218, 0x721C) =~= t.subrange(0x7218, 0x721C));
    assert(after.subrange(0x721C, 0x7220) =~= t.subrange(0x721C, 0x7220));
}

/// Without a kernel the demo payload is loaded at 0x1000, which is its entry, and all
/// other memory stays as it was.
pub proof fn the_demo_payload_lies_in_its_place(
    before: Seq<u8>,
    after: Seq<u8>,
    has_disk: bool,
    r: Result<u64, LoadError>,
    a: int,
)
    requires
        before.len() >= 0x10_0000,
        payload_loaded(before, after, None, has_disk, r),
        0 <= a < before.len(),
    ensures
        r == Ok::<u64, LoadError>(0x1000),
        after.len() == before.len(),
        after.subrange(0x1000, 0x1061) == demo_payload(),
        !(0x1000 <= a < 0x1061) ==> after[a] == before[a],
{
    crate::boot::loader::demo_jumps_are_consistent();
    assert(after.subrange(0x1000, 0x1061) =~= demo_payload());
}

/// What a guest is prepared with: the kernel's image, or the demo payload without one;
/// then the initramfs, which must fit; and then for a kernel its tables. An image that
/// cannot be loaded ends it with its error, and so does an initramfs that does not fit.
pub proof fn guests_are_prepared_in_order(
    before: Seq<u8>,
    after: Seq<u8>,
    kernel: Option<Seq<u8>>,
    initramfs: Option<Seq<u8>>,
    has_disk: bool,
    r: Result<u64, LoadError>,
) -> (m: (Seq<u8>, Result<u64, LoadError>))
    requires
        prepared(before, after, kernel, initramfs, has_disk, r),
    ensures
        payload_loaded(before, m.0, kernel, has_disk, m.1),
        completed(m.0, after, kernel, initramfs, m.1, r),
        m.1 is Err ==> r == m.1 && after == m.0,
        r is Ok ==> r == m.1,
        r is Ok && initramfs is Some ==> initramfs_fits(initramfs->Some_0.len() as int),
        m.1 is Ok && initramfs is Some && !initramfs_fits(initramfs->Some_0.len() as int) ==> r
            == Err::<u64, LoadError>(LoadError::TooLarge),
        kernel matches Some(file) ==> kernel_loaded(before, m.0, file, has_disk, m.1),
        r is Ok && kernel is None && initramfs is None ==> after == m.0,
{
    let (loaded, l) = choose|loaded: Seq<u8>, l: Result<u64, LoadError>|
        {
            &&& #[trigger] payload_loaded(before, loaded, kernel, has_disk, l)
            &&& completed(loaded, after, kernel, initramfs, l, r)
        };
    (loaded, l)
}

} // verus!

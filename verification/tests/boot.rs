use cloud_hypervisor::boot::bootstrap::{
    write_pm_bootstrap, write_pm_bootstrap_to_entry, BOOTSTRAP_KERNEL_ADDR_OFFSET,
};
use cloud_hypervisor::boot::image::{build_ioapic_page, build_msix_page, prepare_guest};
use cloud_hypervisor::boot::layout::{
    ACPI_MADT_ADDR, ACPI_RSDP_ADDR, ACPI_XSDT_ADDR, BOOTSTRAP_ADDR, BOOT_PARAMS_ADDR,
    CMDLINE_ADDR, DEMO_PAYLOAD_ADDR, GDT_ADDR, GDT_DESC_ADDR, GUEST_MEM_SIZE, KERNEL_LOAD_ADDR,
    LOW_MEM_SIZE, MP_FP_ADDR, MP_TABLE_ADDR, PDE_ADDR, PDPTE_ADDR, PML4_ADDR,
};
use cloud_hypervisor::boot::loader::{
    detect_format, load_bzimage, load_demo_payload, load_elf, load_flat_binary, load_initramfs,
    load_kernel, KernelFormat, LoadError,
};
use cloud_hypervisor::boot::paging::{setup_gdt, setup_page_tables};
use cloud_hypervisor::boot::params::{
    build_bzimage_cmdline, build_linux_cmdline, set_initrd_fields, setup_linux_boot_params,
};
use cloud_hypervisor::boot::tables::{
    build_madt, build_mp_pointer, build_mp_table, build_rsdp, build_xsdt, checksum,
    setup_acpi_tables,
};
use cloud_hypervisor::bytes::{
    get_le16, get_le32, get_le64, put_bytes, put_le16, put_le32, put_le64,
};

fn low() -> Vec<u8> {
    vec![0u8; LOW_MEM_SIZE]
}

fn guest() -> Vec<u8> {
    vec![0u8; GUEST_MEM_SIZE]
}

fn sum(bytes: &[u8]) -> u8 {
    bytes.iter().fold(0u8, |a, b| a.wrapping_add(*b))
}

// ─── Paging ──────────────────────────────────────────────────────────────────

#[test]
fn descriptor_table_has_five_entries() {
    let mut mem = low();
    setup_gdt(&mut mem);
    let got: Vec<u64> = (0..5).map(|i| get_le64(&mem, GDT_ADDR + i * 8)).collect();
    assert_eq!(
        got,
        vec![
            0,
            0x00AF_9A00_0000_FFFF,
            0x00CF_9A00_0000_FFFF,
            0x00CF_9200_0000_FFFF,
            0x0000_8B00_0000_FFFF
        ]
    );
    assert_eq!(mem[GDT_ADDR - 1], 0);
    assert_eq!(mem[GDT_ADDR + 40], 0);
}

#[test]
fn page_tables_map_four_gigabytes() {
    let mut mem = low();
    setup_page_tables(&mut mem);
    assert_eq!(get_le64(&mem, PML4_ADDR), 0xB003);
    assert_eq!(get_le64(&mem, PML4_ADDR + 8), 0);
    assert_eq!(get_le64(&mem, PDPTE_ADDR + 24), 0xF003);
    assert_eq!(get_le64(&mem, PDE_ADDR), 0x83);
    assert_eq!(get_le64(&mem, PDE_ADDR + 2047 * 8), 0xFFE0_0083);
    // Walk the tables for a few addresses.
    for addr in [0u64, 0x1234_5678, 0xFEC0_0010, 0xFFFF_FFFF] {
        let top = get_le64(&mem, PML4_ADDR) & !0xFFF;
        let dir = get_le64(&mem, top as usize + (addr >> 30) as usize * 8) & !0xFFF;
        let page = get_le64(&mem, dir as usize + ((addr >> 21) & 511) as usize * 8);
        assert_eq!(page & 0x83, 0x83);
        assert_eq!((page & !0x1F_FFFF) + (addr & 0x1F_FFFF), addr);
    }
}

// ─── Tables ──────────────────────────────────────────────────────────────────

#[test]
fn checksums_complete_a_sum() {
    assert_eq!(checksum(&[]), 0);
    assert_eq!(checksum(&[1, 2, 3]), 250);
    assert_eq!(checksum(&[255, 1]), 0);
}

#[test]
fn mp_table_lists_the_machine() {
    let t = build_mp_table();
    assert_eq!(t.len(), 224);
    assert_eq!(sum(&t), 0);
    assert_eq!(t[..4], *b"PCMP");
    assert_eq!(get_le16(&t, 4), 224);
    assert_eq!(t[6], 4);
    assert_eq!(t[8..28], *b"CLOUDH  WHP DEMO    ");
    assert_eq!(get_le16(&t, 34), 21);
    assert_eq!(get_le32(&t, 36), 0xFEE0_0000);
    assert_eq!(t[44..48], [0, 0, 0x14, 3]);
    assert_eq!(t[64..80], *b"\x01\x00PCI   \x01\x01ISA   ");
    assert_eq!(t[80..84], [2, 0, 0x11, 1]);
    assert_eq!(get_le32(&t, 84), 0xFEC0_0000);
    assert_eq!(t[88 + 5 * 8..88 + 6 * 8], [3, 0, 0, 0, 1, 5, 0, 5]);
    assert_eq!(t[216..], [3, 0, 0x0F, 0, 0, 4, 0, 16]);
}

#[test]
fn mp_pointer_leads_to_the_table() {
    let t = build_mp_pointer();
    assert_eq!(t.len(), 16);
    assert_eq!(sum(&t), 0);
    assert_eq!(t[..4], *b"_MP_");
    assert_eq!(get_le32(&t, 4) as usize, MP_TABLE_ADDR);
    assert_eq!(t[8..10], [1, 4]);
}

#[test]
fn acpi_tables_lead_to_each_other() {
    let mut mem = low();
    setup_acpi_tables(&mut mem);
    assert_eq!(get_le16(&mem, 0x40E), 0x9FC0);
    assert_eq!(mem[MP_FP_ADDR..MP_FP_ADDR + 16], build_mp_pointer()[..]);
    assert_eq!(mem[MP_TABLE_ADDR..MP_TABLE_ADDR + 224], build_mp_table()[..]);
    let rsdp = &mem[ACPI_RSDP_ADDR..ACPI_RSDP_ADDR + 36];
    assert_eq!(rsdp, &build_rsdp()[..]);
    assert_eq!(rsdp[..8], *b"RSD PTR ");
    assert_eq!(sum(&rsdp[..20]), 0);
    assert_eq!(sum(rsdp), 0);
    let xsdt = get_le64(rsdp, 24) as usize;
    assert_eq!(xsdt, ACPI_XSDT_ADDR);
    assert_eq!(mem[xsdt..xsdt + 44], build_xsdt()[..]);
    assert_eq!(mem[xsdt..xsdt + 4], *b"XSDT");
    assert_eq!(sum(&mem[xsdt..xsdt + 44]), 0);
    let madt = get_le64(&mem, xsdt + 36) as usize;
    assert_eq!(madt, ACPI_MADT_ADDR);
    assert_eq!(mem[madt..madt + 64], build_madt()[..]);
    assert_eq!(mem[madt..madt + 4], *b"APIC");
    assert_eq!(get_le32(&mem, madt + 4), 64);
    assert_eq!(mem[madt + 10..madt + 24], *b"CLOUDHCHMADT  ");
    assert_eq!(sum(&mem[madt..madt + 64]), 0);
    assert_eq!(get_le32(&mem, madt + 56), 0xFEC0_0000);
}

// ─── Bootstrap ───────────────────────────────────────────────────────────────

#[test]
fn bootstrap_enters_long_mode() {
    let mut mem = low();
    write_pm_bootstrap(&mut mem);
    assert_eq!(mem[GDT_DESC_ADDR..GDT_DESC_ADDR + 6], [39, 0, 0, 5, 0, 0]);
    let code = &mem[BOOTSTRAP_ADDR..];
    assert_eq!(code[..6], [0xFA, 0x0F, 0x01, 0x16, 0x00, 0x21]);
    // The far jump lands behind itself.
    assert_eq!(code[14..16], [0x66, 0xEA]);
    assert_eq!(get_le32(code, 16), 0x2000 + 22);
    assert_eq!(get_le16(code, 20), 0x10);
    assert_eq!(code[22..26], [0x66, 0xB8, 0x18, 0x00]);
    // The kernel address is loaded into rax.
    assert_eq!(code[BOOTSTRAP_KERNEL_ADDR_OFFSET - 2..BOOTSTRAP_KERNEL_ADDR_OFFSET], [0x48, 0xB8]);
    assert_eq!(get_le64(code, BOOTSTRAP_KERNEL_ADDR_OFFSET), KERNEL_LOAD_ADDR as u64);
}

#[test]
fn pointer_bootstrap_stores_the_entry() {
    let mut mem = low();
    write_pm_bootstrap_to_entry(&mut mem, 0x1234_5678_9ABC);
    assert_eq!(get_le64(&mem, 0x2200), 0x1234_5678_9ABC);
    assert_eq!(mem[GDT_DESC_ADDR..GDT_DESC_ADDR + 6], [39, 0, 0, 5, 0, 0]);
    let code = &mem[BOOTSTRAP_ADDR..];
    assert_eq!(code[14..16], [0x66, 0xEA]);
    assert_eq!(get_le32(code, 16), 0x2000 + 22);
}

// ─── Boot parameters ─────────────────────────────────────────────────────────

#[test]
fn boot_parameters_describe_memory() {
    let mut mem = vec![0xEEu8; LOW_MEM_SIZE];
    setup_linux_boot_params(&mut mem, true);
    let bp = &mem[BOOT_PARAMS_ADDR..];
    assert_eq!(get_le32(bp, 0x202), 0x5372_6448);
    assert_eq!(get_le16(bp, 0x206), 0x020E);
    assert_eq!(bp[0x210..0x212], [0xFF, 0xC1]);
    assert_eq!(get_le32(bp, 0x228) as usize, CMDLINE_ADDR);
    assert_eq!(bp[0x1E8], 3);
    assert_eq!((get_le64(bp, 0x2D0), get_le64(bp, 0x2D8), get_le32(bp, 0x2E0)), (0, 0x9FC00, 1));
    assert_eq!(
        (get_le64(bp, 0x2E4), get_le64(bp, 0x2EC), get_le32(bp, 0x2F4)),
        (0x9FC00, 0x60400, 2)
    );
    assert_eq!(
        (get_le64(bp, 0x2F8), get_le64(bp, 0x300), get_le32(bp, 0x308)),
        (0x10_0000, GUEST_MEM_SIZE as u64 - 0x10_0000, 1)
    );
    assert_eq!(bp[0], 0);
    assert_eq!(bp[4096], 0xEE);
    let info = &mem[0x6000..];
    assert_eq!(get_le32(info, 0), 0x336E_C578);
    assert_eq!(get_le64(info, 40), 0x6100);
    assert_eq!(get_le64(info, 0x108), GUEST_MEM_SIZE as u64);
    let line = build_linux_cmdline(true);
    assert_eq!(mem[CMDLINE_ADDR..CMDLINE_ADDR + line.len()], line[..]);
}

#[test]
fn command_lines_depend_on_the_disk() {
    let text = |v: Vec<u8>| String::from_utf8(v).unwrap();
    assert!(text(build_linux_cmdline(true)).ends_with(" root=/dev/vda rw rootwait\0"));
    assert!(text(build_linux_cmdline(false)).ends_with(" rdinit=/init\0"));
    assert_eq!(
        text(build_bzimage_cmdline(true)),
        "console=ttyS0 earlyprintk=serial noapic noacpi root=/dev/vda rw rootwait\0"
    );
    assert_eq!(
        text(build_bzimage_cmdline(false)),
        "console=ttyS0 earlyprintk=serial noapic noacpi pci=off\0"
    );
}

#[test]
fn initrd_fields_are_set() {
    let mut mem = low();
    set_initrd_fields(&mut mem, 0x1FFF_0000, 0x1234);
    assert_eq!(get_le32(&mem, BOOT_PARAMS_ADDR + 0x218), 0x1FFF_0000);
    assert_eq!(get_le32(&mem, BOOT_PARAMS_ADDR + 0x21C), 0x1234);
}

// ─── Loading ─────────────────────────────────────────────────────────────────

#[test]
fn demo_payload_greets_and_echoes() {
    let mut mem = low();
    assert_eq!(load_demo_payload(&mut mem), DEMO_PAYLOAD_ADDR as u64);
    let p = &mem[0x1000..0x1000 + 98];
    assert_eq!(p[..6], [0xBA, 0xF8, 0x03, 0xB0, b'H', 0xEE]);
    let said: Vec<u8> = (0..20).map(|i| p[3 + i * 3 + 1]).collect();
    assert_eq!(said, b"Hi! Type something> ".to_vec());
    assert_eq!(
        p[63..89],
        [
            0xBA, 0xFD, 0x03, 0xEC, 0xA8, 0x01, 0x74, 0xFB, 0xBA, 0xF8, 0x03, 0xEC, 0x3C, 0x03,
            0x74, 0x0A, 0xEE, 0x3C, 0x0D, 0x75, 0xEB, 0xB0, 0x0A, 0xEE, 0xEB, 0xE6
        ]
    );
    assert_eq!(p[89..], [0xBA, 0x01, 0x05, 0xB0, 0x34, 0xEE, 0xFA, 0xF4, 0]);
}

fn elf(paddr: u64, offset: u64, filesz: u64, memsz: u64, len: usize) -> Vec<u8> {
    let mut file = vec![0u8; len];
    put_bytes(&mut file, 0, b"\x7FELF");
    put_le64(&mut file, 24, 0x100_0000);
    put_le64(&mut file, 32, 64);
    put_le16(&mut file, 54, 56);
    put_le16(&mut file, 56, 2);
    // A note first, which is passed over.
    put_le32(&mut file, 64, 4);
    put_le32(&mut file, 120, 1);
    put_le64(&mut file, 120 + 8, offset);
    put_le64(&mut file, 120 + 24, paddr);
    put_le64(&mut file, 120 + 32, filesz);
    put_le64(&mut file, 120 + 40, memsz);
    file
}

#[test]
fn elf_segments_are_loaded() {
    let mut mem = guest();
    let mut file = elf(0x20_0000, 200, 4, 8, 204);
    put_bytes(&mut file, 200, &[1, 2, 3, 4]);
    assert_eq!(detect_format(&file), KernelFormat::Elf);
    assert_eq!(load_kernel(&mut mem, &file, false), Ok(BOOTSTRAP_ADDR as u64));
    assert_eq!(mem[0x20_0000..0x20_0005], [1, 2, 3, 4, 0]);
    assert_eq!(get_le64(&mem, BOOTSTRAP_ADDR + BOOTSTRAP_KERNEL_ADDR_OFFSET), 0x100_0000);
    assert_eq!(get_le32(&mem, BOOT_PARAMS_ADDR + 0x202), 0x5372_6448);
}

#[test]
fn bad_elf_images_are_refused() {
    let mut mem = guest();
    assert_eq!(load_elf(&mut mem, &[0x7F, b'E', b'L', b'F'], false), Err(LoadError::Truncated));
    let file = elf(0x20_0000, 200, 5, 8, 204);
    assert_eq!(load_elf(&mut mem, &file, false), Err(LoadError::Truncated));
    let file = elf(GUEST_MEM_SIZE as u64 - 4, 200, 4, 8, 204);
    assert_eq!(load_elf(&mut mem, &file, false), Err(LoadError::SegmentOutsideMemory));
    let file = elf(u64::MAX, 200, 4, 8, 204);
    assert_eq!(load_elf(&mut mem, &file, false), Err(LoadError::SegmentOutsideMemory));
    // A segment without bytes in the file is loaded wherever it points.
    let file = elf(0x20_0000, 1 << 40, 0, 8, 204);
    assert_eq!(load_elf(&mut mem, &file, false), Ok(BOOTSTRAP_ADDR as u64));
    let mut file = elf(0x20_0000, 200, 4, 8, 204);
    put_le16(&mut file, 54, 0);
    assert_eq!(load_elf(&mut mem, &file, false), Err(LoadError::MalformedHeader));
    put_le16(&mut file, 54, 3);
    assert_eq!(load_elf(&mut mem, &file, false), Err(LoadError::MalformedHeader));
}

#[test]
fn bzimages_are_loaded() {
    let mut mem = guest();
    let mut image = vec![0u8; 2 * 512 + 5];
    put_bytes(&mut image, 0x202, b"HdrS");
    image[0x1F1] = 1;
    put_bytes(&mut image, 1024, &[9, 8, 7, 6, 5]);
    assert_eq!(detect_format(&image), KernelFormat::BzImage);
    assert_eq!(load_kernel(&mut mem, &image, false), Ok(KERNEL_LOAD_ADDR as u64));
    assert_eq!(mem[KERNEL_LOAD_ADDR..KERNEL_LOAD_ADDR + 6], [9, 8, 7, 6, 5, 0]);
    let bp = &mem[BOOT_PARAMS_ADDR..];
    assert_eq!(bp[0x202..0x206], *b"HdrS");
    assert_eq!(get_le16(bp, 0x1FA), 0xFFFF);
    assert_eq!(bp[0x210..0x212], [0xFF, 0xC1]);
    assert_eq!(get_le32(bp, 0x228) as usize, CMDLINE_ADDR);
    // Zero setup sectors stand for four.
    image[0x1F1] = 0;
    assert_eq!(load_bzimage(&mut mem, &image, false), Err(LoadError::InvalidImage));
}

#[test]
fn flat_binaries_are_loaded() {
    let mut mem = guest();
    assert_eq!(detect_format(&[1, 2, 3]), KernelFormat::Flat);
    assert_eq!(load_kernel(&mut mem, &[1, 2, 3], false), Ok(BOOTSTRAP_ADDR as u64));
    assert_eq!(mem[KERNEL_LOAD_ADDR..KERNEL_LOAD_ADDR + 3], [1, 2, 3]);
    let large = vec![0u8; GUEST_MEM_SIZE - KERNEL_LOAD_ADDR + 1];
    assert_eq!(load_flat_binary(&mut mem, &large), Err(LoadError::TooLarge));
}

#[test]
fn initramfs_lies_at_the_end() {
    let mut mem = guest();
    assert_eq!(load_initramfs(&mut mem, &[1; 5000]), Ok(GUEST_MEM_SIZE as u64 - 0x2000));
    assert_eq!(mem[GUEST_MEM_SIZE - 0x2000 + 4999], 1);
    assert_eq!(mem[GUEST_MEM_SIZE - 0x2000 + 5000], 0);
    let large = vec![0u8; GUEST_MEM_SIZE - 0x20_0000 + 1];
    assert_eq!(load_initramfs(&mut mem, &large), Err(LoadError::TooLarge));
}

#[test]
fn guests_are_prepared() {
    let mut mem = guest();
    assert_eq!(prepare_guest(&mut mem, &None, &None, false), Ok(DEMO_PAYLOAD_ADDR as u64));
    // Without a kernel there are no tables.
    assert_eq!(get_le64(&mem, GDT_ADDR + 8), 0);
    let entry = prepare_guest(&mut mem, &Some(vec![1, 2, 3]), &Some(vec![7; 10]), false);
    assert_eq!(entry, Ok(BOOTSTRAP_ADDR as u64));
    assert_eq!(get_le64(&mem, GDT_ADDR + 8), 0x00AF_9A00_0000_FFFF);
    assert_eq!(get_le64(&mem, PML4_ADDR), 0xB003);
    assert_eq!(mem[MP_FP_ADDR..MP_FP_ADDR + 4], *b"_MP_");
    assert_eq!(get_le32(&mem, BOOT_PARAMS_ADDR + 0x218) as usize, GUEST_MEM_SIZE - 0x1000);
    assert_eq!(get_le32(&mem, BOOT_PARAMS_ADDR + 0x21C), 10);
    assert_eq!(mem[GUEST_MEM_SIZE - 0x1000], 7);
    let bad = prepare_guest(&mut mem, &Some(b"\x7FELF".to_vec()), &None, false);
    assert_eq!(bad, Err(LoadError::Truncated));
}

#[test]
fn register_pages_are_preset() {
    let page = build_ioapic_page();
    assert_eq!(page.len(), 4096);
    assert_eq!(get_le32(&page, 0), 1);
    assert_eq!(get_le32(&page, 0x10), 0x0017_0011);
    let page = build_msix_page();
    assert_eq!(page.len(), 4096);
    assert_eq!(get_le32(&page, 12), 1);
    assert_eq!(get_le32(&page, 28), 1);
    assert_eq!(sum(&page), 2);
}

//! Bootstrap code: real mode, 32-bit protected mode, 64-bit long mode, kernel.
use vstd::prelude::*;

use crate::boot::layout::{
    BOOTSTRAP_ADDR, BOOT_PARAMS_ADDR, ENTRY_POINTER_ADDR, GDT_ADDR, GDT_DESC_ADDR,
    KERNEL_LOAD_ADDR, LOW_MEM_SIZE, PML4_ADDR, PVH_INFO_ADDR,
};
use crate::bytes::{
    le16, le32, le32_at, le64, push_bytes, push_le16, push_le32, push_le64, put_bytes, put_le64,
    store,
};

verus! {

/// Offset in the bootstrap code of the kernel's entry address, the operand of
/// `mov rax, <addr>` in the 64-bit part.
pub const BOOTSTRAP_KERNEL_ADDR_OFFSET: usize = 106;

/// The operand of `lgdt`: the limit and the address of the five descriptors.
pub open spec fn gdt_desc() -> Seq<u8> {
    le16(39) + le32(GDT_ADDR as u32)
}

/// Real mode: `cli`, `lgdt`, set CR0.PE, and a far jump of eight bytes to the
/// 32-bit code segment (0x10), to the instruction behind it.
pub open spec fn real_mode_code() -> Seq<u8> {
    seq![0xFAu8, 0x0F, 0x01, 0x16] + le16(GDT_DESC_ADDR as u16) + seq![
        0x0Fu8,
        0x20,
        0xC0,
        0x0C,
        0x01,
        0x0F,
        0x22,
        0xC0,
        0x66,
        0xEA,
    ] + le32((BOOTSTRAP_ADDR + 22) as u32) + le16(0x10)
}

/// Protected mode, first part: load the data segments (0x18).
pub open spec fn data_segments_code() -> Seq<u8> {
    seq![0x66u8, 0xB8, 0x18, 0x00, 0x8E, 0xD8, 0x8E, 0xC0, 0x8E, 0xD0]
}

/// Set CR4.PAE with a four-byte operand.
pub open spec fn pae_code() -> Seq<u8> {
    seq![0x0Fu8, 0x20, 0xE0, 0x0D, 0x20, 0x00, 0x00, 0x00, 0x0F, 0x22, 0xE0]
}

/// Load CR3 with the page tables.
pub open spec fn page_table_code() -> Seq<u8> {
    seq![0xB8u8] + le32(PML4_ADDR as u32) + seq![0x0Fu8, 0x22, 0xD8]
}

/// Set EFER.LME with `or`.
pub open spec fn long_mode_code() -> Seq<u8> {
    seq![0xB9u8] + le32(0xC000_0080) + seq![
        0x0Fu8,
        0x32,
        0x0D,
        0x00,
        0x01,
        0x00,
        0x00,
        0x0F,
        0x30,
    ]
}

/// Set CR0.PG.
pub open spec fn paging_code() -> Seq<u8> {
    seq![0x0Fu8, 0x20, 0xC0, 0x0D, 0x00, 0x00, 0x00, 0x80, 0x0F, 0x22, 0xC0]
}

/// A far jump of seven bytes to `target` in the 64-bit code segment (0x08).
pub open spec fn far_jump_64(target: u32) -> Seq<u8> {
    seq![0xEAu8] + le32(target) + le16(0x08)
}

/// Long mode: a stack at 0x80000, the boot parameters in RSI, the PVH start
/// information in RBX, and a jump to `entry`.
pub open spec fn kernel_jump_code(entry: u64) -> Seq<u8> {
    seq![0x48u8, 0xC7, 0xC4] + le32(0x8_0000) + seq![0x48u8, 0xC7, 0xC6] + le32(
        BOOT_PARAMS_ADDR as u32,
    ) + seq![0x48u8, 0xC7, 0xC3] + le32(PVH_INFO_ADDR as u32) + seq![0x48u8, 0xB8] + le64(entry)
        + seq![0xFFu8, 0xE0]
}

/// The bootstrap code to a kernel entered at `entry`.
pub open spec fn bootstrap_code(entry: u64) -> Seq<u8> {
    real_mode_code() + data_segments_code() + pae_code() + page_table_code() + long_mode_code()
        + paging_code() + far_jump_64((BOOTSTRAP_ADDR + 83) as u32) + kernel_jump_code(entry)
}

/// The bootstrap code is laid out as its jumps and its entry address say:
/// each far jump goes to the instruction behind it, and the kernel's entry
/// address is at its offset.
pub proof fn bootstrap_jumps_are_consistent(entry: u64)
    ensures
        bootstrap_code(entry).len() == 116,
        real_mode_code().len() == 22,
        le32_at(bootstrap_code(entry), 16) == BOOTSTRAP_ADDR + 22,
        bootstrap_code(entry).subrange(22, 32) == data_segments_code(),
        le32_at(bootstrap_code(entry), 77) == BOOTSTRAP_ADDR + 83,
        bootstrap_code(entry).subrange(83, 116) == kernel_jump_code(entry),
        bootstrap_code(entry).subrange(106, 114) == le64(entry),
        crate::bytes::le64_at(bootstrap_code(entry), 106) == entry,
{
    let c = bootstrap_code(entry);
    crate::bytes::le_bytes_round_trip(0, (BOOTSTRAP_ADDR + 22) as u32, entry);
    crate::bytes::le_bytes_round_trip(0, (BOOTSTRAP_ADDR + 83) as u32, entry);
    assert(c.subrange(22, 32) =~= data_segments_code());
    assert(c.subrange(83, 116) =~= kernel_jump_code(entry));
    assert(c.subrange(106, 114) =~= le64(entry));
    let j = le32((BOOTSTRAP_ADDR + 22) as u32);
    assert(c[16] == j[0] && c[17] == j[1] && c[18] == j[2] && c[19] == j[3]);
    let k = le32((BOOTSTRAP_ADDR + 83) as u32);
    assert(c[77] == k[0] && c[78] == k[1] && c[79] == k[2] && c[80] == k[3]);
    let e = le64(entry);
    assert(c[106] == e[0] && c[107] == e[1] && c[108] == e[2] && c[109] == e[3]);
    assert(c[110] == e[4] && c[111] == e[5] && c[112] == e[6] && c[113] == e[7]);
}

/// Memory with the bootstrap to the kernel at its load address.
pub open spec fn with_bootstrap(mem: Seq<u8>) -> Seq<u8> {
    store(
        store(mem, GDT_DESC_ADDR as int, gdt_desc()),
        BOOTSTRAP_ADDR as int,
        bootstrap_code(KERNEL_LOAD_ADDR as u64),
    )
}

/// Appends the real-mode code.
fn push_real_mode_code(code: &mut Vec<u8>)
    ensures
        final(code)@ == old(code)@ + real_mode_code(),
{
    let ghost before = code@;
    // cli; lgdt [GDT_DESC_ADDR]
    let lgdt: [u8; 4] = [0xFA, 0x0F, 0x01, 0x16];
    push_bytes(code, lgdt.as_slice());
    push_le16(code, GDT_DESC_ADDR as u16);
    // mov eax, cr0; or al, 1; mov cr0, eax; jmp far 0x10:pm32
    let enter: [u8; 10] = [0x0F, 0x20, 0xC0, 0x0C, 0x01, 0x0F, 0x22, 0xC0, 0x66, 0xEA];
    push_bytes(code, enter.as_slice());
    push_le32(code, (BOOTSTRAP_ADDR + 22) as u32);
    push_le16(code, 0x10);
    assert(code@ =~= before + real_mode_code());
}

/// Appends the code that loads the data segments.
fn push_data_segments_code(code: &mut Vec<u8>)
    ensures
        final(code)@ == old(code)@ + data_segments_code(),
{
    // mov ax, 0x18; mov ds, ax; mov es, ax; mov ss, ax
    let bytes: [u8; 10] = [0x66, 0xB8, 0x18, 0x00, 0x8E, 0xD8, 0x8E, 0xC0, 0x8E, 0xD0];
    push_bytes(code, bytes.as_slice());
    assert(bytes@ =~= data_segments_code());
}

/// Appends the code that loads CR3.
fn push_page_table_code(code: &mut Vec<u8>)
    ensures
        final(code)@ == old(code)@ + page_table_code(),
{
    let ghost before = code@;
    // mov eax, PML4_ADDR; mov cr3, eax
    code.push(0xB8);
    push_le32(code, PML4_ADDR as u32);
    let cr3: [u8; 3] = [0x0F, 0x22, 0xD8];
    push_bytes(code, cr3.as_slice());
    assert(code@ =~= before + page_table_code());
}

/// Appends the code that enables paging.
fn push_paging_code(code: &mut Vec<u8>)
    ensures
        final(code)@ == old(code)@ + paging_code(),
{
    // mov eax, cr0; or eax, 0x80000000; mov cr0, eax
    let bytes: [u8; 11] = [0x0F, 0x20, 0xC0, 0x0D, 0x00, 0x00, 0x00, 0x80, 0x0F, 0x22, 0xC0];
    push_bytes(code, bytes.as_slice());
    assert(bytes@ =~= paging_code());
}

/// Appends a far jump to 64-bit code.
fn push_far_jump_64(code: &mut Vec<u8>, target: u32)
    ensures
        final(code)@ == old(code)@ + far_jump_64(target),
{
    let ghost before = code@;
    code.push(0xEA);
    push_le32(code, target);
    push_le16(code, 0x08);
    assert(code@ =~= before + far_jump_64(target));
}

/// Builds the operand of `lgdt`.
fn build_gdt_desc() -> (desc: Vec<u8>)
    ensures
        desc@ == gdt_desc(),
{
    let mut desc: Vec<u8> = Vec::new();
    push_le16(&mut desc, 39);
    push_le32(&mut desc, GDT_ADDR as u32);
    assert(desc@ =~= gdt_desc());
    desc
}

/// Appends the code that enables PAE, loads CR3, and enables long mode.
fn push_long_mode_setup(code: &mut Vec<u8>)
    ensures
        final(code)@ == old(code)@ + pae_code() + page_table_code() + long_mode_code(),
{
    let ghost before = code@;
    // mov eax, cr4; or eax, 0x20; mov cr4, eax
    let pae: [u8; 11] = [0x0F, 0x20, 0xE0, 0x0D, 0x20, 0x00, 0x00, 0x00, 0x0F, 0x22, 0xE0];
    push_bytes(code, pae.as_slice());
    assert(pae@ =~= pae_code());
    push_page_table_code(code);
    let ghost middle = code@;
    // mov ecx, IA32_EFER; rdmsr; or eax, 0x100; wrmsr
    code.push(0xB9);
    push_le32(code, 0xC000_0080);
    let lme: [u8; 9] = [0x0F, 0x32, 0x0D, 0x00, 0x01, 0x00, 0x00, 0x0F, 0x30];
    push_bytes(code, lme.as_slice());
    assert(code@ =~= middle + long_mode_code());
}

/// Appends the jump to the kernel.
fn push_kernel_jump_code(code: &mut Vec<u8>, entry: u64)
    ensures
        final(code)@ == old(code)@ + kernel_jump_code(entry),
{
    let ghost before = code@;
    // mov rsp, 0x80000
    let rsp: [u8; 3] = [0x48, 0xC7, 0xC4];
    push_bytes(code, rsp.as_slice());
    push_le32(code, 0x8_0000);
    // mov rsi, BOOT_PARAMS_ADDR
    let rsi: [u8; 3] = [0x48, 0xC7, 0xC6];
    push_bytes(code, rsi.as_slice());
    push_le32(code, BOOT_PARAMS_ADDR as u32);
    // mov rbx, PVH_INFO_ADDR
    let rbx: [u8; 3] = [0x48, 0xC7, 0xC3];
    push_bytes(code, rbx.as_slice());
    push_le32(code, PVH_INFO_ADDR as u32);
    // mov rax, entry; jmp rax
    let rax: [u8; 2] = [0x48, 0xB8];
    push_bytes(code, rax.as_slice());
    push_le64(code, entry);
    let jmp: [u8; 2] = [0xFF, 0xE0];
    push_bytes(code, jmp.as_slice());
    assert(code@ =~= before + kernel_jump_code(entry));
}

/// Writes the bootstrap that enters the kernel at its load address in 64-bit
/// long mode.
pub fn write_pm_bootstrap(mem: &mut [u8])
    requires
        old(mem)@.len() >= LOW_MEM_SIZE,
    ensures
        final(mem)@ == with_bootstrap(old(mem)@),
{
    let desc: Vec<u8> = build_gdt_desc();
    put_bytes(mem, GDT_DESC_ADDR, desc.as_slice());
    let mut code: Vec<u8> = Vec::new();
    push_real_mode_code(&mut code);
    push_data_segments_code(&mut code);
    push_long_mode_setup(&mut code);
    push_paging_code(&mut code);
    push_far_jump_64(&mut code, (BOOTSTRAP_ADDR + 83) as u32);
    push_kernel_jump_code(&mut code, KERNEL_LOAD_ADDR as u64);
    assert(code@ =~= bootstrap_code(KERNEL_LOAD_ADDR as u64));
    proof {
        bootstrap_jumps_are_consistent(KERNEL_LOAD_ADDR as u64);
    }
    put_bytes(mem, BOOTSTRAP_ADDR, code.as_slice());
}

// ─── Bootstrap through an entry pointer ──────────────────────────────────────

/// Set CR4.PAE with a one-byte operand.
pub open spec fn short_pae_code() -> Seq<u8> {
    seq![0x0Fu8, 0x20, 0xE0, 0x83, 0xC8, 0x20, 0x0F, 0x22, 0xE0]
}

/// Set EFER.LME with `bts`.
pub open spec fn bts_long_mode_code() -> Seq<u8> {
    seq![
        0xB9u8,
        0x80,
        0x00,
        0x00,
        0xC0,
        0x0F,
        0x32,
        0x0F,
        0xBA,
        0xE8,
        0x08,
        0x0F,
        0x30,
    ]
}

/// Load the entry address from `ENTRY_POINTER_ADDR` and jump to it.
pub open spec fn pointer_jump_code() -> Seq<u8> {
    seq![0x48u8, 0xA1] + le64(ENTRY_POINTER_ADDR as u64) + seq![0xFFu8, 0xE0]
}

/// The bootstrap code that enters wherever the entry pointer says.
pub open spec fn pointer_bootstrap_code() -> Seq<u8> {
    real_mode_code() + data_segments_code() + short_pae_code() + page_table_code()
        + bts_long_mode_code() + paging_code() + far_jump_64((BOOTSTRAP_ADDR + 80) as u32)
        + pointer_jump_code()
}

/// The jumps of the bootstrap through the entry pointer go to the instructions
/// behind them.
pub proof fn pointer_bootstrap_jumps_are_consistent()
    ensures
        pointer_bootstrap_code().len() == 92,
        le32_at(pointer_bootstrap_code(), 16) == BOOTSTRAP_ADDR + 22,
        pointer_bootstrap_code().subrange(22, 32) == data_segments_code(),
        le32_at(pointer_bootstrap_code(), 74) == BOOTSTRAP_ADDR + 80,
        pointer_bootstrap_code().subrange(80, 92) == pointer_jump_code(),
{
    let c = pointer_bootstrap_code();
    crate::bytes::le_bytes_round_trip(0, (BOOTSTRAP_ADDR + 22) as u32, 0);
    crate::bytes::le_bytes_round_trip(0, (BOOTSTRAP_ADDR + 80) as u32, 0);
    assert(c.subrange(22, 32) =~= data_segments_code());
    assert(c.subrange(80, 92) =~= pointer_jump_code());
    let j = le32((BOOTSTRAP_ADDR + 22) as u32);
    assert(c[16] == j[0] && c[17] == j[1] && c[18] == j[2] && c[19] == j[3]);
    let k = le32((BOOTSTRAP_ADDR + 80) as u32);
    assert(c[74] == k[0] && c[75] == k[1] && c[76] == k[2] && c[77] == k[3]);
}

/// Writes the bootstrap that enters `entry` in 64-bit long mode through the
/// entry pointer.
pub fn write_pm_bootstrap_to_entry(mem: &mut [u8], entry: u64)
    requires
        old(mem)@.len() >= LOW_MEM_SIZE,
    ensures
        final(mem)@ == store(
            store(
                store(old(mem)@, GDT_DESC_ADDR as int, gdt_desc()),
                ENTRY_POINTER_ADDR as int,
                le64(entry),
            ),
            BOOTSTRAP_ADDR as int,
            pointer_bootstrap_code(),
        ),
{
    let desc: Vec<u8> = build_gdt_desc();
    put_bytes(mem, GDT_DESC_ADDR, desc.as_slice());
    put_le64(mem, ENTRY_POINTER_ADDR, entry);
    let mut code: Vec<u8> = Vec::new();
    push_real_mode_code(&mut code);
    push_data_segments_code(&mut code);
    // mov eax, cr4; or eax, 0x20; mov cr4, eax
    let pae: [u8; 9] = [0x0F, 0x20, 0xE0, 0x83, 0xC8, 0x20, 0x0F, 0x22, 0xE0];
    push_bytes(&mut code, pae.as_slice());
    assert(pae@ =~= short_pae_code());
    push_page_table_code(&mut code);
    // mov ecx, IA32_EFER; rdmsr; bts eax, 8; wrmsr
    let lme: [u8; 13] = [
        0xB9, 0x80, 0x00, 0x00, 0xC0, 0x0F, 0x32, 0x0F, 0xBA, 0xE8, 0x08, 0x0F, 0x30,
    ];
    push_bytes(&mut code, lme.as_slice());
    assert(lme@ =~= bts_long_mode_code());
    push_paging_code(&mut code);
    push_far_jump_64(&mut code, (BOOTSTRAP_ADDR + 80) as u32);
    let ghost front = code@;
    // mov rax, [ENTRY_POINTER_ADDR]; jmp rax
    let load: [u8; 2] = [0x48, 0xA1];
    push_bytes(&mut code, load.as_slice());
    push_le64(&mut code, ENTRY_POINTER_ADDR as u64);
    let jmp: [u8; 2] = [0xFF, 0xE0];
    push_bytes(&mut code, jmp.as_slice());
    assert(code@ =~= front + pointer_jump_code());
    assert(code@ =~= pointer_bootstrap_code());
    proof {
        pointer_bootstrap_jumps_are_consistent();
    }
    put_bytes(mem, BOOTSTRAP_ADDR, code.as_slice());
}

// ─── Laws ────────────────────────────────────────────────────────────────────

/// The parts of the bootstrap code that hold numbers, where its instructions take them
/// from: the operand of `lgdt` at 0x2100, the page tables at 0xA000, the register of
/// EFER, the stack at 0x80000, the boot parameters at 0x7000 and the PVH start
/// information at 0x6000; and the two segments that it jumps to, 0x10 and 0x08.
pub proof fn bootstrap_operands_are_in_place(entry: u64)
    ensures
        ({
            let c = bootstrap_code(entry);
            &&& c.subrange(0, 8) == seq![0xFAu8, 0x0F, 0x01, 0x16, 0x00, 0x21, 0x0F, 0x20]
            &&& c.subrange(14, 22) == seq![0x66u8, 0xEA, 0x16, 0x20, 0x00, 0x00, 0x10, 0x00]
            &&& c.subrange(43, 51) == seq![0xB8u8, 0x00, 0xA0, 0x00, 0x00, 0x0F, 0x22, 0xD8]
            &&& c.subrange(51, 56) == seq![0xB9u8, 0x80, 0x00, 0x00, 0xC0]
            &&& c.subrange(76, 83) == seq![0xEAu8, 0x53, 0x20, 0x00, 0x00, 0x08, 0x00]
            &&& c.subrange(83, 90) == seq![0x48u8, 0xC7, 0xC4, 0x00, 0x00, 0x08, 0x00]
            &&& c.subrange(90, 97) == seq![0x48u8, 0xC7, 0xC6, 0x00, 0x70, 0x00, 0x00]
            &&& c.subrange(97, 104) == seq![0x48u8, 0xC7, 0xC3, 0x00, 0x60, 0x00, 0x00]
            &&& c.subrange(104, 106) == seq![0x48u8, 0xB8]
            &&& c.subrange(114, 116) == seq![0xFFu8, 0xE0]
        }),
        gdt_desc() == seq![39u8, 0, 0x00, 0x05, 0, 0],
{
    let c = bootstrap_code(entry);
    assert(le16(GDT_DESC_ADDR as u16) =~= seq![0x00u8, 0x21]);
    assert(le16(39) =~= seq![39u8, 0]);
    assert(le16(0x10) =~= seq![0x10u8, 0]);
    assert(le16(0x08) =~= seq![0x08u8, 0]);
    assert(le32((BOOTSTRAP_ADDR + 22) as u32) =~= seq![0x16u8, 0x20, 0, 0]);
    assert(le32((BOOTSTRAP_ADDR + 83) as u32) =~= seq![0x53u8, 0x20, 0, 0]);
    assert(le32(PML4_ADDR as u32) =~= seq![0u8, 0xA0, 0, 0]);
    assert(le32(0xC000_0080) =~= seq![0x80u8, 0, 0, 0xC0]);
    assert(le32(0x8_0000) =~= seq![0u8, 0, 0x08, 0]);
    assert(le32(BOOT_PARAMS_ADDR as u32) =~= seq![0u8, 0x70, 0, 0]);
    assert(le32(PVH_INFO_ADDR as u32) =~= seq![0u8, 0x60, 0, 0]);
    assert(le32(GDT_ADDR as u32) =~= seq![0u8, 0x05, 0, 0]);
    assert(c.subrange(0, 8) =~= seq![0xFAu8, 0x0F, 0x01, 0x16, 0x00, 0x21, 0x0F, 0x20]);
    assert(c.subrange(14, 22) =~= seq![0x66u8, 0xEA, 0x16, 0x20, 0x00, 0x00, 0x10, 0x00]);
    assert(c.subrange(43, 51) =~= seq![0xB8u8, 0x00, 0xA0, 0x00, 0x00, 0x0F, 0x22, 0xD8]);
    assert(c.subrange(51, 56) =~= seq![0xB9u8, 0x80, 0x00, 0x00, 0xC0]);
    assert(c.subrange(76, 83) =~= seq![0xEAu8, 0x53, 0x20, 0x00, 0x00, 0x08, 0x00]);
    assert(c.subrange(83, 90) =~= seq![0x48u8, 0xC7, 0xC4, 0x00, 0x00, 0x08, 0x00]);
    assert(c.subrange(90, 97) =~= seq![0x48u8, 0xC7, 0xC6, 0x00, 0x70, 0x00, 0x00]);
    assert(c.subrange(97, 104) =~= seq![0x48u8, 0xC7, 0xC3, 0x00, 0x60, 0x00, 0x00]);
    assert(c.subrange(104, 106) =~= seq![0x48u8, 0xB8]);
    assert(c.subrange(114, 116) =~= seq![0xFFu8, 0xE0]);
    assert(gdt_desc() =~= seq![39u8, 0, 0x00, 0x05, 0, 0]);
}

/// Where the bootstrap lies: its code at 0x2000, with the entry at 1 MiB, and the
/// operand of `lgdt` at 0x2100; all other memory stays as it was.
pub proof fn the_bootstrap_lies_in_its_place(mem: Seq<u8>, a: int)
    requires
        mem.len() >= 0x10_0000,
        0 <= a < mem.len(),
    ensures
        ({
            let m = with_bootstrap(mem);
            &&& m.len() == mem.len()
            &&& m.subrange(0x2000, 0x2074) == bootstrap_code(0x10_0000)
            &&& m.subrange(0x2100, 0x2106) == gdt_desc()
            &&& !(0x2000 <= a < 0x2074) && !(0x2100 <= a < 0x2106) ==> m[a] == mem[a]
        }),
{
    bootstrap_jumps_are_consistent(0x10_0000);
    let m = with_bootstrap(mem);
    assert(m.subrange(0x2000, 0x2074) =~= bootstrap_code(0x10_0000));
    assert(m.subrange(0x2100, 0x2106) =~= gdt_desc());
}

} // verus!

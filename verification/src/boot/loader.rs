//! Payloads: the demo program, kernels in three formats, and an initramfs.
use vstd::prelude::*;

use crate::boot::bootstrap::{
    with_bootstrap, write_pm_bootstrap, BOOTSTRAP_KERNEL_ADDR_OFFSET,
};
use crate::boot::layout::{
    BOOTSTRAP_ADDR, BOOT_PARAMS_ADDR, CMDLINE_ADDR, DEMO_PAYLOAD_ADDR, GUEST_MEM_SIZE,
    INITRAMFS_MIN_ADDR, KERNEL_LOAD_ADDR, LOW_MEM_SIZE,
};
use crate::boot::params::{
    build_bzimage_cmdline, bzimage_cmdline, setup_linux_boot_params, with_boot_params,
};
use crate::bytes::{
    copy_range, get_le16, get_le32, get_le64, le16, le16_at, le32, le32_at, le64, le64_at, le_value,
    little_endian_numbers, put_bytes, put_le16, put_le32, put_le64, put_u8, store,
};

verus! {

/// Why a payload could not be loaded.
#[derive(Debug, Clone, Copy, PartialEq, Eq, Structural)]
pub enum LoadError {
    /// The image ends before what its headers name.
    Truncated,
    /// A header of the image cannot be meant.
    MalformedHeader,
    /// A segment of the image lies outside guest memory.
    SegmentOutsideMemory,
    /// The sizes in the image exceed the file.
    InvalidImage,
    /// The image is larger than guest memory has room for.
    TooLarge,
}

// ─── Demo payload ────────────────────────────────────────────────────────────

/// The greeting of the demo payload: for each character, load it and send it
/// to the serial port.
pub open spec fn greeting(text: Seq<u8>) -> Seq<u8>
    decreases text.len(),
{
    if text.len() == 0 {
        Seq::empty()
    } else {
        greeting(text.drop_last()) + seq![0xB0u8, text.last(), 0xEE]
    }
}

/// The text of the greeting: "Hi! Type something> ".
pub open spec fn greeting_text() -> Seq<u8> {
    seq![
        0x48u8, 0x69, 0x21, 0x20, 0x54, 0x79, 0x70, 0x65, 0x20, 0x73, 0x6F, 0x6D, 0x65, 0x74, 0x68,
        0x69, 0x6E, 0x67, 0x3E, 0x20,
    ]
}

/// The echo loop of the demo payload: wait for a character, read it, shut down
/// on Ctrl+C, send it back, and a line feed behind a carriage return.
pub open spec fn echo_loop() -> Seq<u8> {
    seq![
        0xBAu8, 0xFD, 0x03, 0xEC, 0xA8, 0x01, 0x74, 0xFB, 0xBA, 0xF8, 0x03, 0xEC, 0x3C, 0x03, 0x74,
        0x0A, 0xEE, 0x3C, 0x0D, 0x75, 0xEB, 0xB0, 0x0A, 0xEE, 0xEB, 0xE6,
    ]
}

/// The end of the demo payload: ask for shutdown at the debug exit port and
/// halt.
pub open spec fn shutdown_code() -> Seq<u8> {
    seq![0xBAu8, 0x01, 0x05, 0xB0, 0x34, 0xEE, 0xFA, 0xF4]
}

/// The demo payload.
pub open spec fn demo_payload() -> Seq<u8> {
    seq![0xBAu8, 0xF8, 0x03] + greeting(greeting_text()) + echo_loop() + shutdown_code()
}

proof fn greeting_len(text: Seq<u8>)
    ensures
        greeting(text).len() == 3 * text.len(),
    decreases text.len(),
{
    if text.len() > 0 {
        greeting_len(text.drop_last());
    }
}

/// The target of a jump with a one-byte displacement `d`, whose instruction
/// ends at `end`.
pub open spec fn jump_target(end: int, d: u8) -> int {
    if d < 128 {
        end + d
    } else {
        end + d - 256
    }
}

/// The jumps of the demo payload go where its parts begin: the echo loop
/// starts at offset 63, its wait repeats the read of the line status, Ctrl+C
/// leads to the shutdown code, and the other jumps to the start of the loop.
pub proof fn demo_jumps_are_consistent()
    ensures
        demo_payload().len() == 97,
        demo_payload().subrange(63, 89) == echo_loop(),
        demo_payload().subrange(89, 97) == shutdown_code(),
        jump_target(71, demo_payload()[70]) == 66,
        demo_payload()[66] == 0xEC,
        jump_target(79, demo_payload()[78]) == 89,
        jump_target(84, demo_payload()[83]) == 63,
        jump_target(89, demo_payload()[88]) == 63,
{
    greeting_len(greeting_text());
    let p = demo_payload();
    assert(p.subrange(63, 89) =~= echo_loop());
    assert(p.subrange(89, 97) =~= shutdown_code());
    assert(p[70] == echo_loop()[7] && p[66] == echo_loop()[3] && p[78] == echo_loop()[15]);
    assert(p[83] == echo_loop()[20] && p[88] == echo_loop()[25]);
}

/// Loads the demo payload. Returns its entry.
pub fn load_demo_payload(mem: &mut [u8]) -> (entry: u64)
    requires
        old(mem)@.len() >= LOW_MEM_SIZE,
    ensures
        final(mem)@ == store(old(mem)@, DEMO_PAYLOAD_ADDR as int, demo_payload()),
        entry == DEMO_PAYLOAD_ADDR,
{
    let text: [u8; 20] = [
        0x48, 0x69, 0x21, 0x20, 0x54, 0x79, 0x70, 0x65, 0x20, 0x73, 0x6F, 0x6D, 0x65, 0x74, 0x68,
        0x69, 0x6E, 0x67, 0x3E, 0x20,
    ];
    assert(text@ =~= greeting_text());
    // mov dx, 0x3F8
    let mut payload: Vec<u8> = vec![0xBA, 0xF8, 0x03];
    let ghost head = payload@;
    let mut i: usize = 0;
    assert(text@.take(0) =~= Seq::<u8>::empty());
    while i < 20
        invariant
            i <= 20,
            payload@ == head + greeting(text@.take(i as int)),
        decreases 20 - i,
    {
        // mov al, <char>; out dx, al
        payload.push(0xB0);
        payload.push(text[i]);
        payload.push(0xEE);
        i += 1;
        assert(text@.take(i as int).drop_last() =~= text@.take(i - 1));
        assert(payload@ =~= head + greeting(text@.take(i as int)));
    }
    assert(text@.take(20) =~= text@);
    let echo: [u8; 26] = [
        // mov dx, 0x3FD; in al, dx; test al, 1; jz -5
        0xBA, 0xFD, 0x03, 0xEC, 0xA8, 0x01, 0x74, 0xFB,
        // mov dx, 0x3F8; in al, dx; cmp al, 3; je shutdown
        0xBA, 0xF8, 0x03, 0xEC, 0x3C, 0x03, 0x74, 0x0A,
        // out dx, al; cmp al, '\r'; jne loop
        0xEE, 0x3C, 0x0D, 0x75, 0xEB,
        // mov al, '\n'; out dx, al; jmp loop
        0xB0, 0x0A, 0xEE, 0xEB, 0xE6,
    ];
    assert(echo@ =~= echo_loop());
    crate::bytes::push_bytes(&mut payload, echo.as_slice());
    // mov dx, 0x501; mov al, 0x34; out dx, al; cli; hlt
    let shutdown: [u8; 8] = [0xBA, 0x01, 0x05, 0xB0, 0x34, 0xEE, 0xFA, 0xF4];
    assert(shutdown@ =~= shutdown_code());
    crate::bytes::push_bytes(&mut payload, shutdown.as_slice());
    assert(payload@ =~= demo_payload());
    proof {
        demo_jumps_are_consistent();
    }
    put_bytes(mem, DEMO_PAYLOAD_ADDR, payload.as_slice());
    DEMO_PAYLOAD_ADDR as u64
}

// ─── ELF ─────────────────────────────────────────────────────────────────────

/// The entry address in an ELF header.
pub open spec fn elf_entry(file: Seq<u8>) -> u64 {
    le64_at(file, 24)
}

/// The number of program headers.
pub open spec fn elf_phnum(file: Seq<u8>) -> int {
    le16_at(file, 56) as int
}

/// The size of a program header.
pub open spec fn elf_phentsize(file: Seq<u8>) -> int {
    le16_at(file, 54) as int
}

/// The offset of the `i`-th program header.
pub open spec fn phdr_offset(file: Seq<u8>, i: int) -> int {
    le64_at(file, 32) + i * elf_phentsize(file)
}

/// A range lies in the file, as an empty one always does.
pub open spec fn in_file(file: Seq<u8>, offset: int, len: int) -> bool {
    len == 0 || offset + len <= file.len()
}

/// The bytes of a range that lies in the file.
pub open spec fn file_part(file: Seq<u8>, offset: int, len: int) -> Seq<u8> {
    if len == 0 {
        Seq::empty()
    } else {
        file.subrange(offset, offset + len)
    }
}

/// What is wrong with the `i`-th program header, if anything. A header that is
/// no loadable segment (type 1) is passed over.
pub open spec fn phdr_error(file: Seq<u8>, i: int) -> Option<LoadError> {
    let p = phdr_offset(file, i);
    if p > u64::MAX {
        Some(LoadError::MalformedHeader)
    } else if !in_file(file, p, elf_phentsize(file)) {
        Some(LoadError::Truncated)
    } else if elf_phentsize(file) < 4 {
        Some(LoadError::MalformedHeader)
    } else if le32_at(file, p) != 1 {
        None
    } else if elf_phentsize(file) < 48 {
        Some(LoadError::MalformedHeader)
    } else {
        let offset = le64_at(file, p + 8) as int;
        let paddr = le64_at(file, p + 24) as int;
        let filesz = le64_at(file, p + 32) as int;
        let memsz = le64_at(file, p + 40) as int;
        if paddr + memsz > GUEST_MEM_SIZE {
            Some(LoadError::SegmentOutsideMemory)
        } else if !in_file(file, offset, filesz) {
            Some(LoadError::Truncated)
        } else if paddr + filesz > GUEST_MEM_SIZE {
            Some(LoadError::SegmentOutsideMemory)
        } else {
            None
        }
    }
}

/// Memory after the first `n` program headers.
pub open spec fn with_segments(mem: Seq<u8>, file: Seq<u8>, n: int) -> Seq<u8>
    decreases n,
{
    if n <= 0 {
        mem
    } else {
        let before = with_segments(mem, file, n - 1);
        let p = phdr_offset(file, n - 1);
        if le32_at(file, p) != 1 {
            before
        } else {
            let offset = le64_at(file, p + 8) as int;
            store(
                before,
                le64_at(file, p + 24) as int,
                file_part(file, offset, le64_at(file, p + 32) as int),
            )
        }
    }
}

/// The first `n` program headers can be loaded.
pub open spec fn phdrs_ok(file: Seq<u8>, n: int) -> bool {
    forall|i: int| 0 <= i < n ==> #[trigger] phdr_error(file, i) is None
}

/// The first program header that cannot be loaded fails with `e`, after `mem`
/// was filled from those before it.
pub open spec fn elf_fails(before: Seq<u8>, after: Seq<u8>, file: Seq<u8>, e: LoadError) -> bool {
    exists|i: int|
        {
            &&& 0 <= i < elf_phnum(file)
            &&& phdrs_ok(file, i)
            &&& #[trigger] phdr_error(file, i) == Some(e)
            &&& after == with_segments(before, file, i)
        }
}

/// Memory with an ELF kernel: its segments, the bootstrap to its entry, and
/// the boot parameters.
pub open spec fn with_elf(mem: Seq<u8>, file: Seq<u8>, has_disk: bool) -> Seq<u8> {
    store(
        with_boot_params(
            with_bootstrap(with_segments(mem, file, elf_phnum(file))),
            has_disk,
        ),
        BOOTSTRAP_ADDR + BOOTSTRAP_KERNEL_ADDR_OFFSET,
        le64(elf_entry(file)),
    )
}

/// What becomes of memory when an ELF image is loaded.
pub open spec fn elf_loaded(
    before: Seq<u8>,
    after: Seq<u8>,
    file: Seq<u8>,
    has_disk: bool,
    r: Result<u64, LoadError>,
) -> bool {
    if file.len() < 64 {
        r == Err::<u64, LoadError>(LoadError::Truncated) && after == before
    } else {
        match r {
            Ok(entry) => {
                &&& entry == BOOTSTRAP_ADDR
                &&& phdrs_ok(file, elf_phnum(file))
                &&& after == with_elf(before, file, has_disk)
            },
            Err(e) => elf_fails(before, after, file, e),
        }
    }
}

proof fn with_segments_len(mem: Seq<u8>, file: Seq<u8>, n: int)
    ensures
        with_segments(mem, file, n).len() == mem.len(),
    decreases n,
{
    if n > 0 {
        with_segments_len(mem, file, n - 1);
    }
}

/// Loads the segment of one program header at offset `p`, which lies in the
/// file.
fn load_segment(mem: &mut [u8], file: &[u8], p: usize, phentsize: usize) -> (r: Result<
    (),
    LoadError,
>)
    requires
        old(mem)@.len() >= GUEST_MEM_SIZE,
        p + phentsize <= file@.len(),
    ensures
        final(mem)@.len() == old(mem)@.len(),
        ({
            let f = file@;
            let at = p as int;
            let offset = le64_at(f, at + 8) as int;
            let paddr = le64_at(f, at + 24) as int;
            let filesz = le64_at(f, at + 32) as int;
            let memsz = le64_at(f, at + 40) as int;
            if phentsize < 4 {
                r == Err::<(), LoadError>(LoadError::MalformedHeader)
            } else if le32_at(f, at) != 1 {
                r is Ok && final(mem)@ == old(mem)@
            } else if phentsize < 48 {
                r == Err::<(), LoadError>(LoadError::MalformedHeader)
            } else if paddr + memsz > GUEST_MEM_SIZE {
                r == Err::<(), LoadError>(LoadError::SegmentOutsideMemory)
            } else if !in_file(f, offset, filesz) {
                r == Err::<(), LoadError>(LoadError::Truncated)
            } else if paddr + filesz > GUEST_MEM_SIZE {
                r == Err::<(), LoadError>(LoadError::SegmentOutsideMemory)
            } else {
                r is Ok && final(mem)@ == store(
                    old(mem)@,
                    paddr,
                    file_part(f, offset, filesz),
                )
            }
        }),
        r is Err ==> final(mem)@ == old(mem)@,
{
    let size: usize = file.len();
    if phentsize < 4 {
        return Err(LoadError::MalformedHeader);
    }
    if get_le32(file, p) != 1 {
        return Ok(());
    }
    if phentsize < 48 {
        return Err(LoadError::MalformedHeader);
    }
    let p_offset: u64 = get_le64(file, p + 8);
    let p_paddr: u64 = get_le64(file, p + 24);
    let p_filesz: u64 = get_le64(file, p + 32);
    let p_memsz: u64 = get_le64(file, p + 40);
    let limit: u64 = GUEST_MEM_SIZE as u64;
    if p_paddr > limit || p_memsz > limit - p_paddr {
        return Err(LoadError::SegmentOutsideMemory);
    }
    if p_filesz == 0 {
        assert(store(mem@, p_paddr as int, Seq::empty()) =~= mem@);
        return Ok(());
    }
    if p_offset > size as u64 || p_filesz > size as u64 - p_offset {
        return Err(LoadError::Truncated);
    }
    if p_filesz > limit - p_paddr {
        return Err(LoadError::SegmentOutsideMemory);
    }
    let from: usize = p_offset as usize;
    let data: Vec<u8> = copy_range(file, from, from + p_filesz as usize);
    put_bytes(mem, p_paddr as usize, data.as_slice());
    Ok(())
}

/// Loads an ELF kernel: its loadable segments at their physical addresses, the
/// bootstrap code and the boot parameters. Returns the bootstrap's address.
pub fn load_elf(mem: &mut [u8], file: &[u8], has_disk: bool) -> (r: Result<u64, LoadError>)
    requires
        old(mem)@.len() >= GUEST_MEM_SIZE,
    ensures
        final(mem)@.len() == old(mem)@.len(),
        elf_loaded(old(mem)@, final(mem)@, file@, has_disk, r),
{
    let size: usize = file.len();
    if size < 64 {
        return Err(LoadError::Truncated);
    }
    let entry: u64 = get_le64(file, 24);
    let phoff: u64 = get_le64(file, 32);
    let phentsize: usize = get_le16(file, 54) as usize;
    let phnum: usize = get_le16(file, 56) as usize;
    let ghost before = mem@;
    let mut i: usize = 0;
    while i < phnum
        invariant
            i <= phnum <= 0xFFFF,
            phentsize <= 0xFFFF,
            size == file@.len() >= 64,
            phoff == le64_at(file@, 32),
            phentsize == elf_phentsize(file@),
            phnum == elf_phnum(file@),
            mem@.len() == before.len() >= GUEST_MEM_SIZE,
            before == old(mem)@,
            phdrs_ok(file@, i as int),
            mem@ == with_segments(before, file@, i as int),
        decreases phnum - i,
    {
        assert(0 <= i * phentsize <= 0xFFFF * 0xFFFF) by (nonlinear_arith)
            requires
                i <= 0xFFFF,
                phentsize <= 0xFFFF,
        ;
        let rel: u64 = i as u64 * phentsize as u64;
        let ghost p = phdr_offset(file@, i as int);
        assert(p == phoff + rel);
        if phoff > u64::MAX - rel {
            assert(phdr_error(file@, i as int) == Some(LoadError::MalformedHeader));
            return Err(LoadError::MalformedHeader);
        }
        if phentsize == 0 {
            assert(phdr_error(file@, i as int) == Some(LoadError::MalformedHeader));
            return Err(LoadError::MalformedHeader);
        }
        if phoff + rel > size as u64 || phentsize > size - (phoff + rel) as usize {
            assert(phdr_error(file@, i as int) == Some(LoadError::Truncated));
            return Err(LoadError::Truncated);
        }
        match load_segment(mem, file, (phoff + rel) as usize, phentsize) {
            Ok(_) => {
                assert(phdr_error(file@, i as int) is None);
            },
            Err(e) => {
                assert(phdr_error(file@, i as int) == Some(e));
                return Err(e);
            },
        }
        i += 1;
    }
    write_pm_bootstrap(mem);
    setup_linux_boot_params(mem, has_disk);
    put_le64(mem, BOOTSTRAP_ADDR + BOOTSTRAP_KERNEL_ADDR_OFFSET, entry);
    Ok(BOOTSTRAP_ADDR as u64)
}

// ─── bzImage ─────────────────────────────────────────────────────────────────

/// The size of the setup code: the number of its sectors, four where the image
/// says zero, and the boot sector.
pub open spec fn setup_size(data: Seq<u8>) -> int {
    ((if data[0x1F1] == 0 {
        4int
    } else {
        data[0x1F1] as int
    }) + 1) * 512
}

/// Memory with a bzImage: the kernel at its load address, up to a page of its
/// setup header as boot parameters, and the command line; and in the boot
/// parameters the video mode, the loader's type and flags, and the address of
/// the command line.
pub open spec fn with_bzimage(mem: Seq<u8>, data: Seq<u8>, has_disk: bool) -> Seq<u8> {
    let n = setup_size(data);
    let a = store(mem, KERNEL_LOAD_ADDR as int, data.skip(n));
    let b = store(
        a,
        BOOT_PARAMS_ADDR as int,
        data.take(
            if n < 4096 {
                n
            } else {
                4096
            },
        ),
    );
    let c = store(b, CMDLINE_ADDR as int, bzimage_cmdline(has_disk));
    let d = store(c, BOOT_PARAMS_ADDR + 0x1FA, le16(0xFFFF));
    let e = store(d, BOOT_PARAMS_ADDR + 0x210, seq![0xFFu8]);
    let f = store(e, BOOT_PARAMS_ADDR + 0x211, seq![0xC1u8]);
    store(f, BOOT_PARAMS_ADDR + 0x228, le32(CMDLINE_ADDR as u32))
}

/// What is wrong with a bzImage, if anything.
pub open spec fn bzimage_error(data: Seq<u8>) -> Option<LoadError> {
    if data.len() < setup_size(data) {
        Some(LoadError::InvalidImage)
    } else if KERNEL_LOAD_ADDR + data.len() - setup_size(data) > GUEST_MEM_SIZE {
        Some(LoadError::TooLarge)
    } else {
        None
    }
}

/// Loads a bzImage. Returns the entry of the protected-mode kernel.
pub fn load_bzimage(mem: &mut [u8], data: &[u8], has_disk: bool) -> (r: Result<u64, LoadError>)
    requires
        old(mem)@.len() >= GUEST_MEM_SIZE,
        data@.len() > 0x1F1,
    ensures
        match bzimage_error(data@) {
            None => r == Ok::<u64, LoadError>(KERNEL_LOAD_ADDR as u64) && final(mem)@
                == with_bzimage(old(mem)@, data@, has_disk),
            Some(e) => r == Err::<u64, LoadError>(e) && final(mem)@ == old(mem)@,
        },
        final(mem)@.len() == old(mem)@.len(),
{
    let size: usize = data.len();
    let setup_sects: usize = if data[0x1F1] == 0 {
        4
    } else {
        data[0x1F1] as usize
    };
    let setup: usize = (setup_sects + 1) * 512;
    if size < setup {
        return Err(LoadError::InvalidImage);
    }
    let kernel_size: usize = size - setup;
    if kernel_size > GUEST_MEM_SIZE - KERNEL_LOAD_ADDR {
        return Err(LoadError::TooLarge);
    }
    let kernel: &[u8] = vstd::slice::slice_subrange(data, setup, size);
    put_bytes(mem, KERNEL_LOAD_ADDR, kernel);
    let params_size: usize = if setup < 4096 {
        setup
    } else {
        4096
    };
    let params: &[u8] = vstd::slice::slice_subrange(data, 0, params_size);
    put_bytes(mem, BOOT_PARAMS_ADDR, params);
    let cmdline: Vec<u8> = build_bzimage_cmdline(has_disk);
    put_bytes(mem, CMDLINE_ADDR, cmdline.as_slice());
    put_le16(mem, BOOT_PARAMS_ADDR + 0x1FA, 0xFFFF);
    put_u8(mem, BOOT_PARAMS_ADDR + 0x210, 0xFF);
    put_u8(mem, BOOT_PARAMS_ADDR + 0x211, 0xC1);
    put_le32(mem, BOOT_PARAMS_ADDR + 0x228, CMDLINE_ADDR as u32);
    Ok(KERNEL_LOAD_ADDR as u64)
}

// ─── Flat binary ─────────────────────────────────────────────────────────────

/// Loads a flat binary at the kernel's load address, with the bootstrap to it.
/// Returns the bootstrap's address.
pub fn load_flat_binary(mem: &mut [u8], data: &[u8]) -> (r: Result<u64, LoadError>)
    requires
        old(mem)@.len() >= GUEST_MEM_SIZE,
    ensures
        if KERNEL_LOAD_ADDR + data@.len() > GUEST_MEM_SIZE {
            r == Err::<u64, LoadError>(LoadError::TooLarge) && final(mem)@ == old(mem)@
        } else {
            r == Ok::<u64, LoadError>(BOOTSTRAP_ADDR as u64) && final(mem)@ == with_bootstrap(
                store(old(mem)@, KERNEL_LOAD_ADDR as int, data@),
            )
        },
        final(mem)@.len() == old(mem)@.len(),
{
    if data.len() > GUEST_MEM_SIZE - KERNEL_LOAD_ADDR {
        return Err(LoadError::TooLarge);
    }
    put_bytes(mem, KERNEL_LOAD_ADDR, data);
    write_pm_bootstrap(mem);
    Ok(BOOTSTRAP_ADDR as u64)
}

// ─── Kernels ─────────────────────────────────────────────────────────────────

/// The format of a kernel image.
#[derive(Debug, Clone, Copy, PartialEq, Eq, Structural)]
pub enum KernelFormat {
    Elf,
    BzImage,
    Flat,
}

/// The format of an image: ELF by its first four bytes, a bzImage by HdrS at
/// offset 0x202, and a flat binary otherwise.
pub open spec fn format_of(file: Seq<u8>) -> KernelFormat {
    if file.len() >= 4 && file.take(4) == seq![0x7Fu8, 0x45, 0x4C, 0x46] {
        KernelFormat::Elf
    } else if file.len() > 0x206 && file.subrange(0x202, 0x206) == seq![
        0x48u8,
        0x64,
        0x72,
        0x53,
    ] {
        KernelFormat::BzImage
    } else {
        KernelFormat::Flat
    }
}

/// Detects the format of an image.
pub fn detect_format(file: &[u8]) -> (f: KernelFormat)
    ensures
        f == format_of(file@),
{
    let elf: [u8; 4] = [0x7F, 0x45, 0x4C, 0x46];
    let hdrs: [u8; 4] = [0x48, 0x64, 0x72, 0x53];
    assert(elf@ =~= seq![0x7Fu8, 0x45, 0x4C, 0x46]);
    assert(hdrs@ =~= seq![0x48u8, 0x64, 0x72, 0x53]);
    if file.len() >= 4 && crate::bytes::bytes_equal(
        vstd::slice::slice_subrange(file, 0, 4),
        elf.as_slice(),
    ) {
        KernelFormat::Elf
    } else if file.len() > 0x206 && crate::bytes::bytes_equal(
        vstd::slice::slice_subrange(file, 0x202, 0x206),
        hdrs.as_slice(),
    ) {
        KernelFormat::BzImage
    } else {
        KernelFormat::Flat
    }
}

/// What becomes of memory when a kernel image is loaded.
pub open spec fn kernel_loaded(
    before: Seq<u8>,
    after: Seq<u8>,
    file: Seq<u8>,
    has_disk: bool,
    r: Result<u64, LoadError>,
) -> bool {
    match format_of(file) {
        KernelFormat::Elf => elf_loaded(before, after, file, has_disk, r),
        KernelFormat::BzImage => match bzimage_error(file) {
            None => r == Ok::<u64, LoadError>(KERNEL_LOAD_ADDR as u64) && after == with_bzimage(
                before,
                file,
                has_disk,
            ),
            Some(e) => r == Err::<u64, LoadError>(e) && after == before,
        },
        KernelFormat::Flat => if KERNEL_LOAD_ADDR + file.len() > GUEST_MEM_SIZE {
            r == Err::<u64, LoadError>(LoadError::TooLarge) && after == before
        } else {
            r == Ok::<u64, LoadError>(BOOTSTRAP_ADDR as u64) && after == with_bootstrap(
                store(before, KERNEL_LOAD_ADDR as int, file),
            )
        },
    }
}

/// Loads a kernel image in whichever format it has. Returns the entry.
pub fn load_kernel(mem: &mut [u8], file: &[u8], has_disk: bool) -> (r: Result<u64, LoadError>)
    requires
        old(mem)@.len() >= GUEST_MEM_SIZE,
    ensures
        final(mem)@.len() == old(mem)@.len(),
        kernel_loaded(old(mem)@, final(mem)@, file@, has_disk, r),
{
    match detect_format(file) {
        KernelFormat::Elf => load_elf(mem, file, has_disk),
        KernelFormat::BzImage => load_bzimage(mem, file, has_disk),
        KernelFormat::Flat => load_flat_binary(mem, file),
    }
}

// ─── Initramfs ───────────────────────────────────────────────────────────────

/// Where an initramfs of `size` bytes goes: at the end of guest memory, on a
/// page boundary.
pub open spec fn initramfs_addr(size: int) -> int {
    (GUEST_MEM_SIZE - size) / 0x1000 * 0x1000
}

/// There is room for an initramfs of `size` bytes above 2 MiB.
pub open spec fn initramfs_fits(size: int) -> bool {
    size <= GUEST_MEM_SIZE && initramfs_addr(size) >= INITRAMFS_MIN_ADDR
}

/// An initramfs that fits lies in guest memory, on a page boundary, and less
/// than a page from its end.
pub proof fn initramfs_lies_in_memory(size: int)
    requires
        0 <= size,
        initramfs_fits(size),
    ensures
        initramfs_addr(size) % 0x1000 == 0,
        INITRAMFS_MIN_ADDR <= initramfs_addr(size),
        initramfs_addr(size) + size <= GUEST_MEM_SIZE < initramfs_addr(size) + size + 0x1000,
{
}

/// Loads an initramfs. Returns its address.
pub fn load_initramfs(mem: &mut [u8], data: &[u8]) -> (r: Result<u64, LoadError>)
    requires
        old(mem)@.len() >= GUEST_MEM_SIZE,
    ensures
        if initramfs_fits(data@.len() as int) {
            r == Ok::<u64, LoadError>(initramfs_addr(data@.len() as int) as u64) && final(mem)@
                == store(old(mem)@, initramfs_addr(data@.len() as int), data@)
        } else {
            r == Err::<u64, LoadError>(LoadError::TooLarge) && final(mem)@ == old(mem)@
        },
        final(mem)@.len() == old(mem)@.len(),
{
    let size: usize = data.len();
    if size > GUEST_MEM_SIZE {
        return Err(LoadError::TooLarge);
    }
    let addr: usize = (GUEST_MEM_SIZE - size) / 0x1000 * 0x1000;
    if addr < INITRAMFS_MIN_ADDR {
        return Err(LoadError::TooLarge);
    }
    put_bytes(mem, addr, data);
    Ok(addr as u64)
}

// ─── Laws ────────────────────────────────────────────────────────────────────

/// What a bzImage makes of memory, by the number `sects` of its setup sectors in
/// byte 0x1F1, of which zero stands for four: the kernel starts right behind the
/// boot sector and the setup sectors of 512 bytes each, and every byte of it, up
/// to the end of the image, is found from 1 MiB on. The boot parameters at 0x7000
/// are the setup header, up to a page of it, with the video mode, the loader's
/// type and flags and the address of the command line, which is at 0x20000. All
/// other memory stays as it was. An image that ends before its kernel is refused,
/// and so is one whose kernel does not fit between 1 MiB and 512 MiB.
pub proof fn bzimage_kernel_follows_its_setup(
    mem: Seq<u8>,
    data: Seq<u8>,
    has_disk: bool,
    sects: int,
)
    requires
        mem.len() >= 0x2000_0000,
        data.len() > 0x1F1,
        sects == data[0x1F1] || data[0x1F1] == 0 && sects == 4,
        sects > 0,
    ensures
        bzimage_error(data) == Some(LoadError::InvalidImage) <==> data.len() < 512 * (sects + 1),
        bzimage_error(data) == Some(LoadError::TooLarge) <==> data.len() - 512 * (sects + 1)
            > 0x1FF0_0000,
        bzimage_error(data) is None <==> 0 <= data.len() - 512 * (sects + 1) <= 0x1FF0_0000,
        bzimage_error(data) is None ==> {
            let m = with_bzimage(mem, data, has_disk);
            let n = data.len() - 512 * (sects + 1);
            let line = bzimage_cmdline(has_disk);
            &&& m.len() == mem.len()
            &&& forall|i: int|
                0 <= i < n ==> #[trigger] m[0x10_0000 + i] == data[512 * (sects + 1) + i]
            &&& forall|i: int|
                0 <= i < 4096 && i < 512 * (sects + 1) && !(0x1FA <= i < 0x1FC) && !(0x210 <= i
                    < 0x212) && !(0x228 <= i < 0x22C) ==> #[trigger] m[0x7000 + i] == data[i]
            &&& m[0x71FA] == 0xFF && m[0x71FB] == 0xFF
            &&& m[0x7210] == 0xFF && m[0x7211] == 0xC1
            &&& m[0x7228] == 0 && m[0x7229] == 0 && m[0x722A] == 2 && m[0x722B] == 0
            &&& m.subrange(0x2_0000, 0x2_0000int + line.len()) == line
            &&& forall|a: int|
                0 <= a < 0x10_0000 && !(0x7000 <= a < 0x8000) && !(0x2_0000 <= a < 0x2_0000
                    + line.len()) || 0x10_0000 + n <= a < mem.len() ==> #[trigger] m[a] == mem[a]
        },
{
    let n = data.len() - 512 * (sects + 1);
    assert(setup_size(data) == 512 * (sects + 1));
    if bzimage_error(data) is None {
        crate::boot::params::command_lines_fit(has_disk);
        let m = with_bzimage(mem, data, has_disk);
        let line = bzimage_cmdline(has_disk);
        assert(le32(CMDLINE_ADDR as u32) =~= seq![0u8, 0, 2, 0]);
        assert(le16(0xFFFF) =~= seq![0xFFu8, 0xFF]);
        assert(m.subrange(0x2_0000, 0x2_0000int + line.len()) =~= line);
    }
}

/// The bootstrap and the boot parameters leave memory from 1 MiB on as it is.
proof fn boot_structures_are_low(mem: Seq<u8>, file: Seq<u8>, has_disk: bool)
    requires
        mem.len() >= 0x2000_0000,
    ensures
        with_bootstrap(mem).len() == mem.len(),
        forall|a: int| 0x10_0000 <= a < mem.len() ==> #[trigger] with_bootstrap(mem)[a] == mem[a],
        with_boot_params(mem, has_disk).len() == mem.len(),
        forall|a: int|
            0x10_0000 <= a < mem.len() ==> #[trigger] with_boot_params(mem, has_disk)[a] == mem[a],
{
    crate::boot::params::command_lines_fit(has_disk);
    crate::boot::bootstrap::bootstrap_jumps_are_consistent(KERNEL_LOAD_ADDR as u64);
}

/// A flat binary that fits is found whole from 1 MiB on, all other memory from
/// there on stays as it was, and the entry is the bootstrap at 0x2000. One that
/// does not fit below 512 MiB is refused, and memory stays as it was.
pub proof fn flat_binaries_are_loaded_whole(
    before: Seq<u8>,
    after: Seq<u8>,
    file: Seq<u8>,
    has_disk: bool,
    r: Result<u64, LoadError>,
)
    requires
        before.len() >= 0x2000_0000,
        format_of(file) == KernelFormat::Flat,
        kernel_loaded(before, after, file, has_disk, r),
    ensures
        file.len() > 0x1FF0_0000 ==> r == Err::<u64, LoadError>(LoadError::TooLarge) && after
            == before,
        file.len() <= 0x1FF0_0000 ==> {
            &&& r == Ok::<u64, LoadError>(0x2000)
            &&& after.len() == before.len()
            &&& forall|i: int| 0 <= i < file.len() ==> #[trigger] after[0x10_0000 + i] == file[i]
            &&& forall|a: int|
                0x10_0000 + file.len() <= a < before.len() ==> #[trigger] after[a] == before[a]
        },
{
    if file.len() <= 0x1FF0_0000 {
        let m = store(before, KERNEL_LOAD_ADDR as int, file);
        boot_structures_are_low(m, file, has_disk);
        assert(after == with_bootstrap(m));
        assert forall|i: int| 0 <= i < file.len() implies #[trigger] after[0x10_0000 + i]
            == file[i] by {
            assert(with_bootstrap(m)[0x10_0000 + i] == m[0x10_0000 + i]);
        }
    }
}

/// The format of an image is told by its magic numbers: 0x7F and the letters ELF
/// at its start, the letters HdrS at offset 0x202 of an image that is longer
/// than its header, in this order.
pub proof fn formats_are_told_by_magic(file: Seq<u8>)
    ensures
        format_of(file) == KernelFormat::Elf <==> file.len() >= 4 && file[0] == 0x7F && file[1]
            == 0x45 && file[2] == 0x4C && file[3] == 0x46,
        format_of(file) == KernelFormat::BzImage <==> format_of(file) != KernelFormat::Elf
            && file.len() > 0x206 && file[0x202] == 0x48 && file[0x203] == 0x64 && file[0x204]
            == 0x72 && file[0x205] == 0x53,
{
    let elf = seq![0x7Fu8, 0x45, 0x4C, 0x46];
    let hdrs = seq![0x48u8, 0x64, 0x72, 0x53];
    if file.len() >= 4 {
        if file[0] == 0x7F && file[1] == 0x45 && file[2] == 0x4C && file[3] == 0x46 {
            assert(file.take(4) =~= elf);
        } else if file.take(4) == elf {
            assert(file.take(4)[0] == elf[0] && file.take(4)[1] == elf[1]);
            assert(file.take(4)[2] == elf[2] && file.take(4)[3] == elf[3]);
        }
    }
    if file.len() > 0x206 {
        let h = file.subrange(0x202, 0x206);
        if file[0x202] == 0x48 && file[0x203] == 0x64 && file[0x204] == 0x72 && file[0x205]
            == 0x53 {
            assert(h =~= hdrs);
        } else if h == hdrs {
            assert(h[0] == hdrs[0] && h[1] == hdrs[1] && h[2] == hdrs[2] && h[3] == hdrs[3]);
        }
    }
}

/// The fields of a program header, which starts at `p` in the file: it is
/// loadable, and names `len` bytes at `offset` of the file, that go to `addr`.
pub open spec fn names_segment(file: Seq<u8>, p: int, offset: int, addr: int, len: int) -> bool {
    &&& le_value(file.subrange(p, p + 4)) == 1
    &&& le_value(file.subrange(p + 8, p + 16)) == offset
    &&& le_value(file.subrange(p + 24, p + 32)) == addr
    &&& le_value(file.subrange(p + 32, p + 40)) == len
}

/// Where the `i`-th program header starts: as many header sizes, which bytes 54
/// and 55 of the file hold, behind the offset in its bytes 32 to 39.
pub open spec fn header_start(file: Seq<u8>, i: int) -> int {
    le_value(file.subrange(32, 40)) + i * le_value(file.subrange(54, 56))
}

/// A byte that none of the program headers from `from` up to `to` puts into
/// memory.
pub open spec fn unnamed(file: Seq<u8>, from: int, to: int, a: int) -> bool {
    forall|i: int, offset: int, addr: int, len: int|
        from <= i < to && #[trigger] names_segment(file, header_start(file, i), offset, addr, len)
            ==> !(addr <= a < addr + len)
}

/// The header of a file of 64 bytes or more holds the numbers that lead to its
/// program headers.
proof fn header_numbers(file: Seq<u8>, i: int)
    requires
        file.len() >= 64,
    ensures
        phdr_offset(file, i) == header_start(file, i),
        elf_phnum(file) == le_value(file.subrange(56, 58)),
        elf_phentsize(file) == le_value(file.subrange(54, 56)),
{
    little_endian_numbers(file, 32);
    little_endian_numbers(file, 54);
    little_endian_numbers(file, 56);
}

/// Program headers that can be loaded lie in the file, with all their fields
/// where they are loadable.
proof fn phdrs_lie_in_the_file(file: Seq<u8>, i: int)
    requires
        file.len() >= 64,
        0 <= i,
        phdr_error(file, i) is None,
    ensures
        ({
            let p = phdr_offset(file, i);
            &&& 0 <= p
            &&& p + 4 <= file.len()
            &&& le32_at(file, p) == le_value(file.subrange(p, p + 4))
            &&& le32_at(file, p) == 1 ==> {
                &&& p + 48 <= file.len()
                &&& le64_at(file, p + 8) == le_value(file.subrange(p + 8, p + 16))
                &&& le64_at(file, p + 24) == le_value(file.subrange(p + 24, p + 32))
                &&& le64_at(file, p + 32) == le_value(file.subrange(p + 32, p + 40))
                &&& le64_at(file, p + 40) == le_value(file.subrange(p + 40, p + 48))
            }
        }),
{
    let p = phdr_offset(file, i);
    assert(0 <= i * elf_phentsize(file)) by (nonlinear_arith)
        requires
            0 <= i,
            0 <= elf_phentsize(file),
    ;
    little_endian_numbers(file, p);
    if le32_at(file, p) == 1 {
        little_endian_numbers(file, p + 8);
        little_endian_numbers(file, p + 24);
        little_endian_numbers(file, p + 32);
        little_endian_numbers(file, p + 40);
    }
}

/// A byte of memory after the first `n` program headers: one that none of those
/// from `from` on names is as it was before them.
proof fn unnamed_bytes_stay(mem: Seq<u8>, file: Seq<u8>, from: int, n: int, a: int)
    requires
        file.len() >= 64,
        0 <= from <= n,
        phdrs_ok(file, n),
        0 <= a < mem.len(),
        unnamed(file, from, n, a),
    ensures
        with_segments(mem, file, n)[a] == with_segments(mem, file, from)[a],
    decreases n - from,
{
    if from < n {
        with_segments_len(mem, file, n - 1);
        unnamed_bytes_stay(mem, file, from, n - 1, a);
        let p = phdr_offset(file, n - 1);
        phdrs_lie_in_the_file(file, n - 1);
        assert(phdr_error(file, n - 1) is None);
        if le32_at(file, p) == 1 {
            let offset = le64_at(file, p + 8) as int;
            let addr = le64_at(file, p + 24) as int;
            let len = le64_at(file, p + 32) as int;
            header_numbers(file, n - 1);
            assert(names_segment(file, header_start(file, n - 1), offset, addr, len));
            assert(!(addr <= a < addr + len));
        }
    }
}

/// Memory above 1 MiB with an ELF kernel is what its segments make of it, and
/// the operand of the bootstrap is the entry address.
proof fn elf_memory(mem: Seq<u8>, file: Seq<u8>, has_disk: bool)
    requires
        mem.len() >= 0x2000_0000,
        file.len() >= 64,
    ensures
        with_elf(mem, file, has_disk).len() == mem.len(),
        with_elf(mem, file, has_disk).subrange(0x206A, 0x2072) == file.subrange(24, 32),
        forall|a: int|
            0x10_0000 <= a < mem.len() ==> #[trigger] with_elf(mem, file, has_disk)[a]
                == with_segments(mem, file, elf_phnum(file))[a],
{
    let after = with_elf(mem, file, has_disk);
    let s = with_segments(mem, file, elf_phnum(file));
    with_segments_len(mem, file, elf_phnum(file));
    boot_structures_are_low(s, file, has_disk);
    let b = with_bootstrap(s);
    boot_structures_are_low(b, file, has_disk);
    let p = with_boot_params(b, has_disk);
    let e = file.subrange(24, 32);
    crate::bytes::le64_of_bytes(e);
    assert(le64_at(e, 0) == le64_at(file, 24));
    assert(after == store(p, 0x206A, e));
    assert(after.subrange(0x206A, 0x2072) =~= e);
    assert forall|a: int| 0x10_0000 <= a < mem.len() implies #[trigger] after[a] == s[a] by {
        assert(p[a] == b[a]);
        assert(b[a] == s[a]);
    }
}

/// What an ELF kernel that can be loaded makes of memory above 1 MiB. There are
/// as many program headers as bytes 56 and 57 of the file say. Every byte of a
/// loadable segment is found at its physical address, unless a segment behind it
/// in the table puts another there; and a byte that no segment names is as it
/// was. The bootstrap at 0x2000 is the entry, and its operand at 0x206A is the
/// entry address in bytes 24 to 31 of the file.
#[verifier::rlimit(40)]
pub proof fn elf_segments_are_loaded(
    before: Seq<u8>,
    after: Seq<u8>,
    file: Seq<u8>,
    has_disk: bool,
    r: Result<u64, LoadError>,
    i: int,
    offset: int,
    addr: int,
    len: int,
    a: int,
)
    requires
        before.len() >= 0x2000_0000,
        elf_loaded(before, after, file, has_disk, r),
        r is Ok,
        0x10_0000 <= a < before.len(),
    ensures
        r == Ok::<u64, LoadError>(0x2000),
        after.len() == before.len(),
        file.len() >= 64,
        after.subrange(0x206A, 0x2072) == file.subrange(24, 32),
        ({
            let count = le_value(file.subrange(56, 58)) as int;
            &&& 0 <= i < count && names_segment(file, header_start(file, i), offset, addr, len)
                && addr <= a < addr + len && unnamed(file, i + 1, count, a) ==> after[a]
                == file[offset + a - addr]
            &&& unnamed(file, 0, count, a) ==> after[a] == before[a]
        }),
{
    header_numbers(file, i);
    elf_memory(before, file, has_disk);
    let count = elf_phnum(file);
    assert(after[a] == with_segments(before, file, count)[a]);
    if 0 <= i < count && names_segment(file, header_start(file, i), offset, addr, len) && addr <= a
        < addr + len && unnamed(file, i + 1, count, a) {
        assert(phdr_error(file, i) is None);
        phdrs_lie_in_the_file(file, i);
        with_segments_len(before, file, i);
        unnamed_bytes_stay(before, file, i + 1, count, a);
        assert(with_segments(before, file, i + 1)[a] == file_part(file, offset, len)[a - addr]);
    }
    if unnamed(file, 0, count, a) {
        unnamed_bytes_stay(before, file, 0, count, a);
    }
}

/// What can be wrong with a program header, which starts at `p` and has `size`
/// bytes: it is no whole header in the file, or it is loadable and its segment
/// lies outside the file or beyond 512 MiB of memory.
pub open spec fn is_bad_header(file: Seq<u8>, p: int, size: int) -> bool {
    ||| size < 4
    ||| p + size > file.len()
    ||| le_value(file.subrange(p, p + 4)) == 1 && {
        let offset = le_value(file.subrange(p + 8, p + 16));
        let addr = le_value(file.subrange(p + 24, p + 32));
        let len = le_value(file.subrange(p + 32, p + 40));
        let space = le_value(file.subrange(p + 40, p + 48));
        ||| size < 48
        ||| addr + space > 0x2000_0000
        ||| addr + len > 0x2000_0000
        ||| len > 0 && offset + len > file.len()
    }
}

/// A program header is refused exactly where something is wrong with it.
#[verifier::rlimit(40)]
proof fn bad_headers_are_refused(file: Seq<u8>, i: int)
    requires
        file.len() >= 64,
        file.len() <= u64::MAX,
        0 <= i,
    ensures
        phdr_error(file, i) is Some <==> is_bad_header(
            file,
            header_start(file, i),
            elf_phentsize(file),
        ),
{
    header_numbers(file, i);
    let size = elf_phentsize(file);
    let p = phdr_offset(file, i);
    assert(0 <= i * size) by (nonlinear_arith)
        requires
            0 <= i,
            0 <= size,
    ;
    if size >= 4 && p + size <= file.len() {
        little_endian_numbers(file, p);
        if size >= 48 {
            little_endian_numbers(file, p + 8);
            little_endian_numbers(file, p + 24);
            little_endian_numbers(file, p + 32);
            little_endian_numbers(file, p + 40);
        }
    }
}

/// An ELF image of 64 bytes or more is loaded exactly where none of its program
/// headers is bad.
pub proof fn elf_images_are_loaded_without_a_bad_header(
    before: Seq<u8>,
    after: Seq<u8>,
    file: Seq<u8>,
    has_disk: bool,
    r: Result<u64, LoadError>,
)
    requires
        elf_loaded(before, after, file, has_disk, r),
        file.len() <= u64::MAX,
    ensures
        r is Ok <==> file.len() >= 64 && forall|i: int|
            0 <= i < le_value(file.subrange(56, 58)) ==> !is_bad_header(
                file,
                #[trigger] header_start(file, i),
                le_value(file.subrange(54, 56)) as int,
            ),
{
    if file.len() >= 64 {
        header_numbers(file, 0);
        if r is Ok {
            assert forall|i: int| 0 <= i < le_value(file.subrange(56, 58)) implies !is_bad_header(
                file,
                #[trigger] header_start(file, i),
                le_value(file.subrange(54, 56)) as int,
            ) by {
                bad_headers_are_refused(file, i);
                assert(phdr_error(file, i) is None);
            }
        } else {
            let e = r->Err_0;
            let i = choose|i: int|
                0 <= i < elf_phnum(file) && phdrs_ok(file, i) && #[trigger] phdr_error(file, i)
                    == Some(e);
            bad_headers_are_refused(file, i);
            assert(is_bad_header(
                file,
                header_start(file, i),
                le_value(file.subrange(54, 56)) as int,
            ));
        }
    }
}

/// An initramfs that is loaded is found whole on a page boundary as high in the
/// 512 MiB of memory as it fits, and all other memory stays as it was.
pub proof fn initramfs_is_loaded_whole(mem: Seq<u8>, data: Seq<u8>)
    requires
        mem.len() >= 0x2000_0000,
    ensures
        initramfs_fits(data.len() as int) <==> data.len() <= 0x2000_0000 - 0x20_0000,
        initramfs_fits(data.len() as int) ==> {
            let at = initramfs_addr(data.len() as int);
            let m = store(mem, at, data);
            &&& at % 0x1000 == 0
            &&& at + data.len() <= 0x2000_0000 < at + data.len() + 0x1000
            &&& forall|i: int| 0 <= i < data.len() ==> #[trigger] m[at + i] == data[i]
            &&& forall|a: int|
                0 <= a < mem.len() && !(at <= a < at + data.len()) ==> #[trigger] m[a] == mem[a]
        },
{
}

/// A program header of an ELF file that is loadable, at place `i` of a table, names its
/// segment: its fields in little-endian order are its type, its flags, its offset in the
/// file, its virtual and its physical address and its sizes in the file and in memory.
pub proof fn program_headers_are_made_of_their_fields(
    file: Seq<u8>,
    i: int,
    table: u64,
    size: u16,
    flags: u32,
    offset: u64,
    vaddr: u64,
    paddr: u64,
    filesz: u64,
    memsz: u64,
)
    requires
        file.len() >= 64,
        0 <= i,
        file.subrange(32, 40) == le64(table),
        file.subrange(54, 56) == le16(size),
        table + i * size + 48 <= file.len(),
        file.subrange(table + i * size, table + i * size + 48) == le32(1) + le32(flags) + le64(
            offset,
        ) + le64(vaddr) + le64(paddr) + le64(filesz) + le64(memsz),
    ensures
        header_start(file, i) == table + i * size,
        names_segment(
            file,
            header_start(file, i),
            offset as int,
            paddr as int,
            filesz as int,
        ),
{
    crate::bytes::bytes_stand_for_their_number(size, 1, table);
    assert(0 <= i * size) by (nonlinear_arith)
        requires
            0 <= i,
            0 <= size,
    ;
    let p = table + i * size;
    assert(header_start(file, i) == p);
    segment_fields(file, p, flags, offset, vaddr, paddr, filesz, memsz);
}

/// The fields of a program header at `p`.
#[verifier::rlimit(40)]
proof fn segment_fields(
    file: Seq<u8>,
    p: int,
    flags: u32,
    offset: u64,
    vaddr: u64,
    paddr: u64,
    filesz: u64,
    memsz: u64,
)
    requires
        0 <= p,
        p + 48 <= file.len(),
        file.subrange(p, p + 48) == le32(1) + le32(flags) + le64(offset) + le64(vaddr) + le64(paddr)
            + le64(filesz) + le64(memsz),
    ensures
        names_segment(file, p, offset as int, paddr as int, filesz as int),
{
    let w = file.subrange(p, p + 48);
    assert(file.subrange(p, p + 4) =~= w.subrange(0, 4));
    assert(file.subrange(p + 8, p + 16) =~= w.subrange(8, 16));
    assert(file.subrange(p + 24, p + 32) =~= w.subrange(24, 32));
    assert(file.subrange(p + 32, p + 40) =~= w.subrange(32, 40));
    assert(w.subrange(0, 4) =~= le32(1));
    assert(w.subrange(8, 16) =~= le64(offset));
    assert(w.subrange(24, 32) =~= le64(paddr));
    assert(w.subrange(32, 40) =~= le64(filesz));
    crate::bytes::bytes_stand_for_their_number(0, 1, offset);
    crate::bytes::bytes_stand_for_their_number(0, 1, paddr);
    crate::bytes::bytes_stand_for_their_number(0, 1, filesz);
}

/// A kernel is loaded by its format: an ELF image as one, with the bootstrap for its
/// entry; a bzImage, where nothing is wrong with it, with its own entry at 1 MiB.
pub proof fn kernels_are_loaded_by_format(
    before: Seq<u8>,
    after: Seq<u8>,
    file: Seq<u8>,
    has_disk: bool,
    r: Result<u64, LoadError>,
)
    requires
        kernel_loaded(before, after, file, has_disk, r),
    ensures
        format_of(file) == KernelFormat::Elf ==> elf_loaded(before, after, file, has_disk, r),
        format_of(file) == KernelFormat::Elf && r is Ok ==> r == Ok::<u64, LoadError>(0x2000),
        format_of(file) == KernelFormat::BzImage ==> match bzimage_error(file) {
            None => r == Ok::<u64, LoadError>(0x10_0000) && after == with_bzimage(
                before,
                file,
                has_disk,
            ),
            Some(e) => r == Err::<u64, LoadError>(e) && after == before,
        },
{
}

/// An ELF image that is refused leaves memory as its first program headers, up to the
/// bad one, have made it; above 1 MiB and below, a byte that none of them names stays.
pub proof fn refused_elf_images_stop_at_the_bad_header(
    before: Seq<u8>,
    after: Seq<u8>,
    file: Seq<u8>,
    has_disk: bool,
    r: Result<u64, LoadError>,
    a: int,
)
    requires
        elf_loaded(before, after, file, has_disk, r),
        r is Err,
        0 <= a < before.len(),
        file.len() >= 64 ==> unnamed(file, 0, le_value(file.subrange(56, 58)) as int, a),
    ensures
        after.len() == before.len(),
        after[a] == before[a],
{
    if file.len() >= 64 {
        header_numbers(file, 0);
        let e = r->Err_0;
        let i = choose|i: int|
            {
                &&& 0 <= i < elf_phnum(file)
                &&& phdrs_ok(file, i)
                &&& #[trigger] phdr_error(file, i) == Some(e)
                &&& after == with_segments(before, file, i)
            };
        with_segments_len(before, file, i);
        unnamed_bytes_stay(before, file, 0, i, a);
    }
}

} // verus!

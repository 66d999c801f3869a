//! Where the boot structures lie in guest memory.
use vstd::prelude::*;

verus! {

/// Size of guest memory: 512 MiB.
pub const GUEST_MEM_SIZE: usize = 0x2000_0000;

/// End of the memory that holds the boot structures: 1 MiB.
pub const LOW_MEM_SIZE: usize = 0x10_0000;

/// Segment of the extended BIOS data area, in the BIOS data area.
pub const EBDA_SEGMENT_ADDR: usize = 0x40E;

/// Global descriptor table.
pub const GDT_ADDR: usize = 0x500;

/// Entry of the demo payload.
pub const DEMO_PAYLOAD_ADDR: usize = 0x1000;

/// Real-mode bootstrap code.
pub const BOOTSTRAP_ADDR: usize = 0x2000;

/// Operand of `lgdt` in the bootstrap code.
pub const GDT_DESC_ADDR: usize = 0x2100;

/// Entry address that the bootstrap to a given entry loads.
pub const ENTRY_POINTER_ADDR: usize = 0x2200;

/// PVH start information.
pub const PVH_INFO_ADDR: usize = 0x6000;

/// PVH memory map.
pub const PVH_MEMMAP_ADDR: usize = 0x6100;

/// Linux boot parameters, the zero page.
pub const BOOT_PARAMS_ADDR: usize = 0x7000;

/// Top-level page table.
pub const PML4_ADDR: usize = 0xA000;

/// Page directory pointer table.
pub const PDPTE_ADDR: usize = 0xB000;

/// Page directories, four pages.
pub const PDE_ADDR: usize = 0xC000;

/// Kernel command line.
pub const CMDLINE_ADDR: usize = 0x2_0000;

/// MP floating pointer, at the start of the extended BIOS data area.
pub const MP_FP_ADDR: usize = 0x9_FC00;

/// MP configuration table.
pub const MP_TABLE_ADDR: usize = 0x9_FD00;

/// ACPI root pointer.
pub const ACPI_RSDP_ADDR: usize = 0xE_0000;

/// ACPI extended system description table.
pub const ACPI_XSDT_ADDR: usize = 0xE_1000;

/// ACPI interrupt controller table.
pub const ACPI_MADT_ADDR: usize = 0xE_1040;

/// Protected-mode kernel: 1 MiB.
pub const KERNEL_LOAD_ADDR: usize = 0x10_0000;

/// Lowest address of an initramfs: 2 MiB.
pub const INITRAMFS_MIN_ADDR: usize = 0x20_0000;

} // verus!

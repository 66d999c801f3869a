use cloud_hypervisor::blk::config::PciBlkDevice;
use cloud_hypervisor::disk::MemDisk;
use cloud_hypervisor::ports::{
    fill, merge_le32, read_pit_counter, read_port61, spread_le32, MmioAction, PioAction,
    SerialVmOps, ShutdownRequested, DEBUG_EXIT_PORT,
};

fn write(ops: &mut SerialVmOps, port: u64, data: &[u8]) -> Result<PioAction, ShutdownRequested> {
    let mut ram = vec![0u8; 64];
    let mut disk = MemDisk::new(vec![0u8; 512]);
    ops.pio_write(port, data, &mut ram, &mut disk, &[0u8; 32])
}

fn read<const N: usize>(ops: &mut SerialVmOps, port: u64) -> [u8; N] {
    let mut b = [0xEEu8; N];
    assert_eq!(ops.pio_read(port, 0, &mut b), PioAction::Done);
    b
}

#[test]
fn serial_ports_are_handed_on() {
    let mut ops = SerialVmOps::new(false, None);
    let mut b = [0xEEu8];
    assert_eq!(ops.pio_read(0x3FD, 0, &mut b), PioAction::Serial(5));
    assert_eq!(b, [0xEE]);
    assert_eq!(write(&mut ops, 0x3F8, &[65]), Ok(PioAction::Serial(0)));
}

#[test]
fn debug_exit_asks_for_shutdown() {
    let mut ops = SerialVmOps::new(false, None);
    assert_eq!(write(&mut ops, DEBUG_EXIT_PORT, &[1]), Err(ShutdownRequested));
    assert_eq!(DEBUG_EXIT_PORT, 0x501);
}

#[test]
fn timer_values() {
    assert_eq!(read_pit_counter(0, 0), 0);
    assert_eq!(read_pit_counter(0, 0xFFFF), 0xFF);
    // 11930 ticks; 0xFFFF - 11930 is 53605.
    assert_eq!(read_pit_counter(10_000, 0xFFFF), (53605 % 256) as u8);
    // 1193 ticks are eleven cycles of 101, and the output is high.
    assert_eq!(read_port61(0x03, 1000, 100), 0x23);
    assert_eq!(read_port61(0x23, 0, 100), 0x03);
    assert_eq!(read_port61(0x20, 1000, 0), 0x00);
}

#[test]
fn legacy_ports_read_and_write() {
    let mut ops = SerialVmOps::new(false, None);
    assert_eq!(read::<1>(&mut ops, 0x21), [0xFF]);
    assert_eq!(read::<1>(&mut ops, 0xA1), [0xFF]);
    write(&mut ops, 0x21, &[0xFA]).unwrap();
    write(&mut ops, 0xA1, &[0x55]).unwrap();
    write(&mut ops, 0x61, &[0x01]).unwrap();
    write(&mut ops, 0x42, &[0x10]).unwrap();
    assert_eq!(read::<1>(&mut ops, 0x21), [0xFA]);
    assert_eq!(read::<1>(&mut ops, 0xA1), [0x55]);
    assert_eq!(read::<1>(&mut ops, 0x61), [0x01]);
    assert_eq!(read::<1>(&mut ops, 0x42), [0x10]);
    assert_eq!(read::<1>(&mut ops, 0x20), [0]);
    assert_eq!(read::<1>(&mut ops, 0xA0), [0]);
    assert_eq!(read::<1>(&mut ops, 0x71), [0]);
    // A port without a device.
    assert_eq!(read::<2>(&mut ops, 0x1234), [0xFF, 0xFF]);
    assert_eq!(write(&mut ops, 0x1234, &[1]), Ok(PioAction::Done));
}

#[test]
fn configuration_address_is_read_back() {
    let mut ops = SerialVmOps::new(false, None);
    write(&mut ops, 0xCF8, &0x8000_1234u32.to_le_bytes()).unwrap();
    assert_eq!(u32::from_le_bytes(read(&mut ops, 0xCF8)), 0x8000_1234);
    write(&mut ops, 0xCFA, &[0xAB]).unwrap();
    assert_eq!(u32::from_le_bytes(read(&mut ops, 0xCF8)), 0x80AB_1234);
}

#[test]
fn devices_are_found_by_configuration_reads() {
    let mut ops = SerialVmOps::new(false, Some(PciBlkDevice::new(4096)));
    // Not enabled.
    assert_eq!(read::<4>(&mut ops, 0xCFC), [0xFF; 4]);
    write(&mut ops, 0xCF8, &0x8000_0000u32.to_le_bytes()).unwrap();
    assert_eq!(read::<4>(&mut ops, 0xCFC), [0x86, 0x80, 0x37, 0x12]);
    write(&mut ops, 0xCF8, &0x8000_0800u32.to_le_bytes()).unwrap();
    assert_eq!(read::<4>(&mut ops, 0xCFC), [0xF4, 0x1A, 0x01, 0x10]);
    assert_eq!(read::<2>(&mut ops, 0xCFE), [0x01, 0x10]);
    // Another function, another bus, another slot.
    for addr in [0x8000_0900u32, 0x8001_0800, 0x8000_1000] {
        write(&mut ops, 0xCF8, &addr.to_le_bytes()).unwrap();
        assert_eq!(read::<4>(&mut ops, 0xCFC), [0xFF; 4]);
    }
    // Without a disk there is no block device.
    let mut bare = SerialVmOps::new(false, None);
    write(&mut bare, 0xCF8, &0x8000_0800u32.to_le_bytes()).unwrap();
    assert_eq!(read::<4>(&mut bare, 0xCFC), [0xFF; 4]);
}

#[test]
fn the_configuration_address_outlives_other_accesses() {
    let mut ops = SerialVmOps::new(false, Some(PciBlkDevice::new(4096)));
    write(&mut ops, 0xCF9, &[0xAA]).unwrap();
    write(&mut ops, 0xCF8, &0x8000_0000u32.to_le_bytes()).unwrap();
    write(&mut ops, 0xCFC, &[1, 2, 3, 4]).unwrap();
    write(&mut ops, 0x61, &[3]).unwrap();
    write(&mut ops, 0xC000 + 18, &[7]).unwrap();
    read::<1>(&mut ops, 0xC000 + 19);
    assert_eq!(u32::from_le_bytes(read(&mut ops, 0xCF8)), 0x8000_0000);
    assert_eq!(read::<4>(&mut ops, 0xCFC), [0x86, 0x80, 0x37, 0x12]);
}

#[test]
fn block_device_can_be_moved() {
    let mut ops = SerialVmOps::new(false, Some(PciBlkDevice::new(4096)));
    let mut capacity = [0u8; 8];
    ops.pio_read(0xC000 + 24, 0, &mut capacity);
    assert_eq!(u64::from_le_bytes(capacity), 8);
    write(&mut ops, 0xCF8, &0x8000_0810u32.to_le_bytes()).unwrap();
    write(&mut ops, 0xCFC, &0xFFFF_FFFFu32.to_le_bytes()).unwrap();
    assert_eq!(u32::from_le_bytes(read(&mut ops, 0xCFC)), 0xFFFF_FFC1);
    write(&mut ops, 0xCFC, &0x0000_D004u32.to_le_bytes()).unwrap();
    assert_eq!(u32::from_le_bytes(read(&mut ops, 0xCFC)), 0x0000_D001);
    ops.pio_read(0xD000 + 24, 0, &mut capacity);
    assert_eq!(u64::from_le_bytes(capacity), 8);
    ops.pio_read(0xC000 + 24, 0, &mut capacity);
    assert_eq!(capacity, [0xFF; 8]);
    // The host bridge cannot be written.
    write(&mut ops, 0xCF8, &0x8000_0000u32.to_le_bytes()).unwrap();
    write(&mut ops, 0xCFC, &[0, 0, 0, 0]).unwrap();
    assert_eq!(read::<4>(&mut ops, 0xCFC), [0x86, 0x80, 0x37, 0x12]);
}

#[test]
fn block_device_registers_are_behind_ports() {
    let mut ops = SerialVmOps::new(false, Some(PciBlkDevice::new(4096)));
    write(&mut ops, 0xC000 + 18, &[0x07]).unwrap();
    assert_eq!(read::<1>(&mut ops, 0xC000 + 18), [0x07]);
    ops.pci_blk.as_mut().unwrap().isr_status = 1;
    assert_eq!(read::<1>(&mut ops, 0xC000 + 19), [1]);
    assert_eq!(read::<1>(&mut ops, 0xC000 + 19), [0]);
    // A notification with an empty queue does nothing.
    write(&mut ops, 0xC000 + 8, &1u32.to_le_bytes()).unwrap();
    assert_eq!(write(&mut ops, 0xC000 + 16, &[0, 0]), Ok(PioAction::Done));
}

#[test]
fn memory_mapped_accesses() {
    let with = SerialVmOps::new(true, None);
    let without = SerialVmOps::new(false, None);
    let mut b = [0xEEu8; 4];
    assert_eq!(with.mmio_read(0xFEC0_0010, &mut b), MmioAction::Ioapic(0x10));
    assert_eq!(b, [0xEE; 4]);
    assert_eq!(without.mmio_read(0xFEC0_0010, &mut b), MmioAction::Done);
    assert_eq!(b, [0; 4]);
    assert_eq!(with.mmio_write(0xFEC0_00FF), MmioAction::Ioapic(0xFF));
    assert_eq!(with.mmio_write(0xFEC0_0100), MmioAction::Done);
    assert_eq!(without.mmio_write(0xFEC0_0000), MmioAction::Done);
}

#[test]
fn numbers_are_merged_and_spread() {
    assert_eq!(merge_le32(0x4433_2211, 1, &[0xAA, 0xBB]), 0x44BB_AA11);
    assert_eq!(merge_le32(0x4433_2211, 3, &[0xAA, 0xBB]), 0xAA33_2211);
    assert_eq!(merge_le32(0x4433_2211, 4, &[0xAA]), 0x4433_2211);
    let mut b = [0xEEu8; 3];
    spread_le32(0x4433_2211, 2, &mut b);
    assert_eq!(b, [0x33, 0x44, 0xEE]);
    fill(&mut b, 7);
    assert_eq!(b, [7; 3]);
}

use cloud_hypervisor::blk::config::{
    host_bridge_config, Interrupt, PciBlkDevice, BLK_QUEUE_SIZE, VIRTIO_MSI_NO_VECTOR,
    VIRTIO_PCI_GUEST_FEATURES, VIRTIO_PCI_HOST_FEATURES, VIRTIO_PCI_ISR,
    VIRTIO_PCI_MSIX_CONFIG_VECTOR, VIRTIO_PCI_MSIX_QUEUE_VECTOR, VIRTIO_PCI_QUEUE_NOTIFY,
    VIRTIO_PCI_QUEUE_NUM, VIRTIO_PCI_QUEUE_PFN, VIRTIO_PCI_QUEUE_SEL, VIRTIO_PCI_STATUS,
};
use cloud_hypervisor::blk::queue::{
    align_up, collect_chain, BlkDesc, VIRTIO_BLK_S_IOERR, VIRTIO_BLK_S_OK, VIRTIO_BLK_S_UNSUPP,
    VIRTIO_BLK_T_FLUSH, VIRTIO_BLK_T_GET_ID, VIRTIO_BLK_T_IN, VIRTIO_BLK_T_OUT,
};
use cloud_hypervisor::blk::ram::{
    copy_in, copy_out, read_u16, read_u32, read_u64, write_u16, write_u32, write_u8,
};
use cloud_hypervisor::bytes::{get_le16, get_le32, put_bytes, put_le16, put_le32, put_le64};
use cloud_hypervisor::disk::{DiskError, DiskOps, MemDisk};

// ─── Guest memory ────────────────────────────────────────────────────────────

#[test]
fn accesses_outside_memory_do_nothing() {
    let mut ram = vec![0u8; 16];
    write_u32(&mut ram, 12, 0x0403_0201);
    write_u32(&mut ram, 16, 0xFFFF_FFFF);
    write_u16(&mut ram, u64::MAX, 0xFFFF);
    write_u8(&mut ram, 16, 0xFF);
    assert_eq!(ram[12..], [1, 2, 3, 4]);
    assert_eq!(read_u32(&ram, 12, 9), 0x0403_0201);
    assert_eq!(read_u32(&ram, 13, 9), 9);
    assert_eq!(read_u16(&ram, 14, 9), 0x0403);
    assert_eq!(read_u16(&ram, u64::MAX, 9), 9);
    assert_eq!(read_u64(&ram, 8, 9), 0x0403_0201_0000_0000);
    assert_eq!(read_u64(&ram, 9, 9), 9);
    // What reaches beyond the end is cut off.
    write_u32(&mut ram, 14, 0x0807_0605);
    assert_eq!(ram[12..], [1, 2, 5, 6]);
}

#[test]
fn copies_read_back_from_memory() {
    let mut ram = vec![0u8; 16];
    assert!(copy_in(&mut ram, 4, &[1, 2, 3]));
    assert_eq!(copy_out(&ram, 4, 3), Some(vec![1, 2, 3]));
    assert!(!copy_in(&mut ram, 16, &[1]));
    assert!(copy_in(&mut ram, 16, &[]));
    assert_eq!(copy_out(&ram, 16, 1), None);
}

// ─── Configuration space ─────────────────────────────────────────────────────

#[test]
fn configuration_space_of_a_new_device() {
    let dev = PciBlkDevice::new(1_000_000);
    assert_eq!(dev.read_config(0), 0x1001_1AF4);
    assert_eq!(dev.read_config(1), 0x0010_0007);
    assert_eq!(dev.read_config(2), 0x0100_0000);
    assert_eq!(dev.read_config(4), 0xC001);
    assert_eq!(dev.read_config(5), 0xFEA0_0000);
    assert_eq!(dev.read_config(11), 0x0002_1AF4);
    assert_eq!(dev.read_config(13), 0x40);
    assert_eq!(dev.read_config(15), 0x0100);
    assert_eq!(dev.read_config(16), 0x0001_0011);
    assert_eq!(dev.read_config(18), 0x0801);
    assert_eq!(dev.read_config(64), 0);
    assert_eq!(dev.capacity, 1953);
    assert!(!dev.msix_enabled());
    assert!(!dev.msix_function_masked());
    let bridge = host_bridge_config();
    assert_eq!(get_le32(&bridge, 0), 0x1237_8086);
    assert_eq!(bridge[0x0B], 0x06);
}

#[test]
fn bars_are_sized_and_placed() {
    let mut dev = PciBlkDevice::new(4096);
    dev.write_config(4, 0, &[0xFF; 4]);
    assert_eq!(dev.read_config(4), 0xFFFF_FFC1);
    dev.write_config(4, 0, &0xD07Fu32.to_le_bytes());
    assert_eq!(dev.read_config(4), 0xD041);
    assert_eq!(dev.io_bar_base, 0xD040);
    dev.write_config(5, 0, &[0xFF; 4]);
    assert_eq!(dev.read_config(5), 0xFFFF_F000);
    dev.write_config(5, 0, &0x1234_0000u32.to_le_bytes());
    assert_eq!(dev.read_config(5), 0xFEA0_0000);
    // One byte of BAR 0.
    dev.write_config(4, 1, &[0xE0]);
    assert_eq!(dev.io_bar_base, 0xE040);
}

#[test]
fn other_registers_are_written_as_they_are() {
    let mut dev = PciBlkDevice::new(4096);
    dev.write_config(1, 0, &[0xFF, 0xFF]);
    assert_eq!(dev.read_config(1), 0x0010_0007);
    dev.write_config(1, 0, &[0x02]);
    assert_eq!(dev.read_config(1), 0x0010_0002);
    dev.write_config(1, 2, &[0xFF]);
    assert_eq!(dev.read_config(1), 0x0010_0002);
    dev.write_config(16, 2, &[0x01, 0xC0, 0x77]);
    assert!(dev.msix_enabled());
    assert!(dev.msix_function_masked());
    assert_eq!(dev.read_config(17), 1);
    dev.write_config(15, 0, &[0x0B]);
    assert_eq!(dev.read_config(15), 0x010B);
    dev.write_config(63, 3, &[0x99, 0x88]);
    assert_eq!(dev.read_config(63), 0x9900_0000);
    dev.write_config(200, 0, &[1]);
}

// ─── Registers ───────────────────────────────────────────────────────────────

fn register(dev: &mut PciBlkDevice, offset: u16, size: usize) -> Vec<u8> {
    let mut b = vec![0xEEu8; size];
    dev.io_read(offset, &mut b);
    b
}

#[test]
fn registers_are_read_and_written() {
    let mut dev = PciBlkDevice::new(4096);
    assert_eq!(register(&mut dev, VIRTIO_PCI_HOST_FEATURES, 4), vec![0; 4]);
    assert_eq!(register(&mut dev, VIRTIO_PCI_QUEUE_NUM, 2), BLK_QUEUE_SIZE.to_le_bytes());
    assert!(!dev.write_register(VIRTIO_PCI_GUEST_FEATURES, &5u32.to_le_bytes()));
    assert_eq!(register(&mut dev, VIRTIO_PCI_GUEST_FEATURES, 4), vec![5, 0, 0, 0]);
    dev.write_register(VIRTIO_PCI_QUEUE_PFN, &7u32.to_le_bytes());
    assert_eq!(register(&mut dev, VIRTIO_PCI_QUEUE_PFN, 4), vec![7, 0, 0, 0]);
    dev.write_register(VIRTIO_PCI_MSIX_CONFIG_VECTOR, &[0, 0]);
    dev.write_register(VIRTIO_PCI_MSIX_QUEUE_VECTOR, &[1, 0]);
    assert_eq!(register(&mut dev, VIRTIO_PCI_MSIX_CONFIG_VECTOR, 2), vec![0, 0]);
    assert_eq!(register(&mut dev, VIRTIO_PCI_MSIX_QUEUE_VECTOR, 2), vec![1, 0]);
    // Too short a buffer is left alone.
    assert_eq!(register(&mut dev, VIRTIO_PCI_QUEUE_PFN, 2), vec![0xEE; 2]);
    // Another queue has no size, no vector, and cannot be placed.
    dev.write_register(VIRTIO_PCI_QUEUE_SEL, &[1, 0]);
    assert_eq!(register(&mut dev, VIRTIO_PCI_QUEUE_SEL, 2), vec![1, 0]);
    assert_eq!(register(&mut dev, VIRTIO_PCI_QUEUE_NUM, 2), vec![0, 0]);
    assert_eq!(register(&mut dev, VIRTIO_PCI_MSIX_QUEUE_VECTOR, 2), vec![0xFF; 2]);
    dev.write_register(VIRTIO_PCI_QUEUE_PFN, &9u32.to_le_bytes());
    assert_eq!(dev.queue_pfn, 7);
    // The capacity, from any of its bytes on.
    assert_eq!(register(&mut dev, 24, 10), vec![8, 0, 0, 0, 0, 0, 0, 0, 0, 0]);
    assert_eq!(register(&mut dev, 25, 2), vec![0, 0]);
}

#[test]
fn status_zero_resets_the_device() {
    let mut dev = PciBlkDevice::new(4096);
    dev.write_register(VIRTIO_PCI_STATUS, &[7]);
    dev.write_register(VIRTIO_PCI_QUEUE_PFN, &7u32.to_le_bytes());
    dev.write_register(VIRTIO_PCI_MSIX_QUEUE_VECTOR, &[1, 0]);
    dev.isr_status = 1;
    dev.last_avail_idx = 3;
    dev.write_register(VIRTIO_PCI_STATUS, &[0]);
    assert_eq!((dev.device_status, dev.queue_pfn, dev.isr_status), (0, 0, 0));
    assert_eq!((dev.last_avail_idx, dev.queue_select, dev.guest_features), (0, 0, 0));
    assert_eq!(dev.queue_msix_vector, VIRTIO_MSI_NO_VECTOR);
    assert_eq!(dev.msix_config_vector, VIRTIO_MSI_NO_VECTOR);
}

#[test]
fn reading_the_interrupt_status_clears_it() {
    let mut dev = PciBlkDevice::new(4096);
    dev.isr_status = 1;
    assert_eq!(register(&mut dev, VIRTIO_PCI_ISR, 1), vec![1]);
    assert_eq!(register(&mut dev, VIRTIO_PCI_ISR, 1), vec![0]);
}

#[test]
fn only_a_ready_driver_notifies() {
    let mut dev = PciBlkDevice::new(4096);
    assert!(!dev.write_register(VIRTIO_PCI_QUEUE_NOTIFY, &[0, 0]));
    dev.write_register(VIRTIO_PCI_QUEUE_PFN, &7u32.to_le_bytes());
    assert!(!dev.write_register(VIRTIO_PCI_QUEUE_NOTIFY, &[0, 0]));
    dev.write_register(VIRTIO_PCI_STATUS, &[0x07]);
    assert!(dev.write_register(VIRTIO_PCI_QUEUE_NOTIFY, &[0, 0]));
    assert!(!dev.write_register(VIRTIO_PCI_QUEUE_NOTIFY, &[1, 0]));
    assert!(!dev.write_register(VIRTIO_PCI_QUEUE_NOTIFY, &[0]));
}

fn msix_table() -> Vec<u8> {
    let mut table = vec![0u8; 32];
    put_le32(&mut table, 16, 0xFEE0_3000);
    put_le32(&mut table, 24, 0x41);
    table
}

#[test]
fn interrupts_follow_the_msix_table() {
    let mut dev = PciBlkDevice::new(4096);
    let table = msix_table();
    assert_eq!(dev.inject_interrupt(&table), None);
    dev.write_config(16, 2, &[0x01, 0x80]);
    assert_eq!(dev.inject_interrupt(&table), None);
    dev.queue_msix_vector = 1;
    assert_eq!(dev.inject_interrupt(&table), Some(Interrupt { vector: 0x41, destination: 3 }));
    // Entry without a vector, masked entry, masked function.
    dev.queue_msix_vector = 0;
    assert_eq!(dev.inject_interrupt(&table), None);
    dev.queue_msix_vector = 2;
    assert_eq!(dev.inject_interrupt(&table), None);
    dev.queue_msix_vector = 1;
    let mut masked = table.clone();
    masked[28] = 1;
    assert_eq!(dev.inject_interrupt(&masked), None);
    dev.write_config(16, 2, &[0x01, 0xC0]);
    assert_eq!(dev.inject_interrupt(&table), None);
}

// ─── Requests ────────────────────────────────────────────────────────────────

const QUEUE: usize = 0x1000;
const AVAIL: usize = QUEUE + 16 * 128;
const USED: usize = QUEUE + 4096;
const HEADER: usize = 0x4000;
const STATUS: usize = 0x4100;
const DATA: usize = 0x5000;

fn desc(ram: &mut [u8], idx: usize, addr: usize, len: u32, flags: u16, next: u16) {
    let at = QUEUE + idx * 16;
    put_le64(ram, at, addr as u64);
    put_le32(ram, at + 8, len);
    put_le16(ram, at + 12, flags);
    put_le16(ram, at + 14, next);
}

/// A request with one data buffer.
fn request(ram: &mut [u8], kind: u32, sector: u64, len: u32, writable: bool) {
    put_le32(ram, HEADER, kind);
    put_le64(ram, HEADER + 8, sector);
    ram[STATUS] = 0xEE;
    desc(ram, 0, HEADER, 16, 1, 1);
    desc(ram, 1, DATA, len, if writable { 3 } else { 1 }, 2);
    desc(ram, 2, STATUS, 1, 2, 0);
}

fn machine() -> (PciBlkDevice, Vec<u8>, MemDisk) {
    let disk: Vec<u8> = (0..4096u32).map(|i| (i / 512 + 1) as u8).collect();
    (PciBlkDevice::new(4096), vec![0u8; 0x10000], MemDisk::new(disk))
}

#[test]
fn addresses_are_aligned_upwards() {
    assert_eq!(align_up(0, 4096), 0);
    assert_eq!(align_up(1, 4096), 4096);
    assert_eq!(align_up(4096, 4096), 4096);
    assert_eq!(align_up(4097, 4096), 8192);
}

#[test]
fn chains_are_collected() {
    let (_, mut ram, _) = machine();
    request(&mut ram, VIRTIO_BLK_T_IN, 0, 512, true);
    let descs = collect_chain(&ram, QUEUE as u64, 0);
    assert_eq!(descs.len(), 3);
    assert_eq!(descs[1], BlkDesc { addr: DATA as u64, len: 512, flags: 3 });
    // A loop ends.
    desc(&mut ram, 2, STATUS, 1, 3, 0);
    assert_eq!(collect_chain(&ram, QUEUE as u64, 0).len(), BLK_QUEUE_SIZE as usize);
}

#[test]
fn sectors_are_read() {
    let (dev, mut ram, mut disk) = machine();
    request(&mut ram, VIRTIO_BLK_T_IN, 2, 1024, true);
    assert_eq!(dev.process_descriptor_chain(QUEUE as u64, 0, &mut ram, &mut disk), 1025);
    assert_eq!(ram[STATUS], VIRTIO_BLK_S_OK);
    assert_eq!(ram[DATA..DATA + 512], [3u8; 512]);
    assert_eq!(ram[DATA + 512..DATA + 1024], [4u8; 512]);
    assert_eq!(ram[DATA + 1024], 0);
}

#[test]
fn sectors_that_were_written_read_back() {
    let (dev, mut ram, mut disk) = machine();
    put_bytes(&mut ram, DATA, &[0x77; 512]);
    request(&mut ram, VIRTIO_BLK_T_OUT, 7, 512, false);
    assert_eq!(dev.process_descriptor_chain(QUEUE as u64, 0, &mut ram, &mut disk), 1);
    assert_eq!(ram[STATUS], VIRTIO_BLK_S_OK);
    assert_eq!(disk.bytes()[7 * 512..], [0x77; 512]);
    assert_eq!(disk.bytes()[6 * 512..7 * 512], [7u8; 512]);
    put_bytes(&mut ram, DATA, &[0; 512]);
    request(&mut ram, VIRTIO_BLK_T_IN, 7, 512, true);
    assert_eq!(dev.process_descriptor_chain(QUEUE as u64, 0, &mut ram, &mut disk), 513);
    assert_eq!(ram[DATA..DATA + 512], [0x77; 512]);
}

#[test]
fn requests_beyond_the_disk_fail() {
    let (dev, mut ram, mut disk) = machine();
    let before = disk.bytes().to_vec();
    for (kind, writable) in [(VIRTIO_BLK_T_IN, true), (VIRTIO_BLK_T_OUT, false)] {
        for (sector, len) in [(8u64, 512u32), (7, 513), (u64::MAX, 512)] {
            request(&mut ram, kind, sector, len, writable);
            assert_eq!(dev.process_descriptor_chain(QUEUE as u64, 0, &mut ram, &mut disk), 1);
            assert_eq!(ram[STATUS], VIRTIO_BLK_S_IOERR);
        }
    }
    assert_eq!(disk.bytes(), &before[..]);
}

#[test]
fn buffers_must_fit_the_request() {
    let (dev, mut ram, mut disk) = machine();
    // A read into a buffer that the device may not write.
    request(&mut ram, VIRTIO_BLK_T_IN, 0, 512, false);
    assert_eq!(dev.process_descriptor_chain(QUEUE as u64, 0, &mut ram, &mut disk), 1);
    assert_eq!(ram[STATUS], VIRTIO_BLK_S_IOERR);
    // A buffer outside memory.
    request(&mut ram, VIRTIO_BLK_T_OUT, 0, 512, false);
    desc(&mut ram, 1, 0x10000, 512, 1, 2);
    assert_eq!(dev.process_descriptor_chain(QUEUE as u64, 0, &mut ram, &mut disk), 1);
    assert_eq!(ram[STATUS], VIRTIO_BLK_S_IOERR);
}

#[test]
fn flush_identification_and_unknown_requests() {
    let (dev, mut ram, mut disk) = machine();
    request(&mut ram, VIRTIO_BLK_T_FLUSH, 0, 0, true);
    assert_eq!(dev.process_descriptor_chain(QUEUE as u64, 0, &mut ram, &mut disk), 1);
    assert_eq!(ram[STATUS], VIRTIO_BLK_S_OK);
    request(&mut ram, VIRTIO_BLK_T_GET_ID, 0, 64, true);
    assert_eq!(dev.process_descriptor_chain(QUEUE as u64, 0, &mut ram, &mut disk), 21);
    assert_eq!(ram[DATA..DATA + 14], *b"virtio-blk-whp");
    assert_eq!(ram[DATA + 14..DATA + 20], [0u8; 6]);
    request(&mut ram, 99, 0, 512, true);
    assert_eq!(dev.process_descriptor_chain(QUEUE as u64, 0, &mut ram, &mut disk), 1);
    assert_eq!(ram[STATUS], VIRTIO_BLK_S_UNSUPP);
}

#[test]
fn malformed_chains_are_left_alone_or_fail() {
    let (dev, mut ram, mut disk) = machine();
    desc(&mut ram, 0, HEADER, 16, 0, 0);
    assert_eq!(dev.process_descriptor_chain(QUEUE as u64, 0, &mut ram, &mut disk), 0);
    request(&mut ram, VIRTIO_BLK_T_IN, 0, 512, true);
    desc(&mut ram, 0, HEADER, 15, 1, 1);
    assert_eq!(dev.process_descriptor_chain(QUEUE as u64, 0, &mut ram, &mut disk), 1);
    assert_eq!(ram[STATUS], VIRTIO_BLK_S_IOERR);
    request(&mut ram, VIRTIO_BLK_T_IN, 0, 512, true);
    desc(&mut ram, 2, STATUS, 1, 0, 0);
    assert_eq!(dev.process_descriptor_chain(QUEUE as u64, 0, &mut ram, &mut disk), 0);
    assert_eq!(ram[STATUS], 0xEE);
}

struct BrokenDisk;

impl DiskOps for BrokenDisk {
    fn seek(&mut self, _offset: u64) -> Result<(), DiskError> {
        Ok(())
    }

    fn read_exact(&mut self, _buf: &mut [u8]) -> Result<(), DiskError> {
        Err(DiskError)
    }

    fn write_all(&mut self, _data: &[u8]) -> Result<(), DiskError> {
        Err(DiskError)
    }

    fn flush(&mut self) -> Result<(), DiskError> {
        Err(DiskError)
    }
}

#[test]
fn failures_of_the_disk_are_reported() {
    let (dev, mut ram, _) = machine();
    for kind in [VIRTIO_BLK_T_IN, VIRTIO_BLK_T_OUT, VIRTIO_BLK_T_FLUSH] {
        request(&mut ram, kind, 0, 512, true);
        assert_eq!(dev.process_descriptor_chain(QUEUE as u64, 0, &mut ram, &mut BrokenDisk), 1);
        assert_eq!(ram[STATUS], VIRTIO_BLK_S_IOERR);
    }
}

#[test]
fn the_queue_is_processed_on_notification() {
    let (mut dev, mut ram, mut disk) = machine();
    dev.write_config(16, 2, &[0x01, 0x80]);
    dev.write_register(VIRTIO_PCI_QUEUE_PFN, &1u32.to_le_bytes());
    dev.write_register(VIRTIO_PCI_STATUS, &[7]);
    dev.write_register(VIRTIO_PCI_MSIX_QUEUE_VECTOR, &[1, 0]);
    dev.last_avail_idx = 0xFFFF;
    request(&mut ram, VIRTIO_BLK_T_IN, 1, 512, true);
    // Two entries of the ring, at indices 0xFFFF and 0.
    put_le16(&mut ram, AVAIL + 4 + 127 * 2, 0);
    put_le16(&mut ram, AVAIL + 4, 0);
    put_le16(&mut ram, AVAIL + 2, 1);
    let table = msix_table();
    let raised = dev.io_write(VIRTIO_PCI_QUEUE_NOTIFY, &[0, 0], &mut ram, &mut disk, &table);
    assert_eq!(raised, Some(Interrupt { vector: 0x41, destination: 3 }));
    assert_eq!(dev.last_avail_idx, 1);
    assert_eq!(dev.isr_status, 1);
    assert_eq!(get_le16(&ram, USED + 2), 2);
    assert_eq!(get_le32(&ram, USED + 4), 0);
    assert_eq!(get_le32(&ram, USED + 8), 513);
    assert_eq!(get_le32(&ram, USED + 16), 513);
    assert_eq!(ram[DATA], 2);
    // Nothing is pending any more.
    let raised = dev.io_write(VIRTIO_PCI_QUEUE_NOTIFY, &[0, 0], &mut ram, &mut disk, &table);
    assert_eq!(raised, None);
    assert_eq!(get_le16(&ram, USED + 2), 2);
    assert_eq!(dev.process_queue(&mut ram, &mut disk, &table), None);
}

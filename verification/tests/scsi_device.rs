use cloud_hypervisor::disk::{DiskOps, MemDisk, ScsiDisk};
use cloud_hypervisor::scsi::device::{BadActivate, DiskProbeError, WorkerKind};
use cloud_hypervisor::scsi::handler::{Descriptor, LunDisk};
use cloud_hypervisor::scsi::queue::{
    process_ctrl_requests, process_requests, serve_ctrl_request, serve_request,
    serve_taken_ctrl_request, serve_taken_request, QueueError,
};
use cloud_hypervisor::scsi::{
    encode_lun, scsi_opcode, scsi_status, Error, Scsi, ScsiCommandProcessor, ScsiLunConfig,
    ScsiLunId, ScsiState,
};
use virtio_queue::{Queue, QueueT};
use vm_memory::{Bytes, GuestAddress, GuestMemoryMmap};

fn config(target: u8, lun: u16) -> ScsiLunConfig {
    let mut config = ScsiLunConfig::default();
    config.target = target;
    config.lun = lun;
    config.path = format!("/disk{}", lun);
    config
}

fn device(luns: Vec<ScsiLunConfig>) -> Scsi {
    let sizes = vec![Ok(2048u64); luns.len()];
    Scsi::new("scsi0".to_string(), luns, sizes, 2, 128, false, None).unwrap()
}

#[test]
fn a_new_device_offers_its_features() {
    let d = device(vec![config(0, 0)]);
    assert_eq!(d.features(), (1u64 << 32) | 0b111);
    assert_eq!(d.queue_max_sizes(), &[128u16; 4][..]);
    assert!(!d.starts_paused());
    let behind_iommu = Scsi::new("s".to_string(), vec![], vec![], 1, 64, true, None).unwrap();
    assert_eq!(behind_iommu.features(), (1u64 << 33) | (1u64 << 32) | 0b111);
    assert_eq!(behind_iommu.queue_max_sizes(), &[64u16; 3][..]);
}

#[test]
fn luns_are_added_once() {
    let mut d = device(vec![config(0, 0)]);
    assert_eq!(
        d.add_lun(config(0, 0), Ok(512)),
        Err(Error::DuplicateLun(ScsiLunId::new(0, 0)))
    );
    assert_eq!(d.add_lun(config(0, 1), Err(DiskProbeError::Open)), Err(Error::OpenDisk));
    assert_eq!(d.add_lun(config(0, 1), Err(DiskProbeError::Size)), Err(Error::GetDiskSize));
    assert_eq!(d.add_lun(config(0, 1), Ok(512)), Ok(()));
    let images = d.disk_images();
    assert_eq!(images.len(), 2);
    assert_eq!(images[1].path, "/disk1");
    assert!(images[1].writable);
    // A duplicate is reported before its disk is looked at.
    assert_eq!(
        d.add_lun(config(0, 1), Err(DiskProbeError::Open)),
        Err(Error::DuplicateLun(ScsiLunId::new(0, 1)))
    );
}

#[test]
fn a_removed_lun_is_gone() {
    let mut d = device(vec![config(0, 0), config(0, 1), config(0, 2)]);
    assert!(d.remove_lun(&ScsiLunId::new(0, 1)));
    assert!(!d.remove_lun(&ScsiLunId::new(0, 1)));
    let left: Vec<u16> = d.state().luns.iter().map(|c| c.lun).collect();
    assert_eq!(left, vec![0, 2]);
    assert_eq!(d.add_lun(config(0, 1), Ok(512)), Ok(()));
}

#[test]
fn new_reports_the_first_bad_lun() {
    let luns = vec![config(0, 0), config(0, 0)];
    let r = Scsi::new("s".to_string(), luns, vec![Ok(512), Ok(512)], 1, 64, false, None);
    assert_eq!(r.err(), Some(Error::DuplicateLun(ScsiLunId::new(0, 0))));
    let luns = vec![config(0, 0), config(0, 1)];
    let sizes = vec![Err(DiskProbeError::Size), Err(DiskProbeError::Open)];
    let r = Scsi::new("s".to_string(), luns, sizes, 1, 64, false, None);
    assert_eq!(r.err(), Some(Error::GetDiskSize));
}

#[test]
fn configuration_space_is_read_and_written() {
    let mut d = device(vec![]);
    let mut word = [0xEEu8; 4];
    d.read_config(0, &mut word);
    assert_eq!(u32::from_le_bytes(word), 2);
    d.read_config(20, &mut word);
    assert_eq!(u32::from_le_bytes(word), 96);
    d.write_config(20, &200u32.to_le_bytes());
    d.write_config(24, &64u32.to_le_bytes());
    d.read_config(20, &mut word);
    assert_eq!(u32::from_le_bytes(word), 200);
    d.read_config(24, &mut word);
    assert_eq!(u32::from_le_bytes(word), 64);
    // Nothing else can be written.
    d.write_config(0, &9u32.to_le_bytes());
    d.write_config(20, &[1, 2]);
    d.read_config(0, &mut word);
    assert_eq!(u32::from_le_bytes(word), 2);
    d.read_config(20, &mut word);
    assert_eq!(u32::from_le_bytes(word), 200);
    // A read beyond the end leaves the buffer alone.
    let mut beyond = [0xEEu8; 4];
    d.read_config(33, &mut beyond);
    assert_eq!(beyond, [0xEE; 4]);
    d.read_config(u64::MAX, &mut beyond);
    assert_eq!(beyond, [0xEE; 4]);
    let mut all = [0u8; 36];
    d.read_config(0, &mut all);
    assert_eq!(all[30..32], [255, 0]);
    assert_eq!(all[32..], 16383u32.to_le_bytes());
}

#[test]
fn state_is_saved_and_restored() {
    let mut d = device(vec![config(1, 5)]);
    d.write_config(20, &200u32.to_le_bytes());
    let mut state: ScsiState = d.state();
    assert_eq!(state.luns.len(), 1);
    assert_eq!(state.avail_features, d.features());
    state.acked_features = 0b10;
    let luns = state.luns.clone();
    let r = Scsi::new("scsi0".to_string(), luns, vec![Ok(2048)], 2, 128, true, Some(state)).unwrap();
    assert!(r.starts_paused());
    assert_eq!(r.features(), d.features());
    assert_eq!(r.state().acked_features, 0b10);
    let mut word = [0u8; 4];
    r.read_config(20, &mut word);
    assert_eq!(u32::from_le_bytes(word), 200);
}

#[test]
fn activation_names_the_workers() {
    let d = device(vec![]);
    assert_eq!(d.activate(2).err(), Some(BadActivate));
    let workers = d.activate(4).unwrap();
    let names: Vec<&str> = workers.iter().map(|w| w.name.as_str()).collect();
    assert_eq!(names, vec!["scsi0_ctrl", "scsi0_event", "scsi0_req0", "scsi0_req1"]);
    assert_eq!(workers[0].kind, WorkerKind::Control);
    assert_eq!(workers[1].kind, WorkerKind::Event);
    assert_eq!(workers[3].kind, WorkerKind::Request);
    assert_eq!(workers[3].queue_index, 3);
}

#[test]
fn disks_of_read_only_luns_are_opened_for_reading() {
    let mut c = config(0, 0);
    c.readonly = true;
    c.direct = true;
    let d = device(vec![c]);
    let images = d.disk_images();
    assert!(images[0].direct);
    assert!(!images[0].writable);
    assert_eq!(images[0].id, ScsiLunId::new(0, 0));
}

#[test]
fn disk_clones_hold_the_same_bytes() {
    let mut d = MemDisk::new(vec![1, 2, 3]);
    d.seek(1).unwrap();
    let mut copy = d.try_clone().unwrap();
    let mut one = [0u8; 1];
    copy.seek(2).unwrap();
    copy.read_exact(&mut one).unwrap();
    assert_eq!(one, [3]);
    assert_eq!(copy.bytes(), d.bytes());
}

// ─── Queues ──────────────────────────────────────────────────────────────────

const DESCS: u64 = 0x0;
const AVAIL: u64 = 0x1000;
const USED: u64 = 0x2000;

fn memory() -> GuestMemoryMmap<()> {
    GuestMemoryMmap::from_ranges(&[(GuestAddress(0), 0x20000)]).unwrap()
}

fn queue() -> Queue {
    let mut q = Queue::new(16).unwrap();
    q.set_size(16);
    q.set_desc_table_address(Some(DESCS as u32), Some(0));
    q.set_avail_ring_address(Some(AVAIL as u32), Some(0));
    q.set_used_ring_address(Some(USED as u32), Some(0));
    q.set_ready(true);
    q
}

/// Puts a chain in the descriptor table at `first` and makes it available as
/// the `n`-th.
fn offer(mem: &GuestMemoryMmap<()>, n: u16, first: u16, chain: &[Descriptor]) {
    for (i, d) in chain.iter().enumerate() {
        let index = first + i as u16;
        let mut raw = Vec::new();
        raw.extend_from_slice(&d.addr.to_le_bytes());
        raw.extend_from_slice(&d.len.to_le_bytes());
        let next = i + 1 < chain.len();
        let flags: u16 = if next { 1 } else { 0 } + if d.write_only { 2 } else { 0 };
        raw.extend_from_slice(&flags.to_le_bytes());
        raw.extend_from_slice(&(index + 1).to_le_bytes());
        mem.write_slice(&raw, GuestAddress(DESCS + 16 * index as u64)).unwrap();
    }
    mem.write_slice(&first.to_le_bytes(), GuestAddress(AVAIL + 4 + 2 * n as u64)).unwrap();
    mem.write_slice(&(n + 1).to_le_bytes(), GuestAddress(AVAIL + 2)).unwrap();
}

fn used(mem: &GuestMemoryMmap<()>) -> Vec<(u32, u32)> {
    let mut index = [0u8; 2];
    mem.read_slice(&mut index, GuestAddress(USED + 2)).unwrap();
    let mut all = Vec::new();
    for i in 0..u16::from_le_bytes(index) {
        let mut raw = [0u8; 8];
        mem.read_slice(&mut raw, GuestAddress(USED + 4 + 8 * i as u64)).unwrap();
        let id = u32::from_le_bytes([raw[0], raw[1], raw[2], raw[3]]);
        let len = u32::from_le_bytes([raw[4], raw[5], raw[6], raw[7]]);
        all.push((id, len));
    }
    all
}

fn request(cdb: &[u8]) -> Vec<u8> {
    let mut bytes = vec![0u8; 51];
    bytes[..8].copy_from_slice(&encode_lun(0, 0));
    bytes[19..19 + cdb.len()].copy_from_slice(cdb);
    bytes
}

fn from_guest(addr: u64, len: u32) -> Descriptor {
    Descriptor { addr, len, write_only: false }
}

fn to_guest(addr: u64, len: u32) -> Descriptor {
    Descriptor { addr, len, write_only: true }
}

#[test]
fn request_queue_is_served_until_it_is_empty() {
    let mut mem = memory();
    let mut q = queue();
    let mut d = device(vec![config(0, 0)]);
    let mut disks =
        vec![LunDisk { id: ScsiLunId::new(0, 0), disk: MemDisk::new(vec![0u8; 2048]) }];
    let write_one = [scsi_opcode::WRITE_10, 0, 0, 0, 0, 1, 0, 0, 1, 0];
    let read_one = [scsi_opcode::READ_10, 0, 0, 0, 0, 1, 0, 0, 1, 0];
    mem.write_slice(&request(&write_one), GuestAddress(0x4000)).unwrap();
    mem.write_slice(&[0x5A; 512], GuestAddress(0x5000)).unwrap();
    mem.write_slice(&request(&read_one), GuestAddress(0x6000)).unwrap();
    offer(
        &mem,
        0,
        3,
        &[from_guest(0x4000, 51), from_guest(0x5000, 512), to_guest(0x7000, 108)],
    );
    offer(&mem, 1, 8, &[from_guest(0x6000, 51), to_guest(0x8000, 108), to_guest(0x9000, 512)]);

    assert_eq!(d.process_requests(&mut q, &mut mem, &mut disks), Ok(2));
    assert_eq!(used(&mem), vec![(3, 108), (8, 620)]);
    let mut data = vec![0u8; 512];
    mem.read_slice(&mut data, GuestAddress(0x9000)).unwrap();
    assert_eq!(data, vec![0x5A; 512]);
    assert_eq!(disks[0].disk.bytes()[512..1024], [0x5A; 512]);
    let mut status = [0xFFu8; 1];
    mem.read_slice(&mut status, GuestAddress(0x8000 + 10)).unwrap();
    assert_eq!(status[0], scsi_status::GOOD);
    // Nothing is left.
    assert_eq!(d.process_requests(&mut q, &mut mem, &mut disks), Ok(0));
    assert_eq!(used(&mem).len(), 2);
}

#[test]
fn requests_are_served_one_by_one() {
    let mut mem = memory();
    let mut q = queue();
    let mut luns = vec![ScsiCommandProcessor::new(config(0, 0), 2048, 512)];
    let mut disks =
        vec![LunDisk { id: ScsiLunId::new(0, 0), disk: MemDisk::new(vec![0u8; 2048]) }];
    assert_eq!(serve_request(&mut q, &mut mem, &mut luns, &mut disks), Ok(false));
    mem.write_slice(&request(&[scsi_opcode::TEST_UNIT_READY]), GuestAddress(0x4000)).unwrap();
    let chain = [from_guest(0x4000, 51), to_guest(0x7000, 108)];
    offer(&mem, 0, 0, &chain);
    offer(&mem, 1, 0, &chain);
    assert_eq!(serve_request(&mut q, &mut mem, &mut luns, &mut disks), Ok(true));
    assert_eq!(used(&mem), vec![(0, 108)]);
    assert_eq!(process_requests(&mut q, &mut mem, &mut luns, &mut disks), Ok(1));
    assert_eq!(used(&mem), vec![(0, 108), (0, 108)]);
}

#[test]
fn chains_that_were_taken_are_served() {
    let mut mem = memory();
    let mut q = queue();
    let mut luns = vec![ScsiCommandProcessor::new(config(0, 0), 2048, 512)];
    let mut disks =
        vec![LunDisk { id: ScsiLunId::new(0, 0), disk: MemDisk::new(vec![0u8; 2048]) }];
    assert_eq!(serve_taken_request(None, &mut q, &mut mem, &mut luns, &mut disks), Ok(false));
    assert_eq!(serve_taken_ctrl_request(None, &mut q, &mut mem), Ok(false));
    assert!(used(&mem).is_empty());
    mem.write_slice(&request(&[scsi_opcode::TEST_UNIT_READY]), GuestAddress(0x4000)).unwrap();
    let chain = vec![from_guest(0x4000, 51), to_guest(0x7000, 108)];
    let r = serve_taken_request(Some((9, chain)), &mut q, &mut mem, &mut luns, &mut disks);
    assert_eq!(r, Ok(true));
    let chain = vec![from_guest(0x4000, 3)];
    assert_eq!(serve_taken_ctrl_request(Some((2, chain)), &mut q, &mut mem), Ok(true));
    assert_eq!(used(&mem), vec![(9, 108)]);
    let chain = vec![from_guest(0x4000, 24)];
    assert_eq!(serve_taken_ctrl_request(Some((2, chain)), &mut q, &mut mem), Ok(true));
    assert_eq!(used(&mem), vec![(9, 108), (2, 1)]);
    // The queue has no such head.
    let chain = vec![from_guest(0x4000, 24)];
    assert_eq!(
        serve_taken_ctrl_request(Some((16, chain)), &mut q, &mut mem),
        Err(QueueError::AddUsed)
    );
}

#[test]
fn chains_end_before_their_length_overflows() {
    let mut mem = memory();
    let mut q = queue();
    let mut d = device(vec![config(0, 0)]);
    let mut disks =
        vec![LunDisk { id: ScsiLunId::new(0, 0), disk: MemDisk::new(vec![0u8; 2048]) }];
    mem.write_slice(&request(&[scsi_opcode::TEST_UNIT_READY]), GuestAddress(0x4000)).unwrap();
    offer(&mem, 0, 0, &[from_guest(0x4000, 51), to_guest(0x7000, u32::MAX - 60)]);
    // The last buffer does not fit, and is not looked at.
    let chain = [from_guest(0x4000, 51), to_guest(0x7000, 108), from_guest(0xF_0000, u32::MAX)];
    offer(&mem, 1, 4, &chain);
    assert_eq!(d.process_requests(&mut q, &mut mem, &mut disks), Ok(2));
    assert_eq!(used(&mem), vec![(0, 108), (4, 108)]);
}

#[test]
fn features_are_accepted_of_those_offered() {
    let mut d = device(vec![]);
    d.ack_features(0b1010);
    assert_eq!(d.state().acked_features, 0b10);
    d.ack_features(1 << 32);
    assert_eq!(d.state().acked_features, (1 << 32) | 0b10);
}

#[test]
fn bad_chains_stop_a_request_queue() {
    let mut mem = memory();
    let mut d = device(vec![config(0, 0)]);
    let mut disks =
        vec![LunDisk { id: ScsiLunId::new(0, 0), disk: MemDisk::new(vec![0u8; 2048]) }];
    mem.write_slice(&request(&[scsi_opcode::TEST_UNIT_READY]), GuestAddress(0x4000)).unwrap();

    let mut q = queue();
    offer(&mem, 0, 0, &[from_guest(0x4000, 51), to_guest(0xF_0000, 108)]);
    let r = d.process_requests(&mut q, &mut mem, &mut disks);
    assert!(matches!(r, Err(QueueError::Response(_))));

    // The used ring is not in guest memory.
    let mut q = queue();
    q.set_used_ring_address(Some(0xF_0000), Some(0));
    offer(&mem, 0, 0, &[from_guest(0x4000, 51), to_guest(0x7000, 108)]);
    assert_eq!(d.process_requests(&mut q, &mut mem, &mut disks), Err(QueueError::AddUsed));
}

#[test]
fn control_queue_is_served_until_it_is_empty() {
    let mut mem = memory();
    let mut q = queue();
    mem.write_slice(&[2, 0, 0, 0], GuestAddress(0x4000)).unwrap();
    mem.write_slice(&[0xFF, 0xFF], GuestAddress(0x5000)).unwrap();
    mem.write_slice(&[7, 0, 0, 0], GuestAddress(0x4100)).unwrap();
    offer(&mem, 0, 0, &[from_guest(0x4000, 24), to_guest(0x5000, 1)]);
    // Too short a request is passed over.
    offer(&mem, 1, 4, &[from_guest(0x4000, 2), to_guest(0x5000, 1)]);
    offer(&mem, 2, 6, &[from_guest(0x4100, 24), to_guest(0x5001, 1)]);
    assert_eq!(serve_ctrl_request(&mut q, &mut mem), Ok(true));
    assert_eq!(process_ctrl_requests(&mut q, &mut mem), Ok(2));
    assert_eq!(used(&mem), vec![(0, 1), (6, 1)]);
    let mut codes = [0u8; 2];
    mem.read_slice(&mut codes, GuestAddress(0x5000)).unwrap();
    assert_eq!(codes, [0, 9]);
    assert_eq!(serve_ctrl_request(&mut q, &mut mem), Ok(false));
}

#[test]
fn bad_chains_stop_the_control_queue() {
    let mut mem = memory();
    let mut q = queue();
    offer(&mem, 0, 0, &[from_guest(0xF_0000, 24), to_guest(0x5000, 1)]);
    assert_eq!(process_ctrl_requests(&mut q, &mut mem), Err(QueueError::ReadRequest));
    let mut q = queue();
    offer(&mem, 0, 0, &[from_guest(0x4000, 24), to_guest(0xF_0000, 1)]);
    assert_eq!(process_ctrl_requests(&mut q, &mut mem), Err(QueueError::WriteAnswer));
    let mut q = queue();
    q.set_used_ring_address(Some(0xF_0000), Some(0));
    offer(&mem, 0, 0, &[from_guest(0x4000, 24), to_guest(0x5000, 1)]);
    assert_eq!(process_ctrl_requests(&mut q, &mut mem), Err(QueueError::AddUsed));
}

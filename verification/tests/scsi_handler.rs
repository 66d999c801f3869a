use cloud_hypervisor::disk::MemDisk;
use cloud_hypervisor::scsi::handler::{
    answer_of, ctrl_response, ctrl_response_descriptor, dispatch_request, find_disk,
    find_lun, handle_report_luns_wlun, perform_writes, process_ctrl_request, process_request,
    process_single_request, response_header, response_writes, write_response, CtrlOutcome,
    Descriptor, GuestWrite, LunDisk, RequestError, ResponseError, WriteDescriptor,
};
use cloud_hypervisor::scsi::protocol::{
    VIRTIO_SCSI_S_FAILURE, VIRTIO_SCSI_S_FUNCTION_SUCCEEDED, VIRTIO_SCSI_T_AN_QUERY,
    VIRTIO_SCSI_T_AN_SUBSCRIBE, VIRTIO_SCSI_T_TMF,
};
use cloud_hypervisor::scsi::{
    encode_lun, scsi_opcode, scsi_status, sense_key, ScsiCommandProcessor, ScsiCommandResult,
    ScsiLunConfig, ScsiLunId, VirtioScsiCmdReq, VIRTIO_SCSI_S_BAD_TARGET, VIRTIO_SCSI_S_OK,
};
use vm_memory::{Bytes, GuestAddress, GuestMemoryMmap};

const MEM: usize = 0x10000;

fn memory() -> GuestMemoryMmap<()> {
    GuestMemoryMmap::from_ranges(&[(GuestAddress(0), MEM)]).unwrap()
}

fn bytes_at(mem: &GuestMemoryMmap<()>, addr: u64, len: usize) -> Vec<u8> {
    let mut buf = vec![0u8; len];
    mem.read_slice(&mut buf, GuestAddress(addr)).unwrap();
    buf
}

fn lun(target: u8, lun: u16, blocks: u64) -> ScsiCommandProcessor {
    let mut config = ScsiLunConfig::default();
    config.target = target;
    config.lun = lun;
    ScsiCommandProcessor::new(config, blocks * 512, 512)
}

fn disk(target: u8, lun: u16, blocks: usize, fill: u8) -> LunDisk<MemDisk> {
    LunDisk { id: ScsiLunId::new(target, lun), disk: MemDisk::new(vec![fill; blocks * 512]) }
}

fn request(target: u8, lun: u16, cdb: &[u8]) -> Vec<u8> {
    let mut bytes = vec![0u8; 51];
    bytes[..8].copy_from_slice(&encode_lun(target, lun));
    bytes[19..19 + cdb.len()].copy_from_slice(cdb);
    bytes
}

fn read_buffer(addr: u64, len: u32) -> Descriptor {
    Descriptor { addr, len, write_only: false }
}

fn write_buffer(addr: u64, len: u32) -> Descriptor {
    Descriptor { addr, len, write_only: true }
}

// ─── Control queue ───────────────────────────────────────────────────────────

#[test]
fn control_requests_are_answered_by_type() {
    assert_eq!(ctrl_response(VIRTIO_SCSI_T_TMF), VIRTIO_SCSI_S_FUNCTION_SUCCEEDED);
    assert_eq!(ctrl_response(VIRTIO_SCSI_T_AN_QUERY), VIRTIO_SCSI_S_OK);
    assert_eq!(ctrl_response(VIRTIO_SCSI_T_AN_SUBSCRIBE), VIRTIO_SCSI_S_OK);
    assert_eq!(ctrl_response(77), VIRTIO_SCSI_S_FAILURE);
}

#[test]
fn control_response_goes_to_the_first_writable_buffer() {
    let descs = [read_buffer(0, 24), read_buffer(64, 8), write_buffer(128, 1), write_buffer(256, 1)];
    assert_eq!(ctrl_response_descriptor(&descs), Some(2));
    assert_eq!(ctrl_response_descriptor(&descs[..2]), None);
    assert_eq!(ctrl_response_descriptor(&[]), None);
    // The request's own descriptor is not looked at.
    assert_eq!(ctrl_response_descriptor(&[write_buffer(0, 24)]), None);
}

#[test]
fn control_request_is_read_from_guest_memory() {
    let mut mem = memory();
    mem.write_slice(&[1, 0, 0, 0], GuestAddress(0x100)).unwrap();
    mem.write_slice(&[0xAA], GuestAddress(0x200)).unwrap();
    let descs = [read_buffer(0x100, 24), write_buffer(0x200, 1)];
    assert_eq!(process_ctrl_request(&mut mem, &descs), CtrlOutcome::Used(1));
    assert_eq!(bytes_at(&mem, 0x200, 1), vec![VIRTIO_SCSI_S_OK]);

    mem.write_slice(&[9, 0, 0, 0], GuestAddress(0x100)).unwrap();
    assert_eq!(process_ctrl_request(&mut mem, &descs), CtrlOutcome::Used(1));
    assert_eq!(bytes_at(&mem, 0x200, 1), vec![VIRTIO_SCSI_S_FAILURE]);
}

#[test]
fn control_request_outcomes() {
    let mut mem = memory();
    let end = MEM as u64;
    assert_eq!(process_ctrl_request(&mut mem, &[]), CtrlOutcome::Skipped);
    assert_eq!(process_ctrl_request(&mut mem, &[read_buffer(0, 3)]), CtrlOutcome::Skipped);
    assert_eq!(process_ctrl_request(&mut mem, &[read_buffer(end - 3, 4)]), CtrlOutcome::ReadFailed);
    assert_eq!(
        process_ctrl_request(&mut mem, &[read_buffer(u64::MAX - 1, 4)]),
        CtrlOutcome::ReadFailed
    );
    assert_eq!(
        process_ctrl_request(&mut mem, &[read_buffer(0, 4), write_buffer(end, 1)]),
        CtrlOutcome::WriteFailed
    );
    assert_eq!(process_ctrl_request(&mut mem, &[read_buffer(0, 4)]), CtrlOutcome::Used(1));
}

// ─── LUNs ────────────────────────────────────────────────────────────────────

#[test]
fn luns_and_disks_are_found_by_id() {
    let luns = vec![lun(0, 0, 1), lun(3, 7, 1)];
    assert_eq!(find_lun(&luns, ScsiLunId::new(3, 7)), Some(1));
    assert_eq!(find_lun(&luns, ScsiLunId::new(7, 3)), None);
    let disks = vec![disk(0, 0, 1, 0), disk(3, 7, 1, 0)];
    assert_eq!(find_disk(&disks, ScsiLunId::new(0, 0)), Some(0));
    assert_eq!(find_disk(&disks, ScsiLunId::new(1, 0)), None);
}

#[test]
fn report_luns_lists_each_lun() {
    let luns = vec![lun(0, 0, 1), lun(3, 300, 1)];
    let r = handle_report_luns_wlun(&luns, 4096);
    assert_eq!(r.status, scsi_status::GOOD);
    assert_eq!(r.data_in.len(), 8 + 16);
    assert_eq!(r.data_in[..8], [0, 0, 0, 16, 0, 0, 0, 0]);
    assert_eq!(r.data_in[8..16], encode_lun(0, 0));
    assert_eq!(r.data_in[16..24], encode_lun(3, 300));
    assert_eq!(handle_report_luns_wlun(&luns, 10).data_in.len(), 10);
}

#[test]
fn requests_are_dispatched_by_lun() {
    let mut luns = vec![lun(0, 0, 4), lun(1, 2, 4)];
    let mut disks = vec![disk(0, 0, 4, 0x11), disk(1, 2, 4, 0x22)];
    let read_one = [scsi_opcode::READ_10, 0, 0, 0, 0, 1, 0, 0, 1, 0];
    let req = VirtioScsiCmdReq::from_bytes(&request(1, 2, &read_one));
    let r = dispatch_request(&req, &[], 512, &mut luns, &mut disks);
    assert_eq!((r.status, r.response), (scsi_status::GOOD, VIRTIO_SCSI_S_OK));
    assert_eq!(r.data_in, vec![0x22; 512]);

    // No such LUN.
    let req = VirtioScsiCmdReq::from_bytes(&request(9, 0, &read_one));
    let r = dispatch_request(&req, &[], 512, &mut luns, &mut disks);
    assert_eq!(r.status, scsi_status::CHECK_CONDITION);
    assert_eq!(r.sense, ScsiCommandResult::incorrect_lun().sense);

    // An address that is none.
    let mut bytes = request(0, 0, &read_one);
    bytes[0] = 0x77;
    let req = VirtioScsiCmdReq::from_bytes(&bytes);
    let r = dispatch_request(&req, &[], 512, &mut luns, &mut disks);
    assert_eq!(r.response, VIRTIO_SCSI_S_BAD_TARGET);

    // A LUN without a disk.
    let mut no_disks: Vec<LunDisk<MemDisk>> = Vec::new();
    let req = VirtioScsiCmdReq::from_bytes(&request(0, 0, &read_one));
    let r = dispatch_request(&req, &[], 512, &mut luns, &mut no_disks);
    assert_eq!(r.sense, ScsiCommandResult::incorrect_lun().sense);

    // The well-known logical unit lists the LUNs, and knows nothing else.
    let mut bytes = request(0, 0, &[scsi_opcode::REPORT_LUNS]);
    bytes[..8].copy_from_slice(&[0xC1, 1, 0, 0, 0, 0, 0, 0]);
    let req = VirtioScsiCmdReq::from_bytes(&bytes);
    let r = dispatch_request(&req, &[], 512, &mut luns, &mut disks);
    assert_eq!(r.data_in.len(), 8 + 16);
    bytes[19] = scsi_opcode::INQUIRY;
    let req = VirtioScsiCmdReq::from_bytes(&bytes);
    let r = dispatch_request(&req, &[], 512, &mut luns, &mut disks);
    assert_eq!(r.sense[2], sense_key::ILLEGAL_REQUEST);
    assert_eq!(r.sense[12..14], [0x20, 0]);
}

// ─── Chains ──────────────────────────────────────────────────────────────────

#[test]
fn requests_that_cannot_be_taken() {
    let mut luns = vec![lun(0, 0, 4)];
    let mut disks = vec![disk(0, 0, 4, 0)];
    let mut mem = memory();
    let (r, w) = process_single_request(&mut mem, &[], &mut luns, &mut disks);
    assert_eq!(r.err(), Some(RequestError::MissingDescriptor));
    assert!(w.is_empty());

    let chain = [read_buffer(0, 50), write_buffer(0x1000, 108)];
    let (r, w) = process_single_request(&mut mem, &chain, &mut luns, &mut disks);
    assert_eq!(r.err(), Some(RequestError::DescriptorTooSmall(50)));
    assert!(w.is_empty());

    let chain = [read_buffer(MEM as u64, 51), write_buffer(0x1000, 108)];
    let (r, w) = process_single_request(&mut mem, &chain, &mut luns, &mut disks);
    assert_eq!(r.err(), Some(RequestError::ReadRequest));
    assert!(w.is_empty());

    let chain = [
        read_buffer(0, 51),
        write_buffer(0x1000, 108),
        read_buffer(MEM as u64 - 1, 2),
        write_buffer(0x2000, 512),
    ];
    let (r, w) = process_single_request(&mut mem, &chain, &mut luns, &mut disks);
    assert_eq!(r.err(), Some(RequestError::ReadDataOut));
    assert_eq!(w, vec![WriteDescriptor { addr: 0x1000, len: 108 }]);
}

#[test]
fn failed_requests_are_aborted() {
    let r = answer_of(Err(RequestError::ReadDataOut));
    assert_eq!(r.status, scsi_status::CHECK_CONDITION);
    assert_eq!(r.sense[2], sense_key::ABORTED_COMMAND);
    let good = answer_of(Ok(ScsiCommandResult::ok_with_data(vec![1, 2])));
    assert_eq!(good.data_in, vec![1, 2]);
}

#[test]
fn a_write_and_a_read_go_through_guest_memory() {
    let mut mem = memory();
    let mut luns = vec![lun(0, 0, 4)];
    let mut disks = vec![disk(0, 0, 4, 0)];
    let data: Vec<u8> = (0..512u32).map(|i| (i % 251) as u8).collect();

    let write_two = [scsi_opcode::WRITE_10, 0, 0, 0, 0, 2, 0, 0, 1, 0];
    mem.write_slice(&request(0, 0, &write_two), GuestAddress(0x100)).unwrap();
    mem.write_slice(&data, GuestAddress(0x1000)).unwrap();
    mem.write_slice(&[0xFF; 108], GuestAddress(0x2000)).unwrap();
    let chain = [
        read_buffer(0x100, 51),
        read_buffer(0x1000, 200),
        read_buffer(0x10C8, 312),
        write_buffer(0x2000, 108),
    ];
    assert_eq!(process_request(&mut mem, &chain, &mut luns, &mut disks), Ok(108));
    assert_eq!(bytes_at(&mem, 0x2000, 108), vec![0u8; 108]);
    assert_eq!(disks[0].disk.bytes()[1024..1536], data[..]);
    assert_eq!(disks[0].disk.bytes()[..1024], [0u8; 1024]);

    // Read it back, the data spread over three buffers.
    let read_two = [scsi_opcode::READ_10, 0, 0, 0, 0, 2, 0, 0, 1, 0];
    mem.write_slice(&request(0, 0, &read_two), GuestAddress(0x100)).unwrap();
    let chain = [
        read_buffer(0x100, 51),
        write_buffer(0x2000, 108 + 12),
        write_buffer(0x3000, 100),
        write_buffer(0x4000, 1000),
    ];
    assert_eq!(process_request(&mut mem, &chain, &mut luns, &mut disks), Ok(108 + 512));
    assert_eq!(bytes_at(&mem, 0x2000 + 108, 12), data[..12]);
    assert_eq!(bytes_at(&mem, 0x3000, 100), data[12..112]);
    assert_eq!(bytes_at(&mem, 0x4000, 400), data[112..]);
    assert_eq!(bytes_at(&mem, 0x4000 + 400, 1), vec![0]);
}

#[test]
fn the_request_and_its_data_come_from_guest_memory() {
    let mut mem = memory();
    let mut luns = vec![lun(0, 0, 4), lun(0, 1, 4)];
    let mut disks = vec![disk(0, 0, 4, 0), disk(0, 1, 4, 0)];
    let data: Vec<u8> = (0..512u32).map(|i| (i % 13) as u8).collect();
    // The second buffer lies below the first in memory.
    mem.write_slice(&data[..500], GuestAddress(0x3000)).unwrap();
    mem.write_slice(&data[500..], GuestAddress(0x1000)).unwrap();
    let write_two = [scsi_opcode::WRITE_10, 0, 0, 0, 0, 2, 0, 0, 1, 0];
    mem.write_slice(&request(0, 1, &write_two), GuestAddress(0x100)).unwrap();
    let chain = [
        read_buffer(0x100, 51),
        read_buffer(0x3000, 500),
        write_buffer(0x2000, 108),
        read_buffer(0x1000, 12),
    ];
    let (r, w) = process_single_request(&mut mem, &chain, &mut luns, &mut disks);
    assert_eq!(r.unwrap().status, scsi_status::GOOD);
    assert_eq!(w, vec![WriteDescriptor { addr: 0x2000, len: 108 }]);
    assert_eq!(disks[1].disk.bytes()[1024..1536], data[..]);
    assert_eq!(disks[0].disk.bytes(), &[0u8; 2048][..]);
}

#[test]
fn long_buffers_are_accepted() {
    let mut mem = memory();
    let mut luns = vec![lun(0, 0, 4)];
    let mut disks = vec![disk(0, 0, 4, 0)];
    mem.write_slice(&request(0, 0, &[scsi_opcode::TEST_UNIT_READY]), GuestAddress(0x100)).unwrap();
    let chain = [read_buffer(0x100, 51), write_buffer(0x2000, u32::MAX)];
    assert_eq!(process_request(&mut mem, &chain, &mut luns, &mut disks), Ok(108));
}

#[test]
fn a_chain_without_a_request_is_used_up_unanswered() {
    let mut mem = memory();
    let mut luns = vec![lun(0, 0, 4)];
    let mut disks = vec![disk(0, 0, 4, 0)];
    let chain = [read_buffer(0, 20), write_buffer(0x2000, 108)];
    assert_eq!(process_request(&mut mem, &chain, &mut luns, &mut disks), Ok(0));
    assert_eq!(bytes_at(&mem, 0x2000, 108), vec![0u8; 108]);
}

#[test]
fn a_chain_with_unreadable_data_is_aborted() {
    let mut mem = memory();
    let mut luns = vec![lun(0, 0, 4)];
    let mut disks = vec![disk(0, 0, 4, 0)];
    let write_one = [scsi_opcode::WRITE_10, 0, 0, 0, 0, 0, 0, 0, 1, 0];
    mem.write_slice(&request(0, 0, &write_one), GuestAddress(0x100)).unwrap();
    let chain =
        [read_buffer(0x100, 51), write_buffer(0x2000, 108), read_buffer(u64::MAX - 511, 512)];
    assert_eq!(process_request(&mut mem, &chain, &mut luns, &mut disks), Ok(108));
    let header = bytes_at(&mem, 0x2000, 108);
    assert_eq!(header[10], scsi_status::CHECK_CONDITION);
    assert_eq!(header[12 + 2], sense_key::ABORTED_COMMAND);
    assert_eq!(disks[0].disk.bytes(), &[0u8; 2048][..]);
}

#[test]
fn a_response_outside_memory_fails() {
    let mut mem = memory();
    let mut luns = vec![lun(0, 0, 4)];
    let mut disks = vec![disk(0, 0, 4, 5)];
    let read_one = [scsi_opcode::READ_10, 0, 0, 0, 0, 0, 0, 0, 1, 0];
    mem.write_slice(&request(0, 0, &read_one), GuestAddress(0x100)).unwrap();
    let chain = [read_buffer(0x100, 51), write_buffer(MEM as u64 - 107, 108)];
    assert_eq!(
        process_request(&mut mem, &chain, &mut luns, &mut disks),
        Err(ResponseError::WriteHeader)
    );
    let chain = [read_buffer(0x100, 51), write_buffer(u64::MAX - 50, 200)];
    assert_eq!(
        process_request(&mut mem, &chain, &mut luns, &mut disks),
        Err(ResponseError::WriteHeader)
    );
    let chain =
        [read_buffer(0x100, 51), write_buffer(0x2000, 108), write_buffer(MEM as u64, 512)];
    assert_eq!(
        process_request(&mut mem, &chain, &mut luns, &mut disks),
        Err(ResponseError::WriteDataIn)
    );
}

// ─── Responses ───────────────────────────────────────────────────────────────

#[test]
fn response_header_holds_the_result() {
    let r = ScsiCommandResult::check_condition(sense_key::ILLEGAL_REQUEST, 0x24, 0x01);
    let header = response_header(&r);
    let bytes = header.to_bytes();
    assert_eq!(bytes.len(), 108);
    assert_eq!(bytes[..4], [18, 0, 0, 0]);
    assert_eq!(bytes[10], scsi_status::CHECK_CONDITION);
    assert_eq!(bytes[11], VIRTIO_SCSI_S_OK);
    assert_eq!(bytes[12], 0x70);
    assert_eq!(bytes[14], sense_key::ILLEGAL_REQUEST);
    assert_eq!(bytes[24..26], [0x24, 0x01]);
    assert_eq!(bytes[30..], [0u8; 78]);
}

#[test]
fn responses_are_spread_over_the_buffers() {
    let r = ScsiCommandResult::ok_with_data(vec![1, 2, 3, 4, 5]);
    let buffers = [
        WriteDescriptor { addr: 0x1000, len: 110 },
        WriteDescriptor { addr: 0x2000, len: 1 },
        WriteDescriptor { addr: 0x3000, len: 9 },
    ];
    let writes = response_writes(&r, &buffers);
    let got: Vec<(u64, usize)> = writes.iter().map(|w| (w.addr, w.bytes.len())).collect();
    assert_eq!(got, vec![(0x1000, 108), (0x1000 + 108, 2), (0x2000, 1), (0x3000, 2)]);
    assert_eq!(writes[1].bytes, vec![1, 2]);
    assert_eq!(writes[2].bytes, vec![3]);
    assert_eq!(writes[3].bytes, vec![4, 5]);
    // What does not fit is left out.
    assert_eq!(response_writes(&r, &buffers[..2]).len(), 3);
    assert!(response_writes(&r, &[]).is_empty());
}

#[test]
fn responses_are_counted() {
    let mut mem = memory();
    let r = ScsiCommandResult::ok_with_data(vec![1, 2, 3, 4, 5]);
    let buffers = [WriteDescriptor { addr: 0x1000, len: 110 }];
    assert_eq!(write_response(&mut mem, &r, &buffers), Ok(110));
    assert_eq!(bytes_at(&mem, 0x1000 + 108, 3), vec![1, 2, 0]);
    assert_eq!(write_response(&mut mem, &r, &[]), Ok(0));
}

#[test]
fn writes_stop_at_the_first_failure() {
    let mut mem = memory();
    let writes = [
        GuestWrite { addr: 0x10, bytes: vec![1] },
        GuestWrite { addr: MEM as u64, bytes: vec![2] },
        GuestWrite { addr: 0x11, bytes: vec![3] },
    ];
    assert_eq!(perform_writes(&mut mem, &writes), Err(ResponseError::WriteDataIn));
    assert_eq!(bytes_at(&mem, 0x10, 2), vec![1, 0]);
    assert_eq!(perform_writes(&mut mem, &writes[1..]), Err(ResponseError::WriteHeader));
    assert_eq!(perform_writes(&mut mem, &writes[2..]), Ok(1));
    assert_eq!(bytes_at(&mem, 0x10, 2), vec![1, 3]);
}

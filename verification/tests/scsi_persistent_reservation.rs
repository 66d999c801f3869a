use std::io::{Cursor, Read, Seek, SeekFrom, Write};

use cloud_hypervisor::disk::DiskError;
use cloud_hypervisor::scsi::{
    scsi_opcode, scsi_status, sense_key, DiskOps, ScsiCommandProcessor, ScsiLunConfig,
    VIRTIO_SCSI_S_OK,
};

const PR_IN_READ_KEYS: u8 = 0x00;
const PR_IN_READ_RESERVATION: u8 = 0x01;
const PR_OUT_REGISTER: u8 = 0x00;
const PR_OUT_RESERVE: u8 = 0x01;
const PR_TYPE_EXCLUSIVE_ACCESS: u8 = 0x03;

struct MemDisk(Cursor<Vec<u8>>);

impl DiskOps for MemDisk {
    fn seek(&mut self, offset: u64) -> Result<(), DiskError> {
        self.0.seek(SeekFrom::Start(offset)).map(|_| ()).map_err(|_| DiskError)
    }

    fn read_exact(&mut self, buf: &mut [u8]) -> Result<(), DiskError> {
        self.0.read_exact(buf).map_err(|_| DiskError)
    }

    fn write_all(&mut self, data: &[u8]) -> Result<(), DiskError> {
        self.0.write_all(data).map_err(|_| DiskError)
    }

    fn flush(&mut self) -> Result<(), DiskError> {
        self.0.flush().map_err(|_| DiskError)
    }
}

fn pr_out_payload(reservation_key: u64, service_action_key: u64) -> Vec<u8> {
    let mut data = vec![0u8; 24];
    data[0..8].copy_from_slice(&reservation_key.to_be_bytes());
    data[8..16].copy_from_slice(&service_action_key.to_be_bytes());
    data
}

fn pr_out_cdb(service_action: u8, reservation_type: u8) -> [u8; 10] {
    [
        scsi_opcode::PERSISTENT_RESERVE_OUT,
        service_action,
        reservation_type,
        0,
        0,
        0,
        0,
        0,
        24,
        0,
    ]
}

fn pr_in_cdb(service_action: u8) -> [u8; 10] {
    [
        scsi_opcode::PERSISTENT_RESERVE_IN,
        service_action,
        0,
        0,
        0,
        0,
        0,
        0,
        64,
        0,
    ]
}

fn lun() -> (ScsiCommandProcessor, MemDisk) {
    (
        ScsiCommandProcessor::new(ScsiLunConfig::default(), 1024 * 1024, 512),
        MemDisk(Cursor::new(vec![0u8; 1024 * 1024])),
    )
}

#[test]
fn test_virtio_scsi_persistent_reservation() {
    let mut processor = ScsiCommandProcessor::new(ScsiLunConfig::default(), 1024 * 1024, 512);
    let mut disk = MemDisk(Cursor::new(vec![0u8; 1024 * 1024]));

    let register = pr_out_cdb(PR_OUT_REGISTER, 0);
    let result = processor.process_command(&register, &pr_out_payload(0, 0x1234), 0, &mut disk);
    assert_eq!(result.response, VIRTIO_SCSI_S_OK);
    assert_eq!(result.status, scsi_status::GOOD);

    let reserve = pr_out_cdb(PR_OUT_RESERVE, PR_TYPE_EXCLUSIVE_ACCESS);
    let result = processor.process_command(&reserve, &pr_out_payload(0x1234, 0), 0, &mut disk);
    assert_eq!(result.response, VIRTIO_SCSI_S_OK);
    assert_eq!(result.status, scsi_status::GOOD);

    let read_keys = pr_in_cdb(PR_IN_READ_KEYS);
    let result = processor.process_command(&read_keys, &[], 64, &mut disk);
    assert_eq!(result.status, scsi_status::GOOD);
    assert_eq!(
        u32::from_be_bytes(result.data_in[4..8].try_into().unwrap()),
        8
    );
    assert_eq!(
        u64::from_be_bytes(result.data_in[8..16].try_into().unwrap()),
        0x1234
    );

    let read_reservation = pr_in_cdb(PR_IN_READ_RESERVATION);
    let result = processor.process_command(&read_reservation, &[], 64, &mut disk);
    assert_eq!(result.status, scsi_status::GOOD);
    assert_eq!(
        u32::from_be_bytes(result.data_in[4..8].try_into().unwrap()),
        16
    );
    assert_eq!(
        u64::from_be_bytes(result.data_in[8..16].try_into().unwrap()),
        0x1234
    );
    assert_eq!(result.data_in[21], PR_TYPE_EXCLUSIVE_ACCESS);
}

#[test]
fn wrong_keys_conflict() {
    let (mut p, mut disk) = lun();
    let register = pr_out_cdb(PR_OUT_REGISTER, 0);
    let reserve = pr_out_cdb(PR_OUT_RESERVE, 1);
    let result = p.process_command(&reserve, &pr_out_payload(0, 0), 0, &mut disk);
    assert_eq!(result.status, scsi_status::RESERVATION_CONFLICT);
    let result = p.process_command(&register, &pr_out_payload(5, 6), 0, &mut disk);
    assert_eq!(result.status, scsi_status::RESERVATION_CONFLICT);
    p.process_command(&register, &pr_out_payload(0, 6), 0, &mut disk);
    let result = p.process_command(&reserve, &pr_out_payload(7, 0), 0, &mut disk);
    assert_eq!(result.status, scsi_status::RESERVATION_CONFLICT);
    assert!(result.sense.is_empty());
}

#[test]
fn reservations_follow_their_key() {
    let (mut p, mut disk) = lun();
    let register = pr_out_cdb(PR_OUT_REGISTER, 0);
    p.process_command(&register, &pr_out_payload(0, 6), 0, &mut disk);
    let reserve = pr_out_cdb(PR_OUT_RESERVE, 1);
    p.process_command(&reserve, &pr_out_payload(6, 0), 0, &mut disk);
    // The same reservation again changes nothing, another type conflicts.
    let again = p.process_command(&reserve, &pr_out_payload(6, 0), 0, &mut disk);
    assert_eq!(again.status, scsi_status::GOOD);
    let other =
        p.process_command(&pr_out_cdb(PR_OUT_RESERVE, 3), &pr_out_payload(6, 0), 0, &mut disk);
    assert_eq!(other.status, scsi_status::RESERVATION_CONFLICT);
    p.process_command(&register, &pr_out_payload(6, 9), 0, &mut disk);
    let data = p.process_command(&pr_in_cdb(1), &[], 64, &mut disk).data_in;
    assert_eq!(data.len(), 24);
    assert_eq!(&data[0..4], &2u32.to_be_bytes());
    assert_eq!(&data[8..16], &9u64.to_be_bytes());
    assert_eq!(data[21], 1);
    // Removing the registration releases the reservation.
    p.process_command(&register, &pr_out_payload(9, 0), 0, &mut disk);
    assert_eq!(
        p.process_command(&pr_in_cdb(1), &[], 64, &mut disk).data_in,
        [0, 0, 0, 3, 0, 0, 0, 0]
    );
    assert_eq!(
        p.process_command(&pr_in_cdb(0), &[], 64, &mut disk).data_in,
        [0, 0, 0, 3, 0, 0, 0, 0]
    );
}

#[test]
fn malformed_reservation_commands_are_refused() {
    let (mut p, mut disk) = lun();
    for (cdb, data) in [
        (pr_out_cdb(2, 0), pr_out_payload(0, 0)),
        (pr_out_cdb(PR_OUT_RESERVE, 2), pr_out_payload(0, 0)),
        (pr_out_cdb(PR_OUT_RESERVE, 0x13), pr_out_payload(0, 0)),
        (pr_out_cdb(PR_OUT_REGISTER, 0), vec![0; 23]),
        (pr_in_cdb(2), Vec::new()),
    ] {
        let result = p.process_command(&cdb, &data, 64, &mut disk);
        assert_eq!(result.status, scsi_status::CHECK_CONDITION);
        assert_eq!(result.sense[2], sense_key::ILLEGAL_REQUEST);
        assert_eq!(result.sense[12], 0x24);
    }
    let short = p.process_command(&pr_in_cdb(0)[..9], &[], 64, &mut disk);
    assert_eq!(short.sense[12], 0x24);
}

use std::io::{Cursor, Read, Seek, SeekFrom, Write};

use cloud_hypervisor::disk::{DiskError, DiskOps, MemDisk, ScsiDisk};
use cloud_hypervisor::scsi::{
    parse_lun, scsi_opcode, scsi_status, sense_key, ScsiCommandProcessor, ScsiCommandResult,
    ScsiDeviceType, ScsiLunConfig, VIRTIO_SCSI_S_OK,
};

struct CursorDisk(Cursor<Vec<u8>>);

impl DiskOps for CursorDisk {
    fn seek(&mut self, offset: u64) -> Result<(), DiskError> {
        self.0.seek(SeekFrom::Start(offset)).map(|_| ()).map_err(|_| DiskError)
    }

    fn read_exact(&mut self, buf: &mut [u8]) -> Result<(), DiskError> {
        self.0.read_exact(buf).map_err(|_| DiskError)
    }

    fn write_all(&mut self, data: &[u8]) -> Result<(), DiskError> {
        self.0.write_all(data).map_err(|_| DiskError)
    }

    fn flush(&mut self) -> Result<(), DiskError> {
        self.0.flush().map_err(|_| DiskError)
    }
}

struct BrokenDisk;

impl DiskOps for BrokenDisk {
    fn seek(&mut self, _offset: u64) -> Result<(), DiskError> {
        Ok(())
    }

    fn read_exact(&mut self, _buf: &mut [u8]) -> Result<(), DiskError> {
        Err(DiskError)
    }

    fn write_all(&mut self, _data: &[u8]) -> Result<(), DiskError> {
        Err(DiskError)
    }

    fn flush(&mut self) -> Result<(), DiskError> {
        Err(DiskError)
    }
}

fn create_test_processor() -> ScsiCommandProcessor {
    let config = ScsiLunConfig::default();
    ScsiCommandProcessor::new(config, 1024 * 1024, 512) // 1MB disk
}

fn assert_sense(result: &ScsiCommandResult, key: u8, asc: u8, ascq: u8) {
    assert_eq!(result.response, VIRTIO_SCSI_S_OK);
    assert_eq!(result.status, scsi_status::CHECK_CONDITION);
    assert_eq!(result.sense.len(), 18);
    assert_eq!(result.sense[2], key);
    assert_eq!(result.sense[12], asc);
    assert_eq!(result.sense[13], ascq);
    assert!(result.data_in.is_empty());
}

#[test]
fn test_test_unit_ready() {
    let processor = create_test_processor();
    let result = processor.cmd_test_unit_ready();
    assert_eq!(result.response, VIRTIO_SCSI_S_OK);
    assert_eq!(result.status, scsi_status::GOOD);
}

#[test]
fn test_inquiry() {
    let processor = create_test_processor();
    let cdb = [scsi_opcode::INQUIRY, 0, 0, 0, 96, 0];
    let result = processor.cmd_inquiry(&cdb, 96);
    assert_eq!(result.response, VIRTIO_SCSI_S_OK);
    assert_eq!(result.status, scsi_status::GOOD);
    assert!(!result.data_in.is_empty());
    // Check device type
    assert_eq!(result.data_in[0], ScsiDeviceType::DirectAccess.code());
}

#[test]
fn test_read_capacity_10() {
    let processor = create_test_processor();
    let result = processor.cmd_read_capacity_10();
    assert_eq!(result.response, VIRTIO_SCSI_S_OK);
    assert_eq!(result.data_in.len(), 8);

    // Check last LBA (1MB / 512 - 1 = 2047)
    let last_lba = u32::from_be_bytes([
        result.data_in[0],
        result.data_in[1],
        result.data_in[2],
        result.data_in[3],
    ]);
    assert_eq!(last_lba, 2047);

    // Check block size
    let block_size = u32::from_be_bytes([
        result.data_in[4],
        result.data_in[5],
        result.data_in[6],
        result.data_in[7],
    ]);
    assert_eq!(block_size, 512);
}

#[test]
fn test_read_write() {
    let mut config = ScsiLunConfig::default();
    config.readonly = false;
    let processor = ScsiCommandProcessor::new(config, 1024 * 1024, 512);
    let mut disk = CursorDisk(Cursor::new(vec![0u8; 1024 * 1024]));

    // Write some data
    let write_data = vec![0xABu8; 512];
    let write_cdb = [scsi_opcode::WRITE_10, 0, 0, 0, 0, 1, 0, 0, 1, 0];
    let result = processor.cmd_write_10(&write_cdb, &write_data, &mut disk);
    assert_eq!(result.response, VIRTIO_SCSI_S_OK);
    assert_eq!(result.status, scsi_status::GOOD);

    // Read it back
    let read_cdb = [scsi_opcode::READ_10, 0, 0, 0, 0, 1, 0, 0, 1, 0];
    let result = processor.cmd_read_10(&read_cdb, 512, &mut disk);
    assert_eq!(result.response, VIRTIO_SCSI_S_OK);
    assert_eq!(result.data_in, write_data);
}

#[test]
fn test_unsupported_command() {
    let mut processor = create_test_processor();
    let mut disk = CursorDisk(Cursor::new(vec![0u8; 1024]));

    let cdb = [0xFF, 0, 0, 0, 0, 0]; // Invalid opcode
    let result = processor.process_command(&cdb, &[], 0, &mut disk);
    assert_eq!(result.response, VIRTIO_SCSI_S_OK);
    assert_eq!(result.status, scsi_status::CHECK_CONDITION);
    assert!(!result.sense.is_empty());
}

#[test]
fn empty_command_is_refused() {
    let mut processor = create_test_processor();
    let mut disk = MemDisk::new(vec![0u8; 512]);
    let result = processor.process_command(&[], &[], 0, &mut disk);
    assert_sense(&result, sense_key::ILLEGAL_REQUEST, 0x20, 0x00);
}

#[test]
fn standard_inquiry_layout() {
    let mut processor = create_test_processor();
    let mut disk = MemDisk::new(Vec::new());
    let cdb = [scsi_opcode::INQUIRY, 0, 0, 0, 96, 0];
    let data = processor.process_command(&cdb, &[], 96, &mut disk).data_in;
    assert_eq!(data.len(), 96);
    assert_eq!(&data[..8], &[0, 0, 0x06, 0x12, 91, 0, 0, 0x02]);
    assert_eq!(&data[8..16], b"CLOUD-HV");
    assert_eq!(&data[16..32], b"VIRTIO-SCSI     ");
    assert_eq!(&data[32..36], b"0001");
    assert!(data[36..].iter().all(|b| *b == 0));
    let short = processor.process_command(&cdb, &[], 5, &mut disk).data_in;
    assert_eq!(short, &data[..5]);
}

#[test]
fn vital_product_data_pages() {
    let config = ScsiLunConfig::new(3, 0x1234, "disk.img".to_string());
    let processor = ScsiCommandProcessor::new(config, 4096, 512);
    let page = |code: u8| processor.cmd_inquiry(&[scsi_opcode::INQUIRY, 1, code, 0, 255, 0], 255);
    assert_eq!(page(0x00).data_in, [0, 0, 0, 4, 0x00, 0x80, 0x83, 0xB0]);
    assert_eq!(&page(0x80).data_in[..4], &[0, 0x80, 0, 16]);
    assert_eq!(&page(0x80).data_in[4..], b"CLOUD-HV-SCSI001");
    assert_eq!(
        page(0x83).data_in,
        [0, 0x83, 0, 12, 1, 3, 0, 8, 0x50, 1, 2, 3, 3, 0x12, 0x34, 0]
    );
    let limits = page(0xB0).data_in;
    assert_eq!(limits.len(), 64);
    assert_eq!(&limits[..4], &[0, 0xB0, 0, 60]);
    assert_eq!(&limits[12..16], &128u32.to_be_bytes());
    assert_eq!(page(0xB2).data_in, [0, 0xB2, 0, 4, 0, 0, 0, 0]);
    assert_sense(&page(0x81), sense_key::ILLEGAL_REQUEST, 0x24, 0x00);
    let plain = processor.cmd_inquiry(&[scsi_opcode::INQUIRY, 0, 0x80, 0, 255, 0], 255);
    assert_sense(&plain, sense_key::ILLEGAL_REQUEST, 0x24, 0x00);
}

#[test]
fn mode_sense_reports_caching_and_write_protection() {
    let mut config = ScsiLunConfig::default();
    config.readonly = true;
    let processor = ScsiCommandProcessor::new(config, 1024 * 1024, 512);
    let six = processor.cmd_mode_sense_6(&[scsi_opcode::MODE_SENSE_6, 0, 0x08, 0, 255, 0], 255);
    assert_eq!(six.data_in.len(), 24);
    assert_eq!(&six.data_in[..4], &[23, 0, 0x80, 8]);
    assert_eq!(&six.data_in[4..12], &[0x00, 0x08, 0x00, 0, 0, 2, 0, 0]);
    assert_eq!(&six.data_in[12..15], &[0x08, 0x12, 0x04]);
    let ten = processor.cmd_mode_sense_10(&[scsi_opcode::MODE_SENSE_10, 8, 0x3F, 0], 255);
    assert_eq!(ten.data_in.len(), 20);
    assert_eq!(&ten.data_in[..8], &[0, 18, 0, 0x80, 0, 0, 0, 0]);
    assert_eq!(&ten.data_in[8..11], &[0x08, 0x12, 0x04]);
    let other = processor.cmd_mode_sense_6(&[scsi_opcode::MODE_SENSE_6, 0, 0x1C, 0, 255, 0], 255);
    assert_sense(&other, sense_key::ILLEGAL_REQUEST, 0x24, 0x00);
}

#[test]
fn block_count_saturates_in_short_forms() {
    let processor = ScsiCommandProcessor::new(ScsiLunConfig::default(), 1 << 42, 512);
    let six = processor.cmd_mode_sense_6(&[scsi_opcode::MODE_SENSE_6, 0, 0x08, 0, 255, 0], 255);
    assert_eq!(&six.data_in[4..7], &[0xFF, 0xFF, 0xFF]);
    let ten = processor.cmd_read_capacity_10();
    assert_eq!(&ten.data_in[..4], &[0xFF; 4]);
    let sixteen =
        processor.cmd_service_action_in_16(&[scsi_opcode::SERVICE_ACTION_IN_16, 0x10], 32);
    assert_eq!(&sixteen.data_in[..8], &((1u64 << 33) - 1).to_be_bytes());
    assert_eq!(&sixteen.data_in[8..12], &512u32.to_be_bytes());
    assert_eq!(sixteen.data_in.len(), 32);
    let other = processor.cmd_service_action_in_16(&[scsi_opcode::SERVICE_ACTION_IN_16, 0x11], 32);
    assert_sense(&other, sense_key::ILLEGAL_REQUEST, 0x20, 0x00);
}

#[test]
fn empty_disk_has_no_blocks() {
    let processor = ScsiCommandProcessor::new(ScsiLunConfig::default(), 511, 512);
    assert_eq!(&processor.cmd_read_capacity_10().data_in[..4], &[0; 4]);
    let mut disk = MemDisk::new(vec![0u8; 511]);
    let result = processor.read_blocks(0, 1, 512, &mut disk);
    assert_sense(&result, sense_key::ILLEGAL_REQUEST, 0x21, 0x00);
}

#[test]
fn request_sense_has_no_sense() {
    let processor = create_test_processor();
    let result = processor.cmd_request_sense(&[scsi_opcode::REQUEST_SENSE, 0], 18);
    assert_eq!(result.status, scsi_status::GOOD);
    assert_eq!(result.data_in.len(), 18);
    assert_eq!(result.data_in[0], 0x70);
    assert_eq!(result.data_in[2], sense_key::NO_SENSE);
    let descriptor = processor.cmd_request_sense(&[scsi_opcode::REQUEST_SENSE, 1], 18);
    assert_sense(&descriptor, sense_key::ILLEGAL_REQUEST, 0x24, 0x00);
}

#[test]
fn reads_and_writes_stay_in_range() {
    let mut processor = create_test_processor();
    let mut disk = MemDisk::new(vec![0u8; 1024 * 1024]);
    let mut cdb = [0u8; 16];
    cdb[0] = scsi_opcode::READ_16;
    cdb[2..10].copy_from_slice(&2047u64.to_be_bytes());
    cdb[10..14].copy_from_slice(&2u32.to_be_bytes());
    let result = processor.process_command(&cdb, &[], 1024, &mut disk);
    assert_sense(&result, sense_key::ILLEGAL_REQUEST, 0x21, 0x00);
    cdb[2..10].copy_from_slice(&u64::MAX.to_be_bytes());
    let result = processor.process_command(&cdb, &[], 1024, &mut disk);
    assert_sense(&result, sense_key::ILLEGAL_REQUEST, 0x21, 0x00);
    cdb[2..10].copy_from_slice(&2046u64.to_be_bytes());
    assert_eq!(processor.process_command(&cdb, &[], 1024, &mut disk).data_in.len(), 1024);
    cdb[10..14].copy_from_slice(&0u32.to_be_bytes());
    let result = processor.process_command(&cdb, &[], 1024, &mut disk);
    assert_eq!(result.status, scsi_status::GOOD);
    assert!(result.data_in.is_empty());
    let result = processor.process_command(&cdb[..15], &[], 1024, &mut disk);
    assert_sense(&result, sense_key::ILLEGAL_REQUEST, 0x24, 0x00);
}

#[test]
fn sixteen_byte_writes_reach_the_disk() {
    let mut processor = create_test_processor();
    let mut disk = MemDisk::new(vec![0u8; 1024 * 1024]);
    let mut cdb = [0u8; 16];
    cdb[0] = scsi_opcode::WRITE_16;
    cdb[2..10].copy_from_slice(&3u64.to_be_bytes());
    cdb[10..14].copy_from_slice(&2u32.to_be_bytes());
    let data: Vec<u8> = (0..1024u32).map(|i| i as u8).collect();
    let result = processor.process_command(&cdb, &data, 0, &mut disk);
    assert_eq!(result.status, scsi_status::GOOD);
    assert_eq!(&disk.bytes()[1536..2560], &data[..]);
    assert!(disk.bytes()[..1536].iter().all(|b| *b == 0));
    assert!(disk.bytes()[2560..].iter().all(|b| *b == 0));
    let result = processor.process_command(&cdb, &data[..1023], 0, &mut disk);
    assert_sense(&result, sense_key::ILLEGAL_REQUEST, 0x24, 0x00);
}

#[test]
fn readonly_luns_refuse_writes() {
    let mut config = ScsiLunConfig::default();
    config.readonly = true;
    let mut processor = ScsiCommandProcessor::new(config, 1024, 512);
    assert!(processor.is_readonly());
    assert!(processor.config().readonly);
    let mut disk = MemDisk::new(vec![0u8; 1024]);
    let cdb = [scsi_opcode::WRITE_10, 0, 0, 0, 0, 0, 0, 0, 1, 0];
    let result = processor.process_command(&cdb, &[1u8; 512], 0, &mut disk);
    assert_sense(&result, sense_key::DATA_PROTECT, 0x27, 0x00);
    assert!(disk.bytes().iter().all(|b| *b == 0));
}

#[test]
fn failing_disks_give_medium_errors() {
    let mut processor = create_test_processor();
    let read = [scsi_opcode::READ_10, 0, 0, 0, 0, 0, 0, 0, 1, 0];
    let result = processor.process_command(&read, &[], 512, &mut BrokenDisk);
    assert_sense(&result, sense_key::MEDIUM_ERROR, 0x11, 0x00);
    let write = [scsi_opcode::WRITE_10, 0, 0, 0, 0, 0, 0, 0, 1, 0];
    let result = processor.process_command(&write, &[0; 512], 0, &mut BrokenDisk);
    assert_sense(&result, sense_key::MEDIUM_ERROR, 0x03, 0x00);
    let sync = [scsi_opcode::SYNCHRONIZE_CACHE_10, 0, 0, 0, 0, 0, 0, 0, 0, 0];
    let result = processor.process_command(&sync, &[], 0, &mut BrokenDisk);
    assert_sense(&result, sense_key::MEDIUM_ERROR, 0x03, 0x00);
    let mut disk = MemDisk::new(Vec::new());
    let result = processor.process_command(&sync, &[], 0, &mut disk);
    assert_eq!(result.status, scsi_status::GOOD);
}

#[test]
fn stopped_units_are_not_ready() {
    let mut processor = create_test_processor();
    let mut disk = MemDisk::new(Vec::new());
    let ready = [scsi_opcode::TEST_UNIT_READY, 0, 0, 0, 0, 0];
    let stop = [scsi_opcode::START_STOP_UNIT, 0, 0, 0, 0, 0];
    assert_eq!(processor.process_command(&stop, &[], 0, &mut disk).status, scsi_status::GOOD);
    let result = processor.process_command(&ready, &[], 0, &mut disk);
    assert_sense(&result, sense_key::NOT_READY, 0x04, 0x02);
    let eject = [scsi_opcode::START_STOP_UNIT, 0, 0, 0, 3, 0];
    let result = processor.process_command(&eject, &[], 0, &mut disk);
    assert_sense(&result, sense_key::ILLEGAL_REQUEST, 0x24, 0x00);
    let start = [scsi_opcode::START_STOP_UNIT, 0, 0, 0, 1, 0];
    assert_eq!(processor.process_command(&start, &[], 0, &mut disk).status, scsi_status::GOOD);
    assert_eq!(processor.process_command(&ready, &[], 0, &mut disk).status, scsi_status::GOOD);
}

#[test]
fn report_luns_and_medium_removal() {
    let config = ScsiLunConfig::new(0, 0x105, "disk.img".to_string());
    let mut processor = ScsiCommandProcessor::new(config, 1024, 512);
    let mut disk = MemDisk::new(Vec::new());
    let report = [scsi_opcode::REPORT_LUNS, 0, 0, 0, 0, 0, 0, 0, 0, 16, 0, 0];
    let result = processor.process_command(&report, &[], 16, &mut disk);
    assert_eq!(result.data_in, [0, 0, 0, 8, 0, 0, 0, 0, 0x41, 5, 0, 0, 0, 0, 0, 0]);
    let field = [1, 0, result.data_in[8], result.data_in[9], 0, 0, 0, 0];
    assert_eq!(parse_lun(&field), Some((0, 0x105)));
    let below = ScsiLunConfig::new(3, 200, "disk.img".to_string());
    let below = ScsiCommandProcessor::new(below, 1024, 512);
    let result = below.cmd_report_luns(&report, 16);
    assert_eq!(result.data_in, [0, 0, 0, 8, 0, 0, 0, 0, 0, 200, 0, 0, 0, 0, 0, 0]);
    let prevent = [scsi_opcode::PREVENT_ALLOW_MEDIUM_REMOVAL, 0, 0, 0, 1, 0];
    let result = processor.process_command(&prevent, &[], 0, &mut disk);
    assert_eq!(result.status, scsi_status::GOOD);
}

#[test]
fn memory_disks_read_what_was_written() {
    let mut disk = MemDisk::new(vec![1, 2, 3]);
    disk.seek(2).unwrap();
    disk.write_all(&[7, 8, 9]).unwrap();
    assert_eq!(disk.bytes(), &[1, 2, 7, 8, 9]);
    disk.seek(1).unwrap();
    let mut buf = [0u8; 3];
    disk.read_exact(&mut buf).unwrap();
    assert_eq!(buf, [2, 7, 8]);
    let mut rest = [0u8; 2];
    assert_eq!(disk.read_exact(&mut rest), Err(DiskError));
    disk.seek(7).unwrap();
    disk.write_all(&[4]).unwrap();
    assert_eq!(disk.bytes(), &[1, 2, 7, 8, 9, 0, 0, 4]);
    let copy = disk.try_clone().unwrap();
    assert_eq!(copy.bytes(), disk.bytes());
}

#[test]
fn no_command_returns_more_than_the_allocation() {
    let config = ScsiLunConfig::new(0, 0, "disk.img".to_string());
    let mut processor = ScsiCommandProcessor::new(config, 1024, 512);
    let mut disk = MemDisk::new((0..1024u32).map(|i| (i % 251) as u8).collect());
    let capacity = [scsi_opcode::READ_CAPACITY_10, 0, 0, 0, 0, 0, 0, 0, 0, 0];
    let result = processor.process_command(&capacity, &[], 6, &mut disk);
    assert_eq!((result.status, result.data_in), (scsi_status::GOOD, vec![0, 0, 0, 1, 0, 0]));
    let read = [scsi_opcode::READ_10, 0, 0, 0, 0, 1, 0, 0, 1, 0];
    let result = processor.process_command(&read, &[], 3, &mut disk);
    assert_eq!((result.status, result.data_in), (scsi_status::GOOD, vec![10, 11, 12]));
    assert_eq!(processor.process_command(&read, &[], 600, &mut disk).data_in.len(), 512);
    let result = ScsiCommandResult::check_condition(sense_key::NO_SENSE, 0, 0).limit(0);
    assert_eq!(result.sense.len(), 18);
}

/// A disk that fails, and that counts the writes to it.
struct FailingDisk(u32);

impl DiskOps for FailingDisk {
    fn seek(&mut self, _offset: u64) -> Result<(), DiskError> {
        Ok(())
    }

    fn read_exact(&mut self, _buf: &mut [u8]) -> Result<(), DiskError> {
        Err(DiskError)
    }

    fn write_all(&mut self, _data: &[u8]) -> Result<(), DiskError> {
        self.0 += 1;
        Err(DiskError)
    }

    fn flush(&mut self) -> Result<(), DiskError> {
        Err(DiskError)
    }
}

#[test]
fn failures_do_not_write_to_a_read_only_disk() {
    let mut config = ScsiLunConfig::new(0, 0, "disk.img".to_string());
    config.readonly = true;
    let mut processor = ScsiCommandProcessor::new(config, 1024, 512);
    let mut disk = FailingDisk(0);
    let read = [scsi_opcode::READ_10, 0, 0, 0, 0, 1, 0, 0, 1, 0];
    let result = processor.process_command(&read, &[], 512, &mut disk);
    assert_eq!(result.sense[2], sense_key::MEDIUM_ERROR);
    let flush = [scsi_opcode::SYNCHRONIZE_CACHE_10, 0, 0, 0, 0, 0, 0, 0, 0, 0];
    let result = processor.process_command(&flush, &[], 0, &mut disk);
    assert_eq!(result.sense[2], sense_key::MEDIUM_ERROR);
    for opcode in [scsi_opcode::WRITE_10, scsi_opcode::WRITE_16] {
        let mut write = [0u8; 16];
        write[0] = opcode;
        let result = processor.process_command(&write, &[0; 512], 0, &mut disk);
        assert_eq!((result.status, result.sense[2]), (2, sense_key::DATA_PROTECT));
        assert_eq!((result.sense[12], result.sense[13]), (0x27, 0));
    }
    assert_eq!(disk.0, 0);
}

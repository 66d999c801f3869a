use cloud_hypervisor::scsi::protocol::{
    VIRTIO_SCSI_DEFAULT_MAX_LUN, VIRTIO_SCSI_T_TRANSPORT_RESET,
};
use cloud_hypervisor::scsi::{
    build_sense_data, encode_lun, is_report_luns_wlun, parse_lun, sense_key, VirtioScsiCmdReq,
    VirtioScsiCmdResp, VirtioScsiConfig, VirtioScsiCtrlAnReq, VirtioScsiCtrlAnResp,
    VirtioScsiCtrlTmfReq, VirtioScsiCtrlTmfResp, VirtioScsiEvent, VIRTIO_SCSI_DEFAULT_MAX_TARGET,
    VIRTIO_SCSI_DEFAULT_SEG_MAX,
};

#[test]
fn test_config_size() {
    // Verify that the config struct has the expected size
    assert_eq!(std::mem::size_of::<VirtioScsiConfig>(), 36);
    assert_eq!(VirtioScsiConfig::new(1).to_bytes().len(), 36);
}

#[test]
fn test_cmd_req_size() {
    // Request header should be 51 bytes (8 + 8 + 1 + 1 + 1 + 32)
    assert_eq!(VirtioScsiCmdReq::WIRE_SIZE, 51);
    assert_eq!(VirtioScsiCmdReq::default().to_bytes().len(), 51);
}

#[test]
fn test_cmd_resp_size() {
    // Response header should be 108 bytes (4 + 4 + 2 + 1 + 1 + 96)
    assert_eq!(VirtioScsiCmdResp::WIRE_SIZE, 108);
    assert_eq!(VirtioScsiCmdResp::default().to_bytes().len(), 108);
}

#[test]
fn protocol_test_lun_parsing() {
    // Test flat space addressing (method 01)
    let lun = encode_lun(5, 10);
    assert_eq!(lun[0], 1); // Single-level
    assert_eq!(lun[1], 5); // Target
    assert_eq!(lun[2], 0x40); // Method 01 + high bits of LUN 10 (0)
    assert_eq!(lun[3], 10); // Low bits of LUN
    let parsed = parse_lun(&lun);
    assert_eq!(parsed, Some((5, 10)));
}

#[test]
fn test_lun_parsing_peripheral() {
    // Test peripheral device addressing (method 00) - what Linux uses
    let mut lun = [0u8; 8];
    lun[0] = 1; // Single-level
    lun[1] = 0; // Target 0
    lun[2] = 0x00; // Method 00, bus 0
    lun[3] = 0; // LUN 0
    let parsed = parse_lun(&lun);
    assert_eq!(parsed, Some((0, 0)));

    // Target 5, LUN 3 with peripheral addressing
    lun[1] = 5;
    lun[2] = 0x00;
    lun[3] = 3;
    let parsed = parse_lun(&lun);
    assert_eq!(parsed, Some((5, 3)));
}

#[test]
fn test_lun_parsing_flat_space() {
    // Test flat space addressing (method 01)
    let mut lun = [0u8; 8];
    lun[0] = 1;
    lun[1] = 0; // Target 0
    lun[2] = 0x40; // Method 01, LUN 0
    lun[3] = 0;
    let parsed = parse_lun(&lun);
    assert_eq!(parsed, Some((0, 0)));

    // Target 240, LUN 0 with flat addressing
    lun[1] = 240;
    lun[2] = 0x40;
    lun[3] = 0;
    let parsed = parse_lun(&lun);
    assert_eq!(parsed, Some((240, 0)));
}

#[test]
fn test_lun_parsing_invalid() {
    let mut lun = [0u8; 8];
    lun[0] = 0; // Invalid: must be 1
    assert_eq!(parse_lun(&lun), None);
}

#[test]
fn test_sense_data() {
    let sense = build_sense_data(sense_key::ILLEGAL_REQUEST, 0x20, 0x00);
    assert_eq!(sense[0], 0x70); // Fixed format, current errors
    assert_eq!(sense[2], sense_key::ILLEGAL_REQUEST);
    assert_eq!(sense[12], 0x20); // ASC: Invalid command operation code
    assert_eq!(sense[13], 0x00); // ASCQ
}

#[test]
fn test_config_default() {
    let config = VirtioScsiConfig::new(4);
    assert_eq!(config.num_queues, 4);
    assert_eq!(config.seg_max, VIRTIO_SCSI_DEFAULT_SEG_MAX);
    assert_eq!(config.max_target, VIRTIO_SCSI_DEFAULT_MAX_TARGET);
}

#[test]
fn every_lun_round_trips() {
    for lun in 0..=VIRTIO_SCSI_DEFAULT_MAX_LUN as u16 {
        assert_eq!(parse_lun(&encode_lun(200, lun)), Some((200, lun)));
    }
    // Only 14 bits find room.
    assert_eq!(parse_lun(&encode_lun(0, 16384)), Some((0, 0)));
}

#[test]
fn other_lun_formats_address_nothing() {
    assert_eq!(parse_lun(&[1, 0, 0x80, 0, 0, 0, 0, 0]), None);
    assert_eq!(parse_lun(&[1, 0, 0xC0, 0, 0, 0, 0, 0]), None);
    assert_eq!(parse_lun(&[1, 0, 0x40, 0, 0, 0, 0, 1]), None);
    // The bus of peripheral addressing is not looked at.
    assert_eq!(parse_lun(&[1, 0, 0x3F, 7, 0, 0, 0, 0]), Some((0, 7)));
}

#[test]
fn the_well_known_unit_is_no_lun() {
    let wlun = [0xC1, 0x01, 0, 0, 0, 0, 0, 0];
    assert!(is_report_luns_wlun(&wlun));
    assert_eq!(parse_lun(&wlun), None);
    assert!(!is_report_luns_wlun(&[0xC1, 0x01, 0, 0, 0, 0, 0, 1]));
    assert!(!is_report_luns_wlun(&encode_lun(1, 1)));
}

#[test]
fn configuration_space_layout() {
    let bytes = VirtioScsiConfig::new(3).to_bytes();
    assert_eq!(&bytes[0..4], &3u32.to_le_bytes());
    assert_eq!(&bytes[4..8], &126u32.to_le_bytes());
    assert_eq!(&bytes[8..12], &0xFFFFu32.to_le_bytes());
    assert_eq!(&bytes[12..16], &128u32.to_le_bytes());
    assert_eq!(&bytes[16..20], &0u32.to_le_bytes());
    assert_eq!(&bytes[20..24], &96u32.to_le_bytes());
    assert_eq!(&bytes[24..28], &32u32.to_le_bytes());
    assert_eq!(&bytes[28..30], &0u16.to_le_bytes());
    assert_eq!(&bytes[30..32], &255u16.to_le_bytes());
    assert_eq!(&bytes[32..36], &16383u32.to_le_bytes());
    assert!(VirtioScsiConfig::default().to_bytes().iter().all(|b| *b == 0));
}

#[test]
fn request_headers_round_trip() {
    let mut req = VirtioScsiCmdReq::default();
    req.lun = encode_lun(9, 300);
    req.tag = 0x0123_4567_89AB_CDEF;
    req.task_attr = 1;
    req.prio = 2;
    req.crn = 3;
    req.cdb[0] = 0x28;
    req.cdb[31] = 0x77;
    let bytes = req.to_bytes();
    assert_eq!(&bytes[8..16], &req.tag.to_le_bytes());
    let back = VirtioScsiCmdReq::from_bytes(&bytes);
    assert_eq!(back.lun, req.lun);
    assert_eq!(back.tag, req.tag);
    assert_eq!((back.task_attr, back.prio, back.crn), (1, 2, 3));
    assert_eq!(back.cdb, req.cdb);
}

#[test]
fn control_structures_on_the_wire() {
    let mut tmf = Vec::new();
    tmf.extend_from_slice(&0u32.to_le_bytes());
    tmf.extend_from_slice(&5u32.to_le_bytes());
    tmf.extend_from_slice(&encode_lun(1, 2));
    tmf.extend_from_slice(&99u64.to_le_bytes());
    assert_eq!(tmf.len(), VirtioScsiCtrlTmfReq::WIRE_SIZE);
    let req = VirtioScsiCtrlTmfReq::from_bytes(&tmf);
    assert_eq!((req.request_type, req.subtype, req.tag), (0, 5, 99));
    assert_eq!(req.lun, encode_lun(1, 2));
    let mut an = Vec::new();
    an.extend_from_slice(&1u32.to_le_bytes());
    an.extend_from_slice(&encode_lun(1, 2));
    an.extend_from_slice(&16u32.to_le_bytes());
    let req = VirtioScsiCtrlAnReq::from_bytes(&an);
    assert_eq!((req.request_type, req.event_requested), (1, 16));
    assert_eq!(VirtioScsiCtrlTmfResp { response: 10 }.to_bytes(), [10]);
    assert_eq!(
        VirtioScsiCtrlAnResp { event_actual: 0x0102, response: 7 }.to_bytes(),
        [2, 1, 0, 0, 7]
    );
    let event =
        VirtioScsiEvent { event: VIRTIO_SCSI_T_TRANSPORT_RESET, lun: encode_lun(0, 1), reason: 1 };
    assert_eq!(event.to_bytes(), [1, 0, 0, 0, 1, 0, 0x40, 1, 0, 0, 0, 0, 1, 0, 0, 0]);
}

#[test]
fn response_headers_on_the_wire() {
    let mut resp = VirtioScsiCmdResp::default();
    resp.sense_len = 18;
    resp.resid = 0x0A0B;
    resp.status_qualifier = 0x0C0D;
    resp.status = 2;
    resp.response = 9;
    resp.sense[0] = 0x70;
    resp.sense[95] = 0x71;
    let bytes = resp.to_bytes();
    assert_eq!(&bytes[..12], &[18, 0, 0, 0, 0x0B, 0x0A, 0, 0, 0x0D, 0x0C, 2, 9]);
    assert_eq!((bytes[12], bytes[107]), (0x70, 0x71));
}

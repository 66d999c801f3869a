use cloud_hypervisor::scsi::{
    ScsiDeviceType, ScsiLunConfig, ScsiLunId, ScsiLunState, ScsiTargetError, ScsiTargetInfo,
    ScsiTargetResult,
};

#[test]
fn test_lun_id_display() {
    let id = ScsiLunId::new(5, 10);
    assert_eq!(id.to_text(), "5:10");
}

#[test]
fn test_device_type_from_u8() {
    assert_eq!(ScsiDeviceType::from(0x00), ScsiDeviceType::DirectAccess);
    assert_eq!(ScsiDeviceType::from(0x05), ScsiDeviceType::CdDvd);
    assert_eq!(ScsiDeviceType::from(0xFF), ScsiDeviceType::Unknown);
}

#[test]
fn test_lun_config_vendor_bytes() {
    let config = ScsiLunConfig::default();
    let vendor = config.vendor_id_bytes();
    assert_eq!(&vendor, b"CLOUD-HV");
}

#[test]
fn test_lun_config_product_bytes() {
    let config = ScsiLunConfig::default();
    let product = config.product_id_bytes();
    assert_eq!(&product[..11], b"VIRTIO-SCSI");
    assert_eq!(product[11], b' '); // Space-padded
}

#[test]
fn test_lun_config_new() {
    let path = String::from("/path/to/disk.img");
    let config = ScsiLunConfig::new(1, 5, path.clone());
    assert_eq!(config.target, 1);
    assert_eq!(config.lun, 5);
    assert_eq!(config.path, path);
    assert!(!config.readonly);
}

#[test]
fn every_device_type_has_its_code() {
    for code in 0..=0xFFu8 {
        let device = ScsiDeviceType::from(code);
        if device != ScsiDeviceType::Unknown {
            assert_eq!(device.code(), code);
        }
    }
    assert_eq!(ScsiDeviceType::StorageArrayController.code(), 0x0C);
    assert_eq!(ScsiDeviceType::WellKnownLu.code(), 0x1E);
    assert_eq!(ScsiDeviceType::Unknown.code(), 0x1F);
    assert_eq!(ScsiDeviceType::from(0x0A), ScsiDeviceType::Unknown);
    assert_eq!(ScsiDeviceType::default(), ScsiDeviceType::DirectAccess);
}

#[test]
fn long_identifications_are_cut() {
    let mut config = ScsiLunConfig::default();
    config.vendor_id = "A VERY LONG VENDOR".to_string();
    config.product_id = String::new();
    config.product_rev = "1.\u{e4}!".to_string();
    assert_eq!(&config.vendor_id_bytes(), b"A VERY L");
    assert_eq!(&config.product_id_bytes(), b"                ");
    assert_eq!(&config.product_rev_bytes(), &[0x31, 0x2E, 0xC3, 0xA4]);
    assert_eq!(&ScsiLunConfig::default().product_rev_bytes(), b"0001");
}

#[test]
fn lun_ids_and_copies() {
    let config = ScsiLunConfig::new(255, 16383, "x".to_string());
    assert_eq!(config.id(), ScsiLunId::new(255, 16383));
    assert_eq!(config.id().to_text(), "255:16383");
    assert_eq!(config.duplicate().path, "x");
    assert_eq!(ScsiLunId::default(), ScsiLunId::new(0, 0));
    assert_eq!(ScsiLunId::new(0, 100).to_text(), "0:100");
}

#[test]
fn states_start_empty() {
    let state = ScsiLunState::default();
    assert!(!state.online);
    assert!(state.persistent_reservation.registered_keys.is_empty());
    assert_eq!(ScsiTargetInfo::default().lun_count, 0);
    let missing: ScsiTargetResult<()> = Err(ScsiTargetError::LunNotFound(1, 2));
    assert!(missing.is_err());
}

//! The virtio SCSI host device.

pub mod commands;
pub mod device;
pub mod handler;
pub mod protocol;
pub mod queue;
pub mod reservation;
pub mod scsi_opcode;
pub mod scsi_status;
pub mod sense_key;
pub mod target;

pub use crate::disk::{DiskOps, ScsiDisk};
pub use commands::{ScsiCommandError, ScsiCommandProcessor, ScsiCommandResult};
pub use device::{Error, Scsi, ScsiState};
pub use protocol::{
    build_sense_data, encode_lun, is_report_luns_wlun, parse_lun, VirtioScsiCmdReq,
    VirtioScsiCmdResp, VirtioScsiConfig, VirtioScsiCtrlAnReq, VirtioScsiCtrlAnResp,
    VirtioScsiCtrlTmfReq, VirtioScsiCtrlTmfResp, VirtioScsiEvent, VIRTIO_SCSI_DEFAULT_MAX_TARGET,
    VIRTIO_SCSI_DEFAULT_SEG_MAX, VIRTIO_SCSI_S_BAD_TARGET, VIRTIO_SCSI_S_OK,
};
pub use target::{
    ScsiDeviceType, ScsiLunConfig, ScsiLunId, ScsiLunState, ScsiPersistentReservation,
    ScsiPersistentReservationState, ScsiTargetError, ScsiTargetInfo, ScsiTargetResult,
};

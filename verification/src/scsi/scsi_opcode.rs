//! SCSI operation codes of the common commands.
use vstd::prelude::*;

verus! {

pub const TEST_UNIT_READY: u8 = 0x00;

pub const REQUEST_SENSE: u8 = 0x03;

pub const INQUIRY: u8 = 0x12;

pub const MODE_SELECT_6: u8 = 0x15;

pub const MODE_SENSE_6: u8 = 0x1A;

pub const START_STOP_UNIT: u8 = 0x1B;

pub const PREVENT_ALLOW_MEDIUM_REMOVAL: u8 = 0x1E;

pub const READ_CAPACITY_10: u8 = 0x25;

pub const READ_10: u8 = 0x28;

pub const WRITE_10: u8 = 0x2A;

pub const SYNCHRONIZE_CACHE_10: u8 = 0x35;

pub const UNMAP: u8 = 0x42;

pub const MODE_SELECT_10: u8 = 0x55;

pub const PERSISTENT_RESERVE_IN: u8 = 0x5E;

pub const PERSISTENT_RESERVE_OUT: u8 = 0x5F;

pub const MODE_SENSE_10: u8 = 0x5A;

pub const READ_16: u8 = 0x88;

pub const WRITE_16: u8 = 0x8A;

pub const SYNCHRONIZE_CACHE_16: u8 = 0x91;

pub const SERVICE_ACTION_IN_16: u8 = 0x9E;

pub const REPORT_LUNS: u8 = 0xA0;

/// Service action for READ CAPACITY (16).
pub const SAI_READ_CAPACITY_16: u8 = 0x10;

/// PERSISTENT RESERVE IN service action: list the registered keys.
pub const PRI_READ_KEYS: u8 = 0x00;

/// PERSISTENT RESERVE IN service action: report the active reservation.
pub const PRI_READ_RESERVATION: u8 = 0x01;

/// PERSISTENT RESERVE OUT service action: register or unregister a key.
pub const PRO_REGISTER: u8 = 0x00;

/// PERSISTENT RESERVE OUT service action: take the reservation.
pub const PRO_RESERVE: u8 = 0x01;

} // verus!

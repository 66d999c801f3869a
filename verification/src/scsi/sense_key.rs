//! SCSI sense key codes.
use vstd::prelude::*;

verus! {

pub const NO_SENSE: u8 = 0x00;

pub const RECOVERED_ERROR: u8 = 0x01;

pub const NOT_READY: u8 = 0x02;

pub const MEDIUM_ERROR: u8 = 0x03;

pub const HARDWARE_ERROR: u8 = 0x04;

pub const ILLEGAL_REQUEST: u8 = 0x05;

pub const UNIT_ATTENTION: u8 = 0x06;

pub const DATA_PROTECT: u8 = 0x07;

pub const BLANK_CHECK: u8 = 0x08;

pub const VENDOR_SPECIFIC: u8 = 0x09;

pub const COPY_ABORTED: u8 = 0x0A;

pub const ABORTED_COMMAND: u8 = 0x0B;

pub const VOLUME_OVERFLOW: u8 = 0x0D;

pub const MISCOMPARE: u8 = 0x0E;

pub const COMPLETED: u8 = 0x0F;

} // verus!

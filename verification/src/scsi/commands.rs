//! SCSI command parsing and execution for one LUN.
use vstd::prelude::*;

use crate::bytes::{
    be16, be16_at, be32, be32_at, be64, be64_at, be_value, big_endian_numbers,
    bytes_stand_for_their_number, copy_range, get_be16, get_be32, get_be64, prefix, push_be16,
    push_be32, push_be64, push_bytes, push_zeros, zeros,
};
use crate::disk::{written, DiskError, DiskOps};
use crate::scsi::protocol::{
    build_sense_data, encode_lun, lun_address, lun_field, sense_data, VIRTIO_SCSI_S_BAD_TARGET,
    VIRTIO_SCSI_S_OK,
};
use crate::scsi::reservation::ReservationOutcome;
use crate::scsi::scsi_opcode;
use crate::scsi::scsi_status;
use crate::scsi::sense_key;
use crate::scsi::target::{
    padded, LunConfigView, ReservationView, ScsiLunConfig, ScsiPersistentReservationState,
};

verus! {

/// Errors of SCSI command processing.
#[derive(Debug, Clone, Copy, PartialEq, Eq)]
pub enum ScsiCommandError {
    InvalidCdb,
    InvalidLun([u8; 8]),
    LunNotFound(u8, u16),
    IoError(DiskError),
    GuestMemoryError,
    UnsupportedCommand(u8),
    MediumNotPresent,
    WriteProtected,
    InvalidFieldInCdb,
    LbaOutOfRange,
}

// ─── Results ─────────────────────────────────────────────────────────────────

/// Result of SCSI command execution.
#[derive(Debug, Clone)]
pub struct ScsiCommandResult {
    /// Virtio SCSI response code
    pub response: u8,
    /// SCSI status byte
    pub status: u8,
    /// Data for the guest (for read operations)
    pub data_in: Vec<u8>,
    /// Sense data (if status is CHECK CONDITION)
    pub sense: Vec<u8>,
    /// Residual byte count
    pub resid: u32,
}

/// What a command result says.
pub struct ResultView {
    pub response: u8,
    pub status: u8,
    pub data_in: Seq<u8>,
    pub sense: Seq<u8>,
    pub resid: u32,
}

impl View for ScsiCommandResult {
    type V = ResultView;

    open spec fn view(&self) -> ResultView {
        ResultView {
            response: self.response,
            status: self.status,
            data_in: self.data_in@,
            sense: self.sense@,
            resid: self.resid,
        }
    }
}

/// Success, with data for the guest.
pub open spec fn good(data: Seq<u8>) -> ResultView {
    ResultView {
        response: VIRTIO_SCSI_S_OK,
        status: scsi_status::GOOD,
        data_in: data,
        sense: Seq::empty(),
        resid: 0,
    }
}

/// CHECK CONDITION, with fixed-format sense data.
pub open spec fn failed(key: u8, asc: u8, ascq: u8) -> ResultView {
    ResultView {
        response: VIRTIO_SCSI_S_OK,
        status: scsi_status::CHECK_CONDITION,
        data_in: Seq::empty(),
        sense: sense_data(key, asc, ascq),
        resid: 0,
    }
}

/// The result for a LUN field that addresses no target.
pub open spec fn no_target() -> ResultView {
    ResultView {
        response: VIRTIO_SCSI_S_BAD_TARGET,
        status: 0,
        data_in: Seq::empty(),
        sense: Seq::empty(),
        resid: 0,
    }
}

/// RESERVATION CONFLICT status.
pub open spec fn conflict() -> ResultView {
    ResultView { status: scsi_status::RESERVATION_CONFLICT, ..good(Seq::empty()) }
}

/// ILLEGAL REQUEST: invalid command operation code.
pub open spec fn invalid_opcode() -> ResultView {
    failed(sense_key::ILLEGAL_REQUEST, 0x20, 0x00)
}

/// ILLEGAL REQUEST: invalid field in CDB.
pub open spec fn invalid_field() -> ResultView {
    failed(sense_key::ILLEGAL_REQUEST, 0x24, 0x00)
}

/// ILLEGAL REQUEST: logical unit not supported.
pub open spec fn unsupported_lun() -> ResultView {
    failed(sense_key::ILLEGAL_REQUEST, 0x25, 0x00)
}

/// MEDIUM ERROR: unrecovered read error.
pub open spec fn read_error() -> ResultView {
    failed(sense_key::MEDIUM_ERROR, 0x11, 0x00)
}

/// MEDIUM ERROR: write fault.
pub open spec fn write_fault() -> ResultView {
    failed(sense_key::MEDIUM_ERROR, 0x03, 0x00)
}

impl Default for ScsiCommandResult {
    fn default() -> (r: Self)
        ensures
            r@ == good(Seq::empty()),
    {
        ScsiCommandResult {
            response: VIRTIO_SCSI_S_OK,
            status: scsi_status::GOOD,
            data_in: Vec::new(),
            sense: Vec::new(),
            resid: 0,
        }
    }
}

impl ScsiCommandResult {
    /// Create a successful result with data.
    pub fn ok_with_data(data: Vec<u8>) -> (r: Self)
        ensures
            r@ == good(data@),
    {
        ScsiCommandResult {
            response: VIRTIO_SCSI_S_OK,
            status: scsi_status::GOOD,
            data_in: data,
            sense: Vec::new(),
            resid: 0,
        }
    }

    /// Create an error result with sense data.
    pub fn check_condition(sense_key: u8, asc: u8, ascq: u8) -> (r: Self)
        ensures
            r@ == failed(sense_key, asc, ascq),
    {
        let bytes: [u8; 18] = build_sense_data(sense_key, asc, ascq);
        let sense: Vec<u8> = copy_range(bytes.as_slice(), 0, 18);
        assert(sense@ =~= bytes@);
        ScsiCommandResult {
            response: VIRTIO_SCSI_S_OK,
            status: scsi_status::CHECK_CONDITION,
            data_in: Vec::new(),
            sense,
            resid: 0,
        }
    }

    /// Create a bad target response.
    pub fn bad_target() -> (r: Self)
        ensures
            r@ == no_target(),
    {
        ScsiCommandResult {
            response: VIRTIO_SCSI_S_BAD_TARGET,
            status: 0,
            data_in: Vec::new(),
            sense: Vec::new(),
            resid: 0,
        }
    }

    /// Create a response for an incorrect LUN.
    ///
    /// On the request queues VIRTIO_SCSI_S_INCORRECT_LUN is no valid response:
    /// the response is VIRTIO_SCSI_S_OK with CHECK CONDITION status and sense
    /// data LOGICAL UNIT NOT SUPPORTED.
    pub fn incorrect_lun() -> (r: Self)
        ensures
            r@ == unsupported_lun(),
    {
        ScsiCommandResult::check_condition(sense_key::ILLEGAL_REQUEST, 0x25, 0x00)
    }

    /// Create a RESERVATION CONFLICT result.
    pub fn reservation_conflict() -> (r: Self)
        ensures
            r@ == conflict(),
    {
        ScsiCommandResult {
            response: VIRTIO_SCSI_S_OK,
            status: scsi_status::RESERVATION_CONFLICT,
            data_in: Vec::new(),
            sense: Vec::new(),
            resid: 0,
        }
    }

    /// Create a successful result with at most `allocation_length` bytes of
    /// the data.
    pub fn ok_truncated(data: Vec<u8>, allocation_length: u32) -> (r: Self)
        ensures
            r@ == good(prefix(data@, allocation_length as int)),
    {
        let n: usize = data.len();
        if (allocation_length as u64) < n as u64 {
            ScsiCommandResult::ok_with_data(
                copy_range(data.as_slice(), 0, allocation_length as usize),
            )
        } else {
            ScsiCommandResult::ok_with_data(data)
        }
    }

    /// The result with at most `allocation_length` bytes of its data.
    pub fn limit(self, allocation_length: u32) -> (r: Self)
        ensures
            r@ == limited(self@, allocation_length),
    {
        let n: usize = self.data_in.len();
        if (allocation_length as u64) < n as u64 {
            let data_in: Vec<u8> = copy_range(
                self.data_in.as_slice(),
                0,
                allocation_length as usize,
            );
            ScsiCommandResult {
                response: self.response,
                status: self.status,
                data_in,
                sense: self.sense,
                resid: self.resid,
            }
        } else {
            self
        }
    }

    /// The result of a read of the medium that came out as `outcome`, with at
    /// most `allocation_length` bytes of the data.
    pub fn finish_read(outcome: Result<Vec<u8>, DiskError>, allocation_length: u32) -> (r: Self)
        ensures
            r@ == match outcome {
                Ok(data) => good(prefix(data@, allocation_length as int)),
                Err(_) => read_error(),
            },
    {
        match outcome {
            Ok(data) => ScsiCommandResult::ok_truncated(data, allocation_length),
            Err(_) => ScsiCommandResult::check_condition(sense_key::MEDIUM_ERROR, 0x11, 0x00),
        }
    }

    /// The result of a write to the medium, or of a flush, that came out as
    /// `outcome`.
    pub fn finish_write(outcome: Result<(), DiskError>) -> (r: Self)
        ensures
            r@ == match outcome {
                Ok(_) => good(Seq::empty()),
                Err(_) => write_fault(),
            },
    {
        match outcome {
            Ok(_) => ScsiCommandResult::default(),
            Err(_) => ScsiCommandResult::check_condition(sense_key::MEDIUM_ERROR, 0x03, 0x00),
        }
    }
}

/// A result with at most `allocation_length` bytes of its data.
pub open spec fn limited(r: ResultView, allocation_length: u32) -> ResultView {
    ResultView { data_in: prefix(r.data_in, allocation_length as int), ..r }
}

// ─── The state of a LUN ──────────────────────────────────────────────────────

/// SCSI command processor for a single LUN.
#[derive(Debug, Clone)]
pub struct ScsiCommandProcessor {
    /// LUN configuration
    config: ScsiLunConfig,
    /// Disk size in bytes
    disk_size: u64,
    /// Block size (typically 512)
    block_size: u32,
    /// Number of blocks
    num_blocks: u64,
    /// Whether the LUN is ready
    ready: bool,
    /// Persistent reservations of the LUN
    reservations: ScsiPersistentReservationState,
}

/// The state of a LUN.
pub struct ProcessorView {
    pub config: LunConfigView,
    pub disk_size: u64,
    pub block_size: u32,
    pub num_blocks: u64,
    pub ready: bool,
    pub reservations: ReservationView,
}

impl View for ScsiCommandProcessor {
    type V = ProcessorView;

    closed spec fn view(&self) -> ProcessorView {
        ProcessorView {
            config: self.config@,
            disk_size: self.disk_size,
            block_size: self.block_size,
            num_blocks: self.num_blocks,
            ready: self.ready,
            reservations: self.reservations@,
        }
    }
}

/// A LUN as it comes up: ready, with all whole blocks of its disk and without
/// reservations.
pub open spec fn fresh_lun(config: LunConfigView, disk_size: u64, block_size: u32) -> ProcessorView {
    ProcessorView {
        config,
        disk_size,
        block_size,
        num_blocks: (disk_size / block_size as u64) as u64,
        ready: true,
        reservations: ReservationView {
            generation: 0,
            registered_keys: Seq::empty(),
            reservation: None,
        },
    }
}

/// What a command asks for.
pub enum CommandPlan {
    /// The answer is known without the disk.
    Done(ResultView),
    /// Read `len` bytes at `offset`, and return at most `limit` of them.
    Read { offset: int, len: int, limit: int },
    /// Write the first `len` bytes of the data at `offset`.
    Write { offset: int, len: int },
    /// Write back the disk's cache.
    Flush,
}

impl ProcessorView {
    /// The blocks are those of the disk, and the disk fits in memory addresses.
    pub open spec fn wf(self) -> bool {
        &&& self.block_size > 0
        &&& self.num_blocks == self.disk_size / self.block_size as u64
        &&& self.disk_size <= usize::MAX
        &&& self.reservations.wf()
    }

    /// The device type code, byte 0 of all INQUIRY data.
    pub open spec fn device_code(self) -> u8 {
        self.config.device_type.spec_code()
    }

    /// Standard INQUIRY data: SPC-4, command queuing, 91 bytes behind byte 4,
    /// and the identification.
    pub open spec fn standard_inquiry(self) -> Seq<u8> {
        seq![self.device_code(), 0u8, 0x06, 0x12, 91, 0, 0, 0x02] + padded(
            self.config.vendor_id,
            8,
        ) + padded(self.config.product_id, 16) + padded(self.config.product_rev, 4) + zeros(60)
    }

    /// VPD page 0x00: the supported pages.
    pub open spec fn vpd_supported_pages(self) -> Seq<u8> {
        seq![self.device_code(), 0u8, 0, 4, 0x00, 0x80, 0x83, 0xB0]
    }

    /// VPD page 0x80: the unit serial number CLOUD-HV-SCSI001.
    pub open spec fn vpd_serial_number(self) -> Seq<u8> {
        seq![self.device_code(), 0x80u8, 0, 16] + seq![
            0x43u8,
            0x4C,
            0x4F,
            0x55,
            0x44,
            0x2D,
            0x48,
            0x56,
            0x2D,
            0x53,
            0x43,
            0x53,
            0x49,
            0x30,
            0x30,
            0x31,
        ]
    }

    /// VPD page 0x83: one NAA identifier made of the target and the LUN.
    pub open spec fn vpd_device_identification(self) -> Seq<u8> {
        seq![
            self.device_code(),
            0x83u8,
            0,
            12,
            0x01,
            0x03,
            0,
            8,
            0x50,
            0x01,
            0x02,
            0x03,
            self.config.target,
            (self.config.lun / 0x100) as u8,
            (self.config.lun % 0x100) as u8,
            0,
        ]
    }

    /// VPD page 0xB0: block limits, an optimal transfer length of 128 blocks.
    pub open spec fn vpd_block_limits(self) -> Seq<u8> {
        seq![self.device_code(), 0xB0u8, 0, 60] + zeros(8) + be32(128) + zeros(48)
    }

    /// VPD page 0xB2: logical block provisioning, none.
    pub open spec fn vpd_block_provisioning(self) -> Seq<u8> {
        seq![self.device_code(), 0xB2u8, 0, 4, 0, 0, 0, 0]
    }

    /// INQUIRY: the standard data, or the vital product data page that byte 2
    /// names where bit 0 of byte 1 asks for one.
    pub open spec fn inquiry(self, cdb: Seq<u8>, allocation_length: u32) -> ResultView {
        let n = allocation_length as int;
        let page = cdb[2];
        if cdb[1] % 2 == 1 {
            if page == 0x00 {
                good(prefix(self.vpd_supported_pages(), n))
            } else if page == 0x80 {
                good(prefix(self.vpd_serial_number(), n))
            } else if page == 0x83 {
                good(prefix(self.vpd_device_identification(), n))
            } else if page == 0xB0 {
                good(prefix(self.vpd_block_limits(), n))
            } else if page == 0xB2 {
                good(prefix(self.vpd_block_provisioning(), n))
            } else {
                invalid_field()
            }
        } else if page != 0 {
            invalid_field()
        } else {
            good(prefix(self.standard_inquiry(), n))
        }
    }

    /// REQUEST SENSE: no sense; descriptor format is not supported.
    pub open spec fn request_sense(self, cdb: Seq<u8>, allocation_length: u32) -> ResultView {
        if cdb[1] % 2 == 1 {
            invalid_field()
        } else {
            good(prefix(sense_data(sense_key::NO_SENSE, 0x00, 0x00), allocation_length as int))
        }
    }

    /// The mode parameter header: the length of what follows its length field,
    /// the write protection of a read-only LUN and the length of the block
    /// descriptor.
    pub open spec fn mode_header(self, dbd: bool, is_10: bool) -> Seq<u8> {
        let wp: u8 = if self.config.readonly {
            0x80
        } else {
            0x00
        };
        let block_desc_len: u16 = if dbd {
            0
        } else {
            8
        };
        if is_10 {
            be16((8 + block_desc_len + 12 - 2) as u16) + seq![0u8, wp, 0, 0] + be16(block_desc_len)
        } else {
            seq![(4 + block_desc_len + 12 - 1) as u8, 0u8, wp, block_desc_len as u8]
        }
    }

    /// The block descriptor: the number of blocks, saturated to three bytes,
    /// and the block size.
    pub open spec fn block_descriptor(self, dbd: bool) -> Seq<u8> {
        let n: u32 = if self.num_blocks > 0xFF_FFFF {
            0xFF_FFFF
        } else {
            self.num_blocks as u32
        };
        if dbd {
            Seq::empty()
        } else {
            seq![
                (n / 0x1_0000 % 0x100) as u8,
                (n / 0x100 % 0x100) as u8,
                (n % 0x100) as u8,
                0u8,
                (self.block_size / 0x1_0000 % 0x100) as u8,
                (self.block_size / 0x100 % 0x100) as u8,
                (self.block_size % 0x100) as u8,
                0u8,
            ]
        }
    }

    /// MODE SENSE: header, block descriptor and the caching page with the
    /// write cache enabled, which is the only page there is.
    pub open spec fn mode_sense(
        self,
        dbd: bool,
        page_code: u8,
        allocation_length: u32,
        is_10: bool,
    ) -> ResultView {
        if page_code == 0x08 || page_code == 0x3F {
            good(
                prefix(
                    self.mode_header(dbd, is_10) + self.block_descriptor(dbd) + seq![
                        0x08u8,
                        0x12,
                        0x04,
                    ] + zeros(9),
                    allocation_length as int,
                ),
            )
        } else {
            invalid_field()
        }
    }

    /// The address of the last block, zero where there is none.
    pub open spec fn last_lba(self) -> u64 {
        if self.num_blocks > 0 {
            (self.num_blocks - 1) as u64
        } else {
            0
        }
    }

    /// READ CAPACITY (10): the last block address, saturated to four bytes,
    /// and the block size.
    pub open spec fn read_capacity_10(self) -> ResultView {
        let last: u32 = if self.last_lba() > 0xFFFF_FFFF {
            0xFFFF_FFFF
        } else {
            self.last_lba() as u32
        };
        good(be32(last) + be32(self.block_size))
    }

    /// SERVICE ACTION IN (16): READ CAPACITY (16), the last block address and
    /// the block size; no other service action.
    pub open spec fn service_action_in_16(
        self,
        cdb: Seq<u8>,
        allocation_length: u32,
    ) -> ResultView {
        if cdb[1] % 32 != scsi_opcode::SAI_READ_CAPACITY_16 {
            invalid_opcode()
        } else {
            good(
                prefix(
                    be64(self.last_lba()) + be32(self.block_size) + zeros(20),
                    allocation_length as int,
                ),
            )
        }
    }

    /// The two bytes that stand for the LUN in a list: in peripheral device
    /// addressing below 256, in flat space addressing above.
    pub open spec fn listed_lun(self) -> Seq<u8> {
        if self.config.lun < 256 {
            seq![0u8, self.config.lun as u8]
        } else {
            lun_field(self.config.target, self.config.lun).subrange(2, 4)
        }
    }

    /// REPORT LUNS: this LUN alone.
    pub open spec fn report_luns(self, allocation_length: u32) -> ResultView {
        good(
            prefix(
                be32(8) + zeros(4) + self.listed_lun() + zeros(6),
                allocation_length as int,
            ),
        )
    }

    /// Whether `count` blocks from `lba` on are blocks of the disk.
    pub open spec fn in_range(self, lba: int, count: int) -> bool {
        0 <= lba < self.num_blocks && lba + count <= self.num_blocks
    }

    /// A read of `count` blocks at `lba`, of which at most `limit` bytes are
    /// returned.
    pub open spec fn read_plan(self, lba: u64, count: u32, limit: u32) -> CommandPlan {
        if count == 0 {
            CommandPlan::Done(good(Seq::empty()))
        } else if !self.in_range(lba as int, count as int) {
            CommandPlan::Done(failed(sense_key::ILLEGAL_REQUEST, 0x21, 0x00))
        } else {
            CommandPlan::Read {
                offset: lba * self.block_size,
                len: count * self.block_size,
                limit: limit as int,
            }
        }
    }

    /// A write of `count` blocks at `lba` with `available` bytes of data.
    pub open spec fn write_plan(self, lba: u64, count: u32, available: nat) -> CommandPlan {
        if count == 0 {
            CommandPlan::Done(good(Seq::empty()))
        } else if !self.in_range(lba as int, count as int) {
            CommandPlan::Done(failed(sense_key::ILLEGAL_REQUEST, 0x21, 0x00))
        } else if available < count * self.block_size {
            CommandPlan::Done(invalid_field())
        } else {
            CommandPlan::Write { offset: lba * self.block_size, len: count * self.block_size }
        }
    }

    /// READ (10): a four-byte block address and a two-byte count.
    pub open spec fn read_10(self, cdb: Seq<u8>, limit: u32) -> CommandPlan {
        if cdb.len() < 10 {
            CommandPlan::Done(invalid_field())
        } else {
            self.read_plan(be32_at(cdb, 2) as u64, be16_at(cdb, 7) as u32, limit)
        }
    }

    /// READ (16): an eight-byte block address and a four-byte count.
    pub open spec fn read_16(self, cdb: Seq<u8>, limit: u32) -> CommandPlan {
        if cdb.len() < 16 {
            CommandPlan::Done(invalid_field())
        } else {
            self.read_plan(be64_at(cdb, 2), be32_at(cdb, 10), limit)
        }
    }

    /// WRITE (10), refused on a read-only LUN.
    pub open spec fn write_10(self, cdb: Seq<u8>, data: Seq<u8>) -> CommandPlan {
        if self.config.readonly {
            CommandPlan::Done(failed(sense_key::DATA_PROTECT, 0x27, 0x00))
        } else if cdb.len() < 10 {
            CommandPlan::Done(invalid_field())
        } else {
            self.write_plan(be32_at(cdb, 2) as u64, be16_at(cdb, 7) as u32, data.len())
        }
    }

    /// WRITE (16), refused on a read-only LUN.
    pub open spec fn write_16(self, cdb: Seq<u8>, data: Seq<u8>) -> CommandPlan {
        if self.config.readonly {
            CommandPlan::Done(failed(sense_key::DATA_PROTECT, 0x27, 0x00))
        } else if cdb.len() < 16 {
            CommandPlan::Done(invalid_field())
        } else {
            self.write_plan(be64_at(cdb, 2), be32_at(cdb, 10), data.len())
        }
    }

    /// PERSISTENT RESERVE IN: the keys or the reservation.
    pub open spec fn persistent_reserve_in(
        self,
        cdb: Seq<u8>,
        allocation_length: u32,
    ) -> ResultView {
        if cdb.len() < 10 {
            invalid_field()
        } else if cdb[1] % 32 == scsi_opcode::PRI_READ_KEYS {
            good(prefix(self.reservations.key_list(), allocation_length as int))
        } else if cdb[1] % 32 == scsi_opcode::PRI_READ_RESERVATION {
            good(prefix(self.reservations.reservation_data(), allocation_length as int))
        } else {
            invalid_field()
        }
    }

    /// How a PERSISTENT RESERVE OUT ends: its parameter list holds the
    /// reservation key and the service action key; byte 2 of the command
    /// holds the scope and the type.
    pub open spec fn reserve_out_outcome(self, cdb: Seq<u8>, data: Seq<u8>) -> ReservationOutcome {
        if cdb.len() < 10 || data.len() < 24 {
            ReservationOutcome::InvalidField
        } else if cdb[1] % 32 == scsi_opcode::PRO_REGISTER {
            self.reservations.register_outcome(be64_at(data, 0))
        } else if cdb[1] % 32 == scsi_opcode::PRO_RESERVE {
            self.reservations.reserve_outcome(be64_at(data, 0), cdb[2])
        } else {
            ReservationOutcome::InvalidField
        }
    }

    /// The answer to PERSISTENT RESERVE OUT.
    pub open spec fn persistent_reserve_out(self, cdb: Seq<u8>, data: Seq<u8>) -> ResultView {
        match self.reserve_out_outcome(cdb, data) {
            ReservationOutcome::Done => good(Seq::empty()),
            ReservationOutcome::Conflict => conflict(),
            ReservationOutcome::InvalidField => invalid_field(),
        }
    }

    /// The state after PERSISTENT RESERVE OUT.
    pub open spec fn after_reserve_out(self, cdb: Seq<u8>, data: Seq<u8>) -> ProcessorView {
        if self.reserve_out_outcome(cdb, data) == ReservationOutcome::Done {
            ProcessorView {
                reservations: if cdb[1] % 32 == scsi_opcode::PRO_REGISTER {
                    self.reservations.registered(be64_at(data, 8))
                } else {
                    self.reservations.reserved(be64_at(data, 0), cdb[2])
                },
                ..self
            }
        } else {
            self
        }
    }

    /// What a command asks for.
    pub open spec fn plan(
        self,
        cdb: Seq<u8>,
        data_out: Seq<u8>,
        allocation_length: u32,
    ) -> CommandPlan {
        if cdb.len() == 0 {
            CommandPlan::Done(invalid_opcode())
        } else {
            let op = cdb[0];
            if op == scsi_opcode::TEST_UNIT_READY {
                CommandPlan::Done(
                    if self.ready {
                        good(Seq::empty())
                    } else {
                        failed(sense_key::NOT_READY, 0x04, 0x02)
                    },
                )
            } else if op == scsi_opcode::REQUEST_SENSE {
                CommandPlan::Done(self.request_sense(cdb, allocation_length))
            } else if op == scsi_opcode::INQUIRY {
                CommandPlan::Done(self.inquiry(cdb, allocation_length))
            } else if op == scsi_opcode::MODE_SENSE_6 {
                CommandPlan::Done(
                    self.mode_sense(cdb[1] / 8 % 2 == 1, cdb[2] % 64, allocation_length, false),
                )
            } else if op == scsi_opcode::MODE_SENSE_10 {
                CommandPlan::Done(
                    self.mode_sense(cdb[1] / 8 % 2 == 1, cdb[2] % 64, allocation_length, true),
                )
            } else if op == scsi_opcode::READ_CAPACITY_10 {
                CommandPlan::Done(limited(self.read_capacity_10(), allocation_length))
            } else if op == scsi_opcode::SERVICE_ACTION_IN_16 {
                CommandPlan::Done(self.service_action_in_16(cdb, allocation_length))
            } else if op == scsi_opcode::READ_10 {
                self.read_10(cdb, allocation_length)
            } else if op == scsi_opcode::READ_16 {
                self.read_16(cdb, allocation_length)
            } else if op == scsi_opcode::WRITE_10 {
                self.write_10(cdb, data_out)
            } else if op == scsi_opcode::WRITE_16 {
                self.write_16(cdb, data_out)
            } else if op == scsi_opcode::SYNCHRONIZE_CACHE_10 || op
                == scsi_opcode::SYNCHRONIZE_CACHE_16 {
                CommandPlan::Flush
            } else if op == scsi_opcode::START_STOP_UNIT {
                CommandPlan::Done(
                    if cdb[4] / 2 % 2 == 1 {
                        invalid_field()
                    } else {
                        good(Seq::empty())
                    },
                )
            } else if op == scsi_opcode::REPORT_LUNS {
                CommandPlan::Done(self.report_luns(allocation_length))
            } else if op == scsi_opcode::PREVENT_ALLOW_MEDIUM_REMOVAL {
                CommandPlan::Done(good(Seq::empty()))
            } else if op == scsi_opcode::PERSISTENT_RESERVE_IN {
                CommandPlan::Done(self.persistent_reserve_in(cdb, allocation_length))
            } else if op == scsi_opcode::PERSISTENT_RESERVE_OUT {
                CommandPlan::Done(self.persistent_reserve_out(cdb, data_out))
            } else {
                CommandPlan::Done(invalid_opcode())
            }
        }
    }

    /// The state of the LUN after a command: START STOP UNIT sets whether it is
    /// ready, PERSISTENT RESERVE OUT changes its reservations, nothing else
    /// changes anything.
    pub open spec fn after(self, cdb: Seq<u8>, data_out: Seq<u8>) -> ProcessorView {
        if cdb.len() > 0 && cdb[0] == scsi_opcode::START_STOP_UNIT && cdb[4] / 2 % 2 == 0 {
            ProcessorView { ready: cdb[4] % 2 == 1, ..self }
        } else if cdb.len() > 0 && cdb[0] == scsi_opcode::PERSISTENT_RESERVE_OUT {
            self.after_reserve_out(cdb, data_out)
        } else {
            self
        }
    }
}

/// The command descriptor block holds the bytes that its command reads.
pub open spec fn cdb_complete(cdb: Seq<u8>) -> bool {
    cdb.len() > 0 ==> {
        let op = cdb[0];
        &&& op == scsi_opcode::REQUEST_SENSE || op == scsi_opcode::SERVICE_ACTION_IN_16
            ==> cdb.len() >= 2
        &&& op == scsi_opcode::INQUIRY || op == scsi_opcode::MODE_SENSE_6 || op
            == scsi_opcode::MODE_SENSE_10 ==> cdb.len() >= 3
        &&& op == scsi_opcode::START_STOP_UNIT ==> cdb.len() >= 5
    }
}

/// The bytes of a disk reach from `offset` over `len`, and the disk does not
/// fail there.
pub open spec fn holds<D: DiskOps>(disk: D, offset: int, len: int) -> bool {
    disk.reliable() && offset + len <= disk.contents().len()
}

/// The outcome of a plan on a disk: without the disk the answer is the plan's
/// and the disk stays as it is; a read answers with the bytes of the disk, as
/// far as they are asked for, a write puts the data there, and a flush has the
/// bytes reach the medium. Each fails where the disk does, which a reliable one
/// does not within its bytes, nor afterwards. A read and a flush keep the bytes
/// even where they fail.
pub open spec fn carried_out<D: DiskOps>(
    plan: CommandPlan,
    data_out: Seq<u8>,
    before: D,
    after: D,
    result: ResultView,
) -> bool {
    match plan {
        CommandPlan::Done(r) => result == r && after == before,
        CommandPlan::Read { offset, len, limit } => {
            &&& after.contents() == before.contents()
            &&& {
                ||| result == read_error() && !holds(before, offset, len)
                ||| {
                    &&& offset + len <= before.contents().len()
                    &&& result == good(
                        prefix(before.contents().subrange(offset, offset + len), limit),
                    )
                    &&& before.reliable() ==> after.reliable()
                }
            }
        },
        CommandPlan::Write { offset, len } => {
            ||| result == write_fault() && !holds(before, offset, len)
            ||| {
                &&& result == good(Seq::empty())
                &&& after.contents() == written(
                    before.contents(),
                    offset,
                    data_out.subrange(0, len),
                )
                &&& holds(before, offset, len) ==> after.reliable()
            }
        },
        CommandPlan::Flush => {
            &&& after.contents() == before.contents()
            &&& {
                ||| result == write_fault() && !before.reliable()
                ||| {
                    &&& result == good(Seq::empty())
                    &&& after.stored() == after.contents()
                    &&& before.reliable() ==> after.reliable()
                }
            }
        },
    }
}

// ─── Command execution ───────────────────────────────────────────────────────

/// Block ranges of a disk are byte ranges of it.
proof fn blocks_are_bytes(p: ProcessorView, lba: int, count: int)
    requires
        p.wf(),
        p.in_range(lba, count),
        0 <= count,
    ensures
        0 <= lba * p.block_size <= lba * p.block_size + count * p.block_size <= p.disk_size,
        0 <= count * p.block_size,
{
    let b = p.block_size as int;
    let n = p.num_blocks as int;
    let size = p.disk_size as int;
    vstd::arithmetic::div_mod::lemma_fundamental_div_mod(size, b);
    assert(b * n <= size) by {
        vstd::arithmetic::div_mod::lemma_mod_bound(size, b);
    }
    assert(lba * b + count * b == (lba + count) * b) by (nonlinear_arith);
    assert((lba + count) * b <= n * b) by (nonlinear_arith)
        requires
            lba + count <= n,
            b > 0,
    ;
    assert(n * b == b * n) by (nonlinear_arith);
    assert(0 <= lba * b) by (nonlinear_arith)
        requires
            0 <= lba,
            b > 0,
    ;
    assert(0 <= count * b) by (nonlinear_arith)
        requires
            0 <= count,
            b > 0,
    ;
}

impl ScsiCommandProcessor {
    /// Create a new command processor for a LUN.
    pub fn new(config: ScsiLunConfig, disk_size: u64, block_size: u32) -> (p: Self)
        requires
            block_size > 0,
            disk_size <= usize::MAX,
        ensures
            p@ == fresh_lun(config@, disk_size, block_size),
            p@.wf(),
    {
        let num_blocks: u64 = disk_size / block_size as u64;
        ScsiCommandProcessor {
            config,
            disk_size,
            block_size,
            num_blocks,
            ready: true,
            reservations: ScsiPersistentReservationState::default(),
        }
    }

    /// Get the LUN configuration.
    pub fn config(&self) -> (config: &ScsiLunConfig)
        ensures
            config@ == self@.config,
    {
        &self.config
    }

    /// Check if the LUN is read-only.
    pub fn is_readonly(&self) -> (b: bool)
        ensures
            b == self@.config.readonly,
    {
        self.config.readonly
    }

    /// Process a SCSI command.
    ///
    /// # Arguments
    /// * `cdb` - Command Descriptor Block
    /// * `data_out` - Data from guest (for write commands)
    /// * `allocation_length` - Maximum data to return
    /// * `disk` - The disk to operate on
    pub fn process_command<D: DiskOps>(
        &mut self,
        cdb: &[u8],
        data_out: &[u8],
        allocation_length: u32,
        disk: &mut D,
    ) -> (result: ScsiCommandResult)
        requires
            old(self)@.wf(),
            cdb_complete(cdb@),
        ensures
            final(self)@ == old(self)@.after(cdb@, data_out@),
            final(self)@.wf(),
            carried_out(
                old(self)@.plan(cdb@, data_out@, allocation_length),
                data_out@,
                *old(disk),
                *final(disk),
                result@,
            ),
            result@.data_in.len() <= allocation_length,
            old(self)@.config.readonly ==> final(disk).contents() == old(disk).contents(),
    {
        if cdb.len() == 0 {
            return ScsiCommandResult::check_condition(sense_key::ILLEGAL_REQUEST, 0x20, 0x00);
        }
        let opcode: u8 = cdb[0];
        if opcode == scsi_opcode::TEST_UNIT_READY {
            self.cmd_test_unit_ready()
        } else if opcode == scsi_opcode::REQUEST_SENSE {
            self.cmd_request_sense(cdb, allocation_length)
        } else if opcode == scsi_opcode::INQUIRY {
            self.cmd_inquiry(cdb, allocation_length)
        } else if opcode == scsi_opcode::MODE_SENSE_6 {
            self.cmd_mode_sense_6(cdb, allocation_length)
        } else if opcode == scsi_opcode::MODE_SENSE_10 {
            self.cmd_mode_sense_10(cdb, allocation_length)
        } else if opcode == scsi_opcode::READ_CAPACITY_10 {
            self.cmd_read_capacity_10().limit(allocation_length)
        } else if opcode == scsi_opcode::SERVICE_ACTION_IN_16 {
            self.cmd_service_action_in_16(cdb, allocation_length)
        } else if opcode == scsi_opcode::READ_10 {
            self.cmd_read_10(cdb, allocation_length, disk)
        } else if opcode == scsi_opcode::READ_16 {
            self.cmd_read_16(cdb, allocation_length, disk)
        } else if opcode == scsi_opcode::WRITE_10 {
            self.cmd_write_10(cdb, data_out, disk)
        } else if opcode == scsi_opcode::WRITE_16 {
            self.cmd_write_16(cdb, data_out, disk)
        } else if opcode == scsi_opcode::SYNCHRONIZE_CACHE_10 || opcode
            == scsi_opcode::SYNCHRONIZE_CACHE_16 {
            self.cmd_synchronize_cache(disk)
        } else if opcode == scsi_opcode::START_STOP_UNIT {
            self.cmd_start_stop_unit(cdb)
        } else if opcode == scsi_opcode::REPORT_LUNS {
            self.cmd_report_luns(cdb, allocation_length)
        } else if opcode == scsi_opcode::PREVENT_ALLOW_MEDIUM_REMOVAL {
            self.cmd_prevent_allow_medium_removal(cdb)
        } else if opcode == scsi_opcode::PERSISTENT_RESERVE_IN {
            self.cmd_persistent_reserve_in(cdb, allocation_length)
        } else if opcode == scsi_opcode::PERSISTENT_RESERVE_OUT {
            self.cmd_persistent_reserve_out(cdb, data_out)
        } else {
            ScsiCommandResult::check_condition(sense_key::ILLEGAL_REQUEST, 0x20, 0x00)
        }
    }

    /// TEST UNIT READY command
    pub fn cmd_test_unit_ready(&self) -> (result: ScsiCommandResult)
        ensures
            result@ == if self@.ready {
                good(Seq::empty())
            } else {
                failed(sense_key::NOT_READY, 0x04, 0x02)
            },
    {
        if self.ready {
            ScsiCommandResult::default()
        } else {
            ScsiCommandResult::check_condition(sense_key::NOT_READY, 0x04, 0x02)
        }
    }

    /// REQUEST SENSE command
    pub fn cmd_request_sense(&self, cdb: &[u8], allocation_length: u32) -> (result:
        ScsiCommandResult)
        requires
            cdb@.len() >= 2,
        ensures
            result@ == self@.request_sense(cdb@, allocation_length),
    {
        if cdb[1] % 2 != 0 {
            return ScsiCommandResult::check_condition(sense_key::ILLEGAL_REQUEST, 0x24, 0x00);
        }
        let bytes: [u8; 18] = build_sense_data(sense_key::NO_SENSE, 0x00, 0x00);
        let sense: Vec<u8> = copy_range(bytes.as_slice(), 0, 18);
        assert(sense@ =~= bytes@);
        ScsiCommandResult::ok_truncated(sense, allocation_length)
    }

    /// INQUIRY command
    pub fn cmd_inquiry(&self, cdb: &[u8], allocation_length: u32) -> (result: ScsiCommandResult)
        requires
            cdb@.len() >= 3,
        ensures
            result@ == self@.inquiry(cdb@, allocation_length),
    {
        let evpd: bool = cdb[1] % 2 != 0;
        let page_code: u8 = cdb[2];
        if evpd {
            match page_code {
                0x00 => self.inquiry_vpd_supported_pages(allocation_length),
                0x80 => self.inquiry_vpd_unit_serial_number(allocation_length),
                0x83 => self.inquiry_vpd_device_identification(allocation_length),
                0xB0 => self.inquiry_vpd_block_limits(allocation_length),
                0xB2 => self.inquiry_vpd_logical_block_provisioning(allocation_length),
                _ => ScsiCommandResult::check_condition(sense_key::ILLEGAL_REQUEST, 0x24, 0x00),
            }
        } else if page_code != 0 {
            ScsiCommandResult::check_condition(sense_key::ILLEGAL_REQUEST, 0x24, 0x00)
        } else {
            self.inquiry_standard(allocation_length)
        }
    }

    /// Standard INQUIRY response
    pub fn inquiry_standard(&self, allocation_length: u32) -> (result: ScsiCommandResult)
        ensures
            result@ == good(prefix(self@.standard_inquiry(), allocation_length as int)),
    {
        let mut data: Vec<u8> = Vec::new();
        data.push(self.config.device_type.code());
        data.push(0x00);
        data.push(0x06);
        data.push(0x12);
        data.push(91);
        data.push(0x00);
        data.push(0x00);
        data.push(0x02);
        let vendor: [u8; 8] = self.config.vendor_id_bytes();
        push_bytes(&mut data, vendor.as_slice());
        let product: [u8; 16] = self.config.product_id_bytes();
        push_bytes(&mut data, product.as_slice());
        let revision: [u8; 4] = self.config.product_rev_bytes();
        push_bytes(&mut data, revision.as_slice());
        push_zeros(&mut data, 60);
        assert(data@ =~= self@.standard_inquiry());
        ScsiCommandResult::ok_truncated(data, allocation_length)
    }

    /// VPD page 0x00: Supported VPD Pages
    pub fn inquiry_vpd_supported_pages(&self, allocation_length: u32) -> (result:
        ScsiCommandResult)
        ensures
            result@ == good(prefix(self@.vpd_supported_pages(), allocation_length as int)),
    {
        let data: Vec<u8> = vec![
            self.config.device_type.code(),
            0x00,
            0,
            4,
            0x00,
            0x80,
            0x83,
            0xB0,
        ];
        assert(data@ =~= self@.vpd_supported_pages());
        ScsiCommandResult::ok_truncated(data, allocation_length)
    }

    /// VPD page 0x80: Unit Serial Number
    pub fn inquiry_vpd_unit_serial_number(&self, allocation_length: u32) -> (result:
        ScsiCommandResult)
        ensures
            result@ == good(prefix(self@.vpd_serial_number(), allocation_length as int)),
    {
        let data: Vec<u8> = vec![
            self.config.device_type.code(),
            0x80,
            0,
            16,
            0x43,
            0x4C,
            0x4F,
            0x55,
            0x44,
            0x2D,
            0x48,
            0x56,
            0x2D,
            0x53,
            0x43,
            0x53,
            0x49,
            0x30,
            0x30,
            0x31,
        ];
        assert(data@ =~= self@.vpd_serial_number());
        ScsiCommandResult::ok_truncated(data, allocation_length)
    }

    /// VPD page 0x83: Device Identification
    pub fn inquiry_vpd_device_identification(&self, allocation_length: u32) -> (result:
        ScsiCommandResult)
        ensures
            result@ == good(prefix(self@.vpd_device_identification(), allocation_length as int)),
    {
        let data: Vec<u8> = vec![
            self.config.device_type.code(),
            0x83,
            0,
            12,
            0x01,
            0x03,
            0,
            8,
            0x50,
            0x01,
            0x02,
            0x03,
            self.config.target,
            (self.config.lun / 0x100) as u8,
            (self.config.lun % 0x100) as u8,
            0,
        ];
        assert(data@ =~= self@.vpd_device_identification());
        ScsiCommandResult::ok_truncated(data, allocation_length)
    }

    /// VPD page 0xB0: Block Limits
    pub fn inquiry_vpd_block_limits(&self, allocation_length: u32) -> (result: ScsiCommandResult)
        ensures
            result@ == good(prefix(self@.vpd_block_limits(), allocation_length as int)),
    {
        let mut data: Vec<u8> = vec![self.config.device_type.code(), 0xB0, 0, 60];
        push_zeros(&mut data, 8);
        push_be32(&mut data, 128);
        push_zeros(&mut data, 48);
        assert(data@ =~= self@.vpd_block_limits());
        ScsiCommandResult::ok_truncated(data, allocation_length)
    }

    /// VPD page 0xB2: Logical Block Provisioning
    pub fn inquiry_vpd_logical_block_provisioning(&self, allocation_length: u32) -> (result:
        ScsiCommandResult)
        ensures
            result@ == good(prefix(self@.vpd_block_provisioning(), allocation_length as int)),
    {
        let data: Vec<u8> = vec![self.config.device_type.code(), 0xB2, 0, 4, 0, 0, 0, 0];
        assert(data@ =~= self@.vpd_block_provisioning());
        ScsiCommandResult::ok_truncated(data, allocation_length)
    }

    /// MODE SENSE (6) command
    pub fn cmd_mode_sense_6(&self, cdb: &[u8], allocation_length: u32) -> (result:
        ScsiCommandResult)
        requires
            cdb@.len() >= 3,
        ensures
            result@ == self@.mode_sense(
                cdb@[1] / 8 % 2 == 1,
                cdb@[2] % 64,
                allocation_length,
                false,
            ),
    {
        let dbd: bool = cdb[1] / 8 % 2 != 0;
        let page_code: u8 = cdb[2] % 64;
        let page_control: u8 = cdb[2] / 64;
        self.mode_sense_common(dbd, page_code, page_control, allocation_length, false)
    }

    /// MODE SENSE (10) command
    pub fn cmd_mode_sense_10(&self, cdb: &[u8], allocation_length: u32) -> (result:
        ScsiCommandResult)
        requires
            cdb@.len() >= 3,
        ensures
            result@ == self@.mode_sense(cdb@[1] / 8 % 2 == 1, cdb@[2] % 64, allocation_length, true),
    {
        let dbd: bool = cdb[1] / 8 % 2 != 0;
        let page_code: u8 = cdb[2] % 64;
        let page_control: u8 = cdb[2] / 64;
        self.mode_sense_common(dbd, page_code, page_control, allocation_length, true)
    }

    /// Common MODE SENSE implementation
    pub fn mode_sense_common(
        &self,
        dbd: bool,
        page_code: u8,
        _page_control: u8,
        allocation_length: u32,
        is_10: bool,
    ) -> (result: ScsiCommandResult)
        ensures
            result@ == self@.mode_sense(dbd, page_code, allocation_length, is_10),
    {
        if page_code != 0x08 && page_code != 0x3F {
            return ScsiCommandResult::check_condition(sense_key::ILLEGAL_REQUEST, 0x24, 0x00);
        }
        let mut data: Vec<u8> = self.mode_parameter_header(dbd, is_10);
        let descriptor: Vec<u8> = self.mode_block_descriptor(dbd);
        push_bytes(&mut data, descriptor.as_slice());
        let page: [u8; 3] = [0x08, 0x12, 0x04];
        assert(page@ =~= seq![0x08u8, 0x12, 0x04]);
        push_bytes(&mut data, page.as_slice());
        push_zeros(&mut data, 9);
        ScsiCommandResult::ok_truncated(data, allocation_length)
    }

    /// The mode parameter header.
    fn mode_parameter_header(&self, dbd: bool, is_10: bool) -> (data: Vec<u8>)
        ensures
            data@ == self@.mode_header(dbd, is_10),
    {
        let block_desc_len: u16 = if dbd {
            0
        } else {
            8
        };
        let wp: u8 = if self.config.readonly {
            0x80
        } else {
            0x00
        };
        let mut data: Vec<u8> = Vec::new();
        if is_10 {
            push_be16(&mut data, 8 + block_desc_len + 12 - 2);
            data.push(0x00);
            data.push(wp);
            data.push(0x00);
            data.push(0x00);
            push_be16(&mut data, block_desc_len);
        } else {
            data.push((4 + block_desc_len + 12 - 1) as u8);
            data.push(0x00);
            data.push(wp);
            data.push(block_desc_len as u8);
        }
        assert(data@ =~= self@.mode_header(dbd, is_10));
        data
    }

    /// The block descriptor, empty where it is disabled.
    fn mode_block_descriptor(&self, dbd: bool) -> (data: Vec<u8>)
        ensures
            data@ == self@.block_descriptor(dbd),
    {
        let mut data: Vec<u8> = Vec::new();
        if !dbd {
            let n: u32 = if self.num_blocks > 0xFF_FFFF {
                0xFF_FFFF
            } else {
                self.num_blocks as u32
            };
            data.push((n / 0x1_0000 % 0x100) as u8);
            data.push((n / 0x100 % 0x100) as u8);
            data.push((n % 0x100) as u8);
            data.push(0);
            data.push((self.block_size / 0x1_0000 % 0x100) as u8);
            data.push((self.block_size / 0x100 % 0x100) as u8);
            data.push((self.block_size % 0x100) as u8);
            data.push(0);
        }
        assert(data@ =~= self@.block_descriptor(dbd));
        data
    }

    /// The address of the last block, zero where there is none.
    fn last_lba(&self) -> (lba: u64)
        ensures
            lba == self@.last_lba(),
    {
        if self.num_blocks > 0 {
            self.num_blocks - 1
        } else {
            0
        }
    }

    /// READ CAPACITY (10) command
    pub fn cmd_read_capacity_10(&self) -> (result: ScsiCommandResult)
        ensures
            result@ == self@.read_capacity_10(),
    {
        let lba: u64 = self.last_lba();
        let last: u32 = if lba > 0xFFFF_FFFF {
            0xFFFF_FFFF
        } else {
            lba as u32
        };
        let mut data: Vec<u8> = Vec::new();
        push_be32(&mut data, last);
        push_be32(&mut data, self.block_size);
        assert(data@ =~= be32(last) + be32(self.block_size));
        ScsiCommandResult::ok_with_data(data)
    }

    /// SERVICE ACTION IN (16) - READ CAPACITY (16)
    pub fn cmd_service_action_in_16(&self, cdb: &[u8], allocation_length: u32) -> (result:
        ScsiCommandResult)
        requires
            cdb@.len() >= 2,
        ensures
            result@ == self@.service_action_in_16(cdb@, allocation_length),
    {
        let service_action: u8 = cdb[1] % 32;
        if service_action != scsi_opcode::SAI_READ_CAPACITY_16 {
            return ScsiCommandResult::check_condition(sense_key::ILLEGAL_REQUEST, 0x20, 0x00);
        }
        let mut data: Vec<u8> = Vec::new();
        push_be64(&mut data, self.last_lba());
        push_be32(&mut data, self.block_size);
        push_zeros(&mut data, 20);
        assert(data@ =~= be64(self@.last_lba()) + be32(self@.block_size) + zeros(20));
        ScsiCommandResult::ok_truncated(data, allocation_length)
    }

    /// READ (10) command
    pub fn cmd_read_10<D: DiskOps>(
        &self,
        cdb: &[u8],
        allocation_length: u32,
        disk: &mut D,
    ) -> (result: ScsiCommandResult)
        requires
            self@.wf(),
        ensures
            carried_out(
                self@.read_10(cdb@, allocation_length),
                Seq::empty(),
                *old(disk),
                *final(disk),
                result@,
            ),
    {
        if cdb.len() < 10 {
            return ScsiCommandResult::check_condition(sense_key::ILLEGAL_REQUEST, 0x24, 0x00);
        }
        let lba: u64 = get_be32(cdb, 2) as u64;
        let transfer_length: u32 = get_be16(cdb, 7) as u32;
        self.read_blocks(lba, transfer_length, allocation_length, disk)
    }

    /// READ (16) command
    pub fn cmd_read_16<D: DiskOps>(
        &self,
        cdb: &[u8],
        allocation_length: u32,
        disk: &mut D,
    ) -> (result: ScsiCommandResult)
        requires
            self@.wf(),
        ensures
            carried_out(
                self@.read_16(cdb@, allocation_length),
                Seq::empty(),
                *old(disk),
                *final(disk),
                result@,
            ),
    {
        if cdb.len() < 16 {
            return ScsiCommandResult::check_condition(sense_key::ILLEGAL_REQUEST, 0x24, 0x00);
        }
        let lba: u64 = get_be64(cdb, 2);
        let transfer_length: u32 = get_be32(cdb, 10);
        self.read_blocks(lba, transfer_length, allocation_length, disk)
    }

    /// Common read implementation
    pub fn read_blocks<D: DiskOps>(
        &self,
        lba: u64,
        transfer_length: u32,
        allocation_length: u32,
        disk: &mut D,
    ) -> (result: ScsiCommandResult)
        requires
            self@.wf(),
        ensures
            carried_out(
                self@.read_plan(lba, transfer_length, allocation_length),
                Seq::empty(),
                *old(disk),
                *final(disk),
                result@,
            ),
    {
        if transfer_length == 0 {
            return ScsiCommandResult::default();
        }
        if lba >= self.num_blocks || transfer_length as u64 > self.num_blocks - lba {
            return ScsiCommandResult::check_condition(sense_key::ILLEGAL_REQUEST, 0x21, 0x00);
        }
        proof {
            blocks_are_bytes(self@, lba as int, transfer_length as int);
        }
        let byte_offset: u64 = lba * self.block_size as u64;
        let byte_length: usize = (transfer_length as u64 * self.block_size as u64) as usize;
        if let Err(e) = disk.seek(byte_offset) {
            return ScsiCommandResult::finish_read(Err(e), allocation_length);
        }
        let mut data: Vec<u8> = vec![0u8; byte_length];
        let outcome = disk.read_exact(data.as_mut_slice());
        match outcome {
            Ok(_) => ScsiCommandResult::finish_read(Ok(data), allocation_length),
            Err(e) => ScsiCommandResult::finish_read(Err(e), allocation_length),
        }
    }

    /// WRITE (10) command
    pub fn cmd_write_10<D: DiskOps>(&self, cdb: &[u8], data: &[u8], disk: &mut D) -> (result:
        ScsiCommandResult)
        requires
            self@.wf(),
        ensures
            carried_out(self@.write_10(cdb@, data@), data@, *old(disk), *final(disk), result@),
    {
        if self.config.readonly {
            return ScsiCommandResult::check_condition(sense_key::DATA_PROTECT, 0x27, 0x00);
        }
        if cdb.len() < 10 {
            return ScsiCommandResult::check_condition(sense_key::ILLEGAL_REQUEST, 0x24, 0x00);
        }
        let lba: u64 = get_be32(cdb, 2) as u64;
        let transfer_length: u32 = get_be16(cdb, 7) as u32;
        self.write_blocks(lba, transfer_length, data, disk)
    }

    /// WRITE (16) command
    pub fn cmd_write_16<D: DiskOps>(&self, cdb: &[u8], data: &[u8], disk: &mut D) -> (result:
        ScsiCommandResult)
        requires
            self@.wf(),
        ensures
            carried_out(self@.write_16(cdb@, data@), data@, *old(disk), *final(disk), result@),
    {
        if self.config.readonly {
            return ScsiCommandResult::check_condition(sense_key::DATA_PROTECT, 0x27, 0x00);
        }
        if cdb.len() < 16 {
            return ScsiCommandResult::check_condition(sense_key::ILLEGAL_REQUEST, 0x24, 0x00);
        }
        let lba: u64 = get_be64(cdb, 2);
        let transfer_length: u32 = get_be32(cdb, 10);
        self.write_blocks(lba, transfer_length, data, disk)
    }

    /// Common write implementation
    pub fn write_blocks<D: DiskOps>(
        &self,
        lba: u64,
        transfer_length: u32,
        data: &[u8],
        disk: &mut D,
    ) -> (result: ScsiCommandResult)
        requires
            self@.wf(),
        ensures
            carried_out(
                self@.write_plan(lba, transfer_length, data@.len()),
                data@,
                *old(disk),
                *final(disk),
                result@,
            ),
    {
        if transfer_length == 0 {
            return ScsiCommandResult::default();
        }
        if lba >= self.num_blocks || transfer_length as u64 > self.num_blocks - lba {
            return ScsiCommandResult::check_condition(sense_key::ILLEGAL_REQUEST, 0x21, 0x00);
        }
        proof {
            blocks_are_bytes(self@, lba as int, transfer_length as int);
        }
        let byte_offset: u64 = lba * self.block_size as u64;
        let expected_length: usize = (transfer_length as u64 * self.block_size as u64) as usize;
        if data.len() < expected_length {
            return ScsiCommandResult::check_condition(sense_key::ILLEGAL_REQUEST, 0x24, 0x00);
        }
        if let Err(e) = disk.seek(byte_offset) {
            return ScsiCommandResult::finish_write(Err(e));
        }
        let part: &[u8] = vstd::slice::slice_subrange(data, 0, expected_length);
        ScsiCommandResult::finish_write(disk.write_all(part))
    }

    /// SYNCHRONIZE CACHE command
    pub fn cmd_synchronize_cache<D: DiskOps>(&self, disk: &mut D) -> (result: ScsiCommandResult)
        ensures
            carried_out(CommandPlan::Flush, Seq::empty(), *old(disk), *final(disk), result@),
    {
        ScsiCommandResult::finish_write(disk.flush())
    }

    /// START STOP UNIT command
    pub fn cmd_start_stop_unit(&mut self, cdb: &[u8]) -> (result: ScsiCommandResult)
        requires
            cdb@.len() >= 5,
        ensures
            result@ == if cdb@[4] / 2 % 2 == 1 {
                invalid_field()
            } else {
                good(Seq::empty())
            },
            final(self)@ == if cdb@[4] / 2 % 2 == 1 {
                old(self)@
            } else {
                ProcessorView { ready: cdb@[4] % 2 == 1, ..old(self)@ }
            },
    {
        let start: bool = cdb[4] % 2 != 0;
        let loej: bool = cdb[4] / 2 % 2 != 0;
        if loej {
            return ScsiCommandResult::check_condition(sense_key::ILLEGAL_REQUEST, 0x24, 0x00);
        }
        self.ready = start;
        ScsiCommandResult::default()
    }

    /// REPORT LUNS command
    pub fn cmd_report_luns(&self, _cdb: &[u8], allocation_length: u32) -> (result:
        ScsiCommandResult)
        ensures
            result@ == self@.report_luns(allocation_length),
    {
        let mut data: Vec<u8> = Vec::new();
        push_be32(&mut data, 8);
        push_zeros(&mut data, 4);
        if self.config.lun < 256 {
            data.push(0x00);
            data.push(self.config.lun as u8);
        } else {
            let field: [u8; 8] = encode_lun(self.config.target, self.config.lun);
            data.push(field[2]);
            data.push(field[3]);
        }
        push_zeros(&mut data, 6);
        assert(data@ =~= be32(8) + zeros(4) + self@.listed_lun() + zeros(6));
        ScsiCommandResult::ok_truncated(data, allocation_length)
    }

    /// PREVENT ALLOW MEDIUM REMOVAL command, which always succeeds: virtual
    /// disks cannot be ejected
    pub fn cmd_prevent_allow_medium_removal(&self, _cdb: &[u8]) -> (result: ScsiCommandResult)
        ensures
            result@ == good(Seq::empty()),
    {
        ScsiCommandResult::default()
    }

    /// PERSISTENT RESERVE IN command
    pub fn cmd_persistent_reserve_in(&self, cdb: &[u8], allocation_length: u32) -> (result:
        ScsiCommandResult)
        requires
            self@.wf(),
        ensures
            result@ == self@.persistent_reserve_in(cdb@, allocation_length),
    {
        if cdb.len() < 10 {
            return ScsiCommandResult::check_condition(sense_key::ILLEGAL_REQUEST, 0x24, 0x00);
        }
        let service_action: u8 = cdb[1] % 32;
        if service_action == scsi_opcode::PRI_READ_KEYS {
            ScsiCommandResult::ok_truncated(self.reservations.read_keys(), allocation_length)
        } else if service_action == scsi_opcode::PRI_READ_RESERVATION {
            ScsiCommandResult::ok_truncated(
                self.reservations.read_reservation(),
                allocation_length,
            )
        } else {
            ScsiCommandResult::check_condition(sense_key::ILLEGAL_REQUEST, 0x24, 0x00)
        }
    }

    /// PERSISTENT RESERVE OUT command
    pub fn cmd_persistent_reserve_out(&mut self, cdb: &[u8], data: &[u8]) -> (result:
        ScsiCommandResult)
        requires
            old(self)@.wf(),
        ensures
            result@ == old(self)@.persistent_reserve_out(cdb@, data@),
            final(self)@ == old(self)@.after_reserve_out(cdb@, data@),
            final(self)@.wf(),
    {
        let mut outcome = ReservationOutcome::InvalidField;
        if cdb.len() >= 10 && data.len() >= 24 {
            let service_action: u8 = cdb[1] % 32;
            let key: u64 = get_be64(data, 0);
            if service_action == scsi_opcode::PRO_REGISTER {
                outcome = self.reservations.register(key, get_be64(data, 8));
            } else if service_action == scsi_opcode::PRO_RESERVE {
                outcome = self.reservations.reserve(key, cdb[2]);
            }
        }
        match outcome {
            ReservationOutcome::Done => ScsiCommandResult::default(),
            ReservationOutcome::Conflict => ScsiCommandResult::reservation_conflict(),
            ReservationOutcome::InvalidField => ScsiCommandResult::check_condition(
                sense_key::ILLEGAL_REQUEST,
                0x24,
                0x00,
            ),
        }
    }
}

// ─── Laws ────────────────────────────────────────────────────────────────────

/// A read of blocks that were just written gives back the data, whatever the
/// two commands' opcodes: on a LUN in state `p`, a write of `count` blocks at
/// `lba` that succeeded, followed by a read of the same blocks that succeeded,
/// as far as the read asks for data.
pub proof fn reads_see_writes<D: DiskOps>(
    p: ProcessorView,
    lba: u64,
    count: u32,
    data: Seq<u8>,
    d0: D,
    d1: D,
    d2: D,
    limit: u32,
    write_result: ResultView,
    read_result: ResultView,
)
    requires
        p.wf(),
        count > 0,
        carried_out(p.write_plan(lba, count, data.len()), data, d0, d1, write_result),
        carried_out(p.read_plan(lba, count, limit), Seq::empty(), d1, d2, read_result),
        write_result.status == scsi_status::GOOD,
        read_result.status == scsi_status::GOOD,
    ensures
        count * p.block_size <= data.len(),
        read_result.data_in == prefix(data.subrange(0, count * p.block_size), limit as int),
{
    blocks_are_bytes(p, lba as int, count as int);
    let len = count * p.block_size;
    assert(len > 0) by (nonlinear_arith)
        requires
            len == count * p.block_size,
            count > 0,
            p.block_size > 0,
    ;
    crate::disk::read_gives_back_write(
        d0.contents(),
        lba * p.block_size,
        data.subrange(0, len),
    );
}

/// On a reliable disk with all the blocks of its LUN, a write of enough data to
/// some of the blocks succeeds, and so does a read of them that follows, which
/// gives the data back as far as it asks for it.
pub proof fn reliable_disks_give_back_writes<D: DiskOps>(
    p: ProcessorView,
    lba: u64,
    count: u32,
    data: Seq<u8>,
    d0: D,
    d1: D,
    d2: D,
    limit: u32,
    write_result: ResultView,
    read_result: ResultView,
)
    requires
        p.wf(),
        count > 0,
        p.in_range(lba as int, count as int),
        count * p.block_size <= data.len(),
        d0.reliable(),
        p.disk_size <= d0.contents().len(),
        carried_out(p.write_plan(lba, count, data.len()), data, d0, d1, write_result),
        carried_out(p.read_plan(lba, count, limit), Seq::empty(), d1, d2, read_result),
    ensures
        write_result == good(Seq::empty()),
        read_result == good(prefix(data.subrange(0, count * p.block_size), limit as int)),
        d2.reliable(),
        p.disk_size <= d2.contents().len(),
{
    blocks_are_bytes(p, lba as int, count as int);
    let len = count * p.block_size;
    assert(len > 0) by (nonlinear_arith)
        requires
            len == count * p.block_size,
            count > 0,
            p.block_size > 0,
    ;
    crate::disk::read_gives_back_write(
        d0.contents(),
        lba * p.block_size,
        data.subrange(0, len),
    );
}

/// A write that succeeded leaves every byte outside its blocks as it was.
pub proof fn writes_stay_in_their_blocks<D: DiskOps>(
    p: ProcessorView,
    lba: u64,
    count: u32,
    data: Seq<u8>,
    d0: D,
    d1: D,
    result: ResultView,
    i: int,
)
    requires
        p.wf(),
        carried_out(p.write_plan(lba, count, data.len()), data, d0, d1, result),
        result.status == scsi_status::GOOD,
        p.disk_size <= d0.contents().len(),
        0 <= i < d0.contents().len(),
        i < lba * p.block_size || (lba + count) * p.block_size <= i,
    ensures
        d1.contents().len() == d0.contents().len(),
        d1.contents()[i] == d0.contents()[i],
{
    if count > 0 && p.in_range(lba as int, count as int) && count * p.block_size <= data.len() {
        blocks_are_bytes(p, lba as int, count as int);
        let len = count * p.block_size;
        assert((lba + count) * p.block_size == lba * p.block_size + len) by (nonlinear_arith)
            requires
                len == count * p.block_size,
        ;
        crate::disk::write_keeps_the_rest(
            d0.contents(),
            lba * p.block_size,
            data.subrange(0, len),
        );
    }
}

/// No command changes the bytes of the disk of a read-only LUN, whatever comes
/// of it, and a write is refused with DATA PROTECT.
pub proof fn readonly_luns_are_not_written<D: DiskOps>(
    p: ProcessorView,
    cdb: Seq<u8>,
    data: Seq<u8>,
    allocation_length: u32,
    before: D,
    after: D,
    result: ResultView,
)
    requires
        p.config.readonly,
        carried_out(p.plan(cdb, data, allocation_length), data, before, after, result),
    ensures
        after.contents() == before.contents(),
        cdb.len() > 0 && (cdb[0] == scsi_opcode::WRITE_10 || cdb[0] == scsi_opcode::WRITE_16)
            ==> result == failed(sense_key::DATA_PROTECT, 0x27, 0x00) && after == before,
{
}

/// Where a command reads or writes, it stays within the disk.
pub proof fn commands_stay_on_the_disk(
    p: ProcessorView,
    cdb: Seq<u8>,
    data: Seq<u8>,
    allocation_length: u32,
)
    requires
        p.wf(),
    ensures
        match p.plan(cdb, data, allocation_length) {
            CommandPlan::Read { offset, len, limit } => 0 <= offset && 0 < len && offset + len
                <= p.disk_size,
            CommandPlan::Write { offset, len } => 0 <= offset && 0 < len && offset + len
                <= p.disk_size && len <= data.len(),
            _ => true,
        },
{
    if cdb.len() > 0 {
        let op = cdb[0];
        let wide = op == scsi_opcode::READ_16 || op == scsi_opcode::WRITE_16;
        let lba: u64 = if wide {
            be64_at(cdb, 2)
        } else {
            be32_at(cdb, 2) as u64
        };
        let count: u32 = if wide {
            be32_at(cdb, 10)
        } else {
            be16_at(cdb, 7) as u32
        };
        if p.in_range(lba as int, count as int) && count > 0 {
            blocks_are_bytes(p, lba as int, count as int);
            assert(count * p.block_size > 0) by (nonlinear_arith)
                requires
                    count > 0,
                    p.block_size > 0,
            ;
        }
    }
}

/// A command changes only whether the LUN is ready and its reservations, and
/// keeps the LUN well formed.
pub proof fn commands_keep_the_lun(p: ProcessorView, cdb: Seq<u8>, data: Seq<u8>)
    requires
        p.wf(),
    ensures
        p.after(cdb, data).wf(),
        p.after(cdb, data).config == p.config,
        p.after(cdb, data).disk_size == p.disk_size,
        p.after(cdb, data).block_size == p.block_size,
        p.after(cdb, data).num_blocks == p.num_blocks,
{
    if data.len() >= 24 && cdb.len() >= 10 {
        crate::scsi::reservation::reservation_states_are_well_formed(
            p.reservations,
            be64_at(data, 0),
            be64_at(data, 8),
            cdb[2],
        );
    }
}

/// The lengths in INQUIRY data are those of the data: byte 4 of the standard
/// data counts what follows it, byte 3 of a vital product data page likewise.
pub proof fn inquiry_lengths_are_consistent(p: ProcessorView)
    ensures
        p.standard_inquiry().len() == 96,
        p.standard_inquiry()[4] == p.standard_inquiry().len() - 5,
        p.vpd_supported_pages()[3] == p.vpd_supported_pages().len() - 4,
        p.vpd_serial_number()[3] == p.vpd_serial_number().len() - 4,
        p.vpd_device_identification()[3] == p.vpd_device_identification().len() - 4,
        p.vpd_block_limits()[3] == p.vpd_block_limits().len() - 4,
        p.vpd_block_provisioning()[3] == p.vpd_block_provisioning().len() - 4,
{
}

/// The last block address that is reported, by READ CAPACITY (16) always and by
/// READ CAPACITY (10) where it fits, is that of the last whole block of the
/// disk.
pub proof fn reported_capacity_is_that_of_the_disk(p: ProcessorView)
    requires
        p.wf(),
        p.num_blocks > 0,
    ensures
        (p.last_lba() + 1) * p.block_size <= p.disk_size < (p.last_lba() + 2) * p.block_size,
        be64_at(p.service_action_in_16(seq![0x9Eu8, 0x10], 32).data_in, 0) == p.last_lba(),
        p.last_lba() <= 0xFFFF_FFFF ==> be32_at(p.read_capacity_10().data_in, 0) == p.last_lba(),
        be32_at(p.read_capacity_10().data_in, 4) == p.block_size,
{
    let b = p.block_size as int;
    let size = p.disk_size as int;
    let n = p.num_blocks as int;
    vstd::arithmetic::div_mod::lemma_fundamental_div_mod(size, b);
    vstd::arithmetic::div_mod::lemma_mod_bound(size, b);
    assert(b * n == n * b) by (nonlinear_arith);
    assert((n + 1) * b == n * b + b) by (nonlinear_arith);
    let last = p.last_lba();
    crate::bytes::be_bytes_round_trip(0, p.block_size, last);
    let d = p.service_action_in_16(seq![0x9Eu8, 0x10], 32).data_in;
    let w = be64(last);
    assert(d =~= be64(last) + be32(p.block_size) + zeros(20));
    assert(d[0] == w[0] && d[1] == w[1] && d[2] == w[2] && d[3] == w[3]);
    assert(d[4] == w[4] && d[5] == w[5] && d[6] == w[6] && d[7] == w[7]);
    let c = p.read_capacity_10().data_in;
    let s = be32(p.block_size);
    assert(c[4] == s[0] && c[5] == s[1] && c[6] == s[2] && c[7] == s[3]);
    if last <= 0xFFFF_FFFF {
        crate::bytes::be_bytes_round_trip(0, last as u32, 0);
        let t = be32(last as u32);
        assert(c[0] == t[0] && c[1] == t[1] && c[2] == t[2] && c[3] == t[3]);
    }
}

/// No command returns more data than the allocation length.
pub proof fn answers_fit_the_allocation<D: DiskOps>(
    p: ProcessorView,
    cdb: Seq<u8>,
    data: Seq<u8>,
    allocation_length: u32,
    before: D,
    after: D,
    result: ResultView,
)
    requires
        carried_out(p.plan(cdb, data, allocation_length), data, before, after, result),
    ensures
        result.data_in.len() <= allocation_length,
{
}

/// The one entry that REPORT LUNS of a LUN lists is that LUN, for every LUN
/// that a LUN field can hold: in a LUN field for some target, the entry
/// addresses the LUN.
pub proof fn reported_lun_is_the_lun(p: ProcessorView, target: u8, allocation_length: u32)
    requires
        p.config.lun <= 16383,
        allocation_length >= 16,
    ensures
        ({
            let d = p.report_luns(allocation_length).data_in;
            &&& d.len() == 16
            &&& be32_at(d, 0) == 8
            &&& lun_address(seq![1u8, target, d[8], d[9], 0, 0, 0, 0]) == Some(
                (target, p.config.lun),
            )
            &&& d.subrange(10, 16) == zeros(6)
        }),
{
    let d = p.report_luns(allocation_length).data_in;
    let f = lun_field(target, p.config.lun);
    crate::scsi::protocol::lun_round_trip(target, p.config.lun);
    crate::bytes::be_bytes_round_trip(0, 8, 0);
    assert(d =~= be32(8) + zeros(4) + p.listed_lun() + zeros(6));
    assert(d[0] == be32(8)[0] && d[1] == be32(8)[1] && d[2] == be32(8)[2] && d[3] == be32(8)[3]);
    if p.config.lun >= 256 {
        assert(seq![1u8, target, d[8], d[9], 0, 0, 0, 0] =~= f);
    }
    assert(d.subrange(10, 16) =~= zeros(6));
}

/// An answer is good, a check condition with sense data, or a reservation
/// conflict; only the second has sense data, and only the first has data.
#[verifier::rlimit(40)]
pub proof fn answers_are_consistent(
    p: ProcessorView,
    cdb: Seq<u8>,
    data: Seq<u8>,
    allocation_length: u32,
)
    ensures
        p.plan(cdb, data, allocation_length) matches CommandPlan::Done(r) ==> {
            &&& r.response == VIRTIO_SCSI_S_OK
            &&& r.status == scsi_status::GOOD || r.status == scsi_status::CHECK_CONDITION
                || r.status == scsi_status::RESERVATION_CONFLICT
            &&& r.status == scsi_status::CHECK_CONDITION <==> r.sense.len() == 18
            &&& r.sense.len() == 0 || r.sense.len() == 18
            &&& r.status != scsi_status::GOOD ==> r.data_in.len() == 0
        },
{
}

// ─── Commands by their bytes ─────────────────────────────────────────────────

/// Block ranges are in range exactly where their bytes are on the disk.
proof fn ranges_are_byte_ranges(p: ProcessorView, lba: int, count: int)
    requires
        p.wf(),
        0 <= lba,
        0 < count,
    ensures
        p.in_range(lba, count) <==> (lba + count) * p.block_size <= p.disk_size,
        lba * p.block_size + count * p.block_size == (lba + count) * p.block_size,
        count * p.block_size > 0,
{
    let b = p.block_size as int;
    let n = p.num_blocks as int;
    let size = p.disk_size as int;
    assert(lba * b + count * b == (lba + count) * b) by (nonlinear_arith);
    assert(count * b > 0) by (nonlinear_arith)
        requires
            count > 0,
            b > 0,
    ;
    vstd::arithmetic::div_mod::lemma_fundamental_div_mod(size, b);
    vstd::arithmetic::div_mod::lemma_mod_bound(size, b);
    if lba + count <= n {
        assert((lba + count) * b <= b * n) by (nonlinear_arith)
            requires
                lba + count <= n,
                b > 0,
        ;
    } else {
        assert((lba + count) * b >= b * n + b) by (nonlinear_arith)
            requires
                lba + count >= n + 1,
                b > 0,
        ;
    }
}

/// A READ command: READ (10) or READ (16), with the block address and the count
/// of blocks that its bytes stand for.
pub open spec fn is_read(cdb: Seq<u8>, lba: int, count: int) -> bool {
    ||| cdb.len() >= 10 && cdb[0] == 0x28 && be_value(cdb.subrange(2, 6)) == lba && be_value(
        cdb.subrange(7, 9),
    ) == count
    ||| cdb.len() >= 16 && cdb[0] == 0x88 && be_value(cdb.subrange(2, 10)) == lba && be_value(
        cdb.subrange(10, 14),
    ) == count
}

/// A WRITE command: WRITE (10) or WRITE (16), with the block address and the
/// count of blocks that its bytes stand for.
pub open spec fn is_write(cdb: Seq<u8>, lba: int, count: int) -> bool {
    ||| cdb.len() >= 10 && cdb[0] == 0x2A && be_value(cdb.subrange(2, 6)) == lba && be_value(
        cdb.subrange(7, 9),
    ) == count
    ||| cdb.len() >= 16 && cdb[0] == 0x8A && be_value(cdb.subrange(2, 10)) == lba && be_value(
        cdb.subrange(10, 14),
    ) == count
}

/// A command made of an operation code, a block address and a count in
/// big-endian bytes is one with that address and that count.
pub proof fn commands_hold_their_address(lba: u32, count: u16, wide_lba: u64, wide_count: u32)
    ensures
        is_read(
            seq![0x28u8, 0] + be32(lba) + seq![0u8] + be16(count) + seq![0u8],
            lba as int,
            count as int,
        ),
        is_write(
            seq![0x2Au8, 0] + be32(lba) + seq![0u8] + be16(count) + seq![0u8],
            lba as int,
            count as int,
        ),
        is_read(
            seq![0x88u8, 0] + be64(wide_lba) + be32(wide_count) + seq![0u8, 0],
            wide_lba as int,
            wide_count as int,
        ),
        is_write(
            seq![0x8Au8, 0] + be64(wide_lba) + be32(wide_count) + seq![0u8, 0],
            wide_lba as int,
            wide_count as int,
        ),
{
    bytes_stand_for_their_number(count, lba, wide_lba);
    bytes_stand_for_their_number(0, wide_count, 0);
    let r = seq![0x28u8, 0] + be32(lba) + seq![0u8] + be16(count) + seq![0u8];
    assert(r.subrange(2, 6) =~= be32(lba));
    assert(r.subrange(7, 9) =~= be16(count));
    let w = seq![0x2Au8, 0] + be32(lba) + seq![0u8] + be16(count) + seq![0u8];
    assert(w.subrange(2, 6) =~= be32(lba));
    assert(w.subrange(7, 9) =~= be16(count));
    let r = seq![0x88u8, 0] + be64(wide_lba) + be32(wide_count) + seq![0u8, 0];
    assert(r.subrange(2, 10) =~= be64(wide_lba));
    assert(r.subrange(10, 14) =~= be32(wide_count));
    let w = seq![0x8Au8, 0] + be64(wide_lba) + be32(wide_count) + seq![0u8, 0];
    assert(w.subrange(2, 10) =~= be64(wide_lba));
    assert(w.subrange(10, 14) =~= be32(wide_count));
}

/// The plans of reads and writes, by the bytes of the commands.
proof fn transfers_are_planned(
    p: ProcessorView,
    cdb: Seq<u8>,
    data: Seq<u8>,
    limit: u32,
    lba: int,
    count: int,
)
    ensures
        is_read(cdb, lba, count) ==> p.plan(cdb, data, limit) == p.read_plan(
            lba as u64,
            count as u32,
            limit,
        ) && lba == lba as u64 && count == count as u32,
        is_read(cdb, lba, count) && cdb[0] == 0x28 ==> p.plan(cdb, data, limit) == p.read_10(
            cdb,
            limit,
        ),
        is_read(cdb, lba, count) && cdb[0] == 0x88 ==> p.plan(cdb, data, limit) == p.read_16(
            cdb,
            limit,
        ),
        is_write(cdb, lba, count) && !p.config.readonly ==> p.plan(cdb, data, limit)
            == p.write_plan(lba as u64, count as u32, data.len()) && lba == lba as u64 && count
            == count as u32,
        is_write(cdb, lba, count) && cdb[0] == 0x2A ==> p.plan(cdb, data, limit) == p.write_10(
            cdb,
            data,
        ),
        is_write(cdb, lba, count) && cdb[0] == 0x8A ==> p.plan(cdb, data, limit) == p.write_16(
            cdb,
            data,
        ),
{
    big_endian_numbers(cdb, 2);
    big_endian_numbers(cdb, 7);
    big_endian_numbers(cdb, 10);
}

/// What a read answers, for every block address and count that its bytes can
/// hold. A count of zero is good and returns nothing. Where the blocks reach
/// beyond the disk, the answer is a check condition of ILLEGAL REQUEST with code
/// 0x21. Otherwise a good answer holds the bytes of the disk from the address
/// times the block size on, as many as the blocks have and are asked for; it is
/// owed by a reliable disk that has them, and any other answer is a check
/// condition of MEDIUM ERROR with code 0x11. The disk keeps its bytes.
pub proof fn reads_return_the_addressed_blocks<D: DiskOps>(
    p: ProcessorView,
    cdb: Seq<u8>,
    data: Seq<u8>,
    limit: u32,
    before: D,
    after: D,
    result: ResultView,
    lba: int,
    count: int,
)
    requires
        p.wf(),
        is_read(cdb, lba, count),
        carried_out(p.plan(cdb, data, limit), data, before, after, result),
    ensures
        cdb[0] == 0x28 ==> p.plan(cdb, data, limit) == p.read_10(cdb, limit),
        cdb[0] == 0x88 ==> p.plan(cdb, data, limit) == p.read_16(cdb, limit),
        after.contents() == before.contents(),
        ({
            let from = lba * p.block_size;
            let to = (lba + count) * p.block_size;
            if count == 0 {
                result.status == 0 && result.data_in.len() == 0
            } else if to > p.disk_size {
                &&& result.status == 2 && result.data_in.len() == 0
                &&& result.sense[2] == 5 && result.sense[12] == 0x21
            } else {
                &&& result.status == 0 ==> {
                    &&& result.data_in.len() == if limit < to - from { limit as int } else { to - from }
                    &&& to <= before.contents().len()
                    &&& forall|i: int|
                        0 <= i < result.data_in.len() ==> #[trigger] result.data_in[i]
                            == before.contents()[from + i]
                }
                &&& before.reliable() && to <= before.contents().len() ==> result.status == 0
                &&& result.status != 0 ==> result.status == 2 && result.data_in.len() == 0
                    && result.sense[2] == 3 && result.sense[12] == 0x11
            }
        }),
        result.response == 0,
        result.resid == 0,
{
    transfers_are_planned(p, cdb, data, limit, lba, count);
    if count > 0 {
        ranges_are_byte_ranges(p, lba, count);
    }
}

/// What a write does, for every block address and count that its bytes can hold.
/// A read-only LUN refuses it with DATA PROTECT and code 0x27. A count of zero is
/// good and writes nothing. Blocks beyond the disk give ILLEGAL REQUEST with code
/// 0x21, and less data than the blocks have with code 0x24. Otherwise, where the
/// answer is good, the bytes of the disk from the address times the block size on
/// are those of the data, as many as the blocks have, and all others stay as they
/// were; that is owed by a reliable disk that has the blocks, and any other answer
/// is a check condition of MEDIUM ERROR with code 0x03.
pub proof fn writes_fill_the_addressed_blocks<D: DiskOps>(
    p: ProcessorView,
    cdb: Seq<u8>,
    data: Seq<u8>,
    limit: u32,
    before: D,
    after: D,
    result: ResultView,
    lba: int,
    count: int,
)
    requires
        p.wf(),
        is_write(cdb, lba, count),
        carried_out(p.plan(cdb, data, limit), data, before, after, result),
    ensures
        cdb[0] == 0x2A ==> p.plan(cdb, data, limit) == p.write_10(cdb, data),
        cdb[0] == 0x8A ==> p.plan(cdb, data, limit) == p.write_16(cdb, data),
        ({
            let from = lba * p.block_size;
            let to = (lba + count) * p.block_size;
            if p.config.readonly {
                &&& result.status == 2 && result.sense[2] == 7 && result.sense[12] == 0x27
                &&& after == before
            } else if count == 0 {
                result.status == 0 && after == before
            } else if to > p.disk_size {
                &&& result.status == 2 && result.sense[2] == 5 && result.sense[12] == 0x21
                &&& after == before
            } else if data.len() < to - from {
                &&& result.status == 2 && result.sense[2] == 5 && result.sense[12] == 0x24
                &&& after == before
            } else {
                &&& result.status == 0 ==> {
                    &&& to <= after.contents().len()
                    &&& before.contents().len() <= after.contents().len()
                    &&& to <= before.contents().len() ==> after.contents().len()
                        == before.contents().len()
                    &&& forall|i: int|
                        0 <= i < to - from ==> #[trigger] after.contents()[from + i] == data[i]
                    &&& forall|j: int|
                        0 <= j < before.contents().len() && !(from <= j < to)
                            ==> #[trigger] after.contents()[j] == before.contents()[j]
                }
                &&& before.reliable() && to <= before.contents().len() ==> result.status == 0
                &&& result.status != 0 ==> result.status == 2 && result.sense[2] == 3
                    && result.sense[12] == 0x03
            }
        }),
        result.data_in.len() == 0,
        result.response == 0,
        result.resid == 0,
{
    transfers_are_planned(p, cdb, data, limit, lba, count);
    if count > 0 {
        ranges_are_byte_ranges(p, lba, count);
        if !p.config.readonly && (lba + count) * p.block_size <= p.disk_size && data.len() >= count
            * p.block_size {
            blocks_are_bytes(p, lba, count);
            let from = lba * p.block_size;
            let to = (lba + count) * p.block_size;
            let part = data.subrange(0, to - from);
            if result.status == 0 {
                assert(after.contents() == written(before.contents(), from, part));
                assert forall|i: int| 0 <= i < to - from implies #[trigger] after.contents()[from
                    + i] == data[i] by {
                    assert(part[i] == data[i]);
                }
            }
        }
    }
}

/// A read gives back what a write with the same address and count wrote, for any
/// of the two kinds of commands, on a reliable disk that has the blocks: both are
/// good, and the answer to the read is the data, as far as it is asked for.
pub proof fn reads_give_back_writes_at_the_same_address<D: DiskOps>(
    p: ProcessorView,
    write_cdb: Seq<u8>,
    read_cdb: Seq<u8>,
    data: Seq<u8>,
    limit: u32,
    d0: D,
    d1: D,
    d2: D,
    write_result: ResultView,
    read_result: ResultView,
    lba: int,
    count: int,
)
    requires
        p.wf(),
        !p.config.readonly,
        is_write(write_cdb, lba, count),
        is_read(read_cdb, lba, count),
        count > 0,
        (lba + count) * p.block_size <= p.disk_size,
        p.disk_size <= d0.contents().len(),
        d0.reliable(),
        count * p.block_size <= data.len(),
        carried_out(p.plan(write_cdb, data, limit), data, d0, d1, write_result),
        carried_out(p.plan(read_cdb, Seq::empty(), limit), Seq::empty(), d1, d2, read_result),
    ensures
        write_result.status == 0,
        read_result.status == 0,
        read_result.data_in.len() == if limit < count * p.block_size {
            limit as int
        } else {
            count * p.block_size
        },
        forall|i: int|
            0 <= i < read_result.data_in.len() ==> #[trigger] read_result.data_in[i] == data[i],
{
    transfers_are_planned(p, write_cdb, data, limit, lba, count);
    transfers_are_planned(p, read_cdb, Seq::empty(), limit, lba, count);
    ranges_are_byte_ranges(p, lba, count);
    reliable_disks_give_back_writes(
        p,
        lba as u64,
        count as u32,
        data,
        d0,
        d1,
        d2,
        limit,
        write_result,
        read_result,
    );
}

/// A byte of an answer that is cut at the allocation length.
proof fn cut_answers(full: Seq<u8>, n: u32)
    ensures
        ({
            let d = prefix(full, n as int);
            &&& d.len() == if n < full.len() { n as nat } else { full.len() }
            &&& forall|i: int| 0 <= i < d.len() ==> #[trigger] d[i] == full[i]
        }),
{
}

/// What standard INQUIRY (0x12) answers, byte by byte: the device type, version
/// 6, response format 2 with hierarchical support, 91 bytes behind byte 4,
/// command queuing, and the vendor, product and revision at bytes 8, 16 and 32;
/// zeros up to byte 95. It is cut at the allocation length.
pub proof fn standard_inquiry_is_laid_out(
    p: ProcessorView,
    cdb: Seq<u8>,
    data: Seq<u8>,
    n: u32,
    i: int,
)
    requires
        cdb.len() >= 3,
        cdb[0] == 0x12,
        cdb[1] % 2 == 0,
        cdb[2] == 0,
        0 <= i < n,
        i < 96,
    ensures
        p.plan(cdb, data, n) matches CommandPlan::Done(r) && {
            &&& r.status == 0 && r.response == 0 && r.sense.len() == 0 && r.resid == 0
            &&& r.data_in.len() == if n < 96 { n as int } else { 96 }
            &&& r.data_in[i] == if i == 0 {
                p.config.device_type.spec_code()
            } else if i == 2 {
                6
            } else if i == 3 {
                0x12
            } else if i == 4 {
                91
            } else if i == 7 {
                2
            } else if 8 <= i < 16 {
                padded(p.config.vendor_id, 8)[i - 8]
            } else if 16 <= i < 32 {
                padded(p.config.product_id, 16)[i - 16]
            } else if 32 <= i < 36 {
                padded(p.config.product_rev, 4)[i - 32]
            } else {
                0u8
            }
        },
{
    let full = p.standard_inquiry();
    let head = seq![p.device_code(), 0u8, 0x06, 0x12, 91, 0, 0, 0x02];
    assert(full.len() == 96);
    if i < 8 {
        assert(full[i] == head[i]);
        assert(head[0] == p.device_code() && head[1] == 0 && head[2] == 6 && head[3] == 0x12);
        assert(head[4] == 91 && head[5] == 0 && head[6] == 0 && head[7] == 2);
    } else if i < 16 {
        assert(full[i] == padded(p.config.vendor_id, 8)[i - 8]);
    } else if i < 32 {
        assert(full[i] == padded(p.config.product_id, 16)[i - 16]);
    } else if i < 36 {
        assert(full[i] == padded(p.config.product_rev, 4)[i - 32]);
    } else {
        assert(full[i] == 0);
    }
    cut_answers(full, n);
}

/// What INQUIRY answers for a vital product data page, where it asks for as much
/// as the page has: the device type, the page and the length of the rest; then,
/// for page 0x00, the pages there are; for 0x80 the serial number
/// CLOUD-HV-SCSI001; for 0x83 one NAA identifier of eight bytes with the target
/// and the LUN; for 0xB0 an optimal transfer length of 128 blocks; and for 0xB2
/// zeros. Any other page is an invalid field, and so is a page without the bit
/// that asks for vital product data.
pub proof fn product_data_pages_are_laid_out(
    p: ProcessorView,
    cdb: Seq<u8>,
    data: Seq<u8>,
    n: u32,
)
    requires
        cdb.len() >= 3,
        cdb[0] == 0x12,
        n >= 64,
    ensures
        p.plan(cdb, data, n) matches CommandPlan::Done(r) && {
            let d = r.data_in;
            let page = cdb[2];
            let known = page == 0 || page == 0x80 || page == 0x83 || page == 0xB0 || page == 0xB2;
            &&& cdb[1] % 2 == 1 && known ==> {
                &&& r.status == 0 && r.response == 0
                &&& d[0] == p.config.device_type.spec_code()
                &&& d[1] == page
                &&& d[2] * 256 + d[3] == d.len() - 4
            }
            &&& cdb[1] % 2 == 1 && !known || cdb[1] % 2 == 0 && page != 0 ==> {
                &&& r.status == 2 && d.len() == 0
                &&& r.sense[2] == 5 && r.sense[12] == 0x24 && r.sense[13] == 0
            }
            &&& cdb[1] % 2 == 1 && page == 0 ==> d.len() == 8 && d[4] == 0 && d[5] == 0x80 && d[6]
                == 0x83 && d[7] == 0xB0
            &&& cdb[1] % 2 == 1 && page == 0x80 ==> {
                &&& d.len() == 20
                &&& d.subrange(4, 20) == seq![
                    0x43u8, 0x4C, 0x4F, 0x55, 0x44, 0x2D, 0x48, 0x56, 0x2D, 0x53, 0x43, 0x53, 0x49,
                    0x30, 0x30, 0x31,
                ]
            }
            &&& cdb[1] % 2 == 1 && page == 0x83 ==> {
                &&& d.len() == 16
                &&& d[4] == 1 && d[5] == 3 && d[6] == 0 && d[7] == 8
                &&& be_value(d.subrange(8, 12)) == 0x5001_0203
                &&& d[12] == p.config.target
                &&& be_value(d.subrange(13, 15)) == p.config.lun
                &&& d[15] == 0
            }
            &&& cdb[1] % 2 == 1 && page == 0xB0 ==> {
                &&& d.len() == 64
                &&& be_value(d.subrange(12, 16)) == 128
                &&& forall|i: int| 4 <= i < 64 && !(12 <= i < 16) ==> #[trigger] d[i] == 0
            }
            &&& cdb[1] % 2 == 1 && page == 0xB2 ==> d.len() == 8 && forall|i: int|
                4 <= i < 8 ==> #[trigger] d[i] == 0
        },
{
    let page = cdb[2];
    if cdb[1] % 2 == 1 && page == 0x80 {
        let d = p.vpd_serial_number();
        assert(d.subrange(4, 20) =~= seq![
            0x43u8, 0x4C, 0x4F, 0x55, 0x44, 0x2D, 0x48, 0x56, 0x2D, 0x53, 0x43, 0x53, 0x49, 0x30,
            0x30, 0x31,
        ]);
    } else if cdb[1] % 2 == 1 && page == 0x83 {
        let d = p.vpd_device_identification();
        big_endian_numbers(d, 8);
        big_endian_numbers(d, 13);
    } else if cdb[1] % 2 == 1 && page == 0xB0 {
        let d = p.vpd_block_limits();
        assert(d.subrange(12, 16) =~= be32(128));
        bytes_stand_for_their_number(0, 128, 0);
    }
}

/// What READ CAPACITY (10) (0x25) and READ CAPACITY (16) (0x9E with service
/// action 0x10) answer, in big-endian bytes: the address of the last whole block
/// of the disk, zero where there is none, and the block size. In the first, which
/// has four bytes for the address, one that does not fit is all ones; in the
/// second the other 20 bytes are zeros. Any other service action of 0x9E is an
/// invalid operation code.
pub proof fn capacities_are_reported(
    p: ProcessorView,
    cdb: Seq<u8>,
    data: Seq<u8>,
    n: u32,
    last: int,
)
    requires
        p.wf(),
        cdb.len() >= 2,
        cdb[0] == 0x25 || cdb[0] == 0x9E,
        n >= 32,
        0 <= last,
        p.disk_size < p.block_size ==> last == 0,
        p.disk_size >= p.block_size ==> (last + 1) * p.block_size <= p.disk_size < (last + 2)
            * p.block_size,
    ensures
        p.plan(cdb, data, n) matches CommandPlan::Done(r) && {
            let d = r.data_in;
            &&& cdb[0] == 0x25 ==> {
                &&& r.status == 0 && d.len() == 8
                &&& be_value(d.subrange(0, 4)) == if last > 0xFFFF_FFFF { 0xFFFF_FFFF } else { last }
                &&& be_value(d.subrange(4, 8)) == p.block_size
            }
            &&& cdb[0] == 0x9E && cdb[1] % 32 == 0x10 ==> {
                &&& r.status == 0 && d.len() == 32
                &&& be_value(d.subrange(0, 8)) == last
                &&& be_value(d.subrange(8, 12)) == p.block_size
                &&& forall|i: int| 12 <= i < 32 ==> #[trigger] d[i] == 0
            }
            &&& cdb[0] == 0x9E && cdb[1] % 32 != 0x10 ==> {
                &&& r.status == 2 && d.len() == 0
                &&& r.sense[2] == 5 && r.sense[12] == 0x20 && r.sense[13] == 0
            }
        },
{
    let b = p.block_size as int;
    let size = p.disk_size as int;
    let blocks = p.num_blocks as int;
    vstd::arithmetic::div_mod::lemma_fundamental_div_mod(size, b);
    vstd::arithmetic::div_mod::lemma_mod_bound(size, b);
    assert(p.last_lba() == last) by {
        if size < b {
            assert(blocks == 0) by (nonlinear_arith)
                requires
                    size < b,
                    b * blocks <= size,
                    0 <= blocks,
                    b > 0,
            ;
        } else {
            assert(blocks == last + 1) by (nonlinear_arith)
                requires
                    b * blocks <= size,
                    size < b * blocks + b,
                    (last + 1) * b <= size,
                    size < (last + 2) * b,
                    b > 0,
            ;
        }
    }
    let l = p.last_lba();
    let l4: u32 = if l > 0xFFFF_FFFF {
        0xFFFF_FFFF
    } else {
        l as u32
    };
    bytes_stand_for_their_number(0, l4, l);
    bytes_stand_for_their_number(0, p.block_size, l);
    if cdb[0] == 0x25 {
        let d = be32(l4) + be32(p.block_size);
        assert(d.subrange(0, 4) =~= be32(l4));
        assert(d.subrange(4, 8) =~= be32(p.block_size));
    } else if cdb[1] % 32 == 0x10 {
        let d = be64(l) + be32(p.block_size) + zeros(20);
        assert(d.subrange(0, 8) =~= be64(l));
        assert(d.subrange(8, 12) =~= be32(p.block_size));
    }
}

/// What MODE SENSE (6) (0x1A) and MODE SENSE (10) (0x5A) answer for the caching
/// page (0x08) or all pages (0x3F), byte by byte where they ask for all of it: a
/// header of four or eight bytes with the length behind its length field, the
/// write protection of a read-only LUN and the length of the block descriptors;
/// the block descriptor, unless bit 3 of byte 1 keeps it out, with the number of
/// blocks, or all ones where that is more than three bytes hold, and the block
/// size; and the caching page, with the write cache enabled. Any other page is an
/// invalid field.
pub proof fn mode_pages_are_laid_out(p: ProcessorView, cdb: Seq<u8>, data: Seq<u8>, n: u32)
    requires
        cdb.len() >= 3,
        cdb[0] == 0x1A || cdb[0] == 0x5A,
        n >= 28,
        p.block_size < 0x100_0000,
    ensures
        p.plan(cdb, data, n) matches CommandPlan::Done(r) && {
            let d = r.data_in;
            let header: int = if cdb[0] == 0x1A { 4 } else { 8 };
            let described: int = if cdb[1] / 8 % 2 == 1 { 0 } else { 8 };
            let protected: u8 = if p.config.readonly { 0x80 } else { 0 };
            let page = header + described;
            if cdb[2] % 64 == 0x08 || cdb[2] % 64 == 0x3F {
                &&& r.status == 0 && d.len() == header + described + 12
                &&& cdb[0] == 0x1A ==> d[0] == d.len() - 1 && d[1] == 0 && d[2] == protected && d[3]
                    == described
                &&& cdb[0] == 0x5A ==> {
                    &&& be_value(d.subrange(0, 2)) == d.len() - 2
                    &&& d[2] == 0 && d[3] == protected && d[4] == 0 && d[5] == 0
                    &&& be_value(d.subrange(6, 8)) == described
                }
                &&& described == 8 ==> {
                    &&& be_value(d.subrange(header, header + 3)) == if p.num_blocks > 0xFF_FFFF {
                        0xFF_FFFF
                    } else {
                        p.num_blocks as int
                    }
                    &&& d[header + 3] == 0
                    &&& be_value(d.subrange(header + 4, header + 7)) == p.block_size
                    &&& d[header + 7] == 0
                }
                &&& d[page] == 0x08 && d[page + 1] == 0x12 && d[page + 2] == 0x04
                &&& forall|i: int| page + 3 <= i < d.len() ==> #[trigger] d[i] == 0
            } else {
                &&& r.status == 2 && d.len() == 0
                &&& r.sense[2] == 5 && r.sense[12] == 0x24 && r.sense[13] == 0
            }
        },
{
    if cdb[2] % 64 == 0x08 || cdb[2] % 64 == 0x3F {
        let dbd = cdb[1] / 8 % 2 == 1;
        let is_10 = cdb[0] == 0x5A;
        let header: int = if cdb[0] == 0x1A {
            4
        } else {
            8
        };
        let h = p.mode_header(dbd, is_10);
        let b = p.block_descriptor(dbd);
        let c = seq![0x08u8, 0x12, 0x04];
        let d = h + b + c + zeros(9);
        assert(h.len() == header);
        assert(forall|i: int| 0 <= i < header ==> d[i] == h[i]);
        assert(forall|i: int| 0 <= i < b.len() ==> d[header + i] == b[i]);
        assert(forall|i: int| 0 <= i < 3 ==> d[header + b.len() + i] == c[i]);
        assert(d[header + b.len()] == c[0] && d[header + b.len() + 1] == c[1] && d[header + b.len()
            + 2] == c[2]);
        if is_10 {
            let total: u16 = if dbd {
                18
            } else {
                26
            };
            let described: u16 = if dbd {
                0
            } else {
                8
            };
            bytes_stand_for_their_number(total, 0, 0);
            bytes_stand_for_their_number(described, 0, 0);
            assert(d.subrange(0, 2) =~= be16(total));
            assert(d.subrange(6, 8) =~= be16(described));
        }
        if !dbd {
            let blocks: u32 = if p.num_blocks > 0xFF_FFFF {
                0xFF_FFFF
            } else {
                p.num_blocks as u32
            };
            three_bytes(d, header, blocks);
            three_bytes(d, header + 4, p.block_size);
        }
    }
}

/// A number in three big-endian bytes.
proof fn three_bytes(d: Seq<u8>, at: int, x: u32)
    requires
        0 <= at,
        at + 3 <= d.len(),
        x < 0x100_0000,
        d[at] == (x / 0x1_0000 % 0x100) as u8,
        d[at + 1] == (x / 0x100 % 0x100) as u8,
        d[at + 2] == (x % 0x100) as u8,
    ensures
        be_value(d.subrange(at, at + 3)) == x,
{
    let f = seq![0u8, d[at], d[at + 1], d[at + 2]];
    let s = d.subrange(at, at + 3);
    assert(be32(x) =~= f);
    bytes_stand_for_their_number(0, x, 0);
    big_endian_numbers(f, 0);
    assert(s.drop_last().drop_last().drop_last() =~= Seq::<u8>::empty());
    reveal_with_fuel(be_value, 4);
    assert(be_value(s) == (d[at] * 256 + d[at + 1]) * 256 + d[at + 2]);
}

/// TEST UNIT READY (0x00) is good where the LUN is ready and NOT READY with code
/// 4 and qualifier 2 otherwise. START STOP UNIT (0x1B) makes it ready by bit 0 of
/// byte 4 and is good, unless bit 1 asks to load or eject, which is an invalid
/// field and changes nothing. No other command changes whether it is ready.
pub proof fn units_are_started_and_stopped(p: ProcessorView, cdb: Seq<u8>, data: Seq<u8>, n: u32)
    requires
        cdb.len() >= 6,
    ensures
        cdb[0] == 0x00 ==> (p.plan(cdb, data, n) matches CommandPlan::Done(r) && {
            &&& p.ready ==> r.status == 0 && r.data_in.len() == 0
            &&& !p.ready ==> r.status == 2 && r.sense[2] == 2 && r.sense[12] == 4 && r.sense[13]
                == 2
        }),
        cdb[0] == 0x1B ==> (p.plan(cdb, data, n) matches CommandPlan::Done(r) && {
            &&& cdb[4] / 2 % 2 == 0 ==> r.status == 0
            &&& cdb[4] / 2 % 2 == 1 ==> r.status == 2 && r.sense[2] == 5 && r.sense[12] == 0x24
        }),
        p.after(cdb, data).ready == if cdb[0] == 0x1B && cdb[4] / 2 % 2 == 0 {
            cdb[4] % 2 == 1
        } else {
            p.ready
        },
        cdb[0] != 0x5F ==> p.after(cdb, data).reservations == p.reservations,
{
}

/// What the remaining commands do: REQUEST SENSE (0x03) returns 18 bytes of no
/// sense, or refuses the descriptor format; SYNCHRONIZE CACHE (0x35, 0x91) has
/// the bytes of the disk reach its medium; PREVENT ALLOW MEDIUM REMOVAL (0x1E) is
/// good; and an operation code that is none of those known, or a missing one, is
/// ILLEGAL REQUEST with code 0x20.
pub proof fn other_commands_are_answered(p: ProcessorView, cdb: Seq<u8>, data: Seq<u8>, n: u32)
    requires
        n >= 18,
    ensures
        cdb.len() >= 2 && cdb[0] == 0x03 && cdb[1] % 2 == 0 ==> (p.plan(cdb, data, n) matches
            CommandPlan::Done(r) && {
            &&& r.status == 0 && r.data_in.len() == 18
            &&& r.data_in[0] == 0x70 && r.data_in[2] == 0 && r.data_in[7] == 10 && r.data_in[12]
                == 0 && r.data_in[13] == 0
        }),
        cdb.len() >= 2 && cdb[0] == 0x03 && cdb[1] % 2 == 1 ==> (p.plan(cdb, data, n) matches
            CommandPlan::Done(r) && r.status == 2 && r.sense[2] == 5 && r.sense[12] == 0x24),
        cdb.len() > 0 && (cdb[0] == 0x35 || cdb[0] == 0x91) ==> p.plan(cdb, data, n) is Flush,
        cdb.len() > 0 && cdb[0] == 0x1E ==> (p.plan(cdb, data, n) matches CommandPlan::Done(r)
            && r.status == 0 && r.data_in.len() == 0),
        cdb.len() == 0 || !(cdb[0] == 0x00 || cdb[0] == 0x03 || cdb[0] == 0x12 || cdb[0] == 0x1A
            || cdb[0] == 0x1B || cdb[0] == 0x1E || cdb[0] == 0x25 || cdb[0] == 0x28 || cdb[0]
            == 0x2A || cdb[0] == 0x35 || cdb[0] == 0x5A || cdb[0] == 0x5E || cdb[0] == 0x5F
            || cdb[0] == 0x88 || cdb[0] == 0x8A || cdb[0] == 0x91 || cdb[0] == 0x9E || cdb[0]
            == 0xA0) ==> (p.plan(cdb, data, n) matches CommandPlan::Done(r) && {
            &&& r.status == 2 && r.data_in.len() == 0
            &&& r.sense[2] == 5 && r.sense[12] == 0x20 && r.sense[13] == 0
        }),
        cdb.len() > 0 && cdb[0] == 0xA0 ==> p.plan(cdb, data, n) == CommandPlan::Done(
            p.report_luns(n),
        ),
{
}

/// A flush that is good leaves the bytes of the disk as they are, with all of
/// them on the medium; a reliable disk owes it, and any other answer is MEDIUM
/// ERROR with code 0x03.
pub proof fn flushes_reach_the_medium<D: DiskOps>(
    data: Seq<u8>,
    before: D,
    after: D,
    result: ResultView,
)
    requires
        carried_out(CommandPlan::Flush, data, before, after, result),
    ensures
        after.contents() == before.contents(),
        result.status == 0 ==> after.stored() == before.contents(),
        before.reliable() ==> result.status == 0,
        result.status != 0 ==> result.status == 2 && result.sense[2] == 3 && result.sense[12]
            == 0x03,
        result.data_in.len() == 0,
{
}

/// PERSISTENT RESERVE IN (0x5E) by its service action in the low five bits of
/// byte 1: READ KEYS (0) returns the registered keys and READ RESERVATION (1) the
/// reservation, each cut at the allocation length; any other is an invalid field,
/// and so is a command of less than ten bytes.
pub proof fn reservations_are_read_by_service_action(
    p: ProcessorView,
    cdb: Seq<u8>,
    data: Seq<u8>,
    n: u32,
)
    requires
        cdb.len() >= 2,
        cdb[0] == 0x5E,
        n >= 24,
    ensures
        p.plan(cdb, data, n) matches CommandPlan::Done(r) && {
            &&& cdb.len() >= 10 && cdb[1] % 32 == 0 ==> r.status == 0 && r.data_in
                == p.reservations.key_list()
            &&& cdb.len() >= 10 && cdb[1] % 32 == 1 ==> r.status == 0 && r.data_in
                == p.reservations.reservation_data()
            &&& cdb.len() < 10 || cdb[1] % 32 > 1 ==> r.status == 2 && r.data_in.len() == 0
                && r.sense[2] == 5 && r.sense[12] == 0x24
        },
{
}

/// PERSISTENT RESERVE OUT (0x5F) by its service action in the low five bits of
/// byte 1. The reservation key is in the first eight bytes of the parameters and
/// the service action key in the next eight, big-endian; the type is byte 2.
/// REGISTER (0) puts the service action key in place of the reservation key,
/// which must be the registered one or zero; RESERVE (1) takes a reservation of
/// the type for the reservation key. What they refuse changes nothing: for a key
/// that does not match with RESERVATION CONFLICT (0x18), and for fields that are
/// not supported with ILLEGAL REQUEST and code 0x24, as for any other service
/// action, for a command of less than ten bytes or parameters of less than 24.
pub proof fn reservations_are_made_by_service_action(
    p: ProcessorView,
    cdb: Seq<u8>,
    data: Seq<u8>,
    n: u32,
)
    requires
        cdb.len() >= 3,
        cdb[0] == 0x5F,
    ensures
        p.plan(cdb, data, n) matches CommandPlan::Done(r) && {
            let complete = cdb.len() >= 10 && data.len() >= 24;
            let key = be_value(data.subrange(0, 8)) as u64;
            let action_key = be_value(data.subrange(8, 16)) as u64;
            let s = p.reservations;
            let outcome = if complete && cdb[1] % 32 == 0 {
                s.register_outcome(key)
            } else if complete && cdb[1] % 32 == 1 {
                s.reserve_outcome(key, cdb[2])
            } else {
                ReservationOutcome::InvalidField
            };
            &&& r.response == 0 && r.data_in.len() == 0
            &&& outcome == ReservationOutcome::Done ==> {
                &&& r.status == 0
                &&& cdb[1] % 32 == 0 ==> p.after(cdb, data).reservations == s.registered(action_key)
                &&& cdb[1] % 32 == 1 ==> p.after(cdb, data).reservations == s.reserved(key, cdb[2])
            }
            &&& outcome == ReservationOutcome::Conflict ==> r.status == 0x18 && r.sense.len() == 0
                && p.after(cdb, data) == p
            &&& outcome == ReservationOutcome::InvalidField ==> r.status == 2 && r.sense[2] == 5
                && r.sense[12] == 0x24 && p.after(cdb, data) == p
        },
{
    big_endian_numbers(data, 0);
    big_endian_numbers(data, 8);
}

/// A LUN comes up ready, with the whole blocks of its disk and no reservation.
pub proof fn fresh_luns_are_ready(config: LunConfigView, disk_size: u64, block_size: u32)
    requires
        block_size > 0,
    ensures
        ({
            let p = fresh_lun(config, disk_size, block_size);
            &&& p.ready && p.config == config && p.block_size == block_size
            &&& p.num_blocks * block_size <= disk_size < (p.num_blocks + 1) * block_size
            &&& p.reservations.registered_keys.len() == 0 && p.reservations.reservation is None
            &&& p.reservations.generation == 0
        }),
{
    let p = fresh_lun(config, disk_size, block_size);
    let b = block_size as int;
    vstd::arithmetic::div_mod::lemma_fundamental_div_mod(disk_size as int, b);
    vstd::arithmetic::div_mod::lemma_mod_bound(disk_size as int, b);
    assert(b * p.num_blocks == p.num_blocks * b) by (nonlinear_arith);
    assert((p.num_blocks + 1) * b == p.num_blocks * b + b) by (nonlinear_arith);
}

/// An answer with a smaller allocation length is the start of that with a larger one,
/// as much of it as there is room for, and nothing else of it differs: for every
/// command that is answered without the disk.
pub proof fn shorter_answers_are_cut(
    p: ProcessorView,
    cdb: Seq<u8>,
    data: Seq<u8>,
    n: u32,
    more: u32,
)
    requires
        n <= more,
    ensures
        (p.plan(cdb, data, n) is Done) == (p.plan(cdb, data, more) is Done),
        p.plan(cdb, data, n) is Done ==> {
            let a = p.plan(cdb, data, n)->Done_0;
            let b = p.plan(cdb, data, more)->Done_0;
            &&& a.response == b.response && a.status == b.status && a.sense == b.sense && a.resid
                == b.resid
            &&& n >= b.data_in.len() ==> a.data_in == b.data_in
            &&& n < b.data_in.len() ==> a.data_in == b.data_in.take(n as int)
        },
{
    if cdb.len() > 0 {
        let op = cdb[0];
        if op == scsi_opcode::REQUEST_SENSE {
            good_answers_are_cut(sense_data(sense_key::NO_SENSE, 0x00, 0x00), n, more);
        } else if op == scsi_opcode::INQUIRY {
            inquiries_are_cut(p, cdb, n, more);
        } else if op == scsi_opcode::MODE_SENSE_6 || op == scsi_opcode::MODE_SENSE_10 {
            mode_pages_are_cut(
                p,
                cdb[1] / 8 % 2 == 1,
                cdb[2] % 64,
                op == scsi_opcode::MODE_SENSE_10,
                n,
                more,
            );
        } else if op == scsi_opcode::READ_CAPACITY_10 {
            good_answers_are_cut(p.read_capacity_10().data_in, n, more);
        } else if op == scsi_opcode::SERVICE_ACTION_IN_16 {
            good_answers_are_cut(
                be64(p.last_lba()) + be32(p.block_size) + zeros(20),
                n,
                more,
            );
        } else if op == scsi_opcode::REPORT_LUNS {
            good_answers_are_cut(be32(8) + zeros(4) + p.listed_lun() + zeros(6), n, more);
        } else if op == scsi_opcode::PERSISTENT_RESERVE_IN {
            good_answers_are_cut(p.reservations.key_list(), n, more);
            good_answers_are_cut(p.reservations.reservation_data(), n, more);
        }
    }
}

/// An answer is another with a smaller allocation length.
pub open spec fn is_cut_of(a: ResultView, b: ResultView, n: u32) -> bool {
    &&& a.response == b.response && a.status == b.status && a.sense == b.sense && a.resid == b.resid
    &&& n >= b.data_in.len() ==> a.data_in == b.data_in
    &&& n < b.data_in.len() ==> a.data_in == b.data_in.take(n as int)
}

proof fn good_answers_are_cut(full: Seq<u8>, n: u32, more: u32)
    requires
        n <= more,
    ensures
        is_cut_of(good(prefix(full, n as int)), good(prefix(full, more as int)), n),
{
    prefix_of_prefix(full, n, more);
}

proof fn inquiries_are_cut(p: ProcessorView, cdb: Seq<u8>, n: u32, more: u32)
    requires
        n <= more,
    ensures
        is_cut_of(p.inquiry(cdb, n), p.inquiry(cdb, more), n),
{
    let page = cdb[2];
    if cdb[1] % 2 == 0 {
        good_answers_are_cut(p.standard_inquiry(), n, more);
    } else if page == 0x00 {
        good_answers_are_cut(p.vpd_supported_pages(), n, more);
    } else if page == 0x80 {
        good_answers_are_cut(p.vpd_serial_number(), n, more);
    } else if page == 0x83 {
        good_answers_are_cut(p.vpd_device_identification(), n, more);
    } else if page == 0xB0 {
        good_answers_are_cut(p.vpd_block_limits(), n, more);
    } else if page == 0xB2 {
        good_answers_are_cut(p.vpd_block_provisioning(), n, more);
    }
}

proof fn mode_pages_are_cut(p: ProcessorView, dbd: bool, page: u8, is_10: bool, n: u32, more: u32)
    requires
        n <= more,
    ensures
        is_cut_of(p.mode_sense(dbd, page, n, is_10), p.mode_sense(dbd, page, more, is_10), n),
{
    good_answers_are_cut(
        p.mode_header(dbd, is_10) + p.block_descriptor(dbd) + seq![0x08u8, 0x12, 0x04] + zeros(9),
        n,
        more,
    );
}

/// A prefix of a longer prefix is the prefix.
proof fn prefix_of_prefix(s: Seq<u8>, n: u32, more: u32)
    requires
        n <= more,
    ensures
        ({
            let a = prefix(s, n as int);
            let b = prefix(s, more as int);
            &&& n >= b.len() ==> a == b
            &&& n < b.len() ==> a == b.take(n as int)
        }),
{
    let a = prefix(s, n as int);
    let b = prefix(s, more as int);
    if n < b.len() {
        assert(a =~= b.take(n as int));
    } else {
        assert(a =~= b);
    }
}

/// A read or a write whose command is too short for its address and its count, of less
/// than ten or 16 bytes, is an invalid field; on a read-only LUN a write is refused as
/// one before that.
pub proof fn short_commands_are_refused(p: ProcessorView, cdb: Seq<u8>, data: Seq<u8>, n: u32)
    requires
        cdb.len() > 0,
        cdb.len() < 10 && (cdb[0] == 0x28 || cdb[0] == 0x2A) || cdb.len() < 16 && (cdb[0] == 0x88
            || cdb[0] == 0x8A),
    ensures
        p.plan(cdb, data, n) matches CommandPlan::Done(r) && {
            let write = cdb[0] == 0x2A || cdb[0] == 0x8A;
            &&& r.status == 2 && r.data_in.len() == 0
            &&& !(write && p.config.readonly) ==> r.sense[2] == 5 && r.sense[12] == 0x24
            &&& write && p.config.readonly ==> r.sense[2] == 7 && r.sense[12] == 0x27
        },
        cdb[0] == 0x28 ==> p.plan(cdb, data, n) == p.read_10(cdb, n),
        cdb[0] == 0x88 ==> p.plan(cdb, data, n) == p.read_16(cdb, n),
        cdb[0] == 0x2A ==> p.plan(cdb, data, n) == p.write_10(cdb, data),
        cdb[0] == 0x8A ==> p.plan(cdb, data, n) == p.write_16(cdb, data),
{
}

} // verus!

//! Virtio SCSI protocol definitions: constants, wire structures, LUN addressing
//! and fixed-format sense data.
use vstd::prelude::*;

use crate::bytes::{
    bytes_stand_for_their_number, get_le32, get_le64, le16, le32, le32_at, le64, le64_at, le_value,
    push_bytes, push_le16, push_le32, push_le64,
};

verus! {

/// Feature bit: a single request can hold both read and write data buffers.
pub const VIRTIO_SCSI_F_INOUT: u64 = 0;

/// Feature bit: hot-plug and hot-unplug of LUNs.
pub const VIRTIO_SCSI_F_HOTPLUG: u64 = 1;

/// Feature bit: change notification for media and power management events.
pub const VIRTIO_SCSI_F_CHANGE: u64 = 2;

/// Feature bit: T10 Protection Information (DIF/DIX).
pub const VIRTIO_SCSI_F_T10_PI: u64 = 3;

/// Control queue type: task management function.
pub const VIRTIO_SCSI_T_TMF: u32 = 0;

/// Control queue type: asynchronous notification query.
pub const VIRTIO_SCSI_T_AN_QUERY: u32 = 1;

/// Control queue type: asynchronous notification subscribe.
pub const VIRTIO_SCSI_T_AN_SUBSCRIBE: u32 = 2;

pub const VIRTIO_SCSI_T_TMF_ABORT_TASK: u32 = 0;

pub const VIRTIO_SCSI_T_TMF_ABORT_TASK_SET: u32 = 1;

pub const VIRTIO_SCSI_T_TMF_CLEAR_ACA: u32 = 2;

pub const VIRTIO_SCSI_T_TMF_CLEAR_TASK_SET: u32 = 3;

pub const VIRTIO_SCSI_T_TMF_I_T_NEXUS_RESET: u32 = 4;

pub const VIRTIO_SCSI_T_TMF_LOGICAL_UNIT_RESET: u32 = 5;

pub const VIRTIO_SCSI_T_TMF_QUERY_TASK: u32 = 6;

pub const VIRTIO_SCSI_T_TMF_QUERY_TASK_SET: u32 = 7;

pub const VIRTIO_SCSI_S_OK: u8 = 0;

pub const VIRTIO_SCSI_S_OVERRUN: u8 = 1;

pub const VIRTIO_SCSI_S_ABORTED: u8 = 2;

pub const VIRTIO_SCSI_S_BAD_TARGET: u8 = 3;

pub const VIRTIO_SCSI_S_RESET: u8 = 4;

pub const VIRTIO_SCSI_S_BUSY: u8 = 5;

pub const VIRTIO_SCSI_S_TRANSPORT_FAILURE: u8 = 6;

pub const VIRTIO_SCSI_S_TARGET_FAILURE: u8 = 7;

pub const VIRTIO_SCSI_S_NEXUS_FAILURE: u8 = 8;

pub const VIRTIO_SCSI_S_FAILURE: u8 = 9;

pub const VIRTIO_SCSI_S_FUNCTION_SUCCEEDED: u8 = 10;

pub const VIRTIO_SCSI_S_FUNCTION_REJECTED: u8 = 11;

pub const VIRTIO_SCSI_S_INCORRECT_LUN: u8 = 12;

pub const VIRTIO_SCSI_T_NO_EVENT: u32 = 0;

pub const VIRTIO_SCSI_T_TRANSPORT_RESET: u32 = 1;

pub const VIRTIO_SCSI_T_ASYNC_NOTIFY: u32 = 2;

pub const VIRTIO_SCSI_T_PARAM_CHANGE: u32 = 3;

pub const VIRTIO_SCSI_EVT_RESET_HARD: u32 = 0;

pub const VIRTIO_SCSI_EVT_RESET_RESCAN: u32 = 1;

pub const VIRTIO_SCSI_EVT_RESET_REMOVED: u32 = 2;

pub const VIRTIO_SCSI_EVT_ASYNC_OPERATIONAL_CHANGE: u32 = 2;

pub const VIRTIO_SCSI_EVT_ASYNC_POWER_MGMT: u32 = 4;

pub const VIRTIO_SCSI_EVT_ASYNC_EXTERNAL_REQUEST: u32 = 8;

pub const VIRTIO_SCSI_EVT_ASYNC_MEDIA_CHANGE: u32 = 16;

pub const VIRTIO_SCSI_EVT_ASYNC_MULTI_HOST: u32 = 32;

pub const VIRTIO_SCSI_EVT_ASYNC_DEVICE_BUSY: u32 = 64;

/// Size of the command descriptor block in a request.
pub const VIRTIO_SCSI_CDB_SIZE: usize = 32;

/// Size of the sense data area in a response.
pub const VIRTIO_SCSI_SENSE_SIZE: usize = 96;

pub const VIRTIO_SCSI_DEFAULT_NUM_QUEUES: usize = 1;

pub const VIRTIO_SCSI_DEFAULT_QUEUE_SIZE: u16 = 128;

pub const VIRTIO_SCSI_DEFAULT_SEG_MAX: u32 = 126;

pub const VIRTIO_SCSI_DEFAULT_MAX_SECTORS: u32 = 0xFFFF;

pub const VIRTIO_SCSI_DEFAULT_CMD_PER_LUN: u32 = 128;

pub const VIRTIO_SCSI_DEFAULT_MAX_CHANNEL: u16 = 0;

pub const VIRTIO_SCSI_DEFAULT_MAX_TARGET: u16 = 255;

pub const VIRTIO_SCSI_DEFAULT_MAX_LUN: u32 = 16383;

// ─── Device configuration space ──────────────────────────────────────────────

/// Virtio SCSI device configuration space.
#[derive(Debug, Copy, Clone, PartialEq, Eq, Structural)]
pub struct VirtioScsiConfig {
    /// Number of request queues (in addition to control and event queues)
    pub num_queues: u32,
    /// Maximum number of segments per request
    pub seg_max: u32,
    /// Maximum number of sectors per request
    pub max_sectors: u32,
    /// Maximum number of outstanding commands per LUN
    pub cmd_per_lun: u32,
    /// Event info size (for the event queue)
    pub event_info_size: u32,
    /// Sense data size
    pub sense_size: u32,
    /// CDB size
    pub cdb_size: u32,
    /// Maximum channel number
    pub max_channel: u16,
    /// Maximum target number
    pub max_target: u16,
    /// Maximum LUN number
    pub max_lun: u32,
}

impl Default for VirtioScsiConfig {
    fn default() -> (config: Self)
        ensures
            config.wire() == crate::bytes::zeros(36),
    {
        let config = VirtioScsiConfig {
            num_queues: 0,
            seg_max: 0,
            max_sectors: 0,
            cmd_per_lun: 0,
            event_info_size: 0,
            sense_size: 0,
            cdb_size: 0,
            max_channel: 0,
            max_target: 0,
            max_lun: 0,
        };
        assert(config.wire() =~= crate::bytes::zeros(36));
        config
    }
}

impl VirtioScsiConfig {
    /// The configuration space as the driver sees it, little-endian.
    pub open spec fn wire(self) -> Seq<u8> {
        le32(self.num_queues) + le32(self.seg_max) + le32(self.max_sectors) + le32(
            self.cmd_per_lun,
        ) + le32(self.event_info_size) + le32(self.sense_size) + le32(self.cdb_size) + le16(
            self.max_channel,
        ) + le16(self.max_target) + le32(self.max_lun)
    }

    /// A configuration with `num_queues` request queues and default limits.
    pub fn new(num_queues: u32) -> (config: Self)
        ensures
            config == (VirtioScsiConfig {
                num_queues,
                seg_max: VIRTIO_SCSI_DEFAULT_SEG_MAX,
                max_sectors: VIRTIO_SCSI_DEFAULT_MAX_SECTORS,
                cmd_per_lun: VIRTIO_SCSI_DEFAULT_CMD_PER_LUN,
                event_info_size: 0,
                sense_size: VIRTIO_SCSI_SENSE_SIZE as u32,
                cdb_size: VIRTIO_SCSI_CDB_SIZE as u32,
                max_channel: VIRTIO_SCSI_DEFAULT_MAX_CHANNEL,
                max_target: VIRTIO_SCSI_DEFAULT_MAX_TARGET,
                max_lun: VIRTIO_SCSI_DEFAULT_MAX_LUN,
            }),
    {
        VirtioScsiConfig {
            num_queues,
            seg_max: VIRTIO_SCSI_DEFAULT_SEG_MAX,
            max_sectors: VIRTIO_SCSI_DEFAULT_MAX_SECTORS,
            cmd_per_lun: VIRTIO_SCSI_DEFAULT_CMD_PER_LUN,
            event_info_size: 0,
            sense_size: VIRTIO_SCSI_SENSE_SIZE as u32,
            cdb_size: VIRTIO_SCSI_CDB_SIZE as u32,
            max_channel: VIRTIO_SCSI_DEFAULT_MAX_CHANNEL,
            max_target: VIRTIO_SCSI_DEFAULT_MAX_TARGET,
            max_lun: VIRTIO_SCSI_DEFAULT_MAX_LUN,
        }
    }

    /// The bytes of the configuration space.
    pub fn to_bytes(&self) -> (v: Vec<u8>)
        ensures
            v@ == self.wire(),
            v@.len() == 36,
    {
        let mut v: Vec<u8> = Vec::new();
        push_le32(&mut v, self.num_queues);
        push_le32(&mut v, self.seg_max);
        push_le32(&mut v, self.max_sectors);
        push_le32(&mut v, self.cmd_per_lun);
        push_le32(&mut v, self.event_info_size);
        push_le32(&mut v, self.sense_size);
        push_le32(&mut v, self.cdb_size);
        push_le16(&mut v, self.max_channel);
        push_le16(&mut v, self.max_target);
        push_le32(&mut v, self.max_lun);
        v
    }
}

// ─── Request queue ───────────────────────────────────────────────────────────

/// Copies eight bytes of `s` from `at`.
fn array8(s: &[u8], at: usize) -> (a: [u8; 8])
    requires
        at + 8 <= s@.len(),
    ensures
        a@ == s@.subrange(at as int, at + 8),
{
    let _len: usize = s.len();
    let a: [u8; 8] = [
        s[at],
        s[at + 1],
        s[at + 2],
        s[at + 3],
        s[at + 4],
        s[at + 5],
        s[at + 6],
        s[at + 7],
    ];
    assert(a@ =~= s@.subrange(at as int, at + 8));
    a
}

/// SCSI command request header, at the start of each request on the request
/// queues.
#[derive(Debug, Copy, Clone)]
pub struct VirtioScsiCmdReq {
    /// Logical unit number field
    pub lun: [u8; 8],
    /// Command identifier (for task management)
    pub tag: u64,
    /// Task attributes (SIMPLE, ORDERED, HEAD OF QUEUE, ACA)
    pub task_attr: u8,
    /// Priority
    pub prio: u8,
    /// Command reference number
    pub crn: u8,
    /// Command descriptor block
    pub cdb: [u8; 32],
}

impl Default for VirtioScsiCmdReq {
    fn default() -> (req: Self)
        ensures
            req.wire() == crate::bytes::zeros(51),
    {
        let req = VirtioScsiCmdReq {
            lun: [0u8; 8],
            tag: 0,
            task_attr: 0,
            prio: 0,
            crn: 0,
            cdb: [0u8; 32],
        };
        assert(req.wire() =~= crate::bytes::zeros(51));
        req
    }
}

impl VirtioScsiCmdReq {
    /// Length of the header on the wire.
    pub const WIRE_SIZE: usize = 51;

    /// The header on the wire, packed and little-endian.
    pub open spec fn wire(self) -> Seq<u8> {
        self.lun@ + le64(self.tag) + seq![self.task_attr, self.prio, self.crn] + self.cdb@
    }

    /// The bytes of the header.
    pub fn to_bytes(&self) -> (v: Vec<u8>)
        ensures
            v@ == self.wire(),
            v@.len() == 51,
    {
        let mut v: Vec<u8> = Vec::new();
        push_bytes(&mut v, self.lun.as_slice());
        push_le64(&mut v, self.tag);
        v.push(self.task_attr);
        v.push(self.prio);
        v.push(self.crn);
        push_bytes(&mut v, self.cdb.as_slice());
        assert(v@ =~= self.wire());
        v
    }

    /// Reads the header from the front of `s`.
    pub fn from_bytes(s: &[u8]) -> (req: Self)
        requires
            s@.len() >= 51,
        ensures
            req.lun@ == s@.subrange(0, 8),
            req.tag == le64_at(s@, 8),
            req.task_attr == s@[16],
            req.prio == s@[17],
            req.crn == s@[18],
            req.cdb@ == s@.subrange(19, 51),
    {
        let mut cdb: [u8; 32] = [0u8; 32];
        let mut i: usize = 0;
        while i < 32
            invariant
                i <= 32,
                s@.len() >= 51,
                forall|k: int| 0 <= k < i ==> cdb@[k] == s@[19 + k],
            decreases 32 - i,
        {
            cdb[i] = s[19 + i];
            i += 1;
        }
        assert(cdb@ =~= s@.subrange(19, 51));
        VirtioScsiCmdReq {
            lun: array8(s, 0),
            tag: get_le64(s, 8),
            task_attr: s[16],
            prio: s[17],
            crn: s[18],
            cdb,
        }
    }
}

/// SCSI command response header, at the start of the response to each request
/// on the request queues.
#[derive(Debug, Copy, Clone)]
pub struct VirtioScsiCmdResp {
    /// Sense data length
    pub sense_len: u32,
    /// Residual byte count
    pub resid: u32,
    /// Status qualifier
    pub status_qualifier: u16,
    /// SCSI status byte
    pub status: u8,
    /// Virtio SCSI response code
    pub response: u8,
    /// Sense data
    pub sense: [u8; 96],
}

impl Default for VirtioScsiCmdResp {
    fn default() -> (resp: Self)
        ensures
            resp.wire() == crate::bytes::zeros(108),
    {
        let resp = VirtioScsiCmdResp {
            sense_len: 0,
            resid: 0,
            status_qualifier: 0,
            status: 0,
            response: 0,
            sense: [0u8; 96],
        };
        assert(resp.wire() =~= crate::bytes::zeros(108));
        resp
    }
}

impl VirtioScsiCmdResp {
    /// Length of the header on the wire.
    pub const WIRE_SIZE: usize = 108;

    /// The header on the wire, packed and little-endian.
    pub open spec fn wire(self) -> Seq<u8> {
        le32(self.sense_len) + le32(self.resid) + le16(self.status_qualifier) + seq![
            self.status,
            self.response,
        ] + self.sense@
    }

    /// The bytes of the header.
    pub fn to_bytes(&self) -> (v: Vec<u8>)
        ensures
            v@ == self.wire(),
            v@.len() == 108,
    {
        let mut v: Vec<u8> = Vec::new();
        push_le32(&mut v, self.sense_len);
        push_le32(&mut v, self.resid);
        push_le16(&mut v, self.status_qualifier);
        v.push(self.status);
        v.push(self.response);
        push_bytes(&mut v, self.sense.as_slice());
        assert(v@ =~= self.wire());
        v
    }
}

// ─── Control queue ───────────────────────────────────────────────────────────

/// Task management function request on the control queue.
#[derive(Debug, Default, Copy, Clone)]
pub struct VirtioScsiCtrlTmfReq {
    /// Request type (must be VIRTIO_SCSI_T_TMF)
    pub request_type: u32,
    /// TMF subtype (ABORT_TASK, LUN_RESET, etc.)
    pub subtype: u32,
    /// Logical unit number field
    pub lun: [u8; 8],
    /// Tag of the command to act upon (for ABORT_TASK)
    pub tag: u64,
}

impl VirtioScsiCtrlTmfReq {
    /// Length of the request on the wire.
    pub const WIRE_SIZE: usize = 24;

    /// The request on the wire, packed and little-endian.
    pub open spec fn wire(self) -> Seq<u8> {
        le32(self.request_type) + le32(self.subtype) + self.lun@ + le64(self.tag)
    }

    /// Reads the request from the front of `s`.
    pub fn from_bytes(s: &[u8]) -> (req: Self)
        requires
            s@.len() >= 24,
        ensures
            req.request_type == le32_at(s@, 0),
            req.subtype == le32_at(s@, 4),
            req.lun@ == s@.subrange(8, 16),
            req.tag == le64_at(s@, 16),
    {
        VirtioScsiCtrlTmfReq {
            request_type: get_le32(s, 0),
            subtype: get_le32(s, 4),
            lun: array8(s, 8),
            tag: get_le64(s, 16),
        }
    }
}

/// Task management function response.
#[derive(Debug, Default, Copy, Clone)]
pub struct VirtioScsiCtrlTmfResp {
    /// Response status code
    pub response: u8,
}

impl VirtioScsiCtrlTmfResp {
    /// The response on the wire.
    pub open spec fn wire(self) -> Seq<u8> {
        seq![self.response]
    }

    /// The bytes of the response.
    pub fn to_bytes(&self) -> (v: Vec<u8>)
        ensures
            v@ == self.wire(),
    {
        let mut v: Vec<u8> = Vec::new();
        v.push(self.response);
        v
    }
}

/// Asynchronous notification query or subscribe request on the control queue.
#[derive(Debug, Default, Copy, Clone)]
pub struct VirtioScsiCtrlAnReq {
    /// Request type (VIRTIO_SCSI_T_AN_QUERY or VIRTIO_SCSI_T_AN_SUBSCRIBE)
    pub request_type: u32,
    /// Logical unit number field
    pub lun: [u8; 8],
    /// Event types to query or subscribe to
    pub event_requested: u32,
}

impl VirtioScsiCtrlAnReq {
    /// Length of the request on the wire.
    pub const WIRE_SIZE: usize = 16;

    /// The request on the wire, packed and little-endian.
    pub open spec fn wire(self) -> Seq<u8> {
        le32(self.request_type) + self.lun@ + le32(self.event_requested)
    }

    /// Reads the request from the front of `s`.
    pub fn from_bytes(s: &[u8]) -> (req: Self)
        requires
            s@.len() >= 16,
        ensures
            req.request_type == le32_at(s@, 0),
            req.lun@ == s@.subrange(4, 12),
            req.event_requested == le32_at(s@, 12),
    {
        VirtioScsiCtrlAnReq {
            request_type: get_le32(s, 0),
            lun: array8(s, 4),
            event_requested: get_le32(s, 12),
        }
    }
}

/// Asynchronous notification query or subscribe response.
#[derive(Debug, Default, Copy, Clone)]
pub struct VirtioScsiCtrlAnResp {
    /// Event types supported or subscribed
    pub event_actual: u32,
    /// Response status code
    pub response: u8,
}

impl VirtioScsiCtrlAnResp {
    /// The response on the wire, packed and little-endian.
    pub open spec fn wire(self) -> Seq<u8> {
        le32(self.event_actual) + seq![self.response]
    }

    /// The bytes of the response.
    pub fn to_bytes(&self) -> (v: Vec<u8>)
        ensures
            v@ == self.wire(),
    {
        let mut v: Vec<u8> = Vec::new();
        push_le32(&mut v, self.event_actual);
        v.push(self.response);
        assert(v@ =~= self.wire());
        v
    }
}

/// Event notification from the device to the driver on the event queue.
#[derive(Debug, Default, Copy, Clone)]
pub struct VirtioScsiEvent {
    /// Event type
    pub event: u32,
    /// Logical unit number field of the LUN that the event is about
    pub lun: [u8; 8],
    /// Event-specific reason code
    pub reason: u32,
}

impl VirtioScsiEvent {
    /// The event on the wire, packed and little-endian.
    pub open spec fn wire(self) -> Seq<u8> {
        le32(self.event) + self.lun@ + le32(self.reason)
    }

    /// The bytes of the event.
    pub fn to_bytes(&self) -> (v: Vec<u8>)
        ensures
            v@ == self.wire(),
            v@.len() == 16,
    {
        let mut v: Vec<u8> = Vec::new();
        push_le32(&mut v, self.event);
        push_bytes(&mut v, self.lun.as_slice());
        push_le32(&mut v, self.reason);
        v
    }
}

// ─── Sense data ──────────────────────────────────────────────────────────────

/// Fixed-format sense data for a sense key, an additional sense code and its
/// qualifier.
pub open spec fn sense_data(sense_key: u8, asc: u8, ascq: u8) -> Seq<u8> {
    seq![
        0x70, 0, sense_key % 16, 0, 0, 0, 0, 10, 0, 0, 0, 0, asc, ascq, 0, 0, 0, 0,
    ]
}

/// Builds the 18 bytes of fixed-format sense data: response code 0x70, the
/// low four bits of the sense key in byte 2, the length of the rest in byte 7,
/// and the additional sense code and qualifier in bytes 12 and 13.
pub fn build_sense_data(sense_key: u8, asc: u8, ascq: u8) -> (sense: [u8; 18])
    ensures
        sense@ == sense_data(sense_key, asc, ascq),
{
    let sense: [u8; 18] = [
        0x70, 0, sense_key % 16, 0, 0, 0, 0, 10, 0, 0, 0, 0, asc, ascq, 0, 0, 0, 0,
    ];
    assert(sense@ =~= sense_data(sense_key, asc, ascq));
    sense
}

// ─── LUN addressing ──────────────────────────────────────────────────────────

/// The LUN field of the REPORT LUNS well-known logical unit.
pub open spec fn report_luns_wlun() -> Seq<u8> {
    seq![0xC1, 0x01, 0, 0, 0, 0, 0, 0]
}

/// Whether a LUN field addresses the REPORT LUNS well-known logical unit, by
/// which the driver discovers all LUNs.
pub fn is_report_luns_wlun(lun: &[u8; 8]) -> (b: bool)
    ensures
        b == (lun@ == report_luns_wlun()),
{
    let b = lun[0] == 0xC1 && lun[1] == 0x01 && lun[2] == 0 && lun[3] == 0 && lun[4] == 0 && lun[5]
        == 0 && lun[6] == 0 && lun[7] == 0;
    assert(b ==> lun@ =~= report_luns_wlun());
    b
}

/// The target and LUN that a LUN field addresses. Byte 0 is 1 (single level),
/// byte 1 the target; the top two bits of byte 2 are the addressing method: 0
/// is peripheral device addressing with the LUN in byte 3, 1 is flat space
/// addressing with the LUN in the 14 bits below; other methods address
/// nothing. Bytes 4 to 7 are zero.
pub open spec fn lun_address(f: Seq<u8>) -> Option<(u8, u16)> {
    if f[0] != 1 || f[4] != 0 || f[5] != 0 || f[6] != 0 || f[7] != 0 {
        None
    } else if f[2] / 64 == 0 {
        Some((f[1], f[3] as u16))
    } else if f[2] / 64 == 1 {
        Some((f[1], (f[2] % 64 * 256 + f[3]) as u16))
    } else {
        None
    }
}

/// The LUN field for a target and a LUN in flat space addressing, of which
/// only the low 14 bits of the LUN find room.
pub open spec fn lun_field(target: u8, lun: u16) -> Seq<u8> {
    seq![1, target, (0x40 + lun / 256 % 64) as u8, (lun % 256) as u8, 0, 0, 0, 0]
}

/// Parses a LUN field into target and LUN.
pub fn parse_lun(lun: &[u8; 8]) -> (r: Option<(u8, u16)>)
    ensures
        r == lun_address(lun@),
{
    if lun[0] != 1 {
        return None;
    }
    let target: u8 = lun[1];
    let address_method: u8 = lun[2] / 64;
    let lun_value: u16 = match address_method {
        0 => lun[3] as u16,
        1 => (lun[2] % 64) as u16 * 256 + lun[3] as u16,
        _ => {
            return None;
        },
    };
    if lun[4] != 0 || lun[5] != 0 || lun[6] != 0 || lun[7] != 0 {
        return None;
    }
    Some((target, lun_value))
}

/// Encodes a target and a LUN (0 to 16383) in flat space addressing.
pub fn encode_lun(target: u8, lun: u16) -> (f: [u8; 8])
    ensures
        f@ == lun_field(target, lun),
{
    let f: [u8; 8] = [
        1,
        target,
        (0x40 + lun / 256 % 64) as u8,
        (lun % 256) as u8,
        0,
        0,
        0,
        0,
    ];
    assert(f@ =~= lun_field(target, lun));
    f
}

/// Parsing an encoded LUN field gives back the target and the LUN, for every
/// LUN that flat space addressing can hold.
pub proof fn lun_round_trip(target: u8, lun: u16)
    requires
        lun <= VIRTIO_SCSI_DEFAULT_MAX_LUN,
    ensures
        lun_address(lun_field(target, lun)) == Some((target, lun)),
{
}

/// Every address that a LUN field can hold is within the advertised limits,
/// and the field of the well-known logical unit holds none.
pub proof fn lun_addresses_are_in_range(f: Seq<u8>)
    requires
        f.len() == 8,
    ensures
        lun_address(f) matches Some((_, lun)) ==> lun <= VIRTIO_SCSI_DEFAULT_MAX_LUN,
        f == report_luns_wlun() ==> lun_address(f) is None,
{
}

/// A request header read back from its wire form is the header.
pub proof fn cmd_req_round_trip(req: VirtioScsiCmdReq)
    ensures
        req.wire().len() == VirtioScsiCmdReq::WIRE_SIZE,
        req.wire().subrange(0, 8) == req.lun@,
        le64_at(req.wire(), 8) == req.tag,
        req.wire()[16] == req.task_attr,
        req.wire()[17] == req.prio,
        req.wire()[18] == req.crn,
        req.wire().subrange(19, 51) == req.cdb@,
{
    crate::bytes::le_bytes_round_trip(0, 0, req.tag);
    let w = req.wire();
    let t = le64(req.tag);
    assert(w.subrange(0, 8) =~= req.lun@);
    assert(w.subrange(19, 51) =~= req.cdb@);
    assert forall|k: int| 0 <= k < 8 implies w[8 + k] == t[k] by {}
    assert(le32_at(w, 8) == le32_at(t, 0));
    assert(le32_at(w, 12) == le32_at(t, 4));
}

/// The configuration space, field by field: where each field lies, and that its
/// bytes stand for it in little-endian order.
pub proof fn configuration_fields_lie_in_their_places(config: VirtioScsiConfig)
    ensures
        ({
            let w = config.wire();
            &&& w.len() == 36
            &&& le_value(w.subrange(0, 4)) == config.num_queues
            &&& le_value(w.subrange(4, 8)) == config.seg_max
            &&& le_value(w.subrange(8, 12)) == config.max_sectors
            &&& le_value(w.subrange(12, 16)) == config.cmd_per_lun
            &&& le_value(w.subrange(16, 20)) == config.event_info_size
            &&& le_value(w.subrange(20, 24)) == config.sense_size
            &&& le_value(w.subrange(24, 28)) == config.cdb_size
            &&& le_value(w.subrange(28, 30)) == config.max_channel
            &&& le_value(w.subrange(30, 32)) == config.max_target
            &&& le_value(w.subrange(32, 36)) == config.max_lun
        }),
{
    let w = config.wire();
    assert(w.subrange(0, 4) =~= le32(config.num_queues));
    assert(w.subrange(4, 8) =~= le32(config.seg_max));
    assert(w.subrange(8, 12) =~= le32(config.max_sectors));
    assert(w.subrange(12, 16) =~= le32(config.cmd_per_lun));
    assert(w.subrange(16, 20) =~= le32(config.event_info_size));
    assert(w.subrange(20, 24) =~= le32(config.sense_size));
    assert(w.subrange(24, 28) =~= le32(config.cdb_size));
    assert(w.subrange(28, 30) =~= le16(config.max_channel));
    assert(w.subrange(30, 32) =~= le16(config.max_target));
    assert(w.subrange(32, 36) =~= le32(config.max_lun));
    bytes_stand_for_their_number(config.max_channel, config.num_queues, 0);
    bytes_stand_for_their_number(config.max_target, config.seg_max, 0);
    bytes_stand_for_their_number(0, config.max_sectors, 0);
    bytes_stand_for_their_number(0, config.cmd_per_lun, 0);
    bytes_stand_for_their_number(0, config.event_info_size, 0);
    bytes_stand_for_their_number(0, config.sense_size, 0);
    bytes_stand_for_their_number(0, config.cdb_size, 0);
    bytes_stand_for_their_number(0, config.max_lun, 0);
}

/// The request and the response header, field by field: where each field lies,
/// and that its bytes stand for it in little-endian order.
pub proof fn header_fields_lie_in_their_places(req: VirtioScsiCmdReq, resp: VirtioScsiCmdResp)
    ensures
        ({
            let w = req.wire();
            &&& w.len() == 51
            &&& w.subrange(0, 8) == req.lun@
            &&& le_value(w.subrange(8, 16)) == req.tag
            &&& w[16] == req.task_attr && w[17] == req.prio && w[18] == req.crn
            &&& w.subrange(19, 51) == req.cdb@
        }),
        ({
            let w = resp.wire();
            &&& w.len() == 108
            &&& le_value(w.subrange(0, 4)) == resp.sense_len
            &&& le_value(w.subrange(4, 8)) == resp.resid
            &&& le_value(w.subrange(8, 10)) == resp.status_qualifier
            &&& w[10] == resp.status && w[11] == resp.response
            &&& w.subrange(12, 108) == resp.sense@
        }),
{
    assert(req.wire().subrange(0, 8) =~= req.lun@);
    assert(req.wire().subrange(8, 16) =~= le64(req.tag));
    assert(req.wire().subrange(19, 51) =~= req.cdb@);
    assert(resp.wire().subrange(0, 4) =~= le32(resp.sense_len));
    assert(resp.wire().subrange(4, 8) =~= le32(resp.resid));
    assert(resp.wire().subrange(8, 10) =~= le16(resp.status_qualifier));
    assert(resp.wire().subrange(12, 108) =~= resp.sense@);
    bytes_stand_for_their_number(resp.status_qualifier, resp.sense_len, req.tag);
    bytes_stand_for_their_number(0, resp.resid, 0);
}

/// The requests on the control queue, the response to a notification request and
/// an event, field by field: where each field lies, and that its bytes stand for
/// it in little-endian order.
pub proof fn control_fields_lie_in_their_places(
    tmf: VirtioScsiCtrlTmfReq,
    an: VirtioScsiCtrlAnReq,
    an_resp: VirtioScsiCtrlAnResp,
    event: VirtioScsiEvent,
)
    ensures
        ({
            let w = tmf.wire();
            &&& w.len() == 24
            &&& le_value(w.subrange(0, 4)) == tmf.request_type
            &&& le_value(w.subrange(4, 8)) == tmf.subtype
            &&& w.subrange(8, 16) == tmf.lun@
            &&& le_value(w.subrange(16, 24)) == tmf.tag
        }),
        ({
            let w = an.wire();
            &&& w.len() == 16
            &&& le_value(w.subrange(0, 4)) == an.request_type
            &&& w.subrange(4, 12) == an.lun@
            &&& le_value(w.subrange(12, 16)) == an.event_requested
        }),
        ({
            let w = an_resp.wire();
            &&& w.len() == 5
            &&& le_value(w.subrange(0, 4)) == an_resp.event_actual
            &&& w[4] == an_resp.response
        }),
        ({
            let w = event.wire();
            &&& w.len() == 16
            &&& le_value(w.subrange(0, 4)) == event.event
            &&& w.subrange(4, 12) == event.lun@
            &&& le_value(w.subrange(12, 16)) == event.reason
        }),
{
    assert(tmf.wire().subrange(0, 4) =~= le32(tmf.request_type));
    assert(tmf.wire().subrange(4, 8) =~= le32(tmf.subtype));
    assert(tmf.wire().subrange(8, 16) =~= tmf.lun@);
    assert(tmf.wire().subrange(16, 24) =~= le64(tmf.tag));
    assert(an.wire().subrange(0, 4) =~= le32(an.request_type));
    assert(an.wire().subrange(4, 12) =~= an.lun@);
    assert(an.wire().subrange(12, 16) =~= le32(an.event_requested));
    assert(an_resp.wire().subrange(0, 4) =~= le32(an_resp.event_actual));
    assert(event.wire().subrange(0, 4) =~= le32(event.event));
    assert(event.wire().subrange(4, 12) =~= event.lun@);
    assert(event.wire().subrange(12, 16) =~= le32(event.reason));
    bytes_stand_for_their_number(0, tmf.request_type, tmf.tag);
    bytes_stand_for_their_number(0, tmf.subtype, 0);
    bytes_stand_for_their_number(0, an.request_type, 0);
    bytes_stand_for_their_number(0, an.event_requested, 0);
    bytes_stand_for_their_number(0, an_resp.event_actual, 0);
    bytes_stand_for_their_number(0, event.event, 0);
    bytes_stand_for_their_number(0, event.reason, 0);
}

/// Which target and LUN a LUN field addresses, byte by byte: a field that starts
/// with 1 and ends with four zeros has its target in byte 1. Its LUN is byte 3
/// where byte 2 is below 64, the value of bytes 2 and 3 less 0x4000 where byte 2
/// is from 64 to 127, and it has none above. Any other field addresses nothing.
pub proof fn lun_fields_address_their_lun(f: Seq<u8>)
    requires
        f.len() == 8,
    ensures
        ({
            let single = f[0] == 1 && f[4] == 0 && f[5] == 0 && f[6] == 0 && f[7] == 0;
            match lun_address(f) {
                Some((target, lun)) => {
                    &&& single && f[2] < 128
                    &&& target == f[1]
                    &&& f[2] < 64 ==> lun == f[3]
                    &&& f[2] >= 64 ==> lun == f[2] * 256 + f[3] - 0x4000
                },
                None => !single || f[2] >= 128,
            }
        }),
{
}

/// The bytes of the LUN field for a target and a LUN up to 16383: single level,
/// the target, and the LUN with 0x4000 in big-endian order; zeros behind it.
pub proof fn lun_fields_hold_their_lun(target: u8, lun: u16)
    requires
        lun <= 16383,
    ensures
        ({
            let f = lun_field(target, lun);
            &&& f.len() == 8
            &&& f[0] == 1 && f[1] == target
            &&& f[2] * 256 + f[3] == 0x4000 + lun
            &&& f[4] == 0 && f[5] == 0 && f[6] == 0 && f[7] == 0
        }),
{
}

/// Sense data, byte by byte: fixed format for a current error, the sense key in
/// the low half of byte 2, ten bytes behind byte 7, the code in byte 12 and its
/// qualifier in byte 13; all other bytes are zero.
pub proof fn sense_data_hold_their_codes(key: u8, asc: u8, ascq: u8, i: int)
    requires
        0 <= i < 18,
    ensures
        sense_data(key, asc, ascq).len() == 18,
        sense_data(key, asc, ascq)[i] == if i == 0 {
            0x70
        } else if i == 2 {
            key % 16
        } else if i == 7 {
            10
        } else if i == 12 {
            asc
        } else if i == 13 {
            ascq
        } else {
            0u8
        },
{
    let s = sense_data(key, asc, ascq);
    assert(s[0] == 0x70 && s[1] == 0 && s[2] == key % 16 && s[3] == 0 && s[4] == 0 && s[5] == 0);
    assert(s[6] == 0 && s[7] == 10 && s[8] == 0 && s[9] == 0 && s[10] == 0 && s[11] == 0);
    assert(s[12] == asc && s[13] == ascq && s[14] == 0 && s[15] == 0 && s[16] == 0 && s[17] == 0);
}

} // verus!

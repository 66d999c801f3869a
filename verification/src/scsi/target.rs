//! SCSI targets and logical units (LUNs).
use vstd::prelude::*;
use vstd::string::*;
use vstd::utf8::encode_utf8;

use crate::text::{decimal, decimal_string};

verus! {

/// Errors of SCSI target and LUN operations.
#[derive(Debug, Clone, Copy, PartialEq, Eq, Structural)]
pub enum ScsiTargetError {
    InvalidTargetId(u8),
    InvalidLun(u16),
    TargetNotFound(u8),
    LunNotFound(u8, u16),
    MaxTargetsExceeded,
    MaxLunsExceeded,
}

/// Result type for SCSI target operations.
pub type ScsiTargetResult<T> = Result<T, ScsiTargetError>;

/// SCSI device types (SPC).
#[derive(Debug, Clone, Copy, PartialEq, Eq, Structural)]
pub enum ScsiDeviceType {
    /// Direct access block device (e.g., disk)
    DirectAccess,
    /// Sequential access device (e.g., tape)
    SequentialAccess,
    /// Printer device
    Printer,
    /// Processor device
    Processor,
    /// Write-once device
    WriteOnce,
    /// CD/DVD device
    CdDvd,
    /// Scanner device
    Scanner,
    /// Optical memory device
    OpticalMemory,
    /// Medium changer device
    MediumChanger,
    /// Communications device
    Communications,
    /// Storage array controller
    StorageArrayController,
    /// Enclosure services device
    EnclosureServices,
    /// Simplified direct access device
    SimplifiedDirectAccess,
    /// Optical card reader/writer
    OpticalCardRW,
    /// Bridge controller
    BridgeController,
    /// Object-based storage device
    ObjectBasedStorage,
    /// Automation/drive interface
    AutomationDriveInterface,
    /// Well known logical unit
    WellKnownLu,
    /// Unknown or no device type
    Unknown,
}

impl ScsiDeviceType {
    /// The code of the device type in INQUIRY data.
    pub open spec fn spec_code(self) -> u8 {
        match self {
            ScsiDeviceType::DirectAccess => 0x00,
            ScsiDeviceType::SequentialAccess => 0x01,
            ScsiDeviceType::Printer => 0x02,
            ScsiDeviceType::Processor => 0x03,
            ScsiDeviceType::WriteOnce => 0x04,
            ScsiDeviceType::CdDvd => 0x05,
            ScsiDeviceType::Scanner => 0x06,
            ScsiDeviceType::OpticalMemory => 0x07,
            ScsiDeviceType::MediumChanger => 0x08,
            ScsiDeviceType::Communications => 0x09,
            ScsiDeviceType::StorageArrayController => 0x0C,
            ScsiDeviceType::EnclosureServices => 0x0D,
            ScsiDeviceType::SimplifiedDirectAccess => 0x0E,
            ScsiDeviceType::OpticalCardRW => 0x0F,
            ScsiDeviceType::BridgeController => 0x10,
            ScsiDeviceType::ObjectBasedStorage => 0x11,
            ScsiDeviceType::AutomationDriveInterface => 0x12,
            ScsiDeviceType::WellKnownLu => 0x1E,
            ScsiDeviceType::Unknown => 0x1F,
        }
    }

    /// The device type of a code: codes that stand for no type are unknown.
    pub open spec fn of_code(val: u8) -> ScsiDeviceType {
        match val {
            0x00 => ScsiDeviceType::DirectAccess,
            0x01 => ScsiDeviceType::SequentialAccess,
            0x02 => ScsiDeviceType::Printer,
            0x03 => ScsiDeviceType::Processor,
            0x04 => ScsiDeviceType::WriteOnce,
            0x05 => ScsiDeviceType::CdDvd,
            0x06 => ScsiDeviceType::Scanner,
            0x07 => ScsiDeviceType::OpticalMemory,
            0x08 => ScsiDeviceType::MediumChanger,
            0x09 => ScsiDeviceType::Communications,
            0x0C => ScsiDeviceType::StorageArrayController,
            0x0D => ScsiDeviceType::EnclosureServices,
            0x0E => ScsiDeviceType::SimplifiedDirectAccess,
            0x0F => ScsiDeviceType::OpticalCardRW,
            0x10 => ScsiDeviceType::BridgeController,
            0x11 => ScsiDeviceType::ObjectBasedStorage,
            0x12 => ScsiDeviceType::AutomationDriveInterface,
            0x1E => ScsiDeviceType::WellKnownLu,
            _ => ScsiDeviceType::Unknown,
        }
    }

    /// The code of the device type.
    pub fn code(self) -> (c: u8)
        ensures
            c == self.spec_code(),
    {
        match self {
            ScsiDeviceType::DirectAccess => 0x00,
            ScsiDeviceType::SequentialAccess => 0x01,
            ScsiDeviceType::Printer => 0x02,
            ScsiDeviceType::Processor => 0x03,
            ScsiDeviceType::WriteOnce => 0x04,
            ScsiDeviceType::CdDvd => 0x05,
            ScsiDeviceType::Scanner => 0x06,
            ScsiDeviceType::OpticalMemory => 0x07,
            ScsiDeviceType::MediumChanger => 0x08,
            ScsiDeviceType::Communications => 0x09,
            ScsiDeviceType::StorageArrayController => 0x0C,
            ScsiDeviceType::EnclosureServices => 0x0D,
            ScsiDeviceType::SimplifiedDirectAccess => 0x0E,
            ScsiDeviceType::OpticalCardRW => 0x0F,
            ScsiDeviceType::BridgeController => 0x10,
            ScsiDeviceType::ObjectBasedStorage => 0x11,
            ScsiDeviceType::AutomationDriveInterface => 0x12,
            ScsiDeviceType::WellKnownLu => 0x1E,
            ScsiDeviceType::Unknown => 0x1F,
        }
    }
}

/// The device type of the code of a device type is that device type.
pub proof fn device_type_round_trip(t: ScsiDeviceType)
    ensures
        ScsiDeviceType::of_code(t.spec_code()) == t,
        t.spec_code() < 0x20,
{
}

impl Default for ScsiDeviceType {
    fn default() -> (t: Self)
        ensures
            t == ScsiDeviceType::DirectAccess,
    {
        ScsiDeviceType::DirectAccess
    }
}

impl vstd::std_specs::convert::FromSpecImpl<u8> for ScsiDeviceType {
    open spec fn obeys_from_spec() -> bool {
        true
    }

    open spec fn from_spec(val: u8) -> ScsiDeviceType {
        ScsiDeviceType::of_code(val)
    }
}

impl From<u8> for ScsiDeviceType {
    fn from(val: u8) -> (t: Self) {
        match val {
            0x00 => ScsiDeviceType::DirectAccess,
            0x01 => ScsiDeviceType::SequentialAccess,
            0x02 => ScsiDeviceType::Printer,
            0x03 => ScsiDeviceType::Processor,
            0x04 => ScsiDeviceType::WriteOnce,
            0x05 => ScsiDeviceType::CdDvd,
            0x06 => ScsiDeviceType::Scanner,
            0x07 => ScsiDeviceType::OpticalMemory,
            0x08 => ScsiDeviceType::MediumChanger,
            0x09 => ScsiDeviceType::Communications,
            0x0C => ScsiDeviceType::StorageArrayController,
            0x0D => ScsiDeviceType::EnclosureServices,
            0x0E => ScsiDeviceType::SimplifiedDirectAccess,
            0x0F => ScsiDeviceType::OpticalCardRW,
            0x10 => ScsiDeviceType::BridgeController,
            0x11 => ScsiDeviceType::ObjectBasedStorage,
            0x12 => ScsiDeviceType::AutomationDriveInterface,
            0x1E => ScsiDeviceType::WellKnownLu,
            _ => ScsiDeviceType::Unknown,
        }
    }
}

/// Identifier of a LUN within a controller.
#[derive(Debug, Clone, Copy, PartialEq, Eq, Structural, Hash)]
pub struct ScsiLunId {
    /// Target ID (0-255)
    pub target: u8,
    /// LUN number (0-16383 for virtio-scsi)
    pub lun: u16,
}

impl Default for ScsiLunId {
    fn default() -> (id: Self)
        ensures
            id == (ScsiLunId { target: 0, lun: 0 }),
    {
        ScsiLunId { target: 0, lun: 0 }
    }
}

impl ScsiLunId {
    /// Create a new LUN identifier.
    pub fn new(target: u8, lun: u16) -> (id: Self)
        ensures
            id == (ScsiLunId { target, lun }),
    {
        ScsiLunId { target, lun }
    }

    /// The identifier as text: target and LUN in decimal, a colon between.
    pub fn to_text(&self) -> (s: String)
        ensures
            s@ == decimal(self.target as nat) + seq![':'] + decimal(self.lun as nat),
    {
        let mut s: String = decimal_string(self.target as u64);
        proof {
            reveal_strlit(":");
        }
        assert(":"@ =~= seq![':']);
        s.append(":");
        let lun: String = decimal_string(self.lun as u64);
        s.append(lun.as_str());
        s
    }
}

/// The first `n` bytes of a text in UTF-8, padded with spaces where it is
/// shorter.
pub open spec fn padded(text: Seq<char>, n: nat) -> Seq<u8> {
    let b = encode_utf8(text);
    Seq::new(
        n,
        |i: int|
            if i < b.len() {
                b[i]
            } else {
                0x20u8
            },
    )
}

/// Configuration of a LUN backed by a disk image.
#[derive(Debug, Clone)]
pub struct ScsiLunConfig {
    /// Target ID
    pub target: u8,
    /// LUN number
    pub lun: u16,
    /// Path to the disk image
    pub path: String,
    /// Read-only flag
    pub readonly: bool,
    /// Use direct I/O
    pub direct: bool,
    /// Device type
    pub device_type: ScsiDeviceType,
    /// Vendor identification (8 chars, space-padded)
    pub vendor_id: String,
    /// Product identification (16 chars, space-padded)
    pub product_id: String,
    /// Product revision (4 chars, space-padded)
    pub product_rev: String,
}

/// What a LUN configuration says.
pub struct LunConfigView {
    pub target: u8,
    pub lun: u16,
    pub path: Seq<char>,
    pub readonly: bool,
    pub direct: bool,
    pub device_type: ScsiDeviceType,
    pub vendor_id: Seq<char>,
    pub product_id: Seq<char>,
    pub product_rev: Seq<char>,
}

impl View for ScsiLunConfig {
    type V = LunConfigView;

    open spec fn view(&self) -> LunConfigView {
        LunConfigView {
            target: self.target,
            lun: self.lun,
            path: self.path@,
            readonly: self.readonly,
            direct: self.direct,
            device_type: self.device_type,
            vendor_id: self.vendor_id@,
            product_id: self.product_id@,
            product_rev: self.product_rev@,
        }
    }
}

impl LunConfigView {
    /// The identifier of the LUN.
    pub open spec fn id(self) -> ScsiLunId {
        ScsiLunId { target: self.target, lun: self.lun }
    }
}

/// The default configuration of a LUN on the disk image at `path`: writable,
/// a direct access device with this monitor's identification.
pub open spec fn default_lun_config(target: u8, lun: u16, path: Seq<char>) -> LunConfigView {
    LunConfigView {
        target,
        lun,
        path,
        readonly: false,
        direct: false,
        device_type: ScsiDeviceType::DirectAccess,
        vendor_id: "CLOUD-HV"@,
        product_id: "VIRTIO-SCSI"@,
        product_rev: "0001"@,
    }
}

impl Default for ScsiLunConfig {
    fn default() -> (config: Self)
        ensures
            config@ == default_lun_config(0, 0, Seq::empty()),
    {
        ScsiLunConfig {
            target: 0,
            lun: 0,
            path: String::new(),
            readonly: false,
            direct: false,
            device_type: ScsiDeviceType::DirectAccess,
            vendor_id: "CLOUD-HV".to_owned(),
            product_id: "VIRTIO-SCSI".to_owned(),
            product_rev: "0001".to_owned(),
        }
    }
}

/// Fills an array from the UTF-8 bytes of `text`, with spaces behind them.
fn padded_bytes<const N: usize>(text: &String) -> (bytes: [u8; N])
    ensures
        bytes@ == padded(text@, N as nat),
{
    let src: &[u8] = text.as_str().as_bytes();
    let mut bytes: [u8; N] = [0x20u8; N];
    let mut i: usize = 0;
    while i < N && i < src.len()
        invariant
            i <= N,
            i <= src@.len(),
            src@ == encode_utf8(text@),
            forall|k: int| 0 <= k < i ==> bytes@[k] == src@[k],
            forall|k: int| i <= k < N ==> bytes@[k] == 0x20u8,
        decreases N - i,
    {
        bytes[i] = src[i];
        i += 1;
    }
    assert(bytes@ =~= padded(text@, N as nat));
    bytes
}

impl ScsiLunConfig {
    /// Create a new LUN configuration.
    pub fn new(target: u8, lun: u16, path: String) -> (config: Self)
        ensures
            config@ == default_lun_config(target, lun, path@),
    {
        let base = ScsiLunConfig::default();
        ScsiLunConfig { target, lun, path, ..base }
    }

    /// Get the LUN identifier.
    pub fn id(&self) -> (id: ScsiLunId)
        ensures
            id == self@.id(),
    {
        ScsiLunId::new(self.target, self.lun)
    }

    /// The vendor identification as a fixed-length byte array.
    pub fn vendor_id_bytes(&self) -> (bytes: [u8; 8])
        ensures
            bytes@ == padded(self.vendor_id@, 8),
    {
        padded_bytes::<8>(&self.vendor_id)
    }

    /// The product identification as a fixed-length byte array.
    pub fn product_id_bytes(&self) -> (bytes: [u8; 16])
        ensures
            bytes@ == padded(self.product_id@, 16),
    {
        padded_bytes::<16>(&self.product_id)
    }

    /// The product revision as a fixed-length byte array.
    pub fn product_rev_bytes(&self) -> (bytes: [u8; 4])
        ensures
            bytes@ == padded(self.product_rev@, 4),
    {
        padded_bytes::<4>(&self.product_rev)
    }

    /// A copy of the configuration.
    pub fn duplicate(&self) -> (config: Self)
        ensures
            config@ == self@,
    {
        ScsiLunConfig {
            target: self.target,
            lun: self.lun,
            path: self.path.clone(),
            readonly: self.readonly,
            direct: self.direct,
            device_type: self.device_type,
            vendor_id: self.vendor_id.clone(),
            product_id: self.product_id.clone(),
            product_rev: self.product_rev.clone(),
        }
    }
}

/// Information about a SCSI target (a collection of LUNs).
#[derive(Debug, Clone, Default)]
pub struct ScsiTargetInfo {
    /// Target ID
    pub id: u8,
    /// Number of LUNs attached to this target
    pub lun_count: usize,
}

/// Active persistent reservation.
#[derive(Debug, Clone, Copy, PartialEq, Eq, Structural, Default)]
pub struct ScsiPersistentReservation {
    /// Registered reservation key that owns the reservation.
    pub key: u64,
    /// SCSI persistent reservation type.
    pub reservation_type: u8,
}

/// Per-LUN persistent reservation state.
#[derive(Debug, Clone, PartialEq, Eq)]
pub struct ScsiPersistentReservationState {
    /// Generation counter returned by PR IN commands.
    pub generation: u32,
    /// Registered keys. virtio-scsi exposes one local initiator.
    pub registered_keys: Vec<u64>,
    /// Current active reservation, if any.
    pub reservation: Option<ScsiPersistentReservation>,
}

/// What a persistent reservation state holds.
pub struct ReservationView {
    pub generation: u32,
    pub registered_keys: Seq<u64>,
    pub reservation: Option<ScsiPersistentReservation>,
}

impl View for ScsiPersistentReservationState {
    type V = ReservationView;

    open spec fn view(&self) -> ReservationView {
        ReservationView {
            generation: self.generation,
            registered_keys: self.registered_keys@,
            reservation: self.reservation,
        }
    }
}

impl Default for ScsiPersistentReservationState {
    fn default() -> (state: Self)
        ensures
            state@ == (ReservationView {
                generation: 0,
                registered_keys: Seq::empty(),
                reservation: None,
            }),
    {
        ScsiPersistentReservationState {
            generation: 0,
            registered_keys: Vec::new(),
            reservation: None,
        }
    }
}

/// State of a LUN for migration.
#[derive(Debug, Clone)]
pub struct ScsiLunState {
    /// LUN identifier
    pub id: ScsiLunId,
    /// Whether the LUN is online
    pub online: bool,
    /// Persistent reservation state for this LUN.
    pub persistent_reservation: ScsiPersistentReservationState,
    /// Unit attention condition pending
    pub unit_attention: bool,
    /// Power condition
    pub power_condition: u8,
}

impl Default for ScsiLunState {
    fn default() -> (state: Self)
        ensures
            state.id == (ScsiLunId { target: 0, lun: 0 }),
            !state.online,
            state.persistent_reservation@.generation == 0,
            state.persistent_reservation@.registered_keys == Seq::<u64>::empty(),
            state.persistent_reservation@.reservation is None,
            !state.unit_attention,
            state.power_condition == 0,
    {
        ScsiLunState {
            id: ScsiLunId::default(),
            online: false,
            persistent_reservation: ScsiPersistentReservationState::default(),
            unit_attention: false,
            power_condition: 0,
        }
    }
}

/// The codes of the device types are those of the SCSI standard: one by one from
/// a disk at zero to a communications device at 9, from a storage array
/// controller at 0x0C to an automation interface at 0x12, 0x1E for a well known
/// unit and 0x1F for an unknown one; and every other code is unknown.
pub proof fn device_types_have_their_codes(code: u8)
    ensures
        ScsiDeviceType::DirectAccess.spec_code() == 0,
        ScsiDeviceType::SequentialAccess.spec_code() == 1,
        ScsiDeviceType::Printer.spec_code() == 2,
        ScsiDeviceType::Processor.spec_code() == 3,
        ScsiDeviceType::WriteOnce.spec_code() == 4,
        ScsiDeviceType::CdDvd.spec_code() == 5,
        ScsiDeviceType::Scanner.spec_code() == 6,
        ScsiDeviceType::OpticalMemory.spec_code() == 7,
        ScsiDeviceType::MediumChanger.spec_code() == 8,
        ScsiDeviceType::Communications.spec_code() == 9,
        ScsiDeviceType::StorageArrayController.spec_code() == 0x0C,
        ScsiDeviceType::EnclosureServices.spec_code() == 0x0D,
        ScsiDeviceType::SimplifiedDirectAccess.spec_code() == 0x0E,
        ScsiDeviceType::OpticalCardRW.spec_code() == 0x0F,
        ScsiDeviceType::BridgeController.spec_code() == 0x10,
        ScsiDeviceType::ObjectBasedStorage.spec_code() == 0x11,
        ScsiDeviceType::AutomationDriveInterface.spec_code() == 0x12,
        ScsiDeviceType::WellKnownLu.spec_code() == 0x1E,
        ScsiDeviceType::Unknown.spec_code() == 0x1F,
        code <= 9 || 0x0C <= code <= 0x12 || code == 0x1E ==> ScsiDeviceType::of_code(
            code,
        ).spec_code() == code,
        code == 10 || code == 11 || 0x12 < code < 0x1E || 0x1E < code ==> ScsiDeviceType::of_code(
            code,
        ) == ScsiDeviceType::Unknown,
{
}

/// A padded text has the length that is asked for: the bytes of the text come
/// first, as far as there is room, and spaces behind them.
pub proof fn padding_is_spaces(text: Seq<char>, n: nat, i: int)
    requires
        0 <= i < n,
    ensures
        padded(text, n).len() == n,
        i < encode_utf8(text).len() ==> padded(text, n)[i] == encode_utf8(text)[i],
        i >= encode_utf8(text).len() ==> padded(text, n)[i] == 32,
{
}

/// A LUN that is configured by its place and its path alone can be written, is a
/// disk, and has this monitor's identification.
pub proof fn default_luns_are_writable_disks(target: u8, lun: u16, path: Seq<char>)
    ensures
        ({
            let c = default_lun_config(target, lun, path);
            &&& c.target == target && c.lun == lun && c.path == path
            &&& !c.readonly && !c.direct
            &&& c.device_type.spec_code() == 0
            &&& c.vendor_id == seq!['C', 'L', 'O', 'U', 'D', '-', 'H', 'V']
            &&& c.product_id == seq!['V', 'I', 'R', 'T', 'I', 'O', '-', 'S', 'C', 'S', 'I']
            &&& c.product_rev == seq!['0', '0', '0', '1']
        }),
{
    reveal_strlit("CLOUD-HV");
    reveal_strlit("VIRTIO-SCSI");
    reveal_strlit("0001");
    let c = default_lun_config(target, lun, path);
    assert(c.vendor_id =~= seq!['C', 'L', 'O', 'U', 'D', '-', 'H', 'V']);
    assert(c.product_id =~= seq!['V', 'I', 'R', 'T', 'I', 'O', '-', 'S', 'C', 'S', 'I']);
    assert(c.product_rev =~= seq!['0', '0', '0', '1']);
}

} // verus!

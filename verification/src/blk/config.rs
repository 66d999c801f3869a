//! PCI configuration space and virtio registers of the block device.
use vstd::prelude::*;

use crate::bytes::{
    bytes_stand_for_their_number, get_le16, get_le32, le16, le16_at, le32, le32_at, le64, le_value,
    little_endian_numbers, put_bytes, store, zeros,
};

verus! {

/// Default address of the register BAR, which the guest may move.
pub const VIRTIO_BLK_IO_BAR_DEFAULT: u32 = 0xC000;

/// Size of the register BAR.
pub const VIRTIO_BLK_IO_BAR_SIZE: u32 = 64;

/// Address of the MSI-X table BAR, which is fixed.
pub const MSIX_BAR_GPA: u64 = 0xFEA0_0000;

/// Size of the MSI-X table BAR.
pub const MSIX_BAR_SIZE: u32 = 4096;

/// Entries of the MSI-X table: configuration and request queue.
pub const MSIX_TABLE_ENTRIES: u16 = 2;

pub const VIRTIO_PCI_HOST_FEATURES: u16 = 0;

pub const VIRTIO_PCI_GUEST_FEATURES: u16 = 4;

pub const VIRTIO_PCI_QUEUE_PFN: u16 = 8;

pub const VIRTIO_PCI_QUEUE_NUM: u16 = 12;

pub const VIRTIO_PCI_QUEUE_SEL: u16 = 14;

pub const VIRTIO_PCI_QUEUE_NOTIFY: u16 = 16;

pub const VIRTIO_PCI_STATUS: u16 = 18;

pub const VIRTIO_PCI_ISR: u16 = 19;

pub const VIRTIO_PCI_MSIX_CONFIG_VECTOR: u16 = 20;

pub const VIRTIO_PCI_MSIX_QUEUE_VECTOR: u16 = 22;

/// Start of the device configuration, with MSI-X.
pub const VIRTIO_PCI_CONFIG_OFF: u16 = 24;

/// No MSI-X vector.
pub const VIRTIO_MSI_NO_VECTOR: u16 = 0xFFFF;

/// Size of the request queue.
pub const BLK_QUEUE_SIZE: u16 = 128;

/// Configuration space of the host bridge: Intel i440FX, class 06.
pub open spec fn host_bridge() -> Seq<u8> {
    store(store(zeros(256), 0, seq![0x86u8, 0x80, 0x37, 0x12]), 0x0B, seq![0x06u8])
}

/// The configuration space of the host bridge.
pub fn host_bridge_config() -> (cfg: [u8; 256])
    ensures
        cfg@ == host_bridge(),
{
    let mut cfg: [u8; 256] = [0u8; 256];
    cfg[0x00] = 0x86;
    cfg[0x01] = 0x80;
    cfg[0x02] = 0x37;
    cfg[0x03] = 0x12;
    cfg[0x0B] = 0x06;
    assert(cfg@ =~= host_bridge());
    cfg
}

/// A self-contained legacy virtio block device on the PCI bus.
#[derive(Debug, Clone)]
pub struct PciBlkDevice {
    /// PCI configuration space
    pub config: [u8; 256],
    /// Address of the register BAR
    pub io_bar_base: u32,
    /// Whether the register BAR is being sized
    pub io_bar_sizing: bool,
    /// Address of the MSI-X table BAR
    pub msix_bar_base: u32,
    /// Whether the MSI-X table BAR is being sized
    pub msix_bar_sizing: bool,
    /// Features of the device
    pub device_features: u32,
    /// Features that the guest accepted
    pub guest_features: u32,
    /// Device status
    pub device_status: u8,
    /// Interrupt status
    pub isr_status: u8,
    /// Selected queue
    pub queue_select: u16,
    /// MSI-X vector for configuration changes
    pub msix_config_vector: u16,
    /// Page of the request queue
    pub queue_pfn: u32,
    /// MSI-X vector of the request queue
    pub queue_msix_vector: u16,
    /// Next entry of the available ring
    pub last_avail_idx: u16,
    /// Capacity in sectors of 512 bytes
    pub capacity: u64,
}

/// The configuration space of a new block device: Red Hat transitional
/// virtio-blk, mass storage, INTA; the register BAR and the MSI-X table BAR;
/// and the MSI-X capability with two entries in BAR 1 and the pending bits
/// behind them.
pub open spec fn initial_config() -> Seq<u8> {
    let a = store(zeros(256), 0, seq![0xF4u8, 0x1A, 0x01, 0x10, 0x07, 0x00, 0x10, 0x00]);
    let b = store(a, 0x0B, seq![0x01u8]);
    let c = store(b, 0x10, le32(0xC001));
    let d = store(c, 0x14, le32(0xFEA0_0000));
    let e = store(d, 0x2C, seq![0xF4u8, 0x1A, 0x02, 0x00]);
    let f = store(e, 0x34, seq![0x40u8]);
    let g = store(f, 0x3D, seq![0x01u8]);
    store(g, 0x40, seq![0x11u8, 0x00, 0x01, 0x00] + le32(0x0000_0001) + le32(0x0000_0801))
}

/// `c` with those bytes of `data`, put at `at`, that fall between `lo` and
/// `hi`.
pub open spec fn masked_store(c: Seq<u8>, at: int, data: Seq<u8>, lo: int, hi: int) -> Seq<u8> {
    Seq::new(
        c.len(),
        |p: int|
            if at <= p < at + data.len() && lo <= p < hi {
                data[p - at]
            } else {
                c[p]
            },
    )
}

/// Writes those bytes of `data`, put at `at`, that fall between `lo` and `hi`.
fn put_masked(c: &mut [u8; 256], at: usize, data: &[u8], lo: usize, hi: usize)
    requires
        lo <= hi <= 256,
        at <= 256,
    ensures
        final(c)@ == masked_store(old(c)@, at as int, data@, lo as int, hi as int),
{
    let ghost before = c@;
    let mut i: usize = 0;
    while i < data.len() && i < 256
        invariant
            i <= data@.len(),
            i <= 256,
            lo <= hi <= 256,
            at <= 256,
            c@.len() == 256,
            before.len() == 256,
            forall|p: int|
                #![trigger c@[p]]
                0 <= p < 256 ==> c@[p] == if at <= p < at + i && lo <= p < hi {
                    data@[p - at]
                } else {
                    before[p]
                },
        decreases data@.len() - i,
    {
        let p: usize = at + i;
        if lo <= p && p < hi {
            c[p] = data[i];
        }
        i += 1;
    }
    assert(c@ =~= masked_store(before, at as int, data@, lo as int, hi as int));
}

/// The value of the register BAR as written: the bytes of `data` at `offset`
/// in place of those that it holds.
pub open spec fn bar_written(c: Seq<u8>, bar: int, offset: u64, data: Seq<u8>) -> u32 {
    le32_at(masked_store(c, bar + offset, data, bar, bar + 4), bar)
}

impl PciBlkDevice {
    /// A new device on a disk of `disk_size` bytes.
    pub fn new(disk_size: u64) -> (dev: Self)
        ensures
            dev.config@ == initial_config(),
            dev.io_bar_base == VIRTIO_BLK_IO_BAR_DEFAULT,
            !dev.io_bar_sizing,
            dev.msix_bar_base == MSIX_BAR_GPA,
            !dev.msix_bar_sizing,
            dev.device_features == 0,
            dev.is_reset(),
            dev.capacity == disk_size / 512,
            dev.capacity * 512 <= u64::MAX,
    {
        let mut config: [u8; 256] = [0u8; 256];
        config[0x00] = 0xF4;
        config[0x01] = 0x1A;
        config[0x02] = 0x01;
        config[0x03] = 0x10;
        config[0x04] = 0x07;
        config[0x06] = 0x10;
        config[0x0B] = 0x01;
        // BAR 0: registers in I/O space (bit 0)
        config[0x10] = 0x01;
        config[0x11] = 0xC0;
        // BAR 1: MSI-X table in memory space
        config[0x16] = 0xA0;
        config[0x17] = 0xFE;
        config[0x2C] = 0xF4;
        config[0x2D] = 0x1A;
        config[0x2E] = 0x02;
        config[0x34] = 0x40;
        config[0x3D] = 0x01;
        // MSI-X capability: two entries, table in BAR 1, pending bits at 0x800
        config[0x40] = 0x11;
        config[0x42] = 0x01;
        config[0x44] = 0x01;
        config[0x48] = 0x01;
        config[0x49] = 0x08;
        assert(config@ =~= initial_config());
        PciBlkDevice {
            config,
            io_bar_base: VIRTIO_BLK_IO_BAR_DEFAULT,
            io_bar_sizing: false,
            msix_bar_base: MSIX_BAR_GPA as u32,
            msix_bar_sizing: false,
            device_features: 0,
            guest_features: 0,
            device_status: 0,
            isr_status: 0,
            queue_select: 0,
            msix_config_vector: VIRTIO_MSI_NO_VECTOR,
            queue_pfn: 0,
            queue_msix_vector: VIRTIO_MSI_NO_VECTOR,
            last_avail_idx: 0,
            capacity: disk_size / 512,
        }
    }

    /// The virtio state is that of a device that was just reset.
    pub open spec fn is_reset(self) -> bool {
        &&& self.guest_features == 0
        &&& self.device_status == 0
        &&& self.isr_status == 0
        &&& self.queue_select == 0
        &&& self.msix_config_vector == VIRTIO_MSI_NO_VECTOR
        &&& self.queue_pfn == 0
        &&& self.queue_msix_vector == VIRTIO_MSI_NO_VECTOR
        &&& self.last_avail_idx == 0
    }

    // ─── Configuration space ─────────────────────────────────────────────────

    /// The value of a configuration register: the size of a BAR while it is
    /// being sized, zero outside the space.
    pub open spec fn config_value(self, reg: int) -> u32 {
        if reg >= 64 {
            0
        } else if reg == 4 && self.io_bar_sizing {
            0xFFFF_FFC1
        } else if reg == 5 && self.msix_bar_sizing {
            0xFFFF_F000
        } else {
            le32_at(self.config@, reg * 4)
        }
    }

    /// Reads a configuration register of four bytes.
    pub fn read_config(&self, reg: usize) -> (value: u32)
        ensures
            value == self.config_value(reg as int),
    {
        if reg >= 64 {
            return 0;
        }
        if reg == 4 && self.io_bar_sizing {
            return 0xFFFF_FFC1;
        }
        if reg == 5 && self.msix_bar_sizing {
            return 0xFFFF_F000;
        }
        get_le32(self.config.as_slice(), reg * 4)
    }

    /// What a write to a configuration register makes of the device: of the
    /// command register the three enable bits can be written; BAR 0 is sized
    /// or moved; BAR 1 is sized or stays where it is; of the MSI-X message
    /// control a write that starts in it changes it alone; and a write
    /// anywhere else changes the bytes it covers.
    pub open spec fn config_written(
        self,
        after: PciBlkDevice,
        reg: int,
        offset: u64,
        data: Seq<u8>,
    ) -> bool {
        let c = self.config@;
        let at = reg * 4 + offset;
        if reg >= 64 {
            after == self
        } else if reg == 1 {
            &&& after == (PciBlkDevice { config: after.config, ..self })
            &&& after.config@ == if offset == 0 && data.len() > 0 {
                c.update(4, data[0] % 8)
            } else {
                c
            }
        } else if reg == 4 {
            let bar = bar_written(c, 0x10, offset, data);
            let base = (bar - bar % 64) as u32;
            if bar >= 0xFFFF_FFFC {
                &&& after == (PciBlkDevice { config: after.config, io_bar_sizing: true, ..self })
                &&& after.config@ == store(c, 0x10, le32(bar))
            } else {
                &&& after == (PciBlkDevice {
                    config: after.config,
                    io_bar_sizing: false,
                    io_bar_base: base,
                    ..self
                })
                &&& after.config@ == store(c, 0x10, le32((base + 1) as u32))
            }
        } else if reg == 5 {
            let bar = bar_written(c, 0x14, offset, data);
            if bar >= 0xFFFF_FFF0 {
                &&& after == (PciBlkDevice { config: after.config, msix_bar_sizing: true, ..self })
                &&& after.config@ == store(c, 0x14, le32(bar))
            } else {
                &&& after == (PciBlkDevice { config: after.config, msix_bar_sizing: false, ..self })
                &&& after.config@ == store(c, 0x14, le32(MSIX_BAR_GPA as u32))
            }
        } else {
            &&& after == (PciBlkDevice { config: after.config, ..self })
            &&& after.config@ == if at == 0x42 || at == 0x43 {
                masked_store(c, at, data, 0x42, 0x44)
            } else {
                masked_store(c, at, data, 0, 256)
            }
        }
    }

    /// Writes to a configuration register: `offset` is the byte in the
    /// register (0 to 3), `data` the bytes to write.
    pub fn write_config(&mut self, reg: usize, offset: u64, data: &[u8])
        requires
            offset <= 3,
        ensures
            old(self).config_written(*final(self), reg as int, offset, data@),
    {
        if reg >= 64 {
            return;
        }
        let at: usize = reg * 4 + offset as usize;
        if reg == 1 {
            if offset == 0 && data.len() > 0 {
                self.config[4] = data[0] % 8;
            }
        } else if reg == 4 {
            let mut c: [u8; 256] = self.config;
            put_masked(&mut c, at, data, 0x10, 0x14);
            let bar: u32 = get_le32(c.as_slice(), 0x10);
            if bar >= 0xFFFF_FFFC {
                self.io_bar_sizing = true;
                self.store_bar(0x10, bar);
            } else {
                self.io_bar_sizing = false;
                let addr: u32 = bar - bar % 64;
                self.io_bar_base = addr;
                self.store_bar(0x10, addr + 1);
            }
        } else if reg == 5 {
            let mut c: [u8; 256] = self.config;
            put_masked(&mut c, at, data, 0x14, 0x18);
            let bar: u32 = get_le32(c.as_slice(), 0x14);
            if bar >= 0xFFFF_FFF0 {
                self.msix_bar_sizing = true;
                self.store_bar(0x14, bar);
            } else {
                self.msix_bar_sizing = false;
                self.store_bar(0x14, MSIX_BAR_GPA as u32);
            }
        } else if at == 0x42 || at == 0x43 {
            put_masked(&mut self.config, at, data, 0x42, 0x44);
        } else {
            put_masked(&mut self.config, at, data, 0, 256);
        }
    }

    /// Stores the value of a BAR.
    fn store_bar(&mut self, at: usize, value: u32)
        requires
            at + 4 <= 256,
        ensures
            *final(self) == (PciBlkDevice { config: final(self).config, ..*old(self) }),
            final(self).config@ == store(old(self).config@, at as int, le32(value)),
    {
        let ghost before = self.config@;
        self.config[at] = (value % 0x100) as u8;
        self.config[at + 1] = (value / 0x100 % 0x100) as u8;
        self.config[at + 2] = (value / 0x1_0000 % 0x100) as u8;
        self.config[at + 3] = (value / 0x100_0000) as u8;
        assert(self.config@ =~= store(before, at as int, le32(value)));
    }

    /// The MSI-X message control word.
    pub open spec fn message_control(self) -> u16 {
        le16_at(self.config@, 0x42)
    }

    /// Whether MSI-X is enabled, bit 15 of the message control.
    pub fn msix_enabled(&self) -> (b: bool)
        ensures
            b == (self.message_control() >= 0x8000),
    {
        get_le16(self.config.as_slice(), 0x42) >= 0x8000
    }

    /// Whether all vectors are masked, bit 14 of the message control.
    pub fn msix_function_masked(&self) -> (b: bool)
        ensures
            b == (self.message_control() / 0x4000 % 2 == 1),
    {
        get_le16(self.config.as_slice(), 0x42) / 0x4000 % 2 == 1
    }

    // ─── Virtio registers ────────────────────────────────────────────────────

    /// The bytes of the register at `offset`, where there is one.
    pub open spec fn register(self, offset: u16) -> Option<Seq<u8>> {
        if offset == VIRTIO_PCI_HOST_FEATURES {
            Some(le32(self.device_features))
        } else if offset == VIRTIO_PCI_GUEST_FEATURES {
            Some(le32(self.guest_features))
        } else if offset == VIRTIO_PCI_QUEUE_PFN {
            Some(le32(self.queue_pfn))
        } else if offset == VIRTIO_PCI_QUEUE_NUM {
            Some(le16(if self.queue_select == 0 { BLK_QUEUE_SIZE } else { 0 }))
        } else if offset == VIRTIO_PCI_QUEUE_SEL {
            Some(le16(self.queue_select))
        } else if offset == VIRTIO_PCI_STATUS {
            Some(seq![self.device_status])
        } else if offset == VIRTIO_PCI_ISR {
            Some(seq![self.isr_status])
        } else if offset == VIRTIO_PCI_MSIX_CONFIG_VECTOR {
            Some(le16(self.msix_config_vector))
        } else if offset == VIRTIO_PCI_MSIX_QUEUE_VECTOR {
            Some(
                le16(
                    if self.queue_select == 0 {
                        self.queue_msix_vector
                    } else {
                        VIRTIO_MSI_NO_VECTOR
                    },
                ),
            )
        } else {
            None
        }
    }

    /// What a read of the register BAR at `offset` makes of a buffer: a
    /// register is read where the buffer has room for it; behind the
    /// registers lies the capacity, then zeros; and zeros between them.
    pub open spec fn io_read_data(self, offset: u16, data: Seq<u8>) -> Seq<u8> {
        match self.register(offset) {
            Some(b) => if data.len() >= b.len() {
                store(data, 0, b)
            } else {
                data
            },
            None => Seq::new(
                data.len(),
                |i: int|
                    if offset >= VIRTIO_PCI_CONFIG_OFF && offset - VIRTIO_PCI_CONFIG_OFF + i < 8 {
                        le64(self.capacity)[offset - VIRTIO_PCI_CONFIG_OFF + i]
                    } else {
                        0u8
                    },
            ),
        }
    }

    /// Reads from the register BAR. A read of the interrupt status clears it.
    pub fn io_read(&mut self, offset: u16, data: &mut [u8])
        requires
            offset == VIRTIO_PCI_STATUS || offset == VIRTIO_PCI_ISR ==> old(data)@.len() > 0,
        ensures
            final(data)@ == old(self).io_read_data(offset, old(data)@),
            *final(self) == (PciBlkDevice {
                isr_status: if offset == VIRTIO_PCI_ISR { 0 } else { old(self).isr_status },
                ..*old(self)
            }),
    {
        let mut b: Vec<u8> = Vec::new();
        match offset {
            VIRTIO_PCI_HOST_FEATURES => {
                crate::bytes::push_le32(&mut b, self.device_features);
            },
            VIRTIO_PCI_GUEST_FEATURES => {
                crate::bytes::push_le32(&mut b, self.guest_features);
            },
            VIRTIO_PCI_QUEUE_PFN => {
                crate::bytes::push_le32(&mut b, self.queue_pfn);
            },
            VIRTIO_PCI_QUEUE_NUM => {
                let size: u16 = if self.queue_select == 0 {
                    BLK_QUEUE_SIZE
                } else {
                    0
                };
                crate::bytes::push_le16(&mut b, size);
            },
            VIRTIO_PCI_QUEUE_SEL => {
                crate::bytes::push_le16(&mut b, self.queue_select);
            },
            VIRTIO_PCI_STATUS => {
                b.push(self.device_status);
            },
            VIRTIO_PCI_ISR => {
                b.push(self.isr_status);
                self.isr_status = 0;
            },
            VIRTIO_PCI_MSIX_CONFIG_VECTOR => {
                crate::bytes::push_le16(&mut b, self.msix_config_vector);
            },
            VIRTIO_PCI_MSIX_QUEUE_VECTOR => {
                let vector: u16 = if self.queue_select == 0 {
                    self.queue_msix_vector
                } else {
                    VIRTIO_MSI_NO_VECTOR
                };
                crate::bytes::push_le16(&mut b, vector);
            },
            _ => {
                self.read_device_config(offset, data);
                return;
            },
        }
        assert(Some(b@) == old(self).register(offset)) by {
            assert(b@ =~= old(self).register(offset)->Some_0);
        }
        if data.len() >= b.len() {
            put_bytes(data, 0, b.as_slice());
        }
    }

    /// Reads where there is no register.
    fn read_device_config(&self, offset: u16, data: &mut [u8])
        requires
            self.register(offset) is None,
        ensures
            final(data)@ == self.io_read_data(offset, old(data)@),
    {
        let mut capacity: Vec<u8> = Vec::new();
        crate::bytes::push_le64(&mut capacity, self.capacity);
        assert(capacity@ =~= le64(self.capacity));
        let ghost before = data@;
        let n: usize = data.len();
        let mut i: usize = 0;
        while i < n
            invariant
                i <= n == data@.len() == before.len(),
                self.register(offset) is None,
                capacity@ == le64(self.capacity),
                capacity@.len() == 8,
                forall|k: int| 0 <= k < i ==> data@[k] == self.io_read_data(offset, before)[k],
            decreases n - i,
        {
            if offset >= VIRTIO_PCI_CONFIG_OFF && (offset - VIRTIO_PCI_CONFIG_OFF) < 8 && i < 8
                - (offset - VIRTIO_PCI_CONFIG_OFF) as usize {
                data[i] = capacity[(offset - VIRTIO_PCI_CONFIG_OFF) as usize + i];
            } else {
                data[i] = 0;
            }
            i += 1;
        }
        assert(data@ =~= self.io_read_data(offset, before));
    }

    /// What a write to the register BAR makes of the device, apart from the
    /// requests that a notification starts. Status zero resets the device.
    pub open spec fn register_written(self, offset: u16, data: Seq<u8>) -> PciBlkDevice {
        if offset == VIRTIO_PCI_GUEST_FEATURES && data.len() >= 4 {
            PciBlkDevice { guest_features: le32_at(data, 0), ..self }
        } else if offset == VIRTIO_PCI_QUEUE_PFN && data.len() >= 4 && self.queue_select == 0 {
            PciBlkDevice {
                queue_pfn: le32_at(data, 0),
                last_avail_idx: if le32_at(data, 0) == 0 { 0 } else { self.last_avail_idx },
                ..self
            }
        } else if offset == VIRTIO_PCI_QUEUE_SEL && data.len() >= 2 {
            PciBlkDevice { queue_select: le16_at(data, 0), ..self }
        } else if offset == VIRTIO_PCI_STATUS && data.len() > 0 {
            if data[0] == 0 {
                PciBlkDevice {
                    device_status: 0,
                    guest_features: 0,
                    queue_pfn: 0,
                    queue_select: 0,
                    last_avail_idx: 0,
                    isr_status: 0,
                    msix_config_vector: VIRTIO_MSI_NO_VECTOR,
                    queue_msix_vector: VIRTIO_MSI_NO_VECTOR,
                    ..self
                }
            } else {
                PciBlkDevice { device_status: data[0], ..self }
            }
        } else if offset == VIRTIO_PCI_MSIX_CONFIG_VECTOR && data.len() >= 2 {
            PciBlkDevice { msix_config_vector: le16_at(data, 0), ..self }
        } else if offset == VIRTIO_PCI_MSIX_QUEUE_VECTOR && data.len() >= 2 && self.queue_select
            == 0 {
            PciBlkDevice { queue_msix_vector: le16_at(data, 0), ..self }
        } else {
            self
        }
    }

    /// Whether a write to the register BAR notifies the request queue of a
    /// device whose driver is ready.
    pub open spec fn notifies(self, offset: u16, data: Seq<u8>) -> bool {
        &&& offset == VIRTIO_PCI_QUEUE_NOTIFY
        &&& data.len() >= 2
        &&& le16_at(data, 0) == 0
        &&& self.device_status / 4 % 2 == 1
        &&& self.queue_pfn != 0
    }

    /// Writes to the register BAR. Returns whether the request queue is to be
    /// processed.
    pub fn write_register(&mut self, offset: u16, data: &[u8]) -> (notify: bool)
        ensures
            *final(self) == old(self).register_written(offset, data@),
            notify == old(self).notifies(offset, data@),
    {
        match offset {
            VIRTIO_PCI_GUEST_FEATURES => {
                if data.len() >= 4 {
                    self.guest_features = get_le32(data, 0);
                }
            },
            VIRTIO_PCI_QUEUE_PFN => {
                if data.len() >= 4 && self.queue_select == 0 {
                    let pfn: u32 = get_le32(data, 0);
                    self.queue_pfn = pfn;
                    if pfn == 0 {
                        self.last_avail_idx = 0;
                    }
                }
            },
            VIRTIO_PCI_QUEUE_SEL => {
                if data.len() >= 2 {
                    self.queue_select = get_le16(data, 0);
                }
            },
            VIRTIO_PCI_QUEUE_NOTIFY => {
                if data.len() >= 2 {
                    return get_le16(data, 0) == 0 && self.device_status / 4 % 2 == 1
                        && self.queue_pfn != 0;
                }
            },
            VIRTIO_PCI_STATUS => {
                if data.len() > 0 {
                    if data[0] == 0 {
                        self.device_status = 0;
                        self.guest_features = 0;
                        self.queue_pfn = 0;
                        self.queue_select = 0;
                        self.last_avail_idx = 0;
                        self.isr_status = 0;
                        self.msix_config_vector = VIRTIO_MSI_NO_VECTOR;
                        self.queue_msix_vector = VIRTIO_MSI_NO_VECTOR;
                    } else {
                        self.device_status = data[0];
                    }
                }
            },
            VIRTIO_PCI_MSIX_CONFIG_VECTOR => {
                if data.len() >= 2 {
                    self.msix_config_vector = get_le16(data, 0);
                }
            },
            VIRTIO_PCI_MSIX_QUEUE_VECTOR => {
                if data.len() >= 2 && self.queue_select == 0 {
                    self.queue_msix_vector = get_le16(data, 0);
                }
            },
            _ => {},
        }
        false
    }

    // ─── Interrupts ──────────────────────────────────────────────────────────

    /// The interrupt that the request queue raises: none without MSI-X, with
    /// all vectors masked, without a vector of the table, or where the table
    /// masks the entry or gives it no vector.
    pub open spec fn queue_interrupt(self, table: Seq<u8>) -> Option<Interrupt> {
        let at = self.queue_msix_vector * 16;
        let addr = le32_at(table, at);
        let data = le32_at(table, at + 8);
        let control = le32_at(table, at + 12);
        if self.message_control() < 0x8000 || self.message_control() / 0x4000 % 2 == 1
            || self.queue_msix_vector >= MSIX_TABLE_ENTRIES || control % 2 == 1 || data % 256 == 0 {
            None
        } else {
            Some(
                Interrupt { vector: (data % 256) as u8, destination: (addr / 0x1000 % 256) as u32 },
            )
        }
    }

    /// The interrupt to inject for the request queue, by the MSI-X table.
    pub fn inject_interrupt(&self, table: &[u8]) -> (r: Option<Interrupt>)
        requires
            table@.len() >= 32,
        ensures
            r == self.queue_interrupt(table@),
    {
        if !self.msix_enabled() || self.msix_function_masked() {
            return None;
        }
        let index: u16 = self.queue_msix_vector;
        if index == VIRTIO_MSI_NO_VECTOR || index >= MSIX_TABLE_ENTRIES {
            return None;
        }
        let at: usize = index as usize * 16;
        let addr: u32 = get_le32(table, at);
        let data: u32 = get_le32(table, at + 8);
        let control: u32 = get_le32(table, at + 12);
        if control % 2 != 0 {
            return None;
        }
        let vector: u8 = (data % 256) as u8;
        if vector == 0 {
            return None;
        }
        Some(Interrupt { vector, destination: addr / 0x1000 % 256 })
    }
}

/// An interrupt for a virtual processor.
#[derive(Debug, Clone, Copy, PartialEq, Eq, Structural)]
pub struct Interrupt {
    /// Interrupt vector
    pub vector: u8,
    /// Destination APIC
    pub destination: u32,
}

// ─── Laws ────────────────────────────────────────────────────────────────────

/// Sizing a BAR: all ones written to it read back as the size mask, with the
/// I/O bit for BAR 0; an address written then reads back aligned to the size
/// for BAR 0, and BAR 1 stays where it is.
pub proof fn bars_can_be_sized(
    dev: PciBlkDevice,
    sized: PciBlkDevice,
    placed: PciBlkDevice,
    addr: u32,
    bar: int,
)
    requires
        bar == 4 || bar == 5,
        dev.config_written(sized, bar, 0, le32(0xFFFF_FFFF)),
        sized.config_written(placed, bar, 0, le32(addr)),
        addr < 0xFFFF_FFF0,
    ensures
        bar == 4 ==> sized.config_value(4) == 0xFFFF_FFFFu32 - VIRTIO_BLK_IO_BAR_SIZE + 2,
        bar == 5 ==> sized.config_value(5) == 0x1_0000_0000 - MSIX_BAR_SIZE,
        bar == 4 ==> placed.config_value(4) == addr - addr % 64 + 1 && placed.io_bar_base == addr
            - addr % 64,
        bar == 5 ==> placed.config_value(5) == MSIX_BAR_GPA && placed.msix_bar_base
            == dev.msix_bar_base,
{
    let ones = le32(0xFFFF_FFFF);
    let c = dev.config@;
    let at = bar * 4;
    crate::bytes::le_bytes_round_trip(0, 0xFFFF_FFFF, 0);
    crate::bytes::le_bytes_round_trip(0, addr, 0);
    let m = masked_store(c, at, ones, at, at + 4);
    assert(m[at] == ones[0] && m[at + 1] == ones[1] && m[at + 2] == ones[2] && m[at + 3]
        == ones[3]);
    assert(bar_written(c, at, 0, ones) == 0xFFFF_FFFF);
    let c2 = sized.config@;
    let b = le32(addr);
    let m2 = masked_store(c2, at, b, at, at + 4);
    assert(m2[at] == b[0] && m2[at + 1] == b[1] && m2[at + 2] == b[2] && m2[at + 3] == b[3]);
    assert(bar_written(c2, at, 0, b) == addr);
    let want = if bar == 4 {
        (addr - addr % 64 + 1) as u32
    } else {
        MSIX_BAR_GPA as u32
    };
    crate::bytes::le_bytes_round_trip(0, want, 0);
    let w = le32(want);
    let c3 = placed.config@;
    assert(c3[at] == w[0] && c3[at + 1] == w[1] && c3[at + 2] == w[2] && c3[at + 3] == w[3]);
}

/// A write of status zero resets the device and keeps its configuration space,
/// its BARs and its capacity.
pub proof fn status_zero_resets(dev: PciBlkDevice, data: Seq<u8>)
    requires
        data.len() > 0,
        data[0] == 0,
    ensures
        dev.register_written(VIRTIO_PCI_STATUS, data).is_reset(),
        dev.register_written(VIRTIO_PCI_STATUS, data).config == dev.config,
        dev.register_written(VIRTIO_PCI_STATUS, data).io_bar_base == dev.io_bar_base,
        dev.register_written(VIRTIO_PCI_STATUS, data).capacity == dev.capacity,
{
}

/// The configuration space of the host bridge, byte by byte: vendor 0x8086,
/// device 0x1237, class 6; all other bytes are zero.
pub proof fn host_bridge_is_laid_out(i: int)
    requires
        0 <= i < 256,
    ensures
        host_bridge().len() == 256,
        le_value(host_bridge().subrange(0, 2)) == 0x8086,
        le_value(host_bridge().subrange(2, 4)) == 0x1237,
        host_bridge()[0x0B] == 6,
        4 <= i && i != 0x0B ==> host_bridge()[i] == 0,
{
    little_endian_numbers(host_bridge(), 0);
    little_endian_numbers(host_bridge(), 2);
}

/// The configuration space of a new block device, field by field: vendor 0x1AF4,
/// device 0x1001, I/O, memory and bus mastering enabled, a capability list, mass
/// storage, the register BAR at port 0xC000, the MSI-X table BAR at 0xFEA00000,
/// subsystem 2 of the vendor, the capability at 0x40 and interrupt pin A; the
/// capability is MSI-X with two entries, its table at the start of BAR 1 and its
/// pending bits 0x800 behind it. All other bytes are zero.
pub proof fn block_devices_start_as_laid_out(i: int)
    requires
        0 <= i < 256,
    ensures
        ({
            let c = initial_config();
            &&& c.len() == 256
            &&& le_value(c.subrange(0x00, 0x02)) == 0x1AF4
            &&& le_value(c.subrange(0x02, 0x04)) == 0x1001
            &&& le_value(c.subrange(0x04, 0x06)) == 0x0007
            &&& le_value(c.subrange(0x06, 0x08)) == 0x0010
            &&& c[0x0B] == 1
            &&& le_value(c.subrange(0x10, 0x14)) == 0xC001
            &&& le_value(c.subrange(0x14, 0x18)) == 0xFEA0_0000
            &&& le_value(c.subrange(0x2C, 0x2E)) == 0x1AF4
            &&& le_value(c.subrange(0x2E, 0x30)) == 2
            &&& c[0x34] == 0x40
            &&& c[0x3D] == 1
            &&& c[0x40] == 0x11 && c[0x41] == 0
            &&& le_value(c.subrange(0x42, 0x44)) == 1
            &&& le_value(c.subrange(0x44, 0x48)) == 1
            &&& le_value(c.subrange(0x48, 0x4C)) == 0x801
            &&& 8 <= i && i != 0x0B && !(0x10 <= i < 0x18) && !(0x2C <= i < 0x30) && i != 0x34 && i
                != 0x3D && !(0x40 <= i < 0x4C) ==> c[i] == 0
        }),
{
    let c = initial_config();
    little_endian_numbers(c, 0x00);
    little_endian_numbers(c, 0x02);
    little_endian_numbers(c, 0x04);
    little_endian_numbers(c, 0x06);
    little_endian_numbers(c, 0x10);
    little_endian_numbers(c, 0x14);
    little_endian_numbers(c, 0x2C);
    little_endian_numbers(c, 0x2E);
    little_endian_numbers(c, 0x42);
    little_endian_numbers(c, 0x44);
    little_endian_numbers(c, 0x48);
}

/// The registers of the device, by their offsets and widths in little-endian order:
/// host features at 0 and guest features at 4, the queue's page at 8, the size of the
/// selected queue at 12, which is 128 for queue zero and zero for any other, the
/// selected queue at 14, the status at 18 and the interrupt status at 19, and the MSI-X
/// vectors for configuration changes at 20 and of the selected queue at 22. A buffer
/// that has no room for a register stays as it is, and one that has more keeps the rest.
/// From 24 on lies the capacity in eight bytes; all else reads as zeros.
pub proof fn registers_have_their_offsets(dev: PciBlkDevice, offset: u16, data: Seq<u8>, i: int)
    requires
        0 <= i < data.len(),
    ensures
        ({
            let read = dev.io_read_data(offset, data);
            let four = le_value(read.subrange(0, 4));
            let two = le_value(read.subrange(0, 2));
            let width: int = if offset == 0 || offset == 4 || offset == 8 {
                4
            } else if offset == 12 || offset == 14 || offset == 20 || offset == 22 {
                2
            } else if offset == 18 || offset == 19 {
                1
            } else {
                0
            };
            &&& read.len() == data.len()
            &&& width > 0 && data.len() < width ==> read == data
            &&& width > 0 && i >= width ==> read[i] == data[i]
            &&& data.len() >= 4 ==> {
                &&& offset == 0 ==> four == dev.device_features
                &&& offset == 4 ==> four == dev.guest_features
                &&& offset == 8 ==> four == dev.queue_pfn
            }
            &&& data.len() >= 2 ==> {
                &&& offset == 12 ==> two == if dev.queue_select == 0 { 128int } else { 0 }
                &&& offset == 14 ==> two == dev.queue_select
                &&& offset == 20 ==> two == dev.msix_config_vector
                &&& offset == 22 ==> two == if dev.queue_select == 0 {
                    dev.queue_msix_vector as int
                } else {
                    0xFFFF
                }
            }
            &&& offset == 18 ==> read[0] == dev.device_status
            &&& offset == 19 ==> read[0] == dev.isr_status
            &&& 24 <= offset && offset + i < 32 ==> read[i] == le64(dev.capacity)[offset - 24 + i]
            &&& 24 <= offset && offset + i >= 32 ==> read[i] == 0
            &&& offset < 24 && width == 0 ==> read[i] == 0
        }),
{
    let read = dev.io_read_data(offset, data);
    bytes_stand_for_their_number(dev.queue_select, dev.device_features, 0);
    bytes_stand_for_their_number(dev.msix_config_vector, dev.guest_features, 0);
    bytes_stand_for_their_number(dev.queue_msix_vector, dev.queue_pfn, 0);
    bytes_stand_for_their_number(128, 0, 0);
    bytes_stand_for_their_number(0, 0, 0);
    bytes_stand_for_their_number(0xFFFF, 0, 0);
    if (offset == 0 || offset == 4 || offset == 8) && data.len() >= 4 {
        assert(read.subrange(0, 4) =~= dev.register(offset)->Some_0);
    } else if (offset == 12 || offset == 14 || offset == 20 || offset == 22) && data.len() >= 2 {
        assert(read.subrange(0, 2) =~= dev.register(offset)->Some_0);
    }
}

/// What a write to a register changes, by its offset and in little-endian order:
/// the guest features at 4, the page of queue zero at 8, where page zero also
/// starts its ring over, the selected queue at 14, the status at 18, and the MSI-X
/// vectors at 20 and, for queue zero, at 22. A write to another queue's registers,
/// to a register that is read only, or one too short for its register changes
/// nothing.
pub proof fn writes_change_their_register(dev: PciBlkDevice, offset: u16, data: Seq<u8>)
    requires
        data.len() > 0,
    ensures
        ({
            let after = dev.register_written(offset, data);
            let four = le_value(data.subrange(0, 4));
            let two = le_value(data.subrange(0, 2));
            &&& offset == 4 && data.len() >= 4 ==> after.guest_features == four && after == (
            PciBlkDevice { guest_features: after.guest_features, ..dev })
            &&& offset == 8 && data.len() >= 4 && dev.queue_select == 0 ==> {
                &&& after.queue_pfn == four
                &&& after.last_avail_idx == if four == 0 { 0 } else { dev.last_avail_idx }
                &&& after == (PciBlkDevice {
                    queue_pfn: after.queue_pfn,
                    last_avail_idx: after.last_avail_idx,
                    ..dev
                })
            }
            &&& offset == 14 && data.len() >= 2 ==> after.queue_select == two && after == (
            PciBlkDevice { queue_select: after.queue_select, ..dev })
            &&& offset == 18 && data[0] != 0 ==> after.device_status == data[0] && after == (
            PciBlkDevice { device_status: after.device_status, ..dev })
            &&& offset == 18 && data[0] == 0 ==> after.device_status == 0 && after.is_reset()
            &&& offset == 20 && data.len() >= 2 ==> after.msix_config_vector == two && after == (
            PciBlkDevice { msix_config_vector: after.msix_config_vector, ..dev })
            &&& offset == 22 && data.len() >= 2 && dev.queue_select == 0 ==> {
                &&& after.queue_msix_vector == two
                &&& after == (PciBlkDevice { queue_msix_vector: after.queue_msix_vector, ..dev })
            }
            &&& (offset == 8 || offset == 22) && dev.queue_select != 0 ==> after == dev
            &&& (offset == 4 || offset == 8) && data.len() < 4 ==> after == dev
            &&& (offset == 14 || offset == 20 || offset == 22) && data.len() < 2 ==> after == dev
            &&& offset != 4 && offset != 8 && offset != 14 && offset != 18 && offset != 20 && offset
                != 22 ==> after == dev
        }),
{
    little_endian_numbers(data, 0);
}

/// A device that was reset has no queue, no vectors, no features and no status,
/// and its ring starts at zero.
pub proof fn reset_devices_have_no_queue(dev: PciBlkDevice)
    ensures
        dev.is_reset() <==> {
            &&& dev.guest_features == 0 && dev.device_status == 0 && dev.isr_status == 0
            &&& dev.queue_select == 0 && dev.queue_pfn == 0 && dev.last_avail_idx == 0
            &&& dev.msix_config_vector == 0xFFFF && dev.queue_msix_vector == 0xFFFF
        },
{
}

/// A write notifies the request queue exactly where it writes queue zero to
/// offset 16, to a device whose driver has set the driver bit, bit 2, in the
/// status and named a page for the queue.
pub proof fn queue_zero_is_notified(dev: PciBlkDevice, offset: u16, data: Seq<u8>)
    ensures
        dev.notifies(offset, data) <==> offset == 16 && data.len() >= 2 && data[0] == 0 && data[1]
            == 0 && dev.device_status / 4 % 2 == 1 && dev.queue_pfn != 0,
{
    little_endian_numbers(data, 0);
}

/// The interrupt of the request queue, by the bytes of the MSI-X table, of which
/// each entry has 16: the message address in the first four, the message data in
/// the four from 8 on, and the mask in bit 0 of byte 12. Bit 15 of the message
/// control enables MSI-X, and bit 14 masks all of it. The vector is the low byte of
/// the data, and the destination bits 12 to 19 of the address.
pub proof fn interrupts_follow_the_table(dev: PciBlkDevice, table: Seq<u8>)
    requires
        table.len() >= 32,
    ensures
        ({
            let control = le_value(dev.config@.subrange(0x42, 0x44));
            let at = 16 * dev.queue_msix_vector as int;
            let masked = control < 0x8000 || control / 0x4000 % 2 == 1 || dev.queue_msix_vector
                > 1 || table[at + 12] % 2 == 1 || table[at + 8] == 0;
            match dev.queue_interrupt(table) {
                Some(i) => {
                    &&& !masked
                    &&& i.vector == table[at + 8]
                    &&& i.destination == le_value(table.subrange(at, at + 4)) / 0x1000 % 256
                },
                None => masked,
            }
        }),
{
    little_endian_numbers(dev.config@, 0x42);
    if dev.queue_msix_vector <= 1 {
        let at = 16 * dev.queue_msix_vector as int;
        little_endian_numbers(table, at);
        little_endian_numbers(table, at + 8);
        little_endian_numbers(table, at + 12);
        assert(le32_at(table, at + 8) % 256 == table[at + 8]);
        assert(le32_at(table, at + 12) % 2 == table[at + 12] % 2);
    }
}

/// The four bytes of a register after a write of some of them.
pub open spec fn register_bytes(c: Seq<u8>, at: int, off: int, data: Seq<u8>) -> Seq<u8> {
    Seq::new(
        4,
        |i: int|
            if off <= i < off + data.len() {
                data[i - off]
            } else {
                c[at + i]
            },
    )
}

/// The value that a write of some bytes of a BAR makes of it, and that a BAR holds once
/// it is stored.
proof fn bar_values(c: Seq<u8>, at: int, off: u64, data: Seq<u8>, stored: u32)
    requires
        c.len() == 256,
        0 <= at,
        at + 4 <= 256,
        off < 4,
    ensures
        bar_written(c, at, off, data) == le_value(register_bytes(c, at, off as int, data)),
        store(c, at, le32(stored)).len() == 256,
        le_value(store(c, at, le32(stored)).subrange(at, at + 4)) == stored,
{
    let m = masked_store(c, at + off, data, at, at + 4);
    little_endian_numbers(m, at);
    assert(m.subrange(at, at + 4) =~= register_bytes(c, at, off as int, data));
    assert(store(c, at, le32(stored)).subrange(at, at + 4) =~= le32(stored));
    bytes_stand_for_their_number(0, stored, 0);
}

/// What a write to BAR 0 does, whichever of its bytes it writes: all ones, but for the
/// lowest two bits, have it sized; any other value moves it there, on a boundary of 64,
/// with the bit for I/O space set. No other byte of the configuration space changes,
/// and nothing else of the device.
pub proof fn register_bar_writes_move_or_size_it(
    dev: PciBlkDevice,
    after: PciBlkDevice,
    off: u64,
    data: Seq<u8>,
    i: int,
)
    requires
        off < 4,
        dev.config_written(after, 4, off, data),
        0 <= i < 256,
    ensures
        ({
            let value = le_value(register_bytes(dev.config@, 0x10, off as int, data));
            let held = le_value(after.config@.subrange(0x10, 0x14));
            &&& !(0x10 <= i < 0x14) ==> after.config@[i] == dev.config@[i]
            &&& value >= 0xFFFF_FFFC ==> after.io_bar_sizing && held == value
                && after.io_bar_base == dev.io_bar_base
            &&& value < 0xFFFF_FFFC ==> {
                &&& !after.io_bar_sizing
                &&& after.io_bar_base % 64 == 0
                &&& after.io_bar_base <= value < after.io_bar_base + 64
                &&& held == after.io_bar_base + 1
            }
            &&& after == (PciBlkDevice {
                config: after.config,
                io_bar_base: after.io_bar_base,
                io_bar_sizing: after.io_bar_sizing,
                ..dev
            })
        }),
{
    let c = dev.config@;
    let bar = bar_written(c, 0x10, off, data);
    let stored: u32 = if bar >= 0xFFFF_FFFC {
        bar
    } else {
        (bar - bar % 64 + 1) as u32
    };
    bar_values(c, 0x10, off, data, stored);
    assert(after.config@ == store(c, 0x10, le32(stored)));
    if bar < 0xFFFF_FFFC {
        aligned_bars(bar);
        assert(after.io_bar_base == bar - bar % 64);
        assert(stored == after.io_bar_base + 1);
    }
}

/// A BAR on a boundary of 64.
proof fn aligned_bars(bar: u32)
    ensures
        (bar - bar % 64) % 64 == 0,
        bar - bar % 64 <= bar < bar - bar % 64 + 64,
{
}

/// What a write to BAR 1 does, whichever of its bytes it writes: all ones, but for the
/// lowest four bits, have it sized; any other value leaves it at 0xFEA00000. No other
/// byte of the configuration space changes, and nothing else of the device.
pub proof fn table_bar_writes_size_it(
    dev: PciBlkDevice,
    after: PciBlkDevice,
    off: u64,
    data: Seq<u8>,
    i: int,
)
    requires
        off < 4,
        dev.config_written(after, 5, off, data),
        0 <= i < 256,
    ensures
        ({
            let value = le_value(register_bytes(dev.config@, 0x14, off as int, data));
            let held = le_value(after.config@.subrange(0x14, 0x18));
            &&& !(0x14 <= i < 0x18) ==> after.config@[i] == dev.config@[i]
            &&& value >= 0xFFFF_FFF0 ==> after.msix_bar_sizing && held == value
            &&& value < 0xFFFF_FFF0 ==> !after.msix_bar_sizing && held == 0xFEA0_0000
            &&& after == (PciBlkDevice {
                config: after.config,
                msix_bar_sizing: after.msix_bar_sizing,
                ..dev
            })
        }),
{
    let c = dev.config@;
    let bar = bar_written(c, 0x14, off, data);
    let stored: u32 = if bar >= 0xFFFF_FFF0 {
        bar
    } else {
        0xFEA0_0000
    };
    bar_values(c, 0x14, off, data, stored);
    assert(after.config@ == store(c, 0x14, le32(stored)));
}

/// A write to the MSI-X capability that starts in its message control changes the
/// bytes of that which it covers, and no others.
pub proof fn message_control_is_written_alone(
    dev: PciBlkDevice,
    after: PciBlkDevice,
    off: u64,
    data: Seq<u8>,
    i: int,
)
    requires
        off == 2 || off == 3,
        dev.config_written(after, 16, off, data),
        0 <= i < 256,
    ensures
        after.config@[i] == if 0x40 + off <= i < 0x40 + off + data.len() && i < 0x44 {
            data[i - 0x40 - off]
        } else {
            dev.config@[i]
        },
        after.message_control() == after.config@[0x42] + 256 * after.config@[0x43],
{
}

} // verus!

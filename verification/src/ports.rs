//! Dispatch of port and memory-mapped I/O to the devices of the machine.
use vstd::prelude::*;

use crate::blk::config::{
    host_bridge, host_bridge_config, masked_store, Interrupt, PciBlkDevice, VIRTIO_BLK_IO_BAR_SIZE,
    VIRTIO_PCI_ISR, VIRTIO_PCI_STATUS,
};
use crate::blk::queue::{avail_ring, pending, slots_done};
use crate::blk::ram::u16_or;
use crate::bytes::{get_le32, le32, le32_at, push_le32};
use crate::disk::DiskOps;

verus! {

/// Port by which a guest asks for shutdown.
pub const DEBUG_EXIT_PORT: u64 = 0x501;

/// PCI slot of the host bridge.
pub const PCI_HOST_BRIDGE_SLOT: u32 = 0;

/// PCI slot of the block device.
pub const PCI_BLK_SLOT: u32 = 1;

// ─── Timer ───────────────────────────────────────────────────────────────────

/// The ticks of a 1.193 MHz timer in a number of microseconds.
pub open spec fn pit_ticks(elapsed_us: u64) -> int {
    elapsed_us * 1193 / 1000
}

/// The value of a counter that runs down from `reload` and starts over.
pub open spec fn pit_counter(elapsed_us: u64, reload: u16) -> int {
    if reload > 0 {
        reload - pit_ticks(elapsed_us) % (reload + 1)
    } else {
        0
    }
}

/// Whether the output of the timer is high: in every other cycle.
pub open spec fn pit_output(elapsed_us: u64, reload: u16) -> bool {
    reload > 0 && pit_ticks(elapsed_us) / (reload + 1) % 2 == 1
}

/// The counter stays between zero and its reload value.
pub proof fn pit_counter_in_range(elapsed_us: u64, reload: u16)
    ensures
        0 <= pit_counter(elapsed_us, reload) <= reload,
{
    if reload > 0 {
        vstd::arithmetic::div_mod::lemma_mod_bound(pit_ticks(elapsed_us), reload + 1);
    }
}

/// The low byte of the counter.
pub fn read_pit_counter(elapsed_us: u64, reload: u16) -> (b: u8)
    requires
        elapsed_us * 1193 <= u64::MAX,
    ensures
        b == pit_counter(elapsed_us, reload) % 256,
{
    proof {
        pit_counter_in_range(elapsed_us, reload);
    }
    if reload > 0 {
        let ticks: u64 = elapsed_us * 1193 / 1000;
        let counter: u64 = reload as u64 - ticks % (reload as u64 + 1);
        (counter % 256) as u8
    } else {
        0
    }
}

/// The NMI status register: `value` with the output of the timer in bit 5.
pub open spec fn port61_value(value: u8, elapsed_us: u64, reload: u16) -> int {
    let rest = value - value / 32 % 2 * 32;
    if pit_output(elapsed_us, reload) {
        rest + 32
    } else {
        rest
    }
}

/// Reads the NMI status register.
pub fn read_port61(value: u8, elapsed_us: u64, reload: u16) -> (b: u8)
    requires
        elapsed_us * 1193 <= u64::MAX,
    ensures
        b == port61_value(value, elapsed_us, reload),
{
    let cycles: u64 = if reload > 0 {
        elapsed_us * 1193 / 1000 / (reload as u64 + 1)
    } else {
        0
    };
    let rest: u8 = value - value / 32 % 2 * 32;
    if cycles % 2 == 0 {
        rest
    } else {
        rest + 32
    }
}

// ─── PCI configuration ───────────────────────────────────────────────────────

/// A number with those of its bytes replaced that `data`, put at byte `off`,
/// covers.
pub open spec fn merged(value: u32, off: int, data: Seq<u8>) -> u32 {
    le32_at(masked_store(le32(value), off, data, 0, 4), 0)
}

/// Replaces bytes of a number.
pub fn merge_le32(value: u32, off: usize, data: &[u8]) -> (r: u32)
    requires
        off <= 4,
    ensures
        r == merged(value, off as int, data@),
{
    let mut b: Vec<u8> = Vec::new();
    push_le32(&mut b, value);
    assert(b@ =~= le32(value));
    let mut i: usize = 0;
    while i < data.len() && i < 4
        invariant
            i <= data@.len(),
            i <= 4,
            off <= 4,
            b@.len() == 4,
            forall|p: int|
                0 <= p < 4 ==> #[trigger] b@[p] == if off <= p < off + i {
                    data@[p - off]
                } else {
                    le32(value)[p]
                },
        decreases data@.len() - i,
    {
        if off + i < 4 {
            b.set(off + i, data[i]);
        }
        i += 1;
    }
    assert(b@ =~= masked_store(le32(value), off as int, data@, 0, 4));
    get_le32(b.as_slice(), 0)
}

/// A buffer with the bytes of a number from byte `off` on.
pub open spec fn spread(value: u32, off: int, data: Seq<u8>) -> Seq<u8> {
    Seq::new(
        data.len(),
        |i: int|
            if off + i < 4 {
                le32(value)[off + i]
            } else {
                data[i]
            },
    )
}

/// Puts the bytes of a number from byte `off` on into a buffer.
pub fn spread_le32(value: u32, off: usize, data: &mut [u8])
    requires
        off <= 4,
    ensures
        final(data)@ == spread(value, off as int, old(data)@),
{
    let ghost before = data@;
    let mut b: Vec<u8> = Vec::new();
    push_le32(&mut b, value);
    assert(b@ =~= le32(value));
    let n: usize = data.len();
    let mut i: usize = 0;
    while i < n && i < 4
        invariant
            i <= n == data@.len() == before.len(),
            i <= 4,
            off <= 4,
            b@ == le32(value),
            b@.len() == 4,
            forall|k: int|
                0 <= k < n ==> #[trigger] data@[k] == if k < i && off + k < 4 {
                    le32(value)[off + k]
                } else {
                    before[k]
                },
        decreases n - i,
    {
        if off + i < 4 {
            data[i] = b[off + i];
        }
        i += 1;
    }
    assert(data@ =~= spread(value, off as int, before));
}

/// `n` bytes of `x`.
pub open spec fn filled(x: u8, n: nat) -> Seq<u8> {
    Seq::new(n, |i: int| x)
}

/// Sets all bytes of a buffer.
pub fn fill(data: &mut [u8], x: u8)
    ensures
        final(data)@ == filled(x, old(data)@.len()),
{
    let n: usize = data.len();
    let mut i: usize = 0;
    while i < n
        invariant
            i <= n == data@.len(),
            forall|k: int| 0 <= k < i ==> data@[k] == x,
        decreases n - i,
    {
        data[i] = x;
        i += 1;
    }
    assert(data@ =~= filled(x, n as nat));
}

/// The fields of a PCI configuration address.
pub open spec fn address_enabled(addr: u32) -> bool {
    addr >= 0x8000_0000
}

pub open spec fn address_bus(addr: u32) -> int {
    addr as int / 0x1_0000 % 256
}

pub open spec fn address_device(addr: u32) -> int {
    addr as int / 0x800 % 32
}

pub open spec fn address_function(addr: u32) -> int {
    addr as int / 0x100 % 8
}

pub open spec fn address_register(addr: u32) -> int {
    addr as int / 4 % 64
}

// ─── Dispatch ────────────────────────────────────────────────────────────────

/// What is left to do for a port access.
#[derive(Debug, Clone, Copy, PartialEq, Eq, Structural)]
pub enum PioAction {
    /// Nothing.
    Done,
    /// The access is one to the serial device, at this offset.
    Serial(u64),
    /// An interrupt is to be injected.
    Inject(Interrupt),
}

/// What is left to do for a memory-mapped access.
#[derive(Debug, Clone, Copy, PartialEq, Eq, Structural)]
pub enum MmioAction {
    /// Nothing.
    Done,
    /// The access is one to the I/O APIC, at this offset.
    Ioapic(u64),
}

/// The guest asked for shutdown.
#[derive(Debug, Clone, Copy, PartialEq, Eq, Structural)]
pub struct ShutdownRequested;

/// The devices behind the ports of the machine.
#[derive(Debug, Clone)]
pub struct SerialVmOps {
    /// Reload value of the timer's counter 2
    pub pit_reload: u16,
    /// NMI status and control register
    pub port61: u8,
    /// Interrupt mask of the master interrupt controller
    pub pic_master_imr: u8,
    /// Interrupt mask of the slave interrupt controller
    pub pic_slave_imr: u8,
    /// Whether there is an I/O APIC
    pub has_ioapic: bool,
    /// PCI configuration address
    pub pci_config_address: u32,
    /// Block device
    pub pci_blk: Option<PciBlkDevice>,
    /// Configuration space of the host bridge
    pub host_bridge_config: [u8; 256],
}

impl SerialVmOps {
    /// The devices after power-on.
    pub fn new(has_ioapic: bool, pci_blk: Option<PciBlkDevice>) -> (ops: Self)
        ensures
            ops.pit_reload == 0xFFFF,
            ops.port61 == 0,
            ops.pic_master_imr == 0xFF,
            ops.pic_slave_imr == 0xFF,
            ops.has_ioapic == has_ioapic,
            ops.pci_config_address == 0,
            ops.pci_blk == pci_blk,
            ops.host_bridge_config@ == host_bridge(),
    {
        SerialVmOps {
            pit_reload: 0xFFFF,
            port61: 0,
            pic_master_imr: 0xFF,
            pic_slave_imr: 0xFF,
            has_ioapic,
            pci_config_address: 0,
            pci_blk,
            host_bridge_config: host_bridge_config(),
        }
    }

    /// The register of the block device that a port is, where it lies in the
    /// register BAR.
    pub open spec fn blk_register(self, port: u64) -> Option<u16> {
        match self.pci_blk {
            Some(blk) => if blk.io_bar_base <= port < blk.io_bar_base + VIRTIO_BLK_IO_BAR_SIZE {
                Some((port - blk.io_bar_base) as u16)
            } else {
                None
            },
            None => None,
        }
    }

    /// The value of the PCI configuration register that the configuration
    /// address selects: all ones where there is no device.
    pub open spec fn selected_register(self) -> u32 {
        let addr = self.pci_config_address;
        let reg = address_register(addr);
        if address_device(addr) == PCI_HOST_BRIDGE_SLOT {
            le32_at(self.host_bridge_config@, reg * 4)
        } else if address_device(addr) == PCI_BLK_SLOT {
            match self.pci_blk {
                Some(blk) => blk.config_value(reg),
                None => 0xFFFF_FFFF,
            }
        } else {
            0xFFFF_FFFF
        }
    }

    /// Whether a read of the port sets the first byte of the buffer, so that
    /// there must be one.
    pub open spec fn reads_byte(self, port: u64) -> bool {
        ||| port == 0x42
        ||| port == 0x61
        ||| port == 0x71
        ||| port == 0x20
        ||| port == 0x21
        ||| port == 0xA0
        ||| port == 0xA1
        ||| {
            &&& !(0x3F8 <= port <= 0x3FF)
            &&& !(0xCF8 <= port <= 0xCFF)
            &&& self.blk_register(port) matches Some(r) && (r == VIRTIO_PCI_STATUS || r
                == VIRTIO_PCI_ISR)
        }
    }

    /// What a read of a port makes of the buffer.
    pub open spec fn port_data(self, port: u64, elapsed_us: u64, data: Seq<u8>) -> Seq<u8> {
        if 0x3F8 <= port <= 0x3FF {
            data
        } else if port == 0x42 {
            data.update(0, (pit_counter(elapsed_us, self.pit_reload) % 256) as u8)
        } else if port == 0x61 {
            data.update(0, port61_value(self.port61, elapsed_us, self.pit_reload) as u8)
        } else if port == 0x71 || port == 0x20 || port == 0xA0 {
            data.update(0, 0)
        } else if port == 0x21 {
            data.update(0, self.pic_master_imr)
        } else if port == 0xA1 {
            data.update(0, self.pic_slave_imr)
        } else if 0xCF8 <= port <= 0xCFB {
            spread(self.pci_config_address, port - 0xCF8, data)
        } else if 0xCFC <= port <= 0xCFF {
            if !address_enabled(self.pci_config_address) || address_bus(self.pci_config_address)
                != 0 || address_function(self.pci_config_address) != 0 {
                filled(0xFF, data.len())
            } else {
                spread(self.selected_register(), port - 0xCFC, data)
            }
        } else {
            match self.blk_register(port) {
                Some(r) => self.pci_blk->Some_0.io_read_data(r, data),
                None => filled(0xFF, data.len()),
            }
        }
    }

    /// The devices after a read of a port: a read of the block device's
    /// interrupt status clears it.
    pub open spec fn after_port_read(self, port: u64) -> SerialVmOps {
        if 0x3F8 <= port <= 0x3FF || port == 0x42 || port == 0x61 || port == 0x71 || port == 0x20
            || port == 0x21 || port == 0xA0 || port == 0xA1 || 0xCF8 <= port <= 0xCFF {
            self
        } else if self.blk_register(port) == Some(VIRTIO_PCI_ISR) {
            SerialVmOps {
                pci_blk: Some(PciBlkDevice { isr_status: 0, ..self.pci_blk->Some_0 }),
                ..self
            }
        } else {
            self
        }
    }

    /// Reads a port, `elapsed_us` microseconds after the timer was started.
    pub fn pio_read(&mut self, port: u64, elapsed_us: u64, data: &mut [u8]) -> (action: PioAction)
        requires
            elapsed_us * 1193 <= u64::MAX,
            old(self).reads_byte(port) ==> old(data)@.len() > 0,
        ensures
            action == if 0x3F8 <= port <= 0x3FF {
                PioAction::Serial((port - 0x3F8) as u64)
            } else {
                PioAction::Done
            },
            final(data)@ == old(self).port_data(port, elapsed_us, old(data)@),
            *final(self) == old(self).after_port_read(port),
    {
        proof {
            pit_counter_in_range(elapsed_us, self.pit_reload);
        }
        if 0x3F8 <= port && port <= 0x3FF {
            return PioAction::Serial(port - 0x3F8);
        }
        if port == 0x42 {
            data[0] = read_pit_counter(elapsed_us, self.pit_reload);
        } else if port == 0x61 {
            data[0] = read_port61(self.port61, elapsed_us, self.pit_reload);
        } else if port == 0x71 || port == 0x20 || port == 0xA0 {
            data[0] = 0;
        } else if port == 0x21 {
            data[0] = self.pic_master_imr;
        } else if port == 0xA1 {
            data[0] = self.pic_slave_imr;
        } else if 0xCF8 <= port && port <= 0xCFB {
            spread_le32(self.pci_config_address, (port - 0xCF8) as usize, data);
        } else if 0xCFC <= port && port <= 0xCFF {
            self.read_config_data((port - 0xCFC) as usize, data);
        } else {
            self.read_blk_register(port, data);
        }
        PioAction::Done
    }

    /// Reads the PCI configuration data at byte `off`.
    fn read_config_data(&self, off: usize, data: &mut [u8])
        requires
            off <= 3,
        ensures
            final(data)@ == self.port_data((0xCFC + off) as u64, 0, old(data)@),
    {
        let addr: u32 = self.pci_config_address;
        if addr < 0x8000_0000 || addr / 0x1_0000 % 256 != 0 || addr / 0x100 % 8 != 0 {
            fill(data, 0xFF);
            return;
        }
        let device: u32 = addr / 0x800 % 32;
        let reg: usize = (addr / 4 % 64) as usize;
        let value: u32 = if device == PCI_HOST_BRIDGE_SLOT {
            get_le32(self.host_bridge_config.as_slice(), reg * 4)
        } else if device == PCI_BLK_SLOT {
            match &self.pci_blk {
                Some(blk) => blk.read_config(reg),
                None => 0xFFFF_FFFF,
            }
        } else {
            0xFFFF_FFFF
        };
        assert(value == self.selected_register());
        spread_le32(value, off, data);
    }

    /// Reads a register of the block device, all ones where the port is none.
    fn read_blk_register(&mut self, port: u64, data: &mut [u8])
        requires
            old(self).blk_register(port) matches Some(r) ==> (r == VIRTIO_PCI_STATUS || r
                == VIRTIO_PCI_ISR ==> old(data)@.len() > 0),
        ensures
            final(data)@ == match old(self).blk_register(port) {
                Some(r) => old(self).pci_blk->Some_0.io_read_data(r, old(data)@),
                None => filled(0xFF, old(data)@.len()),
            },
            *final(self) == if old(self).blk_register(port) == Some(VIRTIO_PCI_ISR) {
                SerialVmOps {
                    pci_blk: Some(PciBlkDevice { isr_status: 0, ..old(self).pci_blk->Some_0 }),
                    ..*old(self)
                }
            } else {
                *old(self)
            },
    {
        let ghost before = *self;
        if let Some(blk) = &mut self.pci_blk {
            let base: u64 = blk.io_bar_base as u64;
            if port >= base && port < base + VIRTIO_BLK_IO_BAR_SIZE as u64 {
                blk.io_read((port - base) as u16, data);
                return;
            }
        }
        fill(data, 0xFF);
    }

    /// What a write to a port makes of the devices, of memory and of the disk,
    /// and what it ends with.
    pub open spec fn port_written<D: DiskOps>(
        self,
        after: SerialVmOps,
        port: u64,
        data: Seq<u8>,
        ram: Seq<u8>,
        ram_after: Seq<u8>,
        disk: D,
        disk_after: D,
        msix_table: Seq<u8>,
        r: Result<PioAction, ShutdownRequested>,
    ) -> bool {
        let quiet = ram_after == ram && disk_after == disk;
        let done = r == Ok::<PioAction, ShutdownRequested>(PioAction::Done);
        if 0x3F8 <= port <= 0x3FF {
            &&& quiet
            &&& after == self
            &&& r == Ok::<PioAction, ShutdownRequested>(PioAction::Serial((port - 0x3F8) as u64))
        } else if port == DEBUG_EXIT_PORT {
            quiet && after == self && r is Err
        } else if port == 0x42 && data.len() > 0 {
            quiet && done && after == (SerialVmOps { pit_reload: data[0] as u16, ..self })
        } else if port == 0x61 && data.len() > 0 {
            quiet && done && after == (SerialVmOps { port61: data[0], ..self })
        } else if port == 0x21 && data.len() > 0 {
            quiet && done && after == (SerialVmOps { pic_master_imr: data[0], ..self })
        } else if port == 0xA1 && data.len() > 0 {
            quiet && done && after == (SerialVmOps { pic_slave_imr: data[0], ..self })
        } else if 0xCF8 <= port <= 0xCFB {
            &&& quiet
            &&& done
            &&& after == (SerialVmOps {
                pci_config_address: merged(self.pci_config_address, port - 0xCF8, data),
                ..self
            })
        } else if 0xCFC <= port <= 0xCFF {
            quiet && done && self.config_data_written(after, (port - 0xCFC) as u64, data)
        } else {
            match self.blk_register(port) {
                Some(reg) => self.blk_register_written(
                    after,
                    reg,
                    data,
                    ram,
                    ram_after,
                    disk,
                    disk_after,
                    msix_table,
                    r,
                ),
                None => quiet && done && after == self,
            }
        }
    }

    /// What a write of PCI configuration data makes of the devices: the block
    /// device's configuration space can be written, and no other.
    pub open spec fn config_data_written(
        self,
        after: SerialVmOps,
        off: u64,
        data: Seq<u8>,
    ) -> bool {
        let addr = self.pci_config_address;
        if address_enabled(addr) && address_bus(addr) == 0 && address_function(addr) == 0
            && address_device(addr) == PCI_BLK_SLOT && self.pci_blk is Some {
            &&& after == (SerialVmOps { pci_blk: after.pci_blk, ..self })
            &&& after.pci_blk is Some
            &&& self.pci_blk->Some_0.config_written(
                after.pci_blk->Some_0,
                address_register(addr),
                off,
                data,
            )
        } else {
            after == self
        }
    }

    /// What a write to a register of the block device does: a notification
    /// processes its pending requests.
    pub open spec fn blk_register_written<D: DiskOps>(
        self,
        after: SerialVmOps,
        reg: u16,
        data: Seq<u8>,
        ram: Seq<u8>,
        ram_after: Seq<u8>,
        disk: D,
        disk_after: D,
        msix_table: Seq<u8>,
        r: Result<PioAction, ShutdownRequested>,
    ) -> bool {
        let blk = self.pci_blk->Some_0;
        if blk.notifies(reg, data) {
            let queue = blk.queue_addr();
            let avail = u16_or(ram, (avail_ring(queue) + 2) as u64, 0);
            let n = pending(blk.last_avail_idx, avail);
            &&& after == (SerialVmOps { pci_blk: Some(blk.after_requests(avail, n)), ..self })
            &&& slots_done(
                queue,
                blk.last_avail_idx,
                n,
                blk.capacity,
                ram,
                ram_after,
                disk,
                disk_after,
            )
            &&& r == Ok::<PioAction, ShutdownRequested>(
                match blk.queue_interrupt(msix_table) {
                    Some(i) => if n > 0 {
                        PioAction::Inject(i)
                    } else {
                        PioAction::Done
                    },
                    None => PioAction::Done,
                },
            )
        } else {
            &&& after == (SerialVmOps { pci_blk: Some(blk.register_written(reg, data)), ..self })
            &&& ram_after == ram
            &&& disk_after == disk
            &&& r == Ok::<PioAction, ShutdownRequested>(PioAction::Done)
        }
    }

    /// The capacity of the block device, in bytes, is one that a `u64` holds.
    pub open spec fn wf(self) -> bool {
        self.pci_blk matches Some(blk) ==> blk.capacity * 512 <= u64::MAX
    }

    /// Writes a port.
    pub fn pio_write<D: DiskOps>(
        &mut self,
        port: u64,
        data: &[u8],
        ram: &mut [u8],
        disk: &mut D,
        msix_table: &[u8],
    ) -> (r: Result<PioAction, ShutdownRequested>)
        requires
            old(self).wf(),
            msix_table@.len() >= 32,
        ensures
            final(self).wf(),
            final(ram)@.len() == old(ram)@.len(),
            old(self).port_written(
                *final(self),
                port,
                data@,
                old(ram)@,
                final(ram)@,
                *old(disk),
                *final(disk),
                msix_table@,
                r,
            ),
    {
        if 0x3F8 <= port && port <= 0x3FF {
            return Ok(PioAction::Serial(port - 0x3F8));
        }
        if port == DEBUG_EXIT_PORT {
            return Err(ShutdownRequested);
        }
        if port == 0x42 && data.len() > 0 {
            self.pit_reload = data[0] as u16;
        } else if port == 0x61 && data.len() > 0 {
            self.port61 = data[0];
        } else if port == 0x21 && data.len() > 0 {
            self.pic_master_imr = data[0];
        } else if port == 0xA1 && data.len() > 0 {
            self.pic_slave_imr = data[0];
        } else if 0xCF8 <= port && port <= 0xCFB {
            self.pci_config_address = merge_le32(
                self.pci_config_address,
                (port - 0xCF8) as usize,
                data,
            );
        } else if 0xCFC <= port && port <= 0xCFF {
            self.write_config_data(port - 0xCFC, data);
        } else {
            return Ok(self.write_blk_register(port, data, ram, disk, msix_table));
        }
        Ok(PioAction::Done)
    }

    /// Writes PCI configuration data at byte `off`.
    fn write_config_data(&mut self, off: u64, data: &[u8])
        requires
            old(self).wf(),
            off <= 3,
        ensures
            final(self).wf(),
            old(self).config_data_written(*final(self), off, data@),
    {
        let addr: u32 = self.pci_config_address;
        if addr < 0x8000_0000 {
            return;
        }
        if addr / 0x1_0000 % 256 == 0 && addr / 0x100 % 8 == 0 && addr / 0x800 % 32
            == PCI_BLK_SLOT {
            if let Some(blk) = &mut self.pci_blk {
                blk.write_config((addr / 4 % 64) as usize, off, data);
            }
        }
    }

    /// Writes a register of the block device, where the port is one.
    fn write_blk_register<D: DiskOps>(
        &mut self,
        port: u64,
        data: &[u8],
        ram: &mut [u8],
        disk: &mut D,
        msix_table: &[u8],
    ) -> (action: PioAction)
        requires
            old(self).wf(),
            msix_table@.len() >= 32,
        ensures
            final(self).wf(),
            final(ram)@.len() == old(ram)@.len(),
            match old(self).blk_register(port) {
                Some(reg) => old(self).blk_register_written(
                    *final(self),
                    reg,
                    data@,
                    old(ram)@,
                    final(ram)@,
                    *old(disk),
                    *final(disk),
                    msix_table@,
                    Ok(action),
                ),
                None => {
                    &&& final(ram)@ == old(ram)@
                    &&& *final(disk) == *old(disk)
                    &&& action == PioAction::Done
                    &&& *final(self) == *old(self)
                },
            },
    {
        if let Some(blk) = &mut self.pci_blk {
            let base: u64 = blk.io_bar_base as u64;
            if port >= base && port < base + VIRTIO_BLK_IO_BAR_SIZE as u64 {
                return match blk.io_write((port - base) as u16, data, ram, disk, msix_table) {
                    Some(i) => PioAction::Inject(i),
                    None => PioAction::Done,
                };
            }
        }
        PioAction::Done
    }

    /// Whether an address is one of the I/O APIC's registers.
    pub open spec fn is_ioapic(gpa: u64) -> bool {
        0xFEC0_0000 <= gpa <= 0xFEC0_00FF
    }

    /// Reads memory-mapped I/O: the I/O APIC where there is one, zeros
    /// anywhere else.
    pub fn mmio_read(&self, gpa: u64, data: &mut [u8]) -> (action: MmioAction)
        ensures
            if Self::is_ioapic(gpa) && self.has_ioapic {
                action == MmioAction::Ioapic((gpa - 0xFEC0_0000) as u64) && final(data)@ == old(
                    data,
                )@
            } else {
                action == MmioAction::Done && final(data)@ == filled(0, old(data)@.len())
            },
    {
        if 0xFEC0_0000 <= gpa && gpa <= 0xFEC0_00FF && self.has_ioapic {
            MmioAction::Ioapic(gpa - 0xFEC0_0000)
        } else {
            fill(data, 0);
            MmioAction::Done
        }
    }

    /// Writes memory-mapped I/O: the I/O APIC where there is one, nothing
    /// anywhere else.
    pub fn mmio_write(&self, gpa: u64) -> (action: MmioAction)
        ensures
            action == if Self::is_ioapic(gpa) && self.has_ioapic {
                MmioAction::Ioapic((gpa - 0xFEC0_0000) as u64)
            } else {
                MmioAction::Done
            },
    {
        if 0xFEC0_0000 <= gpa && gpa <= 0xFEC0_00FF && self.has_ioapic {
            MmioAction::Ioapic(gpa - 0xFEC0_0000)
        } else {
            MmioAction::Done
        }
    }
}

// ─── Laws ────────────────────────────────────────────────────────────────────

/// The PCI configuration address that was written in one piece is the one that
/// is read back.
pub proof fn config_address_reads_back(ops: SerialVmOps, addr: u32, buffer: Seq<u8>)
    requires
        buffer.len() == 4,
    ensures
        (SerialVmOps {
            pci_config_address: merged(ops.pci_config_address, 0, le32(addr)),
            ..ops
        }).port_data(0xCF8, 0, buffer) == le32(addr),
{
    crate::bytes::le_bytes_round_trip(0, addr, 0);
    let b = le32(addr);
    let m = masked_store(le32(ops.pci_config_address), 0, b, 0, 4);
    assert(m =~= b);
    assert(spread(addr, 0, buffer) =~= b);
}

/// A slot without a device reads as all ones.
pub proof fn empty_slots_read_as_ones(ops: SerialVmOps, off: u64, buffer: Seq<u8>)
    requires
        off <= 3,
        buffer.len() <= 4 - off,
        address_device(ops.pci_config_address) > 1 || address_bus(ops.pci_config_address) != 0
            || address_function(ops.pci_config_address) != 0,
    ensures
        ops.port_data((0xCFC + off) as u64, 0, buffer) == filled(0xFF, buffer.len()),
{
    assert(ops.port_data((0xCFC + off) as u64, 0, buffer) =~= filled(0xFF, buffer.len()));
}

/// The fields of a configuration address: bit 31 enables it, and from bit 16 on lie
/// the eight bits of the bus, from bit 11 on the five of the slot, from bit 8 on the
/// three of the function, and from bit 2 on the six of the register.
pub proof fn address_fields_have_their_bits(
    addr: u32,
    enabled: int,
    reserved: int,
    bus: int,
    slot: int,
    function: int,
    reg: int,
    byte: int,
)
    requires
        addr == 0x8000_0000 * enabled + 0x100_0000 * reserved + 0x1_0000 * bus + 0x800 * slot
            + 0x100 * function + 4 * reg + byte,
        enabled == 0 || enabled == 1,
        0 <= reserved < 128,
        0 <= bus < 256,
        0 <= slot < 32,
        0 <= function < 8,
        0 <= reg < 64,
        0 <= byte < 4,
    ensures
        address_enabled(addr) == (enabled == 1),
        address_bus(addr) == bus,
        address_function(addr) == function,
        address_device(addr) == slot,
        address_register(addr) == reg,
{
    let a = addr as int;
    let above = 0x80 * enabled + reserved;
    assert(a / 0x1_0000 == 256 * above + bus);
    assert(a / 0x1_0000 % 256 == bus);
    assert(a / 0x800 == 32 * (256 * above + bus) + slot);
    assert(a / 0x800 % 32 == slot);
    assert(a / 0x100 == 8 * (32 * (256 * above + bus) + slot) + function);
    assert(a / 0x100 % 8 == function);
    assert(a / 4 == 64 * (8 * (32 * (256 * above + bus) + slot) + function) + reg);
    assert(a / 4 % 64 == reg);
}

/// A register's bytes are spread over a buffer that has no more room than there
/// are bytes left.
proof fn spread_bytes(c: Seq<u8>, at: int, off: int, buffer: Seq<u8>)
    requires
        0 <= at,
        at + 4 <= c.len(),
        0 <= off,
        off + buffer.len() <= 4,
    ensures
        spread(le32_at(c, at), off, buffer) == c.subrange(at + off, at + off + buffer.len()),
{
    let w = c.subrange(at, at + 4);
    crate::bytes::le32_of_bytes(w);
    assert(le32_at(c, at) == le32_at(w, 0));
    assert(spread(le32_at(c, at), off, buffer) =~= c.subrange(
        at + off,
        at + off + buffer.len(),
    ));
}

/// What the PCI configuration data port reads, for every slot, register and
/// byte: of slot 0 the bytes of the host bridge's configuration space that lie
/// four times the register and the byte behind its start; of slot 1 those of
/// the block device, but for a BAR that is being sized, which reads as its size
/// mask; and all ones where there is no device.
pub proof fn configuration_data_are_those_of_the_device(
    ops: SerialVmOps,
    slot: int,
    reg: int,
    byte: int,
    off: int,
    elapsed_us: u64,
    buffer: Seq<u8>,
)
    requires
        ops.pci_config_address == 0x8000_0000 + 0x800 * slot + 4 * reg + byte,
        0 <= slot < 32,
        0 <= reg < 64,
        0 <= byte < 4,
        0 <= off,
        off + buffer.len() <= 4,
        off < 4,
    ensures
        ({
            let read = ops.port_data((0xCFC + off) as u64, elapsed_us, buffer);
            let at = 4 * reg + off;
            &&& read.len() == buffer.len()
            &&& slot == 0 ==> read == ops.host_bridge_config@.subrange(at, at + buffer.len())
            &&& slot == 1 ==> match ops.pci_blk {
                Some(blk) => if reg == 4 && blk.io_bar_sizing {
                    read == seq![0xC1u8, 0xFF, 0xFF, 0xFF].subrange(off, off + buffer.len())
                } else if reg == 5 && blk.msix_bar_sizing {
                    read == seq![0x00u8, 0xF0, 0xFF, 0xFF].subrange(off, off + buffer.len())
                } else {
                    read == blk.config@.subrange(at, at + buffer.len())
                },
                None => forall|i: int| 0 <= i < read.len() ==> read[i] == 0xFF,
            }
            &&& slot > 1 ==> forall|i: int| 0 <= i < read.len() ==> read[i] == 0xFF
        }),
{
    let read = ops.port_data((0xCFC + off) as u64, elapsed_us, buffer);
    address_fields_have_their_bits(ops.pci_config_address, 1, 0, 0, slot, 0, reg, byte);
    let value = ops.selected_register();
    assert(read == spread(value, off, buffer));
    if slot == 0 {
        spread_bytes(ops.host_bridge_config@, reg * 4, off, buffer);
    } else if slot == 1 && ops.pci_blk is Some {
        let blk = ops.pci_blk->Some_0;
        if reg == 4 && blk.io_bar_sizing {
            assert(read =~= seq![0xC1u8, 0xFF, 0xFF, 0xFF].subrange(off, off + buffer.len()));
        } else if reg == 5 && blk.msix_bar_sizing {
            assert(read =~= seq![0x00u8, 0xF0, 0xFF, 0xFF].subrange(off, off + buffer.len()));
        } else {
            spread_bytes(blk.config@, reg * 4, off, buffer);
        }
    }
}

/// Bytes that are written through the PCI configuration data port go to the
/// configuration space of the block device in slot 1, to the places that the
/// register and the byte name, and nowhere else: for every register but the
/// command and status register, the two BARs and the MSI-X capability. A write
/// to another slot changes no device.
pub proof fn configuration_data_go_to_the_device(
    ops: SerialVmOps,
    after: SerialVmOps,
    slot: int,
    reg: int,
    byte: int,
    off: u64,
    data: Seq<u8>,
)
    requires
        ops.pci_config_address == 0x8000_0000 + 0x800 * slot + 4 * reg + byte,
        0 <= slot < 32,
        0 <= reg < 64,
        0 <= byte < 4,
        off + data.len() <= 4,
        ops.config_data_written(after, off, data),
    ensures
        slot != 1 || ops.pci_blk is None ==> after == ops,
        slot == 1 && ops.pci_blk is Some ==> {
            let c = ops.pci_blk->Some_0.config@;
            let d = after.pci_blk->Some_0.config@;
            let at = 4 * reg + off;
            &&& after.pci_blk is Some
            &&& d.len() == c.len()
            &&& after.pci_config_address == ops.pci_config_address
            &&& forall|i: int|
                0 <= i < c.len() && !(4 * reg <= i < 4 * reg + 4) ==> #[trigger] d[i] == c[i]
            &&& reg != 1 && reg != 4 && reg != 5 && reg != 16 ==> {
                &&& d.subrange(at, at + data.len()) == data
                &&& forall|i: int|
                    0 <= i < c.len() && !(at <= i < at + data.len()) ==> #[trigger] d[i] == c[i]
            }
            &&& reg == 1 && off == 0 && data.len() > 0 ==> d[4] == data[0] % 8
            &&& reg == 1 ==> d[5] == c[5] && d[6] == c[6] && d[7] == c[7]
        },
{
    address_fields_have_their_bits(ops.pci_config_address, 1, 0, 0, slot, 0, reg, byte);
    if slot == 1 && ops.pci_blk is Some {
        let d = after.pci_blk->Some_0.config@;
        let at = 4 * reg + off;
        if reg != 1 && reg != 4 && reg != 5 && reg != 16 {
            assert(d.subrange(at, at + data.len()) =~= data);
        }
    }
}

/// The timer's counter 2 runs down by one for each tick of a clock of 1.193
/// ticks in a microsecond, from its reload value to zero, and starts over; its
/// output is low in the first round and changes with each.
pub proof fn timer_counts_its_ticks(elapsed_us: u64, reload: u16, ticks: int, round: int)
    requires
        ticks * 1000 <= elapsed_us * 1193 < (ticks + 1) * 1000,
        reload > 0,
        0 <= round,
        round * (reload + 1) <= ticks < (round + 1) * (reload + 1),
    ensures
        pit_counter(elapsed_us, reload) == reload - (ticks - round * (reload + 1)),
        pit_output(elapsed_us, reload) == (round % 2 == 1),
{
    assert(pit_ticks(elapsed_us) == ticks);
    let m = reload + 1;
    let rest = ticks - round * m;
    assert((round + 1) * m == round * m + m) by (nonlinear_arith);
    vstd::arithmetic::div_mod::lemma_fundamental_div_mod_converse(ticks, m, round, rest);
}

/// The NMI status register reads as it was written, but for bit 5, which is the
/// output of the timer.
pub proof fn port61_keeps_what_was_written(value: u8, elapsed_us: u64, reload: u16)
    ensures
        ({
            let read = port61_value(value, elapsed_us, reload);
            &&& read % 32 == value % 32
            &&& read / 64 == value / 64
            &&& (read / 32 % 2 == 1) == pit_output(elapsed_us, reload)
            &&& 0 <= read < 256
        }),
{
}

/// What was written to the interrupt masks, to the timer and to the NMI
/// register is what reads find, and each port has a register of its own.
pub proof fn ports_have_their_registers<D: DiskOps>(
    ops: SerialVmOps,
    after: SerialVmOps,
    port: u64,
    data: Seq<u8>,
    ram: Seq<u8>,
    ram_after: Seq<u8>,
    disk: D,
    disk_after: D,
    msix_table: Seq<u8>,
    r: Result<PioAction, ShutdownRequested>,
    elapsed_us: u64,
    buffer: Seq<u8>,
)
    requires
        ops.port_written(
            after,
            port,
            data,
            ram,
            ram_after,
            disk,
            disk_after,
            msix_table,
            r,
        ),
        data.len() > 0,
        buffer.len() == 1,
    ensures
        r is Err <==> port == 0x501,
        0x3F8 <= port <= 0x3FF ==> r == Ok::<PioAction, ShutdownRequested>(
            PioAction::Serial((port - 0x3F8) as u64),
        ),
        port == 0x21 ==> after.port_data(0x21, elapsed_us, buffer)[0] == data[0],
        port == 0xA1 ==> after.port_data(0xA1, elapsed_us, buffer)[0] == data[0],
        port != 0x21 ==> after.port_data(0x21, elapsed_us, buffer) == ops.port_data(
            0x21,
            elapsed_us,
            buffer,
        ),
        port != 0xA1 ==> after.port_data(0xA1, elapsed_us, buffer) == ops.port_data(
            0xA1,
            elapsed_us,
            buffer,
        ),
        port == 0x42 ==> after.pit_reload == data[0],
        port != 0x42 ==> after.pit_reload == ops.pit_reload,
        port == 0x61 ==> after.port61 == data[0],
        port != 0x61 ==> after.port61 == ops.port61,
        port == 0x42 || port == 0x61 || port == 0x21 || port == 0xA1 || 0xCF8 <= port <= 0xCFF
            || port == 0x501 || 0x3F8 <= port <= 0x3FF ==> ram_after == ram && disk_after == disk,
        after.port_data(0x42, elapsed_us, buffer)[0] == pit_counter(elapsed_us, after.pit_reload)
            % 256,
        after.port_data(0x61, elapsed_us, buffer)[0] == port61_value(
            after.port61,
            elapsed_us,
            after.pit_reload,
        ),
        after.port_data(0x71, elapsed_us, buffer)[0] == 0,
        after.port_data(0x20, elapsed_us, buffer)[0] == 0,
        after.port_data(0xA0, elapsed_us, buffer)[0] == 0,
{
    pit_counter_in_range(elapsed_us, after.pit_reload);
    port61_keeps_what_was_written(after.port61, elapsed_us, after.pit_reload);
}

/// Each byte that is written to the four ports of the PCI configuration address
/// replaces the byte of the address at its place, and no other.
pub proof fn address_bytes_are_replaced(value: u32, off: int, data: Seq<u8>, i: int)
    requires
        0 <= off < 4,
        0 <= i < 4,
    ensures
        le32(merged(value, off, data))[i] == if off <= i < off + data.len() {
            data[i - off]
        } else {
            le32(value)[i]
        },
{
    let b = masked_store(le32(value), off, data, 0, 4);
    crate::bytes::le32_of_bytes(b);
}

// ─── Sequences of accesses ───────────────────────────────────────────────────

/// An access to a port, with what it finds and leaves of memory and the disk.
pub enum PortAccess<D> {
    /// A read
    Read { port: u64 },
    /// A write
    Write {
        port: u64,
        data: Seq<u8>,
        ram: Seq<u8>,
        ram_after: Seq<u8>,
        disk: D,
        disk_after: D,
        msix_table: Seq<u8>,
        result: Result<PioAction, ShutdownRequested>,
    },
}

impl<D: DiskOps> PortAccess<D> {
    /// The access takes the devices from one state to another.
    pub open spec fn leads(self, before: SerialVmOps, after: SerialVmOps) -> bool {
        match self {
            PortAccess::Read { port } => after == before.after_port_read(port),
            PortAccess::Write {
                port,
                data,
                ram,
                ram_after,
                disk,
                disk_after,
                msix_table,
                result,
            } => before.port_written(
                after,
                port,
                data,
                ram,
                ram_after,
                disk,
                disk_after,
                msix_table,
                result,
            ),
        }
    }

    /// The access writes the PCI configuration address.
    pub open spec fn sets_address(self) -> bool {
        self matches PortAccess::Write { port, .. } && 0xCF8 <= port <= 0xCFB
    }

    /// The access writes all of the PCI configuration address, as `addr`.
    pub open spec fn sets_address_to(self, addr: u32) -> bool {
        self matches PortAccess::Write { port, data, .. } && port == 0xCF8 && data == le32(addr)
    }
}

/// The accesses take the devices through the states, one after another.
pub open spec fn is_port_run<D: DiskOps>(
    states: Seq<SerialVmOps>,
    accesses: Seq<PortAccess<D>>,
) -> bool {
    &&& states.len() == accesses.len() + 1
    &&& forall|i: int|
        0 <= i < accesses.len() ==> (#[trigger] accesses[i]).leads(states[i], states[i + 1])
}

/// An access keeps the host bridge, and the configuration address unless it
/// writes it.
proof fn access_keeps_the_rest<D: DiskOps>(
    access: PortAccess<D>,
    before: SerialVmOps,
    after: SerialVmOps,
)
    requires
        access.leads(before, after),
    ensures
        after.host_bridge_config == before.host_bridge_config,
        !access.sets_address() ==> after.pci_config_address == before.pci_config_address,
{
}

/// Where no access from `from` on writes the configuration address, it is kept,
/// and so is the host bridge in any case.
proof fn run_keeps_the_rest<D: DiskOps>(
    states: Seq<SerialVmOps>,
    accesses: Seq<PortAccess<D>>,
    from: int,
    to: int,
)
    requires
        is_port_run(states, accesses),
        0 <= from <= to <= accesses.len(),
    ensures
        states[to].host_bridge_config == states[from].host_bridge_config,
        (forall|i: int| from <= i < to ==> !(#[trigger] accesses[i]).sets_address())
            ==> states[to].pci_config_address == states[from].pci_config_address,
    decreases to - from,
{
    if from < to {
        run_keeps_the_rest(states, accesses, from, to - 1);
        assert(accesses[to - 1].leads(states[to - 1], states[to - 1 + 1]));
        access_keeps_the_rest(accesses[to - 1], states[to - 1], states[to]);
    }
}

/// What the PCI configuration ports read after any accesses to ports, of which
/// the `k`-th is the last that wrote the configuration address, and wrote all
/// of it as `addr`: the address port reads `addr`; the data port reads all ones
/// where `addr` is not enabled or selects another bus, another function or an
/// empty slot; and each register of the host bridge where it selects that, as
/// the machine started with it.
pub proof fn configuration_ports_follow_the_address<D: DiskOps>(
    states: Seq<SerialVmOps>,
    accesses: Seq<PortAccess<D>>,
    k: int,
    addr: u32,
    elapsed_us: u64,
    buffer: Seq<u8>,
)
    requires
        is_port_run(states, accesses),
        0 <= k < accesses.len(),
        accesses[k].sets_address_to(addr),
        forall|i: int| k < i < accesses.len() ==> !(#[trigger] accesses[i]).sets_address(),
        buffer.len() == 4,
    ensures
        states.last().pci_config_address == addr,
        states.last().port_data(0xCF8, elapsed_us, buffer) == le32(addr),
        !address_enabled(addr) || address_bus(addr) != 0 || address_function(addr) != 0
            || address_device(addr) > 1 ==> states.last().port_data(0xCFC, elapsed_us, buffer)
            == filled(0xFF, 4),
        addr == 0x8000_0000 && states[0].host_bridge_config@ == host_bridge()
            ==> states.last().port_data(0xCFC, elapsed_us, buffer) == seq![
            0x86u8,
            0x80,
            0x37,
            0x12,
        ],
        forall|reg: int|
            0 <= reg < 64 && addr == 0x8000_0000 + 4 * reg ==> states.last().port_data(
                0xCFC,
                elapsed_us,
                buffer,
            ) == #[trigger] states[0].host_bridge_config@.subrange(4 * reg, 4 * reg + 4),
{
    let n = accesses.len() as int;
    let last = states.last();
    run_keeps_the_rest(states, accesses, 0, n);
    run_keeps_the_rest(states, accesses, k + 1, n);
    assert(accesses[k].leads(states[k], states[k + 1]));
    let old_bytes = le32(states[k].pci_config_address);
    assert(masked_store(old_bytes, 0, le32(addr), 0, 4) =~= le32(addr));
    crate::bytes::le_bytes_round_trip(0, addr, 0);
    assert(last.pci_config_address == addr);
    assert(last.port_data(0xCF8, elapsed_us, buffer) =~= le32(addr));
    let ones = spread(0xFFFF_FFFF, 0, buffer);
    assert(ones =~= filled(0xFF, 4));
    if addr == 0x8000_0000 && states[0].host_bridge_config@ == host_bridge() {
        let c = host_bridge();
        let id = seq![0x86u8, 0x80, 0x37, 0x12];
        assert(c[0] == 0x86 && c[1] == 0x80 && c[2] == 0x37 && c[3] == 0x12);
        let x = le32_at(c, 0);
        assert(x == 0x1237_8086);
        assert(last.selected_register() == x);
        assert(spread(x, 0, buffer) =~= id);
    }
    assert forall|reg: int| 0 <= reg < 64 && addr == 0x8000_0000 + 4 * reg implies last.port_data(
        0xCFC,
        elapsed_us,
        buffer,
    ) == #[trigger] states[0].host_bridge_config@.subrange(4 * reg, 4 * reg + 4) by {
        configuration_data_are_those_of_the_device(last, 0, reg, 0, 0, elapsed_us, buffer);
    }
}

/// The registers of the block device are at the ports from its BAR on, 64 of them, and
/// move with it; a read of such a port that no other device has is a read of the
/// register, and the interrupt status is cleared by it.
pub proof fn register_ports_follow_the_bar(
    ops: SerialVmOps,
    port: u64,
    elapsed_us: u64,
    buffer: Seq<u8>,
    reg: int,
)
    requires
        ops.pci_blk is Some,
        port == ops.pci_blk->Some_0.io_bar_base + reg,
        port > 0xCFF,
    ensures
        0 <= reg < 64 ==> ops.port_data(port, elapsed_us, buffer)
            == ops.pci_blk->Some_0.io_read_data(reg as u16, buffer),
        reg >= 64 ==> ops.port_data(port, elapsed_us, buffer) == filled(0xFF, buffer.len()),
        reg == 19 ==> ops.after_port_read(port).pci_blk->Some_0.isr_status == 0,
        reg != 19 ==> ops.after_port_read(port) == ops,
{
}

/// The I/O APIC has the 256 addresses from 0xFEC00000 on.
pub proof fn the_ioapic_has_its_addresses(gpa: u64)
    ensures
        SerialVmOps::is_ioapic(gpa) <==> 0xFEC0_0000 <= gpa && gpa < 0xFEC0_0100,
{
}

/// A write to a register of the block device, at a port that no other device has, is a
/// write to the register as far behind its BAR as the port. One that notifies the queue
/// has its pending requests carried out, from the page of the queue on, and injects the
/// interrupt of the queue where there was a request; any other changes the register
/// alone.
pub proof fn register_writes_reach_the_device<D: DiskOps>(
    ops: SerialVmOps,
    after: SerialVmOps,
    port: u64,
    data: Seq<u8>,
    ram: Seq<u8>,
    ram_after: Seq<u8>,
    disk: D,
    disk_after: D,
    msix_table: Seq<u8>,
    r: Result<PioAction, ShutdownRequested>,
    reg: int,
)
    requires
        ops.port_written(
            after,
            port,
            data,
            ram,
            ram_after,
            disk,
            disk_after,
            msix_table,
            r,
        ),
        ops.pci_blk is Some,
        port == ops.pci_blk->Some_0.io_bar_base + reg,
        port > 0xCFF,
        0 <= reg < 64,
    ensures
        ({
            let blk = ops.pci_blk->Some_0;
            let queue = 4096 * blk.queue_pfn;
            let avail = u16_or(ram, (queue + 2050) as u64, 0);
            let n = pending(blk.last_avail_idx, avail);
            &&& !blk.notifies(reg as u16, data) ==> {
                &&& after.pci_blk == Some(blk.register_written(reg as u16, data))
                &&& ram_after == ram && disk_after == disk
                &&& r == Ok::<PioAction, ShutdownRequested>(PioAction::Done)
            }
            &&& blk.notifies(reg as u16, data) ==> {
                &&& after.pci_blk == Some(blk.after_requests(avail, n))
                &&& slots_done(
                    queue as u64,
                    blk.last_avail_idx,
                    n,
                    blk.capacity,
                    ram,
                    ram_after,
                    disk,
                    disk_after,
                )
                &&& n == 0 ==> r == Ok::<PioAction, ShutdownRequested>(PioAction::Done)
                &&& n > 0 ==> r == Ok::<PioAction, ShutdownRequested>(
                    match blk.queue_interrupt(msix_table) {
                        Some(i) => PioAction::Inject(i),
                        None => PioAction::Done,
                    },
                )
            }
            &&& after == (SerialVmOps { pci_blk: after.pci_blk, ..ops })
        }),
{
    crate::blk::queue::queues_are_laid_out(ops.pci_blk->Some_0, 0, 0);
}

} // verus!

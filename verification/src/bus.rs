//! The device manager's buses, its stub devices, and interrupt delivery.
use std::collections::HashMap;

use vstd::prelude::*;

use crate::blk::config::Interrupt;
use crate::bytes::{le32, push_le32};
use crate::ports::{
    address_enabled, address_register, fill, filled, merge_le32, merged, pit_counter,
    pit_counter_in_range, read_pit_counter, spread, spread_le32,
};

verus! {

// ─── Bus layout ──────────────────────────────────────────────────────────────

/// Devices on the buses.
#[derive(Debug, Clone, Copy, PartialEq, Eq, Structural)]
pub enum BusDeviceKind {
    /// 16550 serial device
    Serial,
    /// Interval timer
    Pit,
    /// NMI status and timer gate
    Port61,
    /// Master interrupt controller
    PicMaster,
    /// Slave interrupt controller
    PicSlave,
    /// CMOS and real-time clock
    Cmos,
    /// PCI configuration
    PciConfig,
    /// I/O APIC
    Ioapic,
}

/// A device and its range of addresses on a bus.
#[derive(Debug, Clone, Copy, PartialEq, Eq, Structural)]
pub struct BusRange {
    /// The device
    pub device: BusDeviceKind,
    /// First address
    pub base: u64,
    /// Number of addresses
    pub len: u64,
}

impl BusRange {
    /// Whether an address is in the range.
    pub open spec fn covers(self, addr: u64) -> bool {
        self.base <= addr < self.base + self.len
    }
}

/// The devices on the port bus: serial at 0x3F8, timer at 0x40, port 0x61, the
/// interrupt controllers at 0x20 and 0xA0, and the clock at 0x70.
pub open spec fn io_bus_ranges() -> Seq<BusRange> {
    seq![
        BusRange { device: BusDeviceKind::Serial, base: 0x3F8, len: 8 },
        BusRange { device: BusDeviceKind::Pit, base: 0x40, len: 4 },
        BusRange { device: BusDeviceKind::Port61, base: 0x61, len: 1 },
        BusRange { device: BusDeviceKind::PicMaster, base: 0x20, len: 2 },
        BusRange { device: BusDeviceKind::PicSlave, base: 0xA0, len: 2 },
        BusRange { device: BusDeviceKind::Cmos, base: 0x70, len: 2 },
    ]
}

/// The place of the PCI configuration on the port bus, for a machine that has
/// one.
pub open spec fn pci_config_ports() -> BusRange {
    BusRange { device: BusDeviceKind::PciConfig, base: 0xCF8, len: 8 }
}

/// The devices on the memory bus: the I/O APIC, for a kernel.
pub open spec fn mmio_bus_ranges(has_kernel: bool) -> Seq<BusRange> {
    if has_kernel {
        seq![BusRange { device: BusDeviceKind::Ioapic, base: 0xFEC0_0000, len: 0x100 }]
    } else {
        Seq::empty()
    }
}

/// No two ranges have an address in common.
pub open spec fn disjoint(ranges: Seq<BusRange>) -> bool {
    forall|i: int, j: int|
        0 <= i < j < ranges.len() ==> (#[trigger] ranges[i]).base + ranges[i].len
            <= (#[trigger] ranges[j]).base || ranges[j].base + ranges[j].len <= ranges[i].base
}

/// The devices on the buses do not overlap, so that each can be registered, and
/// the PCI configuration beside them.
pub proof fn bus_devices_do_not_overlap(has_kernel: bool)
    ensures
        disjoint(io_bus_ranges()),
        disjoint(io_bus_ranges().push(pci_config_ports())),
        disjoint(mmio_bus_ranges(has_kernel)),
{
}

/// The devices to register on the port bus.
pub fn io_bus_layout() -> (ranges: Vec<BusRange>)
    ensures
        ranges@ == io_bus_ranges(),
{
    let ranges: Vec<BusRange> = vec![
        BusRange { device: BusDeviceKind::Serial, base: 0x3F8, len: 8 },
        BusRange { device: BusDeviceKind::Pit, base: 0x40, len: 4 },
        BusRange { device: BusDeviceKind::Port61, base: 0x61, len: 1 },
        BusRange { device: BusDeviceKind::PicMaster, base: 0x20, len: 2 },
        BusRange { device: BusDeviceKind::PicSlave, base: 0xA0, len: 2 },
        BusRange { device: BusDeviceKind::Cmos, base: 0x70, len: 2 },
    ];
    assert(ranges@ =~= io_bus_ranges());
    ranges
}

/// The range to register the PCI configuration at.
pub fn pci_config_range() -> (range: BusRange)
    ensures
        range == pci_config_ports(),
{
    BusRange { device: BusDeviceKind::PciConfig, base: 0xCF8, len: 8 }
}

/// The devices to register on the memory bus.
pub fn mmio_bus_layout(has_kernel: bool) -> (ranges: Vec<BusRange>)
    ensures
        ranges@ == mmio_bus_ranges(has_kernel),
{
    let mut ranges: Vec<BusRange> = Vec::new();
    if has_kernel {
        ranges.push(BusRange { device: BusDeviceKind::Ioapic, base: 0xFEC0_0000, len: 0x100 });
    }
    assert(ranges@ =~= mmio_bus_ranges(has_kernel));
    ranges
}

/// The device at an address and the offset in its range, if there is one: the
/// first whose range has the address.
pub fn route(ranges: &[BusRange], addr: u64) -> (r: Option<(BusDeviceKind, u64)>)
    requires
        forall|i: int|
            0 <= i < ranges@.len() ==> (#[trigger] ranges@[i]).base + ranges@[i].len <= u64::MAX,
    ensures
        match r {
            Some((device, offset)) => exists|i: int|
                {
                    &&& 0 <= i < ranges@.len()
                    &&& #[trigger] ranges@[i].covers(addr)
                    &&& forall|k: int| 0 <= k < i ==> !#[trigger] ranges@[k].covers(addr)
                    &&& device == ranges@[i].device
                    &&& offset == addr - ranges@[i].base
                },
            None => forall|i: int| 0 <= i < ranges@.len() ==> !#[trigger] ranges@[i].covers(addr),
        },
{
    let mut i: usize = 0;
    while i < ranges.len()
        invariant
            i <= ranges@.len(),
            forall|k: int|
                0 <= k < ranges@.len() ==> (#[trigger] ranges@[k]).base + ranges@[k].len
                    <= u64::MAX,
            forall|k: int| 0 <= k < i ==> !#[trigger] ranges@[k].covers(addr),
        decreases ranges@.len() - i,
    {
        let range: BusRange = ranges[i];
        if range.base <= addr && addr < range.base + range.len {
            assert(ranges@[i as int].covers(addr));
            return Some((range.device, addr - range.base));
        }
        assert(!ranges@[i as int].covers(addr));
        i += 1;
    }
    None
}

/// A write to a register window of a device.
#[derive(Debug, Clone)]
pub struct RegisterWrite {
    /// Offset in the device's range
    pub offset: u64,
    /// The bytes to write
    pub data: Vec<u8>,
}

/// The two writes that set a register of the I/O APIC: its index to the select
/// window, its value to the data window.
pub fn ioapic_write_reg(reg: u32, val: u32) -> (writes: (RegisterWrite, RegisterWrite))
    ensures
        writes.0.offset == 0x00,
        writes.0.data@ == le32(reg),
        writes.1.offset == 0x10,
        writes.1.data@ == le32(val),
{
    let mut index: Vec<u8> = Vec::new();
    push_le32(&mut index, reg);
    let mut value: Vec<u8> = Vec::new();
    push_le32(&mut value, val);
    assert(index@ =~= le32(reg));
    assert(value@ =~= le32(val));
    (RegisterWrite { offset: 0x00, data: index }, RegisterWrite { offset: 0x10, data: value })
}

/// The redirection entries that the I/O APIC starts with: interrupt 0 to vector
/// 0x30, interrupt 4 to vector 0x34, both to processor 0.
pub open spec fn ioapic_entries() -> Seq<(u32, u32)> {
    seq![(0x10u32, 0x30u32), (0x11u32, 0u32), (0x18u32, 0x34u32), (0x19u32, 0u32)]
}

/// The registers to preset in the I/O APIC, and their values.
pub fn ioapic_presets() -> (entries: Vec<(u32, u32)>)
    ensures
        entries@ == ioapic_entries(),
{
    let entries: Vec<(u32, u32)> = vec![
        (0x10u32, 0x30u32),
        (0x11u32, 0u32),
        (0x18u32, 0x34u32),
        (0x19u32, 0u32),
    ];
    assert(entries@ =~= ioapic_entries());
    entries
}

// ─── Stub devices ────────────────────────────────────────────────────────────

/// Interval timer: counter 2 runs down from its reload value.
#[derive(Debug, Clone, Copy, PartialEq, Eq, Structural)]
pub struct PitStub {
    /// Reload value
    pub reload: u16,
}

impl PitStub {
    /// A timer without a reload value.
    pub fn new() -> (pit: Self)
        ensures
            pit.reload == 0,
    {
        PitStub { reload: 0 }
    }

    /// Reads a register, `elapsed_us` microseconds after the start: counter 2
    /// is at offset 2, and nothing else is read.
    pub fn read(&self, offset: u64, elapsed_us: u64, data: &mut [u8])
        requires
            elapsed_us * 1193 <= u64::MAX,
        ensures
            final(data)@ == if offset == 2 && old(data)@.len() > 0 {
                old(data)@.update(0, (pit_counter(elapsed_us, self.reload) % 256) as u8)
            } else {
                old(data)@
            },
    {
        if offset == 2 && data.len() > 0 {
            proof {
                pit_counter_in_range(elapsed_us, self.reload);
            }
            data[0] = read_pit_counter(elapsed_us, self.reload);
        }
    }

    /// Writes a register: the reload value of counter 2.
    pub fn write(&mut self, offset: u64, data: &[u8])
        ensures
            final(self).reload == if offset == 2 && data@.len() > 0 {
                data@[0] as u16
            } else {
                old(self).reload
            },
    {
        if offset == 2 && data.len() > 0 {
            self.reload = data[0] as u16;
        }
    }
}

/// NMI status register, whose timer bit changes with every read.
#[derive(Debug, Clone, Copy, PartialEq, Eq, Structural)]
pub struct Port61Stub {
    /// The register
    pub value: u8,
}

/// The register with its timer bit, bit 5, inverted.
pub open spec fn toggled(value: u8) -> u8 {
    if value / 32 % 2 == 0 {
        (value + 32) as u8
    } else {
        (value - 32) as u8
    }
}

/// Two reads of the register give back its first value.
pub proof fn toggling_twice(value: u8)
    ensures
        toggled(toggled(value)) == value,
        toggled(value) != value,
{
}

impl Default for Port61Stub {
    fn default() -> (p: Self)
        ensures
            p.value == 0,
    {
        Port61Stub { value: 0 }
    }
}

impl Port61Stub {
    /// Reads the register.
    pub fn read(&mut self, data: &mut [u8])
        ensures
            old(data)@.len() == 0 ==> *final(self) == *old(self) && final(data)@ == old(data)@,
            old(data)@.len() > 0 ==> final(self).value == toggled(old(self).value) && final(data)@
                == old(data)@.update(0, final(self).value),
    {
        if data.len() > 0 {
            self.value = if self.value / 32 % 2 == 0 {
                self.value + 32
            } else {
                self.value - 32
            };
            data[0] = self.value;
        }
    }

    /// Writes the register.
    pub fn write(&mut self, data: &[u8])
        ensures
            final(self).value == if data@.len() > 0 {
                data@[0]
            } else {
                old(self).value
            },
    {
        if data.len() > 0 {
            self.value = data[0];
        }
    }
}

/// Interrupt controller that keeps its interrupt mask.
#[derive(Debug, Clone, Copy, PartialEq, Eq, Structural)]
pub struct PicStub {
    /// Interrupt mask
    pub imr: u8,
}

impl Default for PicStub {
    fn default() -> (p: Self)
        ensures
            p.imr == 0,
    {
        PicStub { imr: 0 }
    }
}

impl PicStub {
    /// Reads a register: the mask at offset 1, zero elsewhere.
    pub fn read(&self, offset: u64, data: &mut [u8])
        ensures
            final(data)@ == if old(data)@.len() > 0 {
                old(data)@.update(0, if offset == 1 { self.imr } else { 0 })
            } else {
                old(data)@
            },
    {
        if data.len() > 0 {
            data[0] = if offset == 1 {
                self.imr
            } else {
                0
            };
        }
    }

    /// Writes a register: the mask at offset 1.
    pub fn write(&mut self, offset: u64, data: &[u8])
        ensures
            final(self).imr == if offset == 1 && data@.len() > 0 {
                data@[0]
            } else {
                old(self).imr
            },
    {
        if offset == 1 && data.len() > 0 {
            self.imr = data[0];
        }
    }
}

/// Clock that reads as zero.
#[derive(Debug, Clone, Copy, PartialEq, Eq, Structural)]
pub struct CmosStub;

impl CmosStub {
    /// Reads a register.
    pub fn read(&self, data: &mut [u8])
        ensures
            final(data)@ == filled(0, old(data)@.len()),
    {
        fill(data, 0);
    }
}

/// PCI configuration ports: the address at offset 0, the data at offset 4.
#[derive(Debug, Clone, Copy, PartialEq, Eq, Structural)]
pub struct PciConfigBridge {
    /// Configuration address
    pub config_address: u32,
}

/// What is left to do for an access to the PCI configuration ports.
#[derive(Debug, Clone, Copy, PartialEq, Eq, Structural)]
pub enum ConfigAccess {
    /// Nothing.
    Done,
    /// The register of the addressed device is to be accessed, from a byte in
    /// it on.
    Register { address: u32, register: usize, byte: u64 },
}

impl PciConfigBridge {
    /// An access of `len` bytes stays in the four bytes of its port.
    pub open spec fn in_port(offset: u64, len: nat) -> bool {
        &&& offset <= 3 ==> offset + len <= 4
        &&& 4 <= offset <= 7 ==> offset - 4 + len <= 4
    }

    /// What an access to the data port asks for.
    pub open spec fn data_access(self, offset: u64) -> ConfigAccess {
        if 4 <= offset <= 7 && address_enabled(self.config_address) {
            ConfigAccess::Register {
                address: self.config_address,
                register: address_register(self.config_address) as usize,
                byte: (offset - 4) as u64,
            }
        } else {
            ConfigAccess::Done
        }
    }

    /// Reads a port: the address, or all ones where no register is addressed.
    pub fn read(&self, offset: u64, data: &mut [u8]) -> (access: ConfigAccess)
        requires
            Self::in_port(offset, old(data)@.len()),
        ensures
            access == self.data_access(offset),
            final(data)@ == if offset <= 3 {
                spread(self.config_address, offset as int, old(data)@)
            } else if access == ConfigAccess::Done {
                filled(0xFF, old(data)@.len())
            } else {
                old(data)@
            },
    {
        if offset <= 3 {
            spread_le32(self.config_address, offset as usize, data);
            ConfigAccess::Done
        } else if offset <= 7 && self.config_address >= 0x8000_0000 {
            ConfigAccess::Register {
                address: self.config_address,
                register: (self.config_address / 4 % 64) as usize,
                byte: offset - 4,
            }
        } else {
            fill(data, 0xFF);
            ConfigAccess::Done
        }
    }

    /// Completes a read of the data port with the register's value.
    pub fn finish_read(value: u32, byte: u64, data: &mut [u8])
        requires
            byte + old(data)@.len() <= 4,
        ensures
            final(data)@ == spread(value, byte as int, old(data)@),
    {
        spread_le32(value, byte as usize, data);
    }

    /// Writes a port: the address, or the register that it addresses.
    pub fn write(&mut self, offset: u64, data: &[u8]) -> (access: ConfigAccess)
        requires
            Self::in_port(offset, data@.len()),
        ensures
            access == old(self).data_access(offset),
            final(self).config_address == if offset <= 3 {
                merged(old(self).config_address, offset as int, data@)
            } else {
                old(self).config_address
            },
    {
        if offset <= 3 {
            self.config_address = merge_le32(self.config_address, offset as usize, data);
            ConfigAccess::Done
        } else if offset <= 7 && self.config_address >= 0x8000_0000 {
            ConfigAccess::Register {
                address: self.config_address,
                register: (self.config_address / 4 % 64) as usize,
                byte: offset - 4,
            }
        } else {
            ConfigAccess::Done
        }
    }
}

// ─── Interrupts ──────────────────────────────────────────────────────────────

/// The interrupt of a group of consecutive vectors.
pub fn group_interrupt(base: u8, index: u32) -> (i: Interrupt)
    requires
        base + index % 256 <= 255,
    ensures
        i == (Interrupt { vector: (base + index % 256) as u8, destination: 0 }),
{
    Interrupt { vector: base + (index % 256) as u8, destination: 0 }
}

/// A message-signalled interrupt as it is configured.
#[derive(Debug, Clone, Copy, PartialEq, Eq, Structural)]
pub struct MsiConfig {
    pub high_addr: u32,
    pub low_addr: u32,
    pub data: u32,
}

/// How an interrupt source is configured.
#[derive(Debug, Clone, Copy, PartialEq, Eq, Structural)]
pub enum SourceConfig {
    /// A pin of an interrupt controller
    Legacy,
    /// A message
    Msi(MsiConfig),
}

/// The interrupt that a message stands for: the vector in its data, the
/// destination in bits 12 to 19 of its address.
pub open spec fn msi_interrupt(config: MsiConfig) -> Interrupt {
    Interrupt {
        vector: (config.data % 256) as u8,
        destination: (config.low_addr / 0x1000 % 256) as u32,
    }
}

/// Interrupt sources that send messages, each with its configuration and mask.
pub struct InterruptSourceGroup {
    configs: HashMap<u32, MsiConfig>,
    masked: HashMap<u32, bool>,
}

/// The configurations and masks of a group.
pub struct SourceGroupView {
    pub configs: Map<u32, MsiConfig>,
    pub masked: Map<u32, bool>,
}

impl View for InterruptSourceGroup {
    type V = SourceGroupView;

    closed spec fn view(&self) -> SourceGroupView {
        SourceGroupView { configs: self.configs@, masked: self.masked@ }
    }
}

impl SourceGroupView {
    /// The interrupt that a source raises: none while it is masked or not yet
    /// configured.
    pub open spec fn raised(self, index: u32) -> Option<Interrupt> {
        if self.masked.contains_key(index) && self.masked[index] {
            None
        } else if self.configs.contains_key(index) {
            Some(msi_interrupt(self.configs[index]))
        } else {
            None
        }
    }

    /// The group after a source was configured: a message replaces the one
    /// before it, a pin keeps it; the mask is set either way.
    pub open spec fn updated(self, index: u32, config: SourceConfig, masked: bool) -> Self {
        SourceGroupView {
            configs: match config {
                SourceConfig::Msi(msi) => self.configs.insert(index, msi),
                SourceConfig::Legacy => self.configs,
            },
            masked: self.masked.insert(index, masked),
        }
    }
}

/// A source that was configured with a message raises it exactly while it is
/// not masked, and the other sources are as they were.
pub proof fn configured_sources_raise(
    g: SourceGroupView,
    index: u32,
    msi: MsiConfig,
    masked: bool,
    other: u32,
)
    ensures
        g.updated(index, SourceConfig::Msi(msi), masked).raised(index) == if masked {
            None
        } else {
            Some(msi_interrupt(msi))
        },
        other != index ==> g.updated(index, SourceConfig::Msi(msi), masked).raised(other)
            == g.raised(other),
{
}

impl InterruptSourceGroup {
    /// A group without configured sources.
    pub fn new() -> (g: Self)
        ensures
            g@.configs == Map::<u32, MsiConfig>::empty(),
            g@.masked == Map::<u32, bool>::empty(),
    {
        InterruptSourceGroup { configs: HashMap::new(), masked: HashMap::new() }
    }

    /// The interrupt to inject when a source triggers.
    pub fn trigger(&self, index: u32) -> (r: Option<Interrupt>)
        ensures
            r == self@.raised(index),
    {
        broadcast use vstd::std_specs::hash::group_hash_axioms;

        if let Some(masked) = self.masked.get(&index) {
            if *masked {
                return None;
            }
        }
        match self.configs.get(&index) {
            Some(config) => Some(
                Interrupt {
                    vector: (config.data % 256) as u8,
                    destination: config.low_addr / 0x1000 % 256,
                },
            ),
            None => None,
        }
    }

    /// Configures a source.
    pub fn update(&mut self, index: u32, config: SourceConfig, masked: bool)
        ensures
            final(self)@ == old(self)@.updated(index, config, masked),
    {
        broadcast use vstd::std_specs::hash::group_hash_axioms;

        if let SourceConfig::Msi(msi) = config {
            self.configs.insert(index, msi);
        }
        self.masked.insert(index, masked);
    }
}

// ─── Laws ────────────────────────────────────────────────────────────────────

/// Which device a port belongs to: the interrupt controllers have 0x20 and 0x21, and
/// 0xA0 and 0xA1, the timer 0x40 to 0x43, the NMI register 0x61, the clock 0x70 and
/// 0x71, the serial device 0x3F8 to 0x3FF and the PCI configuration 0xCF8 to 0xCFF;
/// the I/O APIC has the 256 addresses from 0xFEC00000 on.
pub proof fn ports_belong_to_their_device(addr: u64, i: int)
    requires
        0 <= i < 6,
    ensures
        io_bus_ranges().len() == 6,
        ({
            let r = io_bus_ranges()[i];
            match r.device {
                BusDeviceKind::PicMaster => r.covers(addr) <==> 0x20 <= addr <= 0x21,
                BusDeviceKind::PicSlave => r.covers(addr) <==> 0xA0 <= addr <= 0xA1,
                BusDeviceKind::Pit => r.covers(addr) <==> 0x40 <= addr <= 0x43,
                BusDeviceKind::Port61 => r.covers(addr) <==> addr == 0x61,
                BusDeviceKind::Cmos => r.covers(addr) <==> 0x70 <= addr <= 0x71,
                BusDeviceKind::Serial => r.covers(addr) <==> 0x3F8 <= addr <= 0x3FF,
                _ => false,
            }
        }),
        forall|j: int|
            0 <= j < 6 && j != i ==> (#[trigger] io_bus_ranges()[j]).device
                != io_bus_ranges()[i].device,
        pci_config_ports().device == BusDeviceKind::PciConfig,
        pci_config_ports().covers(addr) <==> 0xCF8 <= addr <= 0xCFF,
        mmio_bus_ranges(true).len() == 1,
        mmio_bus_ranges(true)[0].device == BusDeviceKind::Ioapic,
        mmio_bus_ranges(true)[0].covers(addr) <==> 0xFEC0_0000 <= addr <= 0xFEC0_00FF,
        mmio_bus_ranges(false).len() == 0,
{
    let k = i;
    assert(k == 0 || k == 1 || k == 2 || k == 3 || k == 4 || k == 5);
}

/// A read of the NMI register changes bit 5 of it and no other.
pub proof fn reads_toggle_the_timer_bit(value: u8)
    ensures
        toggled(value) % 32 == value % 32,
        toggled(value) / 64 == value / 64,
        toggled(value) / 32 % 2 != value / 32 % 2,
{
}

/// The interrupt of a message, by the bits of its data and its address: the vector
/// is the low byte of the data, the destination the byte from bit 12 on of the low
/// half of the address.
pub proof fn messages_hold_vector_and_destination(
    config: MsiConfig,
    vector: int,
    rest: int,
    destination: int,
    low: int,
    high: int,
)
    requires
        config.data == vector + 256 * rest,
        config.low_addr == low + 0x1000 * destination + 0x10_0000 * high,
        0 <= vector < 256,
        0 <= destination < 256,
        0 <= low < 0x1000,
        0 <= rest,
        0 <= high,
    ensures
        msi_interrupt(config).vector == vector,
        msi_interrupt(config).destination == destination,
{
    assert(config.low_addr as int / 0x1000 == destination + 256 * high);
}

/// The data port addresses the register that the configuration address selects, six
/// bits from bit 2 on, at the byte of the port, where the address is enabled.
pub proof fn data_ports_address_their_register(
    bridge: PciConfigBridge,
    offset: u64,
    reg: int,
    byte: int,
    above: int,
)
    requires
        bridge.config_address == above * 256 + 4 * reg + byte,
        0 <= reg < 64,
        0 <= byte < 4,
        0 <= above,
    ensures
        4 <= offset <= 7 && bridge.config_address >= 0x8000_0000 ==> bridge.data_access(offset)
            == (ConfigAccess::Register {
            address: bridge.config_address,
            register: reg as usize,
            byte: (offset - 4) as u64,
        }),
        offset < 4 || offset > 7 || bridge.config_address < 0x8000_0000 ==> bridge.data_access(
            offset,
        ) == ConfigAccess::Done,
{
    assert(bridge.config_address as int / 4 == above * 64 + reg);
}

/// The I/O APIC starts with interrupt 0 at vector 0x30 and interrupt 4 at vector
/// 0x34, both for processor 0: the two registers of each are set, the low one at
/// 0x10 and twice the interrupt.
pub proof fn the_ioapic_starts_with_two_interrupts()
    ensures
        ioapic_entries().len() == 4,
        ioapic_entries()[0] == (0x10u32, 0x30u32),
        ioapic_entries()[1] == (0x11u32, 0u32),
        ioapic_entries()[2] == (0x18u32, 0x34u32),
        ioapic_entries()[3] == (0x19u32, 0u32),
{
}

/// A pin that is configured keeps the message that a source had, and its mask
/// decides whether it raises it.
pub proof fn pins_keep_the_message(g: SourceGroupView, index: u32, masked: bool, other: u32)
    ensures
        masked ==> g.updated(index, SourceConfig::Legacy, masked).raised(index) is None,
        !masked ==> g.updated(index, SourceConfig::Legacy, masked).raised(index) == if g.configs.contains_key(
            index,
        ) {
            Some(msi_interrupt(g.configs[index]))
        } else {
            None
        },
        other != index ==> g.updated(index, SourceConfig::Legacy, masked).raised(other) == g.raised(
            other,
        ),
{
}

} // verus!

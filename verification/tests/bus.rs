use cloud_hypervisor::blk::config::Interrupt;
use cloud_hypervisor::bus::{
    group_interrupt, io_bus_layout, ioapic_presets, ioapic_write_reg, mmio_bus_layout, pci_config_range, route,
    BusDeviceKind, CmosStub, ConfigAccess, InterruptSourceGroup, MsiConfig, PciConfigBridge,
    PicStub, PitStub, Port61Stub, SourceConfig,
};

#[test]
fn ports_are_routed_to_their_devices() {
    let io = io_bus_layout();
    assert_eq!(route(&io, 0x3F8), Some((BusDeviceKind::Serial, 0)));
    assert_eq!(route(&io, 0x3FF), Some((BusDeviceKind::Serial, 7)));
    assert_eq!(route(&io, 0x42), Some((BusDeviceKind::Pit, 2)));
    assert_eq!(route(&io, 0x61), Some((BusDeviceKind::Port61, 0)));
    assert_eq!(route(&io, 0x21), Some((BusDeviceKind::PicMaster, 1)));
    assert_eq!(route(&io, 0xA1), Some((BusDeviceKind::PicSlave, 1)));
    assert_eq!(route(&io, 0x71), Some((BusDeviceKind::Cmos, 1)));
    assert_eq!(route(&io, 0xCFC), None);
    assert_eq!(route(&io, 0x400), None);
    assert_eq!(route(&io, 0x22), None);
    // The PCI configuration is registered beside them.
    let mut with_pci = io.clone();
    with_pci.push(pci_config_range());
    assert_eq!(route(&with_pci, 0xCFC), Some((BusDeviceKind::PciConfig, 4)));
    assert_eq!(route(&with_pci, 0xD00), None);
}

#[test]
fn bus_ranges_are_disjoint() {
    let mut io = io_bus_layout();
    io.push(pci_config_range());
    for (i, a) in io.iter().enumerate() {
        for b in &io[i + 1..] {
            assert!(a.base + a.len <= b.base || b.base + b.len <= a.base);
        }
    }
}

#[test]
fn ioapic_is_there_for_a_kernel() {
    assert!(mmio_bus_layout(false).is_empty());
    let mmio = mmio_bus_layout(true);
    assert_eq!(route(&mmio, 0xFEC0_0010), Some((BusDeviceKind::Ioapic, 0x10)));
    assert_eq!(route(&mmio, 0xFEC0_0100), None);
}

#[test]
fn ioapic_registers_are_set_through_their_windows() {
    let (select, value) = ioapic_write_reg(0x18, 0x1234_5678);
    assert_eq!((select.offset, select.data), (0, vec![0x18, 0, 0, 0]));
    assert_eq!((value.offset, value.data), (0x10, vec![0x78, 0x56, 0x34, 0x12]));
    assert_eq!(ioapic_presets(), vec![(0x10, 0x30), (0x11, 0), (0x18, 0x34), (0x19, 0)]);
}

#[test]
fn timer_runs_down() {
    let mut pit = PitStub::new();
    let mut b = [0xEEu8];
    pit.read(2, 1000, &mut b);
    assert_eq!(b, [0]);
    pit.write(2, &[100]);
    assert_eq!(pit.reload, 100);
    pit.write(3, &[7]);
    assert_eq!(pit.reload, 100);
    pit.read(2, 0, &mut b);
    assert_eq!(b, [100]);
    // 1193 ticks in a millisecond: 11 rounds of 101 and 82 more.
    pit.read(2, 1000, &mut b);
    assert_eq!(b, [18]);
    let mut other = [0xEEu8];
    pit.read(0, 0, &mut other);
    assert_eq!(other, [0xEE]);
}

#[test]
fn port_61_toggles_with_each_read() {
    let mut port = Port61Stub::default();
    port.write(&[0x03]);
    let mut b = [0u8];
    port.read(&mut b);
    assert_eq!(b, [0x23]);
    port.read(&mut b);
    assert_eq!(b, [0x03]);
    port.read(&mut []);
    port.write(&[]);
    assert_eq!(port.value, 0x03);
}

#[test]
fn interrupt_controller_keeps_its_mask() {
    let mut pic = PicStub::default();
    pic.write(1, &[0xFB]);
    pic.write(0, &[0x11]);
    let mut b = [0xEEu8];
    pic.read(1, &mut b);
    assert_eq!(b, [0xFB]);
    pic.read(0, &mut b);
    assert_eq!(b, [0]);
    let mut clock = [0xEEu8; 3];
    CmosStub.read(&mut clock);
    assert_eq!(clock, [0, 0, 0]);
}

#[test]
fn configuration_ports_address_registers() {
    let mut bridge = PciConfigBridge { config_address: 0 };
    let mut b = [0u8; 4];
    assert_eq!(bridge.read(4, &mut b), ConfigAccess::Done);
    assert_eq!(b, [0xFF; 4]);
    assert_eq!(bridge.write(4, &[1]), ConfigAccess::Done);

    assert_eq!(bridge.write(0, &0x8000_0814u32.to_le_bytes()), ConfigAccess::Done);
    assert_eq!(bridge.read(0, &mut b), ConfigAccess::Done);
    assert_eq!(u32::from_le_bytes(b), 0x8000_0814);
    let access = ConfigAccess::Register { address: 0x8000_0814, register: 5, byte: 2 };
    assert_eq!(bridge.read(6, &mut b[..2]), access);
    assert_eq!(bridge.write(6, &[1, 2]), access);
    PciConfigBridge::finish_read(0x1122_3344, 2, &mut b[..2]);
    assert_eq!(b[..2], [0x22, 0x11]);
    // One byte of the address.
    bridge.write(1, &[0x10]);
    assert_eq!(bridge.config_address, 0x8000_1014);
    assert_eq!(bridge.read(9, &mut b), ConfigAccess::Done);
    assert_eq!(b, [0xFF; 4]);
}

#[test]
fn legacy_groups_have_consecutive_vectors() {
    assert_eq!(group_interrupt(0x30, 4), Interrupt { vector: 0x34, destination: 0 });
    assert_eq!(group_interrupt(0x30, 0x102), Interrupt { vector: 0x32, destination: 0 });
}

#[test]
fn message_sources_raise_while_unmasked() {
    let mut group = InterruptSourceGroup::new();
    assert_eq!(group.trigger(3), None);
    let msi = MsiConfig { high_addr: 0, low_addr: 0xFEE0_5000, data: 0x141 };
    group.update(3, SourceConfig::Msi(msi), false);
    assert_eq!(group.trigger(3), Some(Interrupt { vector: 0x41, destination: 5 }));
    assert_eq!(group.trigger(2), None);
    group.update(3, SourceConfig::Msi(msi), true);
    assert_eq!(group.trigger(3), None);
    // A pin leaves the message in place.
    group.update(3, SourceConfig::Legacy, false);
    assert_eq!(group.trigger(3), Some(Interrupt { vector: 0x41, destination: 5 }));
}

use cloud_hypervisor::bus::{MsiConfig, SourceConfig};
use cloud_hypervisor::whp::exits::{
    advance_rip, begin_mmio, begin_pio, finish_pio_read, handle_exit, mmio_access, pio_access,
    vcpu_step, Access, ExitReason, ExitWork, NoDevices, VcpuStep, VmExit,
};
use cloud_hypervisor::whp::registers::{
    get_msrs, get_sregs, set_msrs, set_sregs, setup_regs, special_reg_names, standard_reg_names,
    standard_regs_to_values, values_to_standard_regs, DescriptorTable, MsrEntry, Register,
    RegisterValue, SegmentRegister, SegmentValue, SpecialRegisters, VcpuWhpState, WhpClockData,
    WhpStandardRegisters, NUM_STANDARD_REGS,
};
use cloud_hypervisor::whp::vm::{
    cpuid_leaves, make_routing_entry, map_flags, pending_event, MapFlags, WhpIrqRoutingEntry,
    WhpVm, MAX_WHP_VCPUS,
};

#[test]
fn exits_are_decided() {
    assert_eq!(handle_exit(ExitReason::MemoryAccess), (ExitWork::Mmio, VmExit::Ignore));
    assert_eq!(handle_exit(ExitReason::IoPortAccess), (ExitWork::Pio, VmExit::Ignore));
    assert_eq!(handle_exit(ExitReason::Halt).1, VmExit::Shutdown);
    assert_eq!(handle_exit(ExitReason::Canceled).1, VmExit::Ignore);
    assert_eq!(handle_exit(ExitReason::ApicEoi(0x134)).1, VmExit::IoapicEoi(0x34));
    assert_eq!(handle_exit(ExitReason::UnrecoverableException).1, VmExit::Shutdown);
    assert_eq!(handle_exit(ExitReason::InvalidVpRegisterValue).1, VmExit::Shutdown);
    assert_eq!(handle_exit(ExitReason::UnsupportedFeature).1, VmExit::Shutdown);
    assert_eq!(handle_exit(ExitReason::Other), (ExitWork::Nothing, VmExit::Ignore));
}

#[test]
fn the_processor_loop_goes_on_or_ends() {
    assert_eq!(vcpu_step(Some(VmExit::Ignore)), VcpuStep::Continue);
    assert_eq!(vcpu_step(Some(VmExit::Shutdown)), VcpuStep::Halted);
    assert_eq!(vcpu_step(Some(VmExit::Reset)), VcpuStep::Reset);
    assert_eq!(vcpu_step(Some(VmExit::IoapicEoi(1))), VcpuStep::Unhandled);
    assert_eq!(vcpu_step(None), VcpuStep::Failed);
}

#[test]
fn accesses_are_decoded() {
    assert_eq!(pio_access(0b0101), Access { write: true, size: 2 });
    assert_eq!(pio_access(0b1000), Access { write: false, size: 4 });
    assert_eq!(pio_access(0), Access { write: false, size: 1 });
    assert_eq!(mmio_access(0x41), Access { write: true, size: 4 });
    assert_eq!(mmio_access(0x80), Access { write: false, size: 8 });
    assert_eq!(mmio_access(0), Access { write: false, size: 1 });
}

#[test]
fn port_accesses_move_data() {
    let out = begin_pio(0x3F8, 0b0101, 0x1122_3344, true).ok().unwrap();
    assert_eq!((out.addr, out.write, out.data), (0x3F8, true, vec![0x44, 0x33]));
    let inp = begin_pio(0x3FD, 0b0010, 0xFFFF, true).ok().unwrap();
    assert_eq!((inp.addr, inp.write, inp.data), (0x3FD, false, vec![0]));
    assert_eq!(begin_pio(0, 0, 0, false).err(), Some(NoDevices));
    assert_eq!(
        finish_pio_read(&[0x44, 0x33]),
        (Register::Rax, RegisterValue::Reg64(0x3344))
    );
    assert_eq!(advance_rip(0x1000, 3), (Register::Rip, RegisterValue::Reg64(0x1003)));
}

#[test]
fn memory_accesses_start_with_zeros() {
    let a = begin_mmio(0xFEC0_0010, 0x40, true).ok().unwrap();
    assert_eq!((a.addr, a.write, a.data), (0xFEC0_0010, false, vec![0; 4]));
    assert_eq!(begin_mmio(0, 0, false).err(), Some(NoDevices));
}

// ─── Registers ───────────────────────────────────────────────────────────────

#[test]
fn standard_registers_keep_their_order() {
    let names = standard_reg_names();
    assert_eq!(names.len(), NUM_STANDARD_REGS);
    assert_eq!(names[0], Register::Rax);
    assert_eq!(names[16], Register::Rip);
    assert_eq!(names[17], Register::Rflags);
    let values: Vec<u64> = (100..118).collect();
    let regs = values_to_standard_regs(&values);
    assert_eq!((regs.rax, regs.rbx, regs.rcx, regs.rdx), (100, 101, 102, 103));
    assert_eq!((regs.rsi, regs.rdi, regs.rsp, regs.rbp), (104, 105, 106, 107));
    assert_eq!((regs.r8, regs.r15, regs.rip, regs.rflags), (108, 115, 116, 117));
    assert_eq!(standard_regs_to_values(&regs)[..], values[..]);
}

#[test]
fn segments_are_packed() {
    let code = SegmentRegister {
        base: 0x1000,
        limit: 0xFFFF,
        selector: 0x10,
        type_: 0xB,
        present: 1,
        dpl: 3,
        db: 1,
        s: 1,
        l: 0,
        g: 1,
        avl: 0,
        unusable: 0,
    };
    let packed = code.to_value();
    assert_eq!(packed.attributes, 0x0B | 0x10 | 0x60 | 0x80 | 0x400 | 0x800);
    assert_eq!((packed.base, packed.limit, packed.selector), (0x1000, 0xFFFF, 0x10));
    assert_eq!(packed.to_segment(), code);
}

#[test]
fn special_registers_are_read() {
    let names = special_reg_names();
    assert_eq!(names.len(), 17);
    let segment = |n: u16| {
        RegisterValue::Segment(SegmentValue { base: 0, limit: 0, selector: n, attributes: 0 })
    };
    let mut values: Vec<RegisterValue> = (0..7u64).map(RegisterValue::Reg64).collect();
    values.extend((7..15u16).map(segment));
    values.push(RegisterValue::Table(DescriptorTable { base: 15, limit: 150 }));
    values.push(RegisterValue::Table(DescriptorTable { base: 16, limit: 160 }));
    let s = get_sregs(&values);
    assert_eq!((s.cr0, s.cr2, s.cr3, s.cr4, s.cr8, s.efer, s.apic_base), (0, 1, 2, 3, 4, 5, 6));
    assert_eq!((s.cs.selector, s.ds.selector, s.es.selector, s.fs.selector), (7, 8, 9, 10));
    assert_eq!((s.gs.selector, s.ss.selector, s.tr.selector, s.ldt.selector), (11, 12, 13, 14));
    assert_eq!((s.gdt.base, s.idt.limit), (15, 160));
    let writes = set_sregs(&s);
    assert_eq!(writes.len(), 15);
    for (name, value) in writes {
        let at = names.iter().position(|n| *n == name).unwrap();
        assert_eq!(values[at], value);
    }
}

#[test]
fn saved_state_keeps_control_registers() {
    let mut regs = WhpStandardRegisters::default();
    regs.rip = 0x1234;
    let mut sregs = SpecialRegisters::default();
    sregs.cr3 = 0xA000;
    sregs.efer = 0x500;
    sregs.cs.selector = 8;
    let state = VcpuWhpState::new(&regs, &sregs);
    assert_eq!(state.regs.rip, 0x1234);
    assert_eq!(state.sregs.cr3, 0xA000);
    assert!(state.msrs.is_empty());
    assert_eq!(state.clock, WhpClockData { tsc_value: 0, tsc_frequency: 0 });
    let restored = state.restored_sregs();
    assert_eq!((restored.cr3, restored.efer), (0xA000, 0x500));
    assert_eq!(restored.cs.selector, 0);
}

#[test]
fn model_specific_registers_are_counted() {
    let mut msrs =
        vec![MsrEntry { index: 0x10, data: 7 }, MsrEntry { index: 0xC000_0080, data: 7 }];
    assert_eq!(get_msrs(&mut msrs, &[Some(0x99), None]), 2);
    assert_eq!(msrs[0], MsrEntry { index: 0x10, data: 0x99 });
    assert_eq!(msrs[1], MsrEntry { index: 0xC000_0080, data: 0 });
    assert_eq!(set_msrs(&[true, false, true]), 2);
}

#[test]
fn processors_start_in_real_mode() {
    let mut before = SpecialRegisters::default();
    before.cr0 = 0x10;
    let (regs, sregs) = setup_regs(&WhpStandardRegisters::default(), &before, 0x2000);
    assert_eq!((regs.rip, regs.rflags, regs.rax), (0x2000, 2, 0));
    assert_eq!(sregs.cr0, 0x10);
    assert_eq!((sregs.cs.type_, sregs.ds.type_), (0xB, 0x3));
    assert_eq!((sregs.cs.limit, sregs.cs.present, sregs.cs.s), (0xFFFF, 1, 1));
    assert_eq!((sregs.es, sregs.ss), (sregs.ds, sregs.ds));
}

// ─── Virtual machines ────────────────────────────────────────────────────────

#[test]
fn routes_are_found_by_their_number() {
    let msi = SourceConfig::Msi(MsiConfig { high_addr: 1, low_addr: 2, data: 3 });
    let e = make_routing_entry(5, &msi);
    assert_eq!(e, WhpIrqRoutingEntry { gsi: 5, address_hi: 1, address_lo: 2, data: 3 });
    let pin = make_routing_entry(6, &SourceConfig::Legacy);
    assert_eq!(pin, WhpIrqRoutingEntry { gsi: 6, address_hi: 0, address_lo: 0, data: 0 });
    let mut vm = WhpVm::new();
    let later = WhpIrqRoutingEntry { data: 9, ..e };
    vm.set_gsi_routing(&[e, pin, later]);
    assert_eq!(vm.gsi_route(5), Some(later));
    assert_eq!(vm.gsi_route(6), Some(pin));
    assert_eq!(vm.gsi_route(7), None);
    vm.set_gsi_routing(&[]);
    assert_eq!(vm.gsi_route(5), None);
}

#[test]
fn partitions_are_set_up_once() {
    let mut vm = WhpVm::new();
    assert_eq!(vm.ensure_setup(), Some(1));
    vm.note_vcpu(3);
    vm.note_vcpu(0);
    assert_eq!(vm.ensure_setup(), Some(4));
    vm.mark_setup();
    assert_eq!(vm.ensure_setup(), None);
    assert_eq!(MAX_WHP_VCPUS, 240);
}

#[test]
fn memory_is_mapped_by_its_use() {
    assert_eq!(map_flags(false), MapFlags { read: true, write: true, execute: true });
    assert_eq!(map_flags(true), MapFlags { read: true, write: false, execute: false });
}

#[test]
fn pending_events_hold_their_vector() {
    assert_eq!(pending_event(0x30), 0x30_000B);
    assert_eq!((pending_event(0xFF) >> 16) as u8, 0xFF);
}

#[test]
fn identification_leaves_are_listed() {
    assert_eq!(cpuid_leaves(0).len(), 14);
    let leaves = cpuid_leaves(0x8000_0008);
    assert_eq!(leaves.len(), 14 + 9);
    assert_eq!((leaves[0], leaves[13], leaves[14], leaves[22]), (0, 13, 0x8000_0000, 0x8000_0008));
    assert_eq!(cpuid_leaves(u32::MAX).len(), 14 + 33);
}

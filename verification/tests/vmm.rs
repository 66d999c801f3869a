use cloud_hypervisor::cli::{
    cli_groups, default_memory, default_rng, default_vcpus, get_cli_options_sorted,
    prepare_default_values, NumArgs, OptionAction, OptionGroup, OptionHelp, OptionValues,
};
use cloud_hypervisor::disk::{DiskError, DiskOps, MemDisk};
use cloud_hypervisor::lock::{
    clear_lock, get_lock_state, try_acquire_lock, LockGranularity, LockGranularityChoice,
    LockState, LockType,
};
use cloud_hypervisor::raw_sync::{RawFileSync, SECTOR_SIZE};
use cloud_hypervisor::vmm::{
    api_step, check_bootable, console_step, control_action, control_step, feature_list,
    prepare_input, BootError, ConsoleRead, ConsoleStep, ControlAction, ControlState,
    EpollDispatch, InvalidMemorySize, MemoryManager, VmmVersionInfo,
};

// ─── Control loop ────────────────────────────────────────────────────────────

#[test]
fn dispatch_tokens_are_their_own_inverse() {
    for d in [
        EpollDispatch::Exit,
        EpollDispatch::Reset,
        EpollDispatch::Api,
        EpollDispatch::ActivateVirtioDevices,
    ] {
        assert_eq!(EpollDispatch::from(d.token()), d);
    }
    assert_eq!(EpollDispatch::Exit.token(), 0);
    assert_eq!(EpollDispatch::from(77), EpollDispatch::Unknown);
}

#[test]
fn control_events_lead_to_actions() {
    assert_eq!(control_action(EpollDispatch::Exit.token()), ControlAction::Stop);
    assert_eq!(control_action(EpollDispatch::Reset.token()), ControlAction::Reset);
    assert_eq!(control_action(EpollDispatch::Api.token()), ControlAction::ServeApi);
    assert_eq!(
        control_action(EpollDispatch::ActivateVirtioDevices.token()),
        ControlAction::Activate
    );
    assert_eq!(control_action(1000), ControlAction::Ignore);
}

#[test]
fn control_loop_goes_through_its_events() {
    let exit = EpollDispatch::Exit.token();
    let api = EpollDispatch::Api.token();
    let reset = EpollDispatch::Reset.token();
    assert_eq!(control_step(exit, 0, 3, 0), ControlState::Stopped);
    assert_eq!(control_step(reset, 0, 3, 0), ControlState::Event(1));
    assert_eq!(control_step(reset, 2, 3, 0), ControlState::Wait);
    assert_eq!(control_step(api, 1, 3, 2), ControlState::Api(2, 1));
    assert_eq!(control_step(api, 1, 3, 0), ControlState::Event(2));
    assert_eq!(api_step(2, 1, 3, false), ControlState::Api(1, 1));
    assert_eq!(api_step(1, 1, 3, false), ControlState::Event(2));
    assert_eq!(api_step(1, 2, 3, false), ControlState::Wait);
    assert_eq!(api_step(2, 1, 3, true), ControlState::Stopped);
}

#[test]
fn a_machine_needs_its_parts_to_boot() {
    assert_eq!(check_bootable(true, true, true), Ok(()));
    assert_eq!(check_bootable(false, false, false), Err(BootError::NotCreated));
    assert_eq!(check_bootable(true, false, false), Err(BootError::NoMemoryManager));
    assert_eq!(check_bootable(true, true, false), Err(BootError::NoDeviceManager));
}

#[test]
fn memory_slots_are_numbered() {
    assert_eq!(MemoryManager::new(0).err(), Some(InvalidMemorySize));
    let mut m = MemoryManager::new(4096).unwrap();
    assert_eq!(m.ram_size(), 4096);
    assert_eq!(m.map_region(), 1);
    assert_eq!(m.map_region(), 2);
    m.next_slot = u32::MAX;
    assert_eq!(m.map_region(), u32::MAX);
    assert_eq!(m.map_region(), 0);
}

#[test]
fn console_input_is_queued() {
    assert_eq!(console_step(ConsoleRead::Bytes(0)), ConsoleStep::Stop);
    assert_eq!(console_step(ConsoleRead::Bytes(4)), ConsoleStep::Queue(4));
    assert_eq!(console_step(ConsoleRead::Interrupted), ConsoleStep::Retry);
    assert_eq!(console_step(ConsoleRead::Failed), ConsoleStep::SignalExit);
    let mut one = [0x0A, 9];
    prepare_input(&mut one, 1);
    assert_eq!(one, [0x0D, 9]);
    let mut two = [0x0A, 0x0A];
    prepare_input(&mut two, 2);
    assert_eq!(two, [0x0A, 0x0A]);
}

#[test]
fn versions_and_features() {
    let info = VmmVersionInfo::new("v1-dirty", "v1");
    assert_eq!((info.build_version.as_str(), info.version.as_str()), ("v1-dirty", "v1"));
    assert_eq!(feature_list(), vec!["whp".to_string()]);
}

// ─── Locks ───────────────────────────────────────────────────────────────────

#[test]
fn lock_granularities_are_parsed() {
    assert_eq!(LockGranularityChoice::parse("full"), Ok(LockGranularityChoice::Full));
    assert_eq!("byte-range".parse(), Ok(LockGranularityChoice::ByteRange));
    assert_eq!(
        LockGranularityChoice::parse("half"),
        Err("Unknown lock granularity: half".to_string())
    );
    assert_eq!(LockGranularityChoice::default(), LockGranularityChoice::Full);
}

#[test]
fn locks_are_granted_without_effect() {
    let file = 0u8;
    for kind in [LockType::Read, LockType::Write, LockType::Unlock] {
        assert!(try_acquire_lock(&file, kind, LockGranularity::WholeFile).is_ok());
    }
    assert!(clear_lock(&file, LockGranularity::ByteRange(0, 10)).is_ok());
    assert_eq!(
        get_lock_state(&file, LockGranularity::WholeFile).ok(),
        Some(LockState::Unlocked)
    );
}

// ─── Raw files ───────────────────────────────────────────────────────────────

#[test]
fn completions_come_in_order() {
    let mut io = RawFileSync::new();
    let mut disk = MemDisk::new(vec![1u8; 16]);
    assert_eq!(io.alignment(), SECTOR_SIZE);
    assert_eq!(io.next_completed_request(), None);
    io.complete_vectored(1, &[512, 100]);
    assert_eq!(io.fsync(&mut disk, Some(2)), Ok(()));
    assert_eq!(io.fsync(&mut disk, None), Ok(()));
    io.punch_hole(0, 16, 3);
    assert_eq!(io.write_zeroes(&mut disk, 4, 8, 4), Ok(()));
    let got: Vec<(u64, i32)> =
        (0..4).map(|_| io.next_completed_request().unwrap()).collect();
    assert_eq!(got, vec![(1, 612), (2, 0), (3, 0), (4, 0)]);
    assert_eq!(io.next_completed_request(), None);
    assert_eq!(disk.bytes(), &[1, 1, 1, 1, 0, 0, 0, 0, 0, 0, 0, 0, 1, 1, 1, 1]);
}

#[test]
fn zeros_are_written_in_pieces() {
    let mut io = RawFileSync::new();
    let size = 0x10_0000 * 2 + 5;
    let mut disk = MemDisk::new(vec![7u8; size + 2]);
    assert_eq!(io.write_zeroes(&mut disk, 1, size as u64, 9), Ok(()));
    assert_eq!(disk.bytes()[0], 7);
    assert_eq!(disk.bytes()[size + 1], 7);
    assert!(disk.bytes()[1..size + 1].iter().all(|b| *b == 0));
}

struct BrokenDisk;

impl DiskOps for BrokenDisk {
    fn seek(&mut self, _offset: u64) -> Result<(), DiskError> {
        Ok(())
    }

    fn read_exact(&mut self, _buf: &mut [u8]) -> Result<(), DiskError> {
        Err(DiskError)
    }

    fn write_all(&mut self, _data: &[u8]) -> Result<(), DiskError> {
        Err(DiskError)
    }

    fn flush(&mut self) -> Result<(), DiskError> {
        Err(DiskError)
    }
}

#[test]
fn failed_operations_complete_nothing() {
    let mut io = RawFileSync::new();
    assert_eq!(io.fsync(&mut BrokenDisk, Some(1)), Err(DiskError));
    assert_eq!(io.write_zeroes(&mut BrokenDisk, 0, 4, 2), Err(DiskError));
    assert_eq!(io.next_completed_request(), None);
}

// ─── Command line ────────────────────────────────────────────────────────────

#[test]
fn options_are_sorted_by_name() {
    let (vcpus, memory, rng) = prepare_default_values();
    assert_eq!(vcpus, "boot=1,max_phys_bits=46");
    assert_eq!(memory, "size=512M");
    assert_eq!(rng, "src=/dev/urandom");
    assert_eq!((default_vcpus(), default_memory(), default_rng()), (vcpus.clone(), memory.clone(), rng.clone()));
    let options = get_cli_options_sorted(vcpus, memory, rng);
    let names: Vec<&str> = options.iter().map(|o| o.name).collect();
    let mut sorted = names.clone();
    sorted.sort();
    assert_eq!(names, sorted);
    let of = |name: &str| options.iter().find(|o| o.name == name).unwrap();
    assert_eq!(of("cpus").default.as_deref(), Some("boot=1,max_phys_bits=46"));
    assert_eq!(of("memory").default.as_deref(), Some("size=512M"));
    assert_eq!(of("kernel").group, OptionGroup::VmPayload);
    assert_eq!(of("disk").num_args, NumArgs::OneOrMore);
    let scsi = of("scsi");
    assert_eq!((scsi.num_args, scsi.action), (NumArgs::OneOrMore, OptionAction::Append));
    assert_eq!((scsi.group, scsi.long), (OptionGroup::VmConfig, true));
    assert_eq!((of("v").short, of("v").action), (Some('v'), OptionAction::Count));
    assert_eq!(of("seccomp").values, OptionValues::TrueFalseLog);
    assert!(matches!(of("disk").help, OptionHelp::Syntax(_)));
}

#[test]
fn option_groups_are_declared() {
    let groups = cli_groups();
    let names: Vec<&str> = groups.iter().map(|g| g.name).collect();
    assert_eq!(names, vec!["vm-config", "vmm-config", "logging", "vm-payload"]);
    assert_eq!(groups[0].needs, Some(OptionGroup::VmPayload));
}

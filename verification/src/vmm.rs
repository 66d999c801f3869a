//! The monitor's control loop, its memory slots and its serial console input.
use vstd::prelude::*;

verus! {

/// Version of the monitor.
#[derive(Debug, Clone)]
pub struct VmmVersionInfo {
    pub build_version: String,
    pub version: String,
}

impl VmmVersionInfo {
    /// The version information for a build and a version.
    pub fn new(build_version: &str, version: &str) -> (info: Self)
        ensures
            info.build_version@ == build_version@,
            info.version@ == version@,
    {
        VmmVersionInfo { build_version: build_version.to_owned(), version: version.to_owned() }
    }
}

/// The features that are built in: the Windows Hypervisor Platform.
pub fn feature_list() -> (features: Vec<String>)
    ensures
        features@.len() == 1,
        features@[0]@ == "whp"@,
{
    let mut features: Vec<String> = Vec::new();
    features.push("whp".to_owned());
    features
}

// ─── Control loop ────────────────────────────────────────────────────────────

/// Sources of the control loop's events.
#[derive(Debug, Clone, Copy, PartialEq, Eq, Structural)]
pub enum EpollDispatch {
    Exit,
    Reset,
    Api,
    ActivateVirtioDevices,
    Unknown,
}

impl EpollDispatch {
    /// The source of an event's token.
    pub open spec fn of_token(v: u64) -> EpollDispatch {
        match v {
            0 => EpollDispatch::Exit,
            1 => EpollDispatch::Reset,
            2 => EpollDispatch::Api,
            3 => EpollDispatch::ActivateVirtioDevices,
            _ => EpollDispatch::Unknown,
        }
    }

    /// The token of a source.
    pub open spec fn spec_token(self) -> u64 {
        match self {
            EpollDispatch::Exit => 0,
            EpollDispatch::Reset => 1,
            EpollDispatch::Api => 2,
            EpollDispatch::ActivateVirtioDevices => 3,
            EpollDispatch::Unknown => 4,
        }
    }

    /// The token of a source.
    pub fn token(self) -> (v: u64)
        ensures
            v == self.spec_token(),
    {
        match self {
            EpollDispatch::Exit => 0,
            EpollDispatch::Reset => 1,
            EpollDispatch::Api => 2,
            EpollDispatch::ActivateVirtioDevices => 3,
            EpollDispatch::Unknown => 4,
        }
    }
}

impl vstd::std_specs::convert::FromSpecImpl<u64> for EpollDispatch {
    open spec fn obeys_from_spec() -> bool {
        true
    }

    open spec fn from_spec(v: u64) -> EpollDispatch {
        EpollDispatch::of_token(v)
    }
}

impl From<u64> for EpollDispatch {
    fn from(v: u64) -> (d: Self) {
        match v {
            0 => EpollDispatch::Exit,
            1 => EpollDispatch::Reset,
            2 => EpollDispatch::Api,
            3 => EpollDispatch::ActivateVirtioDevices,
            _ => EpollDispatch::Unknown,
        }
    }
}

/// Each source is that of its own token.
pub proof fn dispatch_tokens_round_trip(d: EpollDispatch)
    ensures
        EpollDispatch::of_token(d.spec_token()) == d,
{
}

/// What the control loop does about an event.
#[derive(Debug, Clone, Copy, PartialEq, Eq, Structural)]
pub enum ControlAction {
    /// Read the exit event and stop.
    Stop,
    /// Read the reset event and go on.
    Reset,
    /// Read the activation event and go on.
    Activate,
    /// Read the API event, and serve as many requests as it counts.
    ServeApi,
    /// Nothing.
    Ignore,
}

/// What the control loop does about an event with the given token.
pub open spec fn control_of(token: u64) -> ControlAction {
    match EpollDispatch::of_token(token) {
        EpollDispatch::Exit => ControlAction::Stop,
        EpollDispatch::Reset => ControlAction::Reset,
        EpollDispatch::ActivateVirtioDevices => ControlAction::Activate,
        EpollDispatch::Api => ControlAction::ServeApi,
        EpollDispatch::Unknown => ControlAction::Ignore,
    }
}

/// Decides what the control loop does about an event with the given token.
pub fn control_action(token: u64) -> (action: ControlAction)
    ensures
        action == control_of(token),
{
    let dispatch: EpollDispatch = EpollDispatch::from(token);
    match dispatch {
        EpollDispatch::Exit => ControlAction::Stop,
        EpollDispatch::Reset => ControlAction::Reset,
        EpollDispatch::ActivateVirtioDevices => ControlAction::Activate,
        EpollDispatch::Api => ControlAction::ServeApi,
        EpollDispatch::Unknown => ControlAction::Ignore,
    }
}

/// Where the control loop is.
#[derive(Debug, Clone, Copy, PartialEq, Eq, Structural)]
pub enum ControlState {
    /// At the next of the events, by its index
    Event(usize),
    /// At an event of the API with this many requests still to serve, then at
    /// the event of this index
    Api(u64, usize),
    /// Waiting for events
    Wait,
    /// At its end
    Stopped,
}

/// The state behind the event at `i` of `count` events.
pub open spec fn next_event(i: usize, count: usize) -> ControlState {
    if i + 1 < count {
        ControlState::Event((i + 1) as usize)
    } else {
        ControlState::Wait
    }
}

/// The state behind an event: of the API, with `pending` requests.
pub open spec fn after_event(token: u64, i: usize, count: usize, pending: u64) -> ControlState {
    match control_of(token) {
        ControlAction::Stop => ControlState::Stopped,
        ControlAction::ServeApi => if pending > 0 {
            ControlState::Api(pending, i)
        } else {
            next_event(i, count)
        },
        _ => next_event(i, count),
    }
}

/// Moves the control loop on behind the event at `i` of `count`, which has the
/// given token and, as one of the API, counts `pending` requests.
pub fn control_step(token: u64, i: usize, count: usize, pending: u64) -> (state: ControlState)
    requires
        i < count,
    ensures
        state == after_event(token, i, count, pending),
{
    let next = if i + 1 < count {
        ControlState::Event(i + 1)
    } else {
        ControlState::Wait
    };
    match control_action(token) {
        ControlAction::Stop => ControlState::Stopped,
        ControlAction::ServeApi => if pending > 0 {
            ControlState::Api(pending, i)
        } else {
            next
        },
        _ => next,
    }
}

/// The state behind a request of the API, of which `remaining` were left with
/// it: a request that asks for it stops the loop.
pub open spec fn after_request(remaining: u64, i: usize, count: usize, stop: bool) -> ControlState {
    if stop {
        ControlState::Stopped
    } else if remaining > 1 {
        ControlState::Api((remaining - 1) as u64, i)
    } else {
        next_event(i, count)
    }
}

/// Moves the control loop on behind a request of the API.
pub fn api_step(remaining: u64, i: usize, count: usize, stop: bool) -> (state: ControlState)
    requires
        i < count,
    ensures
        state == after_request(remaining, i, count, stop),
{
    if stop {
        ControlState::Stopped
    } else if remaining > 1 {
        ControlState::Api(remaining - 1, i)
    } else if i + 1 < count {
        ControlState::Event(i + 1)
    } else {
        ControlState::Wait
    }
}

/// The loop stops exactly at an exit event and at a request that asks for it.
pub proof fn the_loop_stops_when_asked(
    token: u64,
    i: usize,
    count: usize,
    pending: u64,
    remaining: u64,
    stop: bool,
)
    ensures
        after_event(token, i, count, pending) == ControlState::Stopped <==> token == 0,
        after_request(remaining, i, count, stop) == ControlState::Stopped <==> stop,
{
}

// ─── Virtual machine ─────────────────────────────────────────────────────────

/// Why a virtual machine cannot be booted.
#[derive(Debug, Clone, Copy, PartialEq, Eq, Structural)]
pub enum BootError {
    /// There is no virtual machine.
    NotCreated,
    /// There is no memory manager.
    NoMemoryManager,
    /// There is no device manager.
    NoDeviceManager,
}

/// Checks that a virtual machine can be booted: it, its memory manager and its
/// device manager were created.
pub fn check_bootable(vm: bool, memory: bool, devices: bool) -> (r: Result<(), BootError>)
    ensures
        r == if !vm {
            Err::<(), BootError>(BootError::NotCreated)
        } else if !memory {
            Err::<(), BootError>(BootError::NoMemoryManager)
        } else if !devices {
            Err::<(), BootError>(BootError::NoDeviceManager)
        } else {
            Ok::<(), BootError>(())
        },
{
    if !vm {
        return Err(BootError::NotCreated);
    }
    if !memory {
        return Err(BootError::NoMemoryManager);
    }
    if !devices {
        return Err(BootError::NoDeviceManager);
    }
    Ok(())
}

/// Guest memory cannot be configured: its size is zero.
#[derive(Debug, Clone, Copy, PartialEq, Eq, Structural)]
pub struct InvalidMemorySize;

/// Guest memory: one region from address zero in slot 0, and the slots of
/// further regions.
#[derive(Debug, Clone, Copy, PartialEq, Eq, Structural)]
pub struct MemoryManager {
    /// Slot of the next region
    pub next_slot: u32,
    /// Size of guest memory
    pub ram_size: usize,
}

impl MemoryManager {
    /// Guest memory of the given size.
    pub fn new(ram_size: usize) -> (r: Result<Self, InvalidMemorySize>)
        ensures
            r == if ram_size == 0 {
                Err::<MemoryManager, InvalidMemorySize>(InvalidMemorySize)
            } else {
                Ok::<MemoryManager, InvalidMemorySize>(MemoryManager { next_slot: 1, ram_size })
            },
    {
        if ram_size == 0 {
            return Err(InvalidMemorySize);
        }
        Ok(MemoryManager { next_slot: 1, ram_size })
    }

    /// The size of guest memory in bytes.
    pub fn ram_size(&self) -> (n: usize)
        ensures
            n == self.ram_size,
    {
        self.ram_size
    }

    /// Takes the slot for a further region, whether or not it can then be
    /// mapped.
    pub fn map_region(&mut self) -> (slot: u32)
        ensures
            slot == old(self).next_slot,
            final(self).next_slot == (old(self).next_slot + 1) % 0x1_0000_0000,
            final(self).ram_size == old(self).ram_size,
    {
        let slot: u32 = self.next_slot;
        self.next_slot = slot.wrapping_add(1);
        slot
    }
}

// ─── Serial console ──────────────────────────────────────────────────────────

/// How a read of the console ended.
#[derive(Debug, Clone, Copy, PartialEq, Eq, Structural)]
pub enum ConsoleRead {
    /// With this many bytes, none at the end of the input
    Bytes(usize),
    /// By a signal
    Interrupted,
    /// With an error
    Failed,
}

/// What the console reader does after a read.
#[derive(Debug, Clone, Copy, PartialEq, Eq, Structural)]
pub enum ConsoleStep {
    /// Queue this many bytes to the serial device and read on.
    Queue(usize),
    /// Read on.
    Retry,
    /// Stop.
    Stop,
    /// Signal the exit event and stop.
    SignalExit,
}

/// Decides what the console reader does after a read.
pub fn console_step(read: ConsoleRead) -> (step: ConsoleStep)
    ensures
        step == match read {
            ConsoleRead::Bytes(n) => if n == 0 {
                ConsoleStep::Stop
            } else {
                ConsoleStep::Queue(n)
            },
            ConsoleRead::Interrupted => ConsoleStep::Retry,
            ConsoleRead::Failed => ConsoleStep::SignalExit,
        },
{
    match read {
        ConsoleRead::Bytes(n) => if n == 0 {
            ConsoleStep::Stop
        } else {
            ConsoleStep::Queue(n)
        },
        ConsoleRead::Interrupted => ConsoleStep::Retry,
        ConsoleRead::Failed => ConsoleStep::SignalExit,
    }
}

/// Prepares `count` bytes of console input for the serial device: a line feed
/// that came alone becomes a carriage return.
pub fn prepare_input(buf: &mut [u8], count: usize)
    requires
        count <= old(buf)@.len(),
    ensures
        final(buf)@ == if count == 1 && old(buf)@[0] == 0x0A {
            old(buf)@.update(0, 0x0D)
        } else {
            old(buf)@
        },
{
    if count == 1 && buf[0] == 0x0A {
        buf[0] = 0x0D;
    }
}

// ─── Laws ────────────────────────────────────────────────────────────────────

/// What the control loop does about each token: it stops at 0, resets at 1, serves
/// the API at 2, activates devices at 3, and ignores any other; and each source has
/// its token.
pub proof fn control_follows_the_token(token: u64)
    ensures
        control_of(0) == ControlAction::Stop,
        control_of(1) == ControlAction::Reset,
        control_of(2) == ControlAction::ServeApi,
        control_of(3) == ControlAction::Activate,
        token > 3 ==> control_of(token) == ControlAction::Ignore,
        EpollDispatch::Exit.spec_token() == 0,
        EpollDispatch::Reset.spec_token() == 1,
        EpollDispatch::Api.spec_token() == 2,
        EpollDispatch::ActivateVirtioDevices.spec_token() == 3,
        EpollDispatch::Unknown.spec_token() == 4,
        token > 3 ==> EpollDispatch::of_token(token) == EpollDispatch::Unknown,
{
}

/// Where the control loop goes: behind an event of the API it serves all of its
/// pending requests one by one, and behind the last of them, and behind any other
/// event that does not stop it, it comes to the next event of the wait, or waits
/// again behind the last.
pub proof fn control_serves_every_request(
    token: u64,
    i: usize,
    count: usize,
    pending: u64,
    remaining: u64,
)
    requires
        i < count,
        0 < remaining,
    ensures
        ({
            let next = if i + 1 == count {
                ControlState::Wait
            } else {
                ControlState::Event((i + 1) as usize)
            };
            &&& token == 2 && pending > 0 ==> after_event(token, i, count, pending)
                == ControlState::Api(pending, i)
            &&& token == 2 && pending == 0 ==> after_event(token, i, count, pending) == next
            &&& token != 0 && token != 2 ==> after_event(token, i, count, pending) == next
            &&& remaining > 1 ==> after_request(remaining, i, count, false) == ControlState::Api(
                (remaining - 1) as u64,
                i,
            )
            &&& remaining == 1 ==> after_request(remaining, i, count, false) == next
        }),
{
}

} // verus!

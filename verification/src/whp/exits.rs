//! Exits of a virtual processor: what they ask for and how they end.
use vstd::prelude::*;

use crate::bytes::{le64, le64_at, le_value, push_bytes, push_le64, push_zeros, zeros};
use crate::whp::registers::{Register, RegisterValue};

verus! {

/// Why a virtual processor stopped running.
#[derive(Debug, Clone, Copy, PartialEq, Eq, Structural)]
pub enum ExitReason {
    /// Access to memory that is not mapped
    MemoryAccess,
    /// Access to a port
    IoPortAccess,
    /// The processor halted
    Halt,
    /// The run was cancelled
    Canceled,
    /// End of interrupt for a vector
    ApicEoi(u32),
    /// An exception that the guest cannot handle
    UnrecoverableException,
    /// Register values that cannot be
    InvalidVpRegisterValue,
    /// A feature that the platform lacks
    UnsupportedFeature,
    /// Anything else
    Other,
}

/// How an exit ends.
#[derive(Debug, Clone, Copy, PartialEq, Eq, Structural)]
pub enum VmExit {
    /// The processor goes on.
    Ignore,
    /// The virtual machine shuts down.
    Shutdown,
    /// The virtual machine is reset.
    Reset,
    /// The I/O APIC sees the end of an interrupt.
    IoapicEoi(u8),
}

/// What an exit asks for before it ends.
#[derive(Debug, Clone, Copy, PartialEq, Eq, Structural)]
pub enum ExitWork {
    Nothing,
    Mmio,
    Pio,
}

/// What an exit asks for, and how it ends.
pub open spec fn exit_outcome(reason: ExitReason) -> (ExitWork, VmExit) {
    match reason {
        ExitReason::MemoryAccess => (ExitWork::Mmio, VmExit::Ignore),
        ExitReason::IoPortAccess => (ExitWork::Pio, VmExit::Ignore),
        ExitReason::Halt => (ExitWork::Nothing, VmExit::Shutdown),
        ExitReason::Canceled => (ExitWork::Nothing, VmExit::Ignore),
        ExitReason::ApicEoi(vector) => (
            ExitWork::Nothing,
            VmExit::IoapicEoi((vector % 256) as u8),
        ),
        ExitReason::UnrecoverableException => (ExitWork::Nothing, VmExit::Shutdown),
        ExitReason::InvalidVpRegisterValue => (ExitWork::Nothing, VmExit::Shutdown),
        ExitReason::UnsupportedFeature => (ExitWork::Nothing, VmExit::Shutdown),
        ExitReason::Other => (ExitWork::Nothing, VmExit::Ignore),
    }
}

/// Decides on an exit.
pub fn handle_exit(reason: ExitReason) -> (r: (ExitWork, VmExit))
    ensures
        r == exit_outcome(reason),
{
    match reason {
        ExitReason::MemoryAccess => (ExitWork::Mmio, VmExit::Ignore),
        ExitReason::IoPortAccess => (ExitWork::Pio, VmExit::Ignore),
        ExitReason::Halt => (ExitWork::Nothing, VmExit::Shutdown),
        ExitReason::Canceled => (ExitWork::Nothing, VmExit::Ignore),
        ExitReason::ApicEoi(vector) => (
            ExitWork::Nothing,
            VmExit::IoapicEoi((vector % 256) as u8),
        ),
        ExitReason::UnrecoverableException => (ExitWork::Nothing, VmExit::Shutdown),
        ExitReason::InvalidVpRegisterValue => (ExitWork::Nothing, VmExit::Shutdown),
        ExitReason::UnsupportedFeature => (ExitWork::Nothing, VmExit::Shutdown),
        ExitReason::Other => (ExitWork::Nothing, VmExit::Ignore),
    }
}

/// What the processor's thread does after a run.
#[derive(Debug, Clone, Copy, PartialEq, Eq, Structural)]
pub enum VcpuStep {
    /// Run again.
    Continue,
    /// Stop: the guest halted.
    Halted,
    /// Stop: the guest was reset.
    Reset,
    /// Stop: the exit is not handled.
    Unhandled,
    /// Stop: the run failed.
    Failed,
}

/// What the processor's thread does after a run that ended in `exit`, or
/// failed.
pub fn vcpu_step(exit: Option<VmExit>) -> (step: VcpuStep)
    ensures
        step == match exit {
            Some(VmExit::Ignore) => VcpuStep::Continue,
            Some(VmExit::Shutdown) => VcpuStep::Halted,
            Some(VmExit::Reset) => VcpuStep::Reset,
            Some(VmExit::IoapicEoi(_)) => VcpuStep::Unhandled,
            None => VcpuStep::Failed,
        },
{
    match exit {
        Some(VmExit::Ignore) => VcpuStep::Continue,
        Some(VmExit::Shutdown) => VcpuStep::Halted,
        Some(VmExit::Reset) => VcpuStep::Reset,
        Some(VmExit::IoapicEoi(_)) => VcpuStep::Unhandled,
        None => VcpuStep::Failed,
    }
}

// ─── Accesses ────────────────────────────────────────────────────────────────

/// An access of the guest to a device.
#[derive(Debug, Clone, Copy, PartialEq, Eq, Structural)]
pub struct Access {
    /// Whether the guest writes
    pub write: bool,
    /// Number of bytes
    pub size: usize,
}

/// A port access: bit 0 says whether the guest writes, bits 1 to 3 hold the
/// size, of which zero stands for one byte.
pub open spec fn pio_access_of(info: u32) -> Access {
    Access {
        write: info % 2 == 1,
        size: if info / 2 % 8 == 0 {
            1
        } else {
            (info / 2 % 8) as usize
        },
    }
}

/// Decodes a port access.
pub fn pio_access(info: u32) -> (a: Access)
    ensures
        a == pio_access_of(info),
        1 <= a.size <= 7,
{
    let size: usize = (info / 2 % 8) as usize;
    Access {
        write: info % 2 != 0,
        size: if size == 0 {
            1
        } else {
            size
        },
    }
}

/// A memory access: bit 0 says whether the guest writes, bits 4 to 7 hold the
/// size, of which zero stands for one byte.
pub open spec fn mmio_access_of(info: u32) -> Access {
    Access {
        write: info % 2 == 1,
        size: if info / 16 % 16 == 0 {
            1
        } else {
            (info / 16 % 16) as usize
        },
    }
}

/// Decodes a memory access.
pub fn mmio_access(info: u32) -> (a: Access)
    ensures
        a == mmio_access_of(info),
        1 <= a.size <= 15,
{
    let size: usize = (info / 16 % 16) as usize;
    Access {
        write: info % 2 != 0,
        size: if size == 0 {
            1
        } else {
            size
        },
    }
}

/// An access that is to be carried out on the devices.
#[derive(Debug, Clone)]
pub struct DeviceAccess {
    /// Port or guest address
    pub addr: u64,
    /// Whether the guest writes
    pub write: bool,
    /// The bytes that the guest writes, or a buffer of zeros to read into
    pub data: Vec<u8>,
}

/// There are no devices to carry an access out on.
#[derive(Debug, Clone, Copy, PartialEq, Eq, Structural)]
pub struct NoDevices;

/// `n` bytes of a port access: the low bytes of RAX for a write, zeros for a
/// read.
pub open spec fn pio_data(access: Access, rax: u64) -> Seq<u8> {
    if access.write {
        le64(rax).take(access.size as int)
    } else {
        zeros(access.size as nat)
    }
}

/// Begins a port access.
pub fn begin_pio(port: u16, info: u32, rax: u64, has_devices: bool) -> (r: Result<
    DeviceAccess,
    NoDevices,
>)
    ensures
        match r {
            Ok(a) => {
                &&& has_devices
                &&& a.addr == port
                &&& a.write == pio_access_of(info).write
                &&& a.data@ == pio_data(pio_access_of(info), rax)
            },
            Err(_) => !has_devices,
        },
{
    if !has_devices {
        return Err(NoDevices);
    }
    let access = pio_access(info);
    let data: Vec<u8> = if access.write {
        let mut bytes: Vec<u8> = Vec::new();
        push_le64(&mut bytes, rax);
        assert(bytes@ =~= le64(rax));
        let low: Vec<u8> = crate::bytes::copy_range(bytes.as_slice(), 0, access.size);
        assert(low@ =~= le64(rax).take(access.size as int));
        low
    } else {
        zero_bytes(access.size)
    };
    Ok(DeviceAccess { addr: port as u64, write: access.write, data })
}

/// Zeros.
fn zero_bytes(n: usize) -> (data: Vec<u8>)
    ensures
        data@ == zeros(n as nat),
{
    let mut data: Vec<u8> = Vec::new();
    push_zeros(&mut data, n);
    assert(data@ =~= zeros(n as nat));
    data
}

/// Begins a memory access. What a guest writes is not known, and zeros stand
/// for it.
pub fn begin_mmio(gpa: u64, info: u32, has_devices: bool) -> (r: Result<DeviceAccess, NoDevices>)
    ensures
        match r {
            Ok(a) => {
                &&& has_devices
                &&& a.addr == gpa
                &&& a.write == mmio_access_of(info).write
                &&& a.data@ == zeros(mmio_access_of(info).size as nat)
            },
            Err(_) => !has_devices,
        },
{
    if !has_devices {
        return Err(NoDevices);
    }
    let access = mmio_access(info);
    Ok(DeviceAccess { addr: gpa, write: access.write, data: zero_bytes(access.size) })
}

/// RAX after a port read: the bytes that were read, and zeros above them.
pub open spec fn rax_after_read(data: Seq<u8>) -> u64 {
    le64_at(data + zeros((8 - data.len()) as nat), 0)
}

/// The register to write when a port read is done, before the instruction
/// pointer moves on.
pub fn finish_pio_read(data: &[u8]) -> (w: (Register, RegisterValue))
    requires
        data@.len() <= 8,
    ensures
        w == (Register::Rax, RegisterValue::Reg64(rax_after_read(data@))),
{
    let mut bytes: Vec<u8> = Vec::new();
    push_bytes(&mut bytes, data);
    push_zeros(&mut bytes, 8 - data.len());
    assert(bytes@ =~= data@ + zeros((8 - data@.len()) as nat));
    (Register::Rax, RegisterValue::Reg64(crate::bytes::get_le64(bytes.as_slice(), 0)))
}

/// The register to write when an access is done: the instruction pointer
/// behind the instruction, which is `len` bytes long.
pub fn advance_rip(rip: u64, len: u64) -> (w: (Register, RegisterValue))
    requires
        rip + len <= u64::MAX,
    ensures
        w == (Register::Rip, RegisterValue::Reg64((rip + len) as u64)),
{
    (Register::Rip, RegisterValue::Reg64(rip + len))
}

/// What a device gives back of a write of up to eight bytes is in RAX again
/// where the guest reads it, with zeros above it.
#[verifier::rlimit(40)]
pub proof fn port_data_comes_back(info: u32, rax: u64)
    requires
        pio_access_of(info).write,
    ensures
        ({
            let size = pio_access_of(info).size as int;
            let back = rax_after_read(pio_data(pio_access_of(info), rax));
            &&& le64(back).take(size) == le64(rax).take(size)
            &&& le64(back).skip(size) == zeros((8 - size) as nat)
        }),
{
    let size = pio_access_of(info).size as int;
    let d = le64(rax).take(size) + zeros((8 - size) as nat);
    crate::bytes::le64_of_bytes(d);
    assert(le64(rax_after_read(pio_data(pio_access_of(info), rax))) == d);
    assert(d.take(size) =~= le64(rax).take(size));
    assert(d.skip(size) =~= zeros((8 - size) as nat));
}

// ─── Laws ────────────────────────────────────────────────────────────────────

/// How exits end: accesses are carried out and the processor goes on, as it does
/// after a cancelled run and an exit of no known reason; the end of an interrupt is
/// that of the low eight bits of its vector; and a halt, an exception that cannot
/// be handled, registers that cannot be and a missing feature shut the machine
/// down. Nothing but an access asks for work.
pub proof fn exits_end_by_their_reason(reason: ExitReason)
    ensures
        reason == ExitReason::MemoryAccess ==> exit_outcome(reason) == (
            ExitWork::Mmio,
            VmExit::Ignore,
        ),
        reason == ExitReason::IoPortAccess ==> exit_outcome(reason) == (
            ExitWork::Pio,
            VmExit::Ignore,
        ),
        reason != ExitReason::MemoryAccess && reason != ExitReason::IoPortAccess ==> exit_outcome(
            reason,
        ).0 == ExitWork::Nothing,
        exit_outcome(reason).1 == VmExit::Shutdown <==> reason == ExitReason::Halt || reason
            == ExitReason::UnrecoverableException || reason == ExitReason::InvalidVpRegisterValue
            || reason == ExitReason::UnsupportedFeature,
        reason matches ExitReason::ApicEoi(v) ==> (exit_outcome(reason).1 matches VmExit::IoapicEoi(
            e,
        ) && e == v % 256),
        reason == ExitReason::Canceled || reason == ExitReason::Other ==> exit_outcome(reason).1
            == VmExit::Ignore,
{
}

/// The bits of an access: bit 0 is that of a write; a port access has its size in
/// the three bits from bit 1 on, a memory access in the four bits from bit 4 on, and
/// a size of zero is one byte. All other bits mean nothing.
pub proof fn accesses_are_decoded_from_their_bits(
    pio: u32,
    mmio: u32,
    write: int,
    size: int,
    between: int,
    above: int,
)
    requires
        write == 0 || write == 1,
        0 <= between < 8,
        0 <= above,
        0 <= size,
    ensures
        size < 8 && pio == write + 2 * size + 16 * above ==> {
            &&& pio_access_of(pio).write == (write == 1)
            &&& pio_access_of(pio).size == if size == 0 { 1 } else { size }
        },
        size < 16 && mmio == write + 2 * between + 16 * size + 256 * above ==> {
            &&& mmio_access_of(mmio).write == (write == 1)
            &&& mmio_access_of(mmio).size == if size == 0 { 1 } else { size }
        },
{
    if size < 8 && pio == write + 2 * size + 16 * above {
        assert(pio as int / 2 == size + 8 * above);
        assert(pio as int / 2 % 8 == size);
    }
    if size < 16 && mmio == write + 2 * between + 16 * size + 256 * above {
        assert(mmio as int / 16 == size + 16 * above);
        assert(mmio as int / 16 % 16 == size);
    }
}

/// What a port access hands to the devices: for a write as many of the low bytes of
/// RAX as it has, the lowest first; for a read as many zeros. What a read finds is
/// then the number in RAX.
pub proof fn port_data_are_the_low_bytes(access: Access, rax: u64, data: Seq<u8>, i: int)
    requires
        0 <= i < access.size <= 8,
        data.len() <= 8,
    ensures
        pio_data(access, rax).len() == access.size,
        access.write ==> pio_data(access, rax)[i] == le64(rax)[i],
        !access.write ==> pio_data(access, rax)[i] == 0,
        rax_after_read(data) == le_value(data),
{
    let d = data + zeros((8 - data.len()) as nat);
    crate::bytes::little_endian_numbers(d, 0);
    assert(d.subrange(0, 8) =~= d);
    zeros_add_nothing(data, (8 - data.len()) as nat);
}

/// Zeros behind a little-endian number do not change it.
proof fn zeros_add_nothing(data: Seq<u8>, n: nat)
    ensures
        le_value(data + zeros(n)) == le_value(data),
    decreases data.len(), n,
{
    let d = data + zeros(n);
    if data.len() > 0 {
        zeros_add_nothing(data.skip(1), n);
        assert(d.skip(1) =~= data.skip(1) + zeros(n));
    } else if n > 0 {
        zeros_add_nothing(data, (n - 1) as nat);
        assert(d.skip(1) =~= data + zeros((n - 1) as nat));
        assert(d[0] == 0);
    } else {
        assert(d =~= data);
    }
}

} // verus!

//! Virtqueue requests of the SCSI device: the control queue, and the request
//! queues with their LUNs and disks.
use vm_memory::GuestMemoryMmap;
use vstd::prelude::*;

use crate::bytes::{
    be32, be_value, big_endian_numbers, bytes_stand_for_their_number, copy_range, get_le32, le16,
    le32, le32_at, le_value, prefix, push_be32, push_bytes, push_zeros, zeros,
};
use crate::disk::DiskOps;
use crate::guest_memory::{
    device_reads, device_writes, is_mapped, mapped_addresses, new_reads, read_guest, untouched,
    write_guest, written_over,
};
use crate::scsi::commands::{
    carried_out, failed, good, invalid_opcode, no_target, unsupported_lun, ProcessorView,
    ResultView, ScsiCommandProcessor, ScsiCommandResult,
};
use crate::scsi::protocol::{
    encode_lun, is_report_luns_wlun, lun_address, lun_field, parse_lun, report_luns_wlun,
    VirtioScsiCmdReq, VirtioScsiCmdResp, VIRTIO_SCSI_S_FAILURE, VIRTIO_SCSI_S_FUNCTION_SUCCEEDED,
    VIRTIO_SCSI_S_OK, VIRTIO_SCSI_T_AN_QUERY, VIRTIO_SCSI_T_AN_SUBSCRIBE, VIRTIO_SCSI_T_TMF,
};
use crate::scsi::scsi_opcode;
use crate::scsi::sense_key;
use crate::scsi::target::ScsiLunId;

verus! {

// ─── Descriptors ─────────────────────────────────────────────────────────────

/// A descriptor of a virtqueue chain.
#[derive(Debug, Clone, Copy, PartialEq, Eq, Structural)]
pub struct Descriptor {
    /// Guest address of the buffer
    pub addr: u64,
    /// Length of the buffer
    pub len: u32,
    /// Whether the device writes the buffer
    pub write_only: bool,
}

/// A buffer that the device writes its response to.
#[derive(Debug, Clone, Copy, PartialEq, Eq, Structural)]
pub struct WriteDescriptor {
    /// Guest address of the buffer
    pub addr: u64,
    /// Length of the buffer
    pub len: u32,
}

/// Why a request could not be taken from its descriptors.
#[derive(Debug, Clone, Copy, PartialEq, Eq, Structural)]
pub enum RequestError {
    /// The chain has no descriptor.
    MissingDescriptor,
    /// The first descriptor is shorter than a request header.
    DescriptorTooSmall(u32),
    /// The request header is not in guest memory.
    ReadRequest,
    /// A data-out buffer is not in guest memory.
    ReadDataOut,
}

/// The response could not be written to guest memory.
#[derive(Debug, Clone, Copy, PartialEq, Eq, Structural)]
pub enum ResponseError {
    /// The response header is not in guest memory.
    WriteHeader,
    /// A data-in buffer is not in guest memory.
    WriteDataIn,
}

/// The sum of the lengths of the buffers.
pub open spec fn total_len(descs: Seq<WriteDescriptor>) -> int
    decreases descs.len(),
{
    if descs.len() == 0 {
        0
    } else {
        total_len(descs.drop_last()) + descs.last().len
    }
}

/// The buffers among `descs` that the device writes, in order.
pub open spec fn writable(descs: Seq<Descriptor>) -> Seq<WriteDescriptor>
    decreases descs.len(),
{
    if descs.len() == 0 {
        Seq::empty()
    } else if descs.last().write_only {
        writable(descs.drop_last()).push(
            WriteDescriptor { addr: descs.last().addr, len: descs.last().len },
        )
    } else {
        writable(descs.drop_last())
    }
}

/// The buffers among `descs` that the device reads, in order.
pub open spec fn readable(descs: Seq<Descriptor>) -> Seq<Descriptor>
    decreases descs.len(),
{
    if descs.len() == 0 {
        Seq::empty()
    } else if descs.last().write_only {
        readable(descs.drop_last())
    } else {
        readable(descs.drop_last()).push(descs.last())
    }
}

/// The reads are those of the buffers, one each, in order.
pub open spec fn are_reads_of(reads: Seq<(int, Seq<u8>)>, buffers: Seq<Descriptor>) -> bool {
    &&& reads.len() == buffers.len()
    &&& forall|i: int|
        0 <= i < reads.len() ==> (#[trigger] reads[i]).0 == buffers[i].addr && reads[i].1.len()
            == buffers[i].len
}

/// The bytes that the reads found, one after another.
pub open spec fn joined(reads: Seq<(int, Seq<u8>)>) -> Seq<u8>
    decreases reads.len(),
{
    if reads.len() == 0 {
        Seq::empty()
    } else {
        joined(reads.drop_last()) + reads.last().1
    }
}

/// The bytes of each read are found in the data behind those of the reads
/// before it.
pub proof fn reads_are_joined_in_order(reads: Seq<(int, Seq<u8>)>, i: int)
    requires
        0 <= i < reads.len(),
    ensures
        joined(reads.take(i)).len() + reads[i].1.len() <= joined(reads).len(),
        joined(reads).subrange(
            joined(reads.take(i)).len() as int,
            (joined(reads.take(i)).len() + reads[i].1.len()) as int,
        ) == reads[i].1,
    decreases reads.len(),
{
    let front = reads.drop_last();
    let at = joined(reads.take(i)).len() as int;
    if i < front.len() {
        reads_are_joined_in_order(front, i);
        assert(front.take(i) =~= reads.take(i));
        assert(joined(reads).subrange(at, at + reads[i].1.len()) =~= joined(front).subrange(
            at,
            at + reads[i].1.len(),
        ));
    } else {
        assert(reads.take(i) =~= front);
        assert(joined(reads).subrange(at, at + reads[i].1.len()) =~= reads[i].1);
    }
}

// ─── Control queue ───────────────────────────────────────────────────────────

/// The answer to a control request: task management functions succeed,
/// notification queries and subscriptions are answered with no events, and
/// anything else fails.
pub open spec fn ctrl_answer(request_type: u32) -> u8 {
    if request_type == VIRTIO_SCSI_T_TMF {
        VIRTIO_SCSI_S_FUNCTION_SUCCEEDED
    } else if request_type == VIRTIO_SCSI_T_AN_QUERY || request_type == VIRTIO_SCSI_T_AN_SUBSCRIBE {
        VIRTIO_SCSI_S_OK
    } else {
        VIRTIO_SCSI_S_FAILURE
    }
}

/// The response code for a control request.
pub fn ctrl_response(request_type: u32) -> (response: u8)
    ensures
        response == ctrl_answer(request_type),
{
    if request_type == VIRTIO_SCSI_T_TMF {
        VIRTIO_SCSI_S_FUNCTION_SUCCEEDED
    } else if request_type == VIRTIO_SCSI_T_AN_QUERY || request_type == VIRTIO_SCSI_T_AN_SUBSCRIBE {
        VIRTIO_SCSI_S_OK
    } else {
        VIRTIO_SCSI_S_FAILURE
    }
}

/// The index from `from` on of the first descriptor that the device writes.
pub open spec fn is_first_writable(descs: Seq<Descriptor>, from: int, i: int) -> bool {
    &&& from <= i < descs.len()
    &&& descs[i].write_only
    &&& forall|k: int| from <= k < i ==> !#[trigger] descs[k].write_only
}

/// Where the response to a control request goes: the first buffer behind the
/// request that the device writes.
pub fn ctrl_response_descriptor(descs: &[Descriptor]) -> (r: Option<usize>)
    ensures
        match r {
            Some(i) => is_first_writable(descs@, 1, i as int),
            None => forall|k: int| 1 <= k < descs@.len() ==> !#[trigger] descs@[k].write_only,
        },
{
    let mut i: usize = 1;
    while i < descs.len()
        invariant
            1 <= i,
            forall|k: int| 1 <= k < i && k < descs@.len() ==> !#[trigger] descs@[k].write_only,
        decreases descs@.len() - i,
    {
        if descs[i].write_only {
            return Some(i);
        }
        i += 1;
    }
    None
}

/// What became of a control request.
#[derive(Debug, Clone, Copy, PartialEq, Eq, Structural)]
pub enum CtrlOutcome {
    /// No descriptor, or too short a one: the chain is passed over.
    Skipped,
    /// The chain is used, with this many bytes written.
    Used(u32),
    /// The request type is not in guest memory.
    ReadFailed,
    /// The response buffer is not in guest memory.
    WriteFailed,
}

/// Processes a control request whose chain has the given descriptors: reads
/// the request type, and writes the response code to the first writable
/// buffer where there is one.
pub fn process_ctrl_request(mem: &mut GuestMemoryMmap<()>, descs: &[Descriptor]) -> (r: CtrlOutcome)
    ensures
        mapped_addresses(*final(mem)) == mapped_addresses(*old(mem)),
        r == CtrlOutcome::Skipped <==> descs@.len() == 0 || descs@[0].len < 4,
        r == CtrlOutcome::ReadFailed <==> descs@.len() > 0 && descs@[0].len >= 4 && !is_mapped(
            *old(mem),
            descs@[0].addr as int,
            4,
        ),
        r == CtrlOutcome::WriteFailed <==> {
            &&& descs@.len() > 0
            &&& descs@[0].len >= 4
            &&& is_mapped(*old(mem), descs@[0].addr as int, 4)
            &&& exists|i: int|
                is_first_writable(descs@, 1, i) && !is_mapped(
                    *old(mem),
                    (#[trigger] descs@[i]).addr as int,
                    1,
                )
        },
        r == CtrlOutcome::Skipped || r == CtrlOutcome::ReadFailed ==> untouched(
            *old(mem),
            *final(mem),
        ),
        r == CtrlOutcome::WriteFailed ==> ctrl_read(descs@, *old(mem), *final(mem))
            && device_writes(*final(mem)) == device_writes(*old(mem)),
        r matches CtrlOutcome::Used(n) ==> n == 1 && ctrl_answered(
            descs@,
            *old(mem),
            *final(mem),
        ),
{
    if descs.len() == 0 || descs[0].len < 4 {
        return CtrlOutcome::Skipped;
    }
    let ghost before = *mem;
    let request_type: u32 = match read_guest(mem, descs[0].addr, 4) {
        Some(b) => get_le32(b.as_slice(), 0),
        None => {
            return CtrlOutcome::ReadFailed;
        },
    };
    if let Some(i) = ctrl_response_descriptor(descs) {
        let mut response: Vec<u8> = Vec::new();
        response.push(ctrl_response(request_type));
        assert(response@ =~= seq![ctrl_answer(request_type)]);
        assert(is_mapped(*mem, descs@[i as int].addr as int, 1) == is_mapped(
            before,
            descs@[i as int].addr as int,
            1,
        ));
        if !write_guest(mem, descs[i].addr, response.as_slice()) {
            return CtrlOutcome::WriteFailed;
        }
        assert forall|k: int| is_first_writable(descs@, 1, k) implies k == i by {
            if k < i {
                assert(!descs@[k].write_only);
            } else if k > i {
                assert(!descs@[i as int].write_only);
            }
        }
    }
    CtrlOutcome::Used(1)
}

/// The type of a control request was read, from the first buffer of its chain,
/// and nothing else.
pub open spec fn ctrl_read(
    descs: Seq<Descriptor>,
    mem: GuestMemoryMmap<()>,
    after: GuestMemoryMmap<()>,
) -> bool {
    &&& device_reads(after).len() > 0
    &&& device_reads(after) == device_reads(mem).push(device_reads(after).last())
    &&& device_reads(after).last().0 == descs[0].addr
    &&& device_reads(after).last().1.len() == 4
}

/// The type of a control request was read, and the answer to that type written
/// to the first writable buffer behind the request, where there is one.
pub open spec fn ctrl_answered(
    descs: Seq<Descriptor>,
    mem: GuestMemoryMmap<()>,
    after: GuestMemoryMmap<()>,
) -> bool {
    &&& ctrl_read(descs, mem, after)
    &&& {
        ||| {
            &&& forall|k: int| 1 <= k < descs.len() ==> !(#[trigger] descs[k]).write_only
            &&& device_writes(after) == device_writes(mem)
        }
        ||| exists|i: int|
            {
                &&& #[trigger] is_first_writable(descs, 1, i)
                &&& device_writes(after) == written_over(
                    device_writes(mem),
                    descs[i].addr as int,
                    seq![ctrl_answer(le32_at(device_reads(after).last().1, 0))],
                )
            }
    }
}

// ─── LUNs and disks ──────────────────────────────────────────────────────────

/// The states of the LUNs.
pub open spec fn lun_views(luns: Seq<ScsiCommandProcessor>) -> Seq<ProcessorView> {
    luns.map_values(|p: ScsiCommandProcessor| p@)
}

/// Every LUN is well formed and no two have the same identifier.
pub open spec fn luns_wf(luns: Seq<ProcessorView>) -> bool {
    &&& forall|i: int| 0 <= i < luns.len() ==> (#[trigger] luns[i]).wf()
    &&& forall|i: int, j: int|
        0 <= i < luns.len() && 0 <= j < luns.len() && #[trigger] luns[i].config.id()
            == #[trigger] luns[j].config.id() ==> i == j
}

/// Whether there is a LUN with the identifier.
pub open spec fn has_lun(luns: Seq<ProcessorView>, id: ScsiLunId) -> bool {
    exists|i: int| 0 <= i < luns.len() && #[trigger] luns[i].config.id() == id
}

/// The number that stands for a LUN identifier.
pub open spec fn id_number(id: ScsiLunId) -> int {
    id.target * 0x1_0000 + id.lun
}

/// There are at most 2^24 LUNs, one for each identifier.
pub proof fn luns_are_bounded(luns: Seq<ProcessorView>)
    requires
        luns_wf(luns),
    ensures
        luns.len() <= 0x100_0000,
{
    let numbers = Seq::new(luns.len(), |i: int| id_number(luns[i].config.id()));
    assert(numbers.no_duplicates()) by {
        assert forall|i: int, j: int|
            0 <= i < numbers.len() && 0 <= j < numbers.len() && i != j implies numbers[i]
            != numbers[j] by {
            assert(luns[i].config.id() != luns[j].config.id());
        }
    }
    numbers.unique_seq_to_set();
    let all = vstd::set_lib::set_int_range(0, 0x100_0000);
    vstd::set_lib::lemma_int_range(0, 0x100_0000);
    assert(numbers.to_set().subset_of(all));
    vstd::set_lib::lemma_len_subset(numbers.to_set(), all);
}

/// The index of the LUN with the identifier.
pub fn find_lun(luns: &Vec<ScsiCommandProcessor>, id: ScsiLunId) -> (r: Option<usize>)
    ensures
        match r {
            Some(i) => i < luns@.len() && lun_views(luns@)[i as int].config.id() == id,
            None => !has_lun(lun_views(luns@), id),
        },
{
    let mut i: usize = 0;
    while i < luns.len()
        invariant
            i <= luns@.len(),
            forall|k: int| 0 <= k < i ==> #[trigger] lun_views(luns@)[k].config.id() != id,
        decreases luns@.len() - i,
    {
        let config = luns[i].config();
        if config.target == id.target && config.lun == id.lun {
            return Some(i);
        }
        i += 1;
    }
    None
}

/// The disk of a LUN.
pub struct LunDisk<D> {
    /// LUN identifier
    pub id: ScsiLunId,
    /// The disk
    pub disk: D,
}

/// Whether there is a disk for the LUN.
pub open spec fn has_disk<D>(disks: Seq<LunDisk<D>>, id: ScsiLunId) -> bool {
    exists|i: int| 0 <= i < disks.len() && (#[trigger] disks[i]).id == id
}

/// The index of the first disk of the LUN.
pub open spec fn is_disk_of<D>(disks: Seq<LunDisk<D>>, id: ScsiLunId, i: int) -> bool {
    &&& 0 <= i < disks.len()
    &&& disks[i].id == id
    &&& forall|k: int| 0 <= k < i ==> (#[trigger] disks[k]).id != id
}

/// The index of the disk of the LUN.
pub fn find_disk<D>(disks: &Vec<LunDisk<D>>, id: ScsiLunId) -> (r: Option<usize>)
    ensures
        match r {
            Some(i) => is_disk_of(disks@, id, i as int),
            None => !has_disk(disks@, id),
        },
{
    let mut i: usize = 0;
    while i < disks.len()
        invariant
            i <= disks@.len(),
            forall|k: int| 0 <= k < i ==> (#[trigger] disks@[k]).id != id,
        decreases disks@.len() - i,
    {
        if disks[i].id.target == id.target && disks[i].id.lun == id.lun {
            return Some(i);
        }
        i += 1;
    }
    None
}

// ─── REPORT LUNS to the well-known logical unit ──────────────────────────────

/// The LUN fields of the LUNs, in order.
pub open spec fn lun_fields(luns: Seq<ProcessorView>) -> Seq<u8>
    decreases luns.len(),
{
    if luns.len() == 0 {
        Seq::empty()
    } else {
        lun_fields(luns.drop_last()) + lun_field(luns.last().config.target, luns.last().config.lun)
    }
}

/// The answer to REPORT LUNS at the well-known logical unit: the length of the
/// list, four reserved bytes, and the LUN field of each LUN.
pub open spec fn all_luns(luns: Seq<ProcessorView>, allocation_length: u32) -> ResultView {
    good(
        prefix(
            be32((luns.len() * 8) as u32) + zeros(4) + lun_fields(luns),
            allocation_length as int,
        ),
    )
}

/// The list holds eight bytes for each LUN, which are its LUN field.
pub proof fn lun_list_layout(luns: Seq<ProcessorView>, i: int)
    requires
        0 <= i < luns.len(),
    ensures
        lun_fields(luns).len() == 8 * luns.len(),
        lun_fields(luns).subrange(8 * i, 8 * i + 8) == lun_field(
            luns[i].config.target,
            luns[i].config.lun,
        ),
    decreases luns.len(),
{
    let front = luns.drop_last();
    lun_fields_len(front);
    if i < front.len() {
        lun_list_layout(front, i);
        assert(front[i] == luns[i]);
        assert(lun_fields(luns).subrange(8 * i, 8 * i + 8) =~= lun_fields(front).subrange(
            8 * i,
            8 * i + 8,
        ));
    } else {
        assert(lun_fields(luns).subrange(8 * i, 8 * i + 8) =~= lun_field(
            luns[i].config.target,
            luns[i].config.lun,
        ));
    }
}

/// Every LUN of the list, of those that a LUN field can hold, is found by its
/// entry.
pub proof fn reported_luns_can_be_addressed(luns: Seq<ProcessorView>, i: int)
    requires
        0 <= i < luns.len(),
        luns[i].config.lun <= 16383,
    ensures
        lun_address(lun_fields(luns).subrange(8 * i, 8 * i + 8)) == Some(
            (luns[i].config.target, luns[i].config.lun),
        ),
{
    lun_list_layout(luns, i);
    crate::scsi::protocol::lun_round_trip(luns[i].config.target, luns[i].config.lun);
}

proof fn lun_fields_len(luns: Seq<ProcessorView>)
    ensures
        lun_fields(luns).len() == 8 * luns.len(),
    decreases luns.len(),
{
    if luns.len() > 0 {
        lun_fields_len(luns.drop_last());
    }
}

/// Handle REPORT LUNS sent to the well-known logical unit: all LUNs of all
/// targets.
pub fn handle_report_luns_wlun(luns: &Vec<ScsiCommandProcessor>, allocation_length: u32) -> (r:
    ScsiCommandResult)
    requires
        luns_wf(lun_views(luns@)),
    ensures
        r@ == all_luns(lun_views(luns@), allocation_length),
{
    let ghost views = lun_views(luns@);
    proof {
        luns_are_bounded(views);
    }
    let count: usize = luns.len();
    let mut data: Vec<u8> = Vec::new();
    push_be32(&mut data, (count as u32) * 8);
    push_zeros(&mut data, 4);
    let ghost head = be32((views.len() * 8) as u32) + zeros(4);
    assert(data@ =~= head);
    let mut i: usize = 0;
    while i < count
        invariant
            i <= count,
            count == luns@.len(),
            views == lun_views(luns@),
            head == be32((views.len() * 8) as u32) + zeros(4),
            data@ == head + lun_fields(views.take(i as int)),
        decreases count - i,
    {
        let config = luns[i].config();
        let field: [u8; 8] = encode_lun(config.target, config.lun);
        push_bytes(&mut data, field.as_slice());
        i += 1;
        assert(views.take(i as int).drop_last() =~= views.take(i - 1));
        assert(data@ =~= head + lun_fields(views.take(i as int)));
    }
    assert(views.take(count as int) =~= views);
    ScsiCommandResult::ok_truncated(data, allocation_length)
}

// ─── Requests ────────────────────────────────────────────────────────────────

/// The disks other than the one at `j` are as they were, and that one is still
/// the disk of its LUN.
pub open spec fn only_changed<D>(
    before: Seq<LunDisk<D>>,
    after: Seq<LunDisk<D>>,
    j: int,
) -> bool {
    &&& after.len() == before.len()
    &&& forall|k: int| 0 <= k < before.len() && k != j ==> #[trigger] after[k] == before[k]
    &&& after[j].id == before[j].id
}

/// What a request with the given LUN field and command does: at the well-known
/// logical unit it lists the LUNs; a field that addresses nothing is a bad
/// target; an address without a LUN or a disk is an unsupported LUN; and the
/// rest is carried out by the LUN on its disk.
pub open spec fn dispatched<D: DiskOps>(
    lun: Seq<u8>,
    cdb: Seq<u8>,
    data_out: Seq<u8>,
    allocation_length: u32,
    luns: Seq<ProcessorView>,
    luns_after: Seq<ProcessorView>,
    disks: Seq<LunDisk<D>>,
    disks_after: Seq<LunDisk<D>>,
    result: ResultView,
) -> bool {
    if lun == report_luns_wlun() {
        &&& luns_after == luns
        &&& disks_after == disks
        &&& result == if cdb[0] == scsi_opcode::REPORT_LUNS {
            all_luns(luns, allocation_length)
        } else {
            invalid_opcode()
        }
    } else {
        match lun_address(lun) {
            None => luns_after == luns && disks_after == disks && result == no_target(),
            Some((target, number)) => {
                let id = ScsiLunId { target, lun: number };
                if !has_lun(luns, id) || !has_disk(disks, id) {
                    luns_after == luns && disks_after == disks && result == unsupported_lun()
                } else {
                    forall|i: int, j: int|
                        0 <= i < luns.len() && luns[i].config.id() == id && is_disk_of(
                            disks,
                            id,
                            j,
                        ) ==> {
                            &&& luns_after == #[trigger] luns.update(
                                i,
                                luns[i].after(cdb, data_out),
                            )
                            &&& #[trigger] only_changed(disks, disks_after, j)
                            &&& carried_out(
                                luns[i].plan(cdb, data_out, allocation_length),
                                data_out,
                                disks[j].disk,
                                disks_after[j].disk,
                                result,
                            )
                        }
                }
            },
        }
    }
}

/// Carries out the request of a header with its data.
pub fn dispatch_request<D: DiskOps>(
    req: &VirtioScsiCmdReq,
    data_out: &[u8],
    allocation_length: u32,
    luns: &mut Vec<ScsiCommandProcessor>,
    disks: &mut Vec<LunDisk<D>>,
) -> (result: ScsiCommandResult)
    requires
        luns_wf(lun_views(old(luns)@)),
    ensures
        luns_wf(lun_views(final(luns)@)),
        dispatched(
            req.lun@,
            req.cdb@,
            data_out@,
            allocation_length,
            lun_views(old(luns)@),
            lun_views(final(luns)@),
            old(disks)@,
            final(disks)@,
            result@,
        ),
{
    if is_report_luns_wlun(&req.lun) {
        if req.cdb[0] == scsi_opcode::REPORT_LUNS {
            return handle_report_luns_wlun(luns, allocation_length);
        } else {
            return ScsiCommandResult::check_condition(sense_key::ILLEGAL_REQUEST, 0x20, 0x00);
        }
    }
    let (target, number): (u8, u16) = match parse_lun(&req.lun) {
        Some(v) => v,
        None => {
            return ScsiCommandResult::bad_target();
        },
    };
    let id = ScsiLunId::new(target, number);
    let i: usize = match find_lun(luns, id) {
        Some(i) => i,
        None => {
            return ScsiCommandResult::incorrect_lun();
        },
    };
    let j: usize = match find_disk(disks, id) {
        Some(j) => j,
        None => {
            return ScsiCommandResult::incorrect_lun();
        },
    };
    let ghost luns0 = lun_views(luns@);
    let ghost disks0 = disks@;
    assert(luns0[i as int].wf());
    proof {
        crate::scsi::commands::commands_keep_the_lun(luns0[i as int], req.cdb@, data_out@);
    }
    let result = luns[i].process_command(
        req.cdb.as_slice(),
        data_out,
        allocation_length,
        &mut disks[j].disk,
    );
    proof {
        let luns1 = lun_views(luns@);
        assert(luns1 =~= luns0.update(i as int, luns0[i as int].after(req.cdb@, data_out@)));
        assert(only_changed(disks0, disks@, j as int));
        assert forall|k: int| 0 <= k < luns1.len() implies (#[trigger] luns1[k]).wf() by {
            assert(luns0[k].wf());
        }
        assert forall|a: int, b: int|
            0 <= a < luns1.len() && 0 <= b < luns1.len() && #[trigger] luns1[a].config.id()
                == #[trigger] luns1[b].config.id() implies a == b by {
            assert(luns0[a].config.id() == luns0[b].config.id());
        }
        assert forall|a: int, b: int|
            0 <= a < luns0.len() && luns0[a].config.id() == id && is_disk_of(disks0, id, b)
            implies a == i && b == j by {
            assert(luns0[a].config.id() == luns0[i as int].config.id());
            if b < j {
                assert(disks0[b].id != id);
            } else if b > j {
                assert(disks0[j as int].id != id);
            }
        }
    }
    result
}

/// The buffers behind the request header that the device reads are in guest
/// memory.
pub open spec fn data_out_mapped(mem: GuestMemoryMmap<()>, descs: Seq<Descriptor>) -> bool {
    forall|k: int|
        1 <= k < descs.len() && !(#[trigger] descs[k]).write_only ==> is_mapped(
            mem,
            descs[k].addr as int,
            descs[k].len as int,
        )
}

/// The request can be taken from its descriptors: a header and data-out
/// buffers in guest memory.
pub open spec fn request_readable(mem: GuestMemoryMmap<()>, descs: Seq<Descriptor>) -> bool {
    &&& descs.len() > 0
    &&& descs[0].len >= VirtioScsiCmdReq::WIRE_SIZE
    &&& is_mapped(mem, descs[0].addr as int, 51)
    &&& data_out_mapped(mem, descs)
}

/// The lengths of the buffers that the device writes add up to no more than a
/// `u32` holds.
pub open spec fn chain_wf(descs: Seq<Descriptor>) -> bool {
    descs.len() > 0 ==> total_len(writable(descs.skip(1))) <= u32::MAX
}

/// The sum of the lengths of all buffers of a chain.
pub open spec fn chain_len(descs: Seq<Descriptor>) -> int
    decreases descs.len(),
{
    if descs.len() == 0 {
        0
    } else {
        chain_len(descs.drop_last()) + descs.last().len
    }
}

/// The buffers that the device writes are no longer than all of them.
proof fn writable_is_part(descs: Seq<Descriptor>)
    ensures
        0 <= total_len(writable(descs)) <= chain_len(descs),
    decreases descs.len(),
{
    if descs.len() > 0 {
        writable_is_part(descs.drop_last());
        if descs.last().write_only {
            assert(writable(descs).drop_last() =~= writable(descs.drop_last()));
        }
    }
}

/// The buffers behind the first are no longer than all of them.
proof fn chain_len_skip(descs: Seq<Descriptor>)
    requires
        descs.len() > 0,
    ensures
        chain_len(descs) == descs[0].len + chain_len(descs.skip(1)),
    decreases descs.len(),
{
    if descs.len() > 1 {
        chain_len_skip(descs.drop_last());
        assert(descs.drop_last().skip(1) =~= descs.skip(1).drop_last());
        assert(descs.skip(1).last() == descs.last());
    } else {
        assert(descs.drop_last() =~= Seq::<Descriptor>::empty());
        assert(descs.skip(1) =~= Seq::<Descriptor>::empty());
        assert(chain_len(descs.drop_last()) == 0);
        assert(chain_len(descs.skip(1)) == 0);
    }
}

/// A chain of no more bytes than a `u32` holds is well formed.
pub proof fn bounded_chains_are_well_formed(descs: Seq<Descriptor>)
    requires
        chain_len(descs) <= u32::MAX,
    ensures
        chain_wf(descs),
{
    if descs.len() > 0 {
        chain_len_skip(descs);
        writable_is_part(descs.skip(1));
    }
}

/// The buffers of a prefix of a chain are no longer than those of the chain.
proof fn total_len_grows(descs: Seq<Descriptor>, n: int)
    requires
        0 <= n <= descs.len(),
    ensures
        total_len(writable(descs.take(n))) <= total_len(writable(descs)),
    decreases descs.len() - n,
{
    if n < descs.len() {
        total_len_grows(descs, n + 1);
        let longer = descs.take(n + 1);
        assert(longer.drop_last() =~= descs.take(n));
        if longer.last().write_only {
            assert(writable(longer).drop_last() =~= writable(descs.take(n)));
        }
    } else {
        assert(descs.take(n) =~= descs);
    }
}

/// What is read of a chain: the request header from its first buffer, and then
/// the buffers behind it that the device reads, in order.
pub open spec fn request_read(reads: Seq<(int, Seq<u8>)>, descs: Seq<Descriptor>) -> bool {
    &&& reads.len() > 0
    &&& reads[0].0 == descs[0].addr
    &&& reads[0].1.len() == VirtioScsiCmdReq::WIRE_SIZE
    &&& are_reads_of(reads.skip(1), readable(descs.skip(1)))
}

/// The result is that of the request that was read: of the LUN field and the
/// command in its header, and of the data behind it, with room for as much data
/// as the buffers behind the header hold.
pub open spec fn request_answered<D: DiskOps>(
    reads: Seq<(int, Seq<u8>)>,
    buffers: Seq<Descriptor>,
    luns: Seq<ProcessorView>,
    luns_after: Seq<ProcessorView>,
    disks: Seq<LunDisk<D>>,
    disks_after: Seq<LunDisk<D>>,
    result: ResultView,
) -> bool {
    dispatched(
        reads[0].1.subrange(0, 8),
        reads[0].1.subrange(19, 51),
        joined(reads.skip(1)),
        total_len(writable(buffers)) as u32,
        luns,
        luns_after,
        disks,
        disks_after,
        result,
    )
}

/// Takes a request from the descriptors of its chain and carries it out.
/// Returns the result, or why there is none, and the buffers for the response.
pub fn process_single_request<D: DiskOps>(
    mem: &mut GuestMemoryMmap<()>,
    descs: &[Descriptor],
    luns: &mut Vec<ScsiCommandProcessor>,
    disks: &mut Vec<LunDisk<D>>,
) -> (r: (Result<ScsiCommandResult, RequestError>, Vec<WriteDescriptor>))
    requires
        luns_wf(lun_views(old(luns)@)),
        chain_wf(descs@),
    ensures
        mapped_addresses(*final(mem)) == mapped_addresses(*old(mem)),
        device_writes(*final(mem)) == device_writes(*old(mem)),
        device_reads(*final(mem)) == device_reads(*old(mem)) + new_reads(*old(mem), *final(mem)),
        luns_wf(lun_views(final(luns)@)),
        r.0 is Ok <==> request_readable(*old(mem), descs@),
        r.0 is Err ==> final(luns)@ == old(luns)@ && final(disks)@ == old(disks)@,
        match r.0 {
            Ok(result) => {
                &&& r.1@ == writable(descs@.skip(1))
                &&& request_read(new_reads(*old(mem), *final(mem)), descs@)
                &&& request_answered(
                    new_reads(*old(mem), *final(mem)),
                    descs@.skip(1),
                    lun_views(old(luns)@),
                    lun_views(final(luns)@),
                    old(disks)@,
                    final(disks)@,
                    result@,
                )
            },
            Err(RequestError::MissingDescriptor) => descs@.len() == 0 && r.1@.len() == 0
                && untouched(*old(mem), *final(mem)),
            Err(RequestError::DescriptorTooSmall(n)) => descs@.len() > 0 && n == descs@[0].len && n
                < VirtioScsiCmdReq::WIRE_SIZE && r.1@.len() == 0 && untouched(
                *old(mem),
                *final(mem),
            ),
            Err(RequestError::ReadRequest) => descs@.len() > 0 && descs@[0].len
                >= VirtioScsiCmdReq::WIRE_SIZE && !is_mapped(*old(mem), descs@[0].addr as int, 51)
                && r.1@.len() == 0 && untouched(*old(mem), *final(mem)),
            Err(RequestError::ReadDataOut) => {
                &&& descs@.len() > 0
                &&& descs@[0].len >= VirtioScsiCmdReq::WIRE_SIZE
                &&& is_mapped(*old(mem), descs@[0].addr as int, 51)
                &&& exists|k: int|
                    {
                        &&& is_first_unreadable(*old(mem), descs@, k)
                        &&& #[trigger] request_read(
                            new_reads(*old(mem), *final(mem)),
                            descs@.take(k),
                        )
                        &&& r.1@ == writable(descs@.subrange(1, k))
                    }
            },
        },
{
    let mut write_descs: Vec<WriteDescriptor> = Vec::new();
    let ghost mem0 = *mem;
    let ghost log = device_reads(*mem);
    assert(log.skip(log.len() as int) =~= Seq::empty());
    assert(log + Seq::empty() =~= log);
    if descs.len() == 0 {
        return (Err(RequestError::MissingDescriptor), write_descs);
    }
    if descs[0].len < 51 {
        return (Err(RequestError::DescriptorTooSmall(descs[0].len)), write_descs);
    }
    let header: Vec<u8> = match read_guest(mem, descs[0].addr, 51) {
        Some(b) => b,
        None => {
            return (Err(RequestError::ReadRequest), write_descs);
        },
    };
    let req: VirtioScsiCmdReq = VirtioScsiCmdReq::from_bytes(header.as_slice());
    let ghost mut reads: Seq<(int, Seq<u8>)> = seq![(descs@[0].addr as int, header@)];
    let mut data_out: Vec<u8> = Vec::new();
    let mut allocation_length: u32 = 0;
    let mut i: usize = 1;
    let ghost rest = descs@.skip(1);
    proof {
        assert(rest.take(0) =~= Seq::<Descriptor>::empty());
        assert(reads.skip(1) =~= Seq::<(int, Seq<u8>)>::empty());
        assert(device_reads(*mem) =~= log + reads);
        assert(data_out@ =~= joined(reads.skip(1)));
    }
    while i < descs.len()
        invariant
            1 <= i <= descs@.len(),
            rest == descs@.skip(1),
            chain_wf(descs@),
            mem0 == *old(mem),
            log == device_reads(mem0),
            mapped_addresses(*mem) == mapped_addresses(mem0),
            device_writes(*mem) == device_writes(mem0),
            device_reads(*mem) == log + reads,
            reads.len() > 0,
            reads[0] == (descs@[0].addr as int, header@),
            header@.len() == 51,
            are_reads_of(reads.skip(1), readable(rest.take(i - 1))),
            data_out@ == joined(reads.skip(1)),
            write_descs@ == writable(rest.take(i - 1)),
            allocation_length == total_len(write_descs@),
            descs@[0].len >= 51,
            is_mapped(mem0, descs@[0].addr as int, 51),
            luns@ == old(luns)@,
            disks@ == old(disks)@,
            luns_wf(lun_views(luns@)),
            forall|k: int|
                1 <= k < i && !(#[trigger] descs@[k]).write_only ==> is_mapped(
                    mem0,
                    descs@[k].addr as int,
                    descs@[k].len as int,
                ),
        decreases descs@.len() - i,
    {
        let d: Descriptor = descs[i];
        let ghost part = rest.take(i as int);
        proof {
            assert(part.drop_last() =~= rest.take(i - 1));
            assert(part.last() == descs@[i as int]);
            total_len_grows(rest, i as int);
        }
        if !d.write_only {
            match read_guest(mem, d.addr, d.len) {
                Some(buf) => {
                    push_bytes(&mut data_out, buf.as_slice());
                    proof {
                        let read = (d.addr as int, buf@);
                        let longer = reads.push(read);
                        assert(longer.skip(1) =~= reads.skip(1).push(read));
                        assert(longer.skip(1).drop_last() =~= reads.skip(1));
                        assert(data_out@ =~= joined(longer.skip(1)));
                        assert(log + longer =~= (log + reads).push(read));
                        assert forall|k: int| 0 <= k < longer.skip(1).len() implies (
                        #[trigger] longer.skip(1)[k]).0 == readable(part)[k].addr && longer.skip(
                            1,
                        )[k].1.len() == readable(part)[k].len by {
                            if k < reads.skip(1).len() {
                                assert(longer.skip(1)[k] == reads.skip(1)[k]);
                            }
                        }
                        reads = longer;
                    }
                },
                None => {
                    assert(rest.take(i - 1) =~= descs@.subrange(1, i as int));
                    assert(descs@.take(i as int).skip(1) =~= rest.take(i - 1));
                    assert((log + reads).skip(log.len() as int) =~= reads);
                    assert(request_read(new_reads(mem0, *mem), descs@.take(i as int)));
                    assert(is_first_unreadable(mem0, descs@, i as int));
                    return (Err(RequestError::ReadDataOut), write_descs);
                },
            }
        } else {
            proof {
                assert(writable(part).drop_last() =~= writable(rest.take(i - 1)));
            }
            write_descs.push(WriteDescriptor { addr: d.addr, len: d.len });
            allocation_length = allocation_length + d.len;
        }
        i += 1;
    }
    assert(rest.take(i - 1) =~= rest);
    assert((log + reads).skip(log.len() as int) =~= reads);
    let result = dispatch_request(&req, data_out.as_slice(), allocation_length, luns, disks);
    (Ok(result), write_descs)
}

/// The first buffer behind the request header that the device reads and that is
/// not in guest memory.
pub open spec fn is_first_unreadable(
    mem: GuestMemoryMmap<()>,
    descs: Seq<Descriptor>,
    k: int,
) -> bool {
    &&& 1 <= k < descs.len()
    &&& !descs[k].write_only
    &&& !is_mapped(mem, descs[k].addr as int, descs[k].len as int)
    &&& data_out_mapped(mem, descs.take(k))
}

/// The result that answers a request: its own, or ABORTED COMMAND where the
/// request could not be taken from its descriptors.
pub fn answer_of(outcome: Result<ScsiCommandResult, RequestError>) -> (r: ScsiCommandResult)
    ensures
        r@ == match outcome {
            Ok(result) => result@,
            Err(_) => failed(sense_key::ABORTED_COMMAND, 0x00, 0x00),
        },
{
    match outcome {
        Ok(result) => result,
        Err(_) => ScsiCommandResult::check_condition(sense_key::ABORTED_COMMAND, 0x00, 0x00),
    }
}

// ─── Responses ───────────────────────────────────────────────────────────────

/// Bytes for a guest address.
#[derive(Debug, Clone)]
pub struct GuestWrite {
    /// Guest address
    pub addr: u64,
    /// The bytes to write there
    pub bytes: Vec<u8>,
}

/// What a write puts where.
pub struct WriteView {
    pub addr: u64,
    pub bytes: Seq<u8>,
}

impl View for GuestWrite {
    type V = WriteView;

    open spec fn view(&self) -> WriteView {
        WriteView { addr: self.addr, bytes: self.bytes@ }
    }
}

/// What each of the writes puts where.
pub open spec fn write_views(writes: Seq<GuestWrite>) -> Seq<WriteView> {
    writes.map_values(|w: GuestWrite| w@)
}

/// The sense data area of a response header: the sense data, cut or filled up
/// with zeros to 96 bytes.
pub open spec fn sense_area(sense: Seq<u8>) -> Seq<u8> {
    Seq::new(
        96,
        |i: int|
            if i < sense.len() {
                sense[i]
            } else {
                0u8
            },
    )
}

/// The response header for a result, on the wire.
pub open spec fn response_header_wire(r: ResultView) -> Seq<u8> {
    le32(r.sense.len() as u32) + le32(r.resid) + le16(0) + seq![r.status, r.response] + sense_area(
        r.sense,
    )
}

/// `data` spread over the buffers in order, as far as they reach.
pub open spec fn scattered(data: Seq<u8>, descs: Seq<WriteDescriptor>) -> Seq<WriteView>
    decreases descs.len(),
{
    if data.len() == 0 || descs.len() == 0 {
        Seq::empty()
    } else {
        let n = if descs[0].len < data.len() {
            descs[0].len as int
        } else {
            data.len() as int
        };
        seq![WriteView { addr: descs[0].addr, bytes: data.take(n) }] + scattered(
            data.skip(n),
            descs.skip(1),
        )
    }
}

/// The number of data bytes that find room behind the header in the first
/// buffer.
pub open spec fn data_in_first(r: ResultView, descs: Seq<WriteDescriptor>) -> int {
    let space = if descs[0].len > 108 {
        descs[0].len - 108
    } else {
        0
    };
    if space < r.data_in.len() {
        space
    } else {
        r.data_in.len() as int
    }
}

/// The address behind a response header. Where there is none it is the last
/// one, which is never memory.
pub open spec fn behind_header(addr: u64) -> u64 {
    if addr + 108 <= u64::MAX {
        (addr + 108) as u64
    } else {
        u64::MAX
    }
}

/// What is written for a result: the header at the start of the first buffer,
/// the data behind it and in the buffers that follow.
pub open spec fn response_plan(r: ResultView, descs: Seq<WriteDescriptor>) -> Seq<WriteView> {
    if descs.len() == 0 {
        Seq::empty()
    } else {
        let m = data_in_first(r, descs);
        let head = seq![WriteView { addr: descs[0].addr, bytes: response_header_wire(r) }];
        let first = if m > 0 {
            seq![WriteView { addr: behind_header(descs[0].addr), bytes: r.data_in.take(m) }]
        } else {
            Seq::empty()
        };
        head + first + scattered(r.data_in.skip(m), descs.skip(1))
    }
}

/// The number of bytes that the writes put into guest memory.
pub open spec fn written_len(writes: Seq<WriteView>) -> int
    decreases writes.len(),
{
    if writes.len() == 0 {
        0
    } else {
        written_len(writes.drop_last()) + writes.last().bytes.len()
    }
}

/// The bytes of the writes, one after another.
pub open spec fn gathered(writes: Seq<WriteView>) -> Seq<u8>
    decreases writes.len(),
{
    if writes.len() == 0 {
        Seq::empty()
    } else {
        writes[0].bytes + gathered(writes.skip(1))
    }
}

/// The number of bytes that the buffers hold.
pub open spec fn capacity(descs: Seq<WriteDescriptor>) -> int
    decreases descs.len(),
{
    if descs.len() == 0 {
        0
    } else {
        descs[0].len + capacity(descs.skip(1))
    }
}

/// Data spread over buffers and gathered again is the data, as far as the
/// buffers reach; no buffer is written beyond its end.
pub proof fn scattered_data_arrives(data: Seq<u8>, descs: Seq<WriteDescriptor>)
    ensures
        gathered(scattered(data, descs)) == prefix(data, capacity(descs)),
        scattered(data, descs).len() <= descs.len(),
        forall|k: int|
            #![trigger scattered(data, descs)[k]]
            0 <= k < scattered(data, descs).len() ==> {
                &&& scattered(data, descs)[k].addr == descs[k].addr
                &&& scattered(data, descs)[k].bytes.len() <= descs[k].len
            },
        capacity(descs) >= 0,
    decreases descs.len(),
{
    if descs.len() > 0 {
        let n = if descs[0].len < data.len() {
            descs[0].len as int
        } else {
            data.len() as int
        };
        let tail = data.skip(n);
        scattered_data_arrives(tail, descs.skip(1));
        if data.len() > 0 {
            let w = scattered(data, descs);
            let rest = scattered(tail, descs.skip(1));
            assert(w.skip(1) =~= rest);
            assert(w[0].bytes == data.take(n));
            assert forall|k: int| #![trigger w[k]] 0 <= k < w.len() implies w[k].addr
                == descs[k].addr && w[k].bytes.len() <= descs[k].len by {
                if k > 0 {
                    assert(w[k] == rest[k - 1]);
                    assert(descs.skip(1)[k - 1] == descs[k]);
                }
            }
            assert(gathered(w) =~= prefix(data, capacity(descs)));
        } else {
            assert(gathered(scattered(data, descs)) =~= prefix(data, capacity(descs)));
        }
    } else {
        assert(gathered(scattered(data, descs)) =~= prefix(data, capacity(descs)));
    }
}

/// Where the buffers have room for the header and all of the data, the data of
/// the result arrives whole behind the header.
pub proof fn responses_arrive_whole(r: ResultView, descs: Seq<WriteDescriptor>)
    requires
        descs.len() > 0,
        descs[0].len >= 108,
        108 + r.data_in.len() <= capacity(descs),
    ensures
        gathered(response_plan(r, descs)) == response_header_wire(r) + r.data_in,
{
    let m = data_in_first(r, descs);
    let w = response_plan(r, descs);
    let tail = scattered(r.data_in.skip(m), descs.skip(1));
    scattered_data_arrives(r.data_in.skip(m), descs.skip(1));
    assert(gathered(tail) == r.data_in.skip(m));
    if m > 0 {
        assert(w.skip(1).skip(1) =~= tail);
        assert(w.skip(1)[0].bytes == r.data_in.take(m));
        assert(gathered(w.skip(1)) =~= r.data_in);
    } else {
        assert(w.skip(1) =~= tail);
        assert(gathered(tail) =~= r.data_in);
    }
}

/// The response header for a result.
pub fn response_header(result: &ScsiCommandResult) -> (resp: VirtioScsiCmdResp)
    ensures
        resp.wire() == response_header_wire(result@),
{
    let mut resp = VirtioScsiCmdResp::default();
    let mut sense: [u8; 96] = [0u8; 96];
    let mut i: usize = 0;
    while i < 96 && i < result.sense.len()
        invariant
            i <= 96,
            i <= result.sense@.len(),
            forall|k: int| 0 <= k < i ==> sense@[k] == result.sense@[k],
            forall|k: int| i <= k < 96 ==> sense@[k] == 0,
        decreases 96 - i,
    {
        sense[i] = result.sense[i];
        i += 1;
    }
    resp.response = result.response;
    resp.status = result.status;
    resp.resid = result.resid;
    resp.status_qualifier = 0;
    resp.sense_len = result.sense.len() as u32;
    resp.sense = sense;
    assert(resp.sense@ =~= sense_area(result.sense@));
    resp
}

/// The bytes to write for a result, and where. Nothing is written where the
/// chain has no buffer for it.
pub fn response_writes(result: &ScsiCommandResult, write_descs: &[WriteDescriptor]) -> (writes: Vec<
    GuestWrite,
>)
    ensures
        write_views(writes@) == response_plan(result@, write_descs@),
{
    let mut writes: Vec<GuestWrite> = Vec::new();
    if write_descs.len() == 0 {
        assert(write_views(writes@) =~= response_plan(result@, write_descs@));
        return writes;
    }
    let resp = response_header(result);
    let first: WriteDescriptor = write_descs[0];
    writes.push(GuestWrite { addr: first.addr, bytes: resp.to_bytes() });
    let size: usize = result.data_in.len();
    let mut offset: usize = 0;
    if size > 0 && first.len > 108 {
        let space: usize = (first.len - 108) as usize;
        offset = if space < size {
            space
        } else {
            size
        };
        let bytes: Vec<u8> = copy_range(result.data_in.as_slice(), 0, offset);
        assert(bytes@ == result.data_in@.take(offset as int));
        writes.push(GuestWrite { addr: first.addr.saturating_add(108), bytes });
    }
    let ghost all = response_plan(result@, write_descs@);
    let ghost data = result.data_in@;
    assert(offset == data_in_first(result@, write_descs@));
    assert(write_views(writes@) + scattered(data.skip(offset as int), write_descs@.skip(1))
        =~= all);
    let mut idx: usize = 1;
    while offset < size && idx < write_descs.len()
        invariant
            size == result.data_in@.len(),
            data == result.data_in@,
            offset <= size,
            1 <= idx <= write_descs@.len(),
            write_views(writes@) + scattered(
                data.skip(offset as int),
                write_descs@.skip(idx as int),
            ) == all,
        decreases write_descs@.len() - idx,
    {
        let d: WriteDescriptor = write_descs[idx];
        let remaining: usize = size - offset;
        let n: usize = if (d.len as usize) < remaining {
            d.len as usize
        } else {
            remaining
        };
        let bytes: Vec<u8> = copy_range(result.data_in.as_slice(), offset, offset + n);
        let ghost before = write_views(writes@);
        let ghost left = data.skip(offset as int);
        let ghost descs = write_descs@.skip(idx as int);
        assert(bytes@ =~= left.take(n as int));
        assert(descs[0] == d);
        writes.push(GuestWrite { addr: d.addr, bytes });
        offset = offset + n;
        idx += 1;
        proof {
            assert(left.skip(n as int) =~= data.skip(offset as int));
            assert(descs.skip(1) =~= write_descs@.skip(idx as int));
            let w = WriteView { addr: d.addr, bytes: bytes@ };
            assert(write_views(writes@) =~= before.push(w));
            assert(scattered(left, descs) == seq![w] + scattered(
                data.skip(offset as int),
                write_descs@.skip(idx as int),
            ));
            assert(write_views(writes@) + scattered(
                data.skip(offset as int),
                write_descs@.skip(idx as int),
            ) =~= all);
        }
    }
    assert(scattered(data.skip(offset as int), write_descs@.skip(idx as int)) =~= Seq::empty());
    assert(write_views(writes@) =~= all);
    writes
}

/// All the writes lie in guest memory.
pub open spec fn writes_mapped(mem: GuestMemoryMmap<()>, writes: Seq<WriteView>) -> bool {
    forall|k: int|
        0 <= k < writes.len() ==> is_mapped(
            mem,
            (#[trigger] writes[k]).addr as int,
            writes[k].bytes.len() as int,
        )
}

/// The number of bytes that the writes put into guest memory, as a `u32`
/// counts.
pub open spec fn written_count(writes: Seq<WriteView>) -> u32 {
    (written_len(writes) % 0x1_0000_0000) as u32
}

/// Bytes at addresses after the writes, one after another.
pub open spec fn all_written(m: Map<int, u8>, writes: Seq<WriteView>) -> Map<int, u8>
    decreases writes.len(),
{
    if writes.len() == 0 {
        m
    } else {
        written_over(
            all_written(m, writes.drop_last()),
            writes.last().addr as int,
            writes.last().bytes,
        )
    }
}

/// A byte of a write is found at its address unless a later write covers it,
/// and an address that no write covers keeps what was there.
pub proof fn written_bytes_are_found(m: Map<int, u8>, writes: Seq<WriteView>, k: int, j: int, a: int)
    requires
        0 <= k < writes.len(),
        0 <= j < writes[k].bytes.len(),
        forall|l: int|
            k < l < writes.len() ==> !((#[trigger] writes[l]).addr <= writes[k].addr + j
                < writes[l].addr + writes[l].bytes.len()),
        forall|l: int|
            0 <= l < writes.len() ==> !((#[trigger] writes[l]).addr <= a < writes[l].addr
                + writes[l].bytes.len()),
    ensures
        all_written(m, writes).contains_key(writes[k].addr + j),
        all_written(m, writes)[writes[k].addr + j] == writes[k].bytes[j],
        all_written(m, writes).contains_key(a) == m.contains_key(a),
        m.contains_key(a) ==> all_written(m, writes)[a] == m[a],
    decreases writes.len(),
{
    let front = writes.drop_last();
    untouched_addresses_stay(m, front, a);
    if k < front.len() {
        written_bytes_are_found(m, front, k, j, a);
    }
}

/// An address that no write covers keeps what was there.
proof fn untouched_addresses_stay(m: Map<int, u8>, writes: Seq<WriteView>, a: int)
    requires
        forall|l: int|
            0 <= l < writes.len() ==> !((#[trigger] writes[l]).addr <= a < writes[l].addr
                + writes[l].bytes.len()),
    ensures
        all_written(m, writes).contains_key(a) == m.contains_key(a),
        m.contains_key(a) ==> all_written(m, writes)[a] == m[a],
    decreases writes.len(),
{
    if writes.len() > 0 {
        untouched_addresses_stay(m, writes.drop_last(), a);
    }
}

/// The first of the writes that is not in guest memory.
pub open spec fn is_first_unmapped(
    mem: GuestMemoryMmap<()>,
    writes: Seq<WriteView>,
    k: int,
) -> bool {
    &&& 0 <= k < writes.len()
    &&& !is_mapped(mem, writes[k].addr as int, writes[k].bytes.len() as int)
    &&& writes_mapped(mem, writes.take(k))
}

/// The writes of a response ended at the first that is not in guest memory,
/// with those before it carried out.
pub open spec fn writes_failed(
    writes: Seq<WriteView>,
    mem: GuestMemoryMmap<()>,
    before: Map<int, u8>,
    after: Map<int, u8>,
    e: ResponseError,
) -> bool {
    exists|k: int|
        {
            &&& #[trigger] is_first_unmapped(mem, writes, k)
            &&& e == if k == 0 {
                ResponseError::WriteHeader
            } else {
                ResponseError::WriteDataIn
            }
            &&& after == all_written(before, writes.take(k))
        }
}

/// Carries out the writes of a response, in order, up to the first that fails.
/// Returns the number of bytes written.
pub fn perform_writes(mem: &mut GuestMemoryMmap<()>, writes: &[GuestWrite]) -> (r: Result<
    u32,
    ResponseError,
>)
    ensures
        mapped_addresses(*final(mem)) == mapped_addresses(*old(mem)),
        device_reads(*final(mem)) == device_reads(*old(mem)),
        match r {
            Ok(n) => {
                &&& writes_mapped(*old(mem), write_views(writes@))
                &&& n == written_count(write_views(writes@))
                &&& device_writes(*final(mem)) == all_written(
                    device_writes(*old(mem)),
                    write_views(writes@),
                )
            },
            Err(e) => writes_failed(
                write_views(writes@),
                *old(mem),
                device_writes(*old(mem)),
                device_writes(*final(mem)),
                e,
            ),
        },
{
    let ghost views = write_views(writes@);
    let ghost mem0 = *mem;
    let mut total: u32 = 0;
    let mut i: usize = 0;
    assert(views.take(0) =~= Seq::<WriteView>::empty());
    while i < writes.len()
        invariant
            i <= writes@.len(),
            views == write_views(writes@),
            mem0 == *old(mem),
            mapped_addresses(*mem) == mapped_addresses(mem0),
            device_reads(*mem) == device_reads(mem0),
            total == written_count(views.take(i as int)),
            device_writes(*mem) == all_written(device_writes(mem0), views.take(i as int)),
            writes_mapped(mem0, views.take(i as int)),
        decreases writes@.len() - i,
    {
        assert(views[i as int] == writes@[i as int]@);
        assert(is_mapped(*mem, views[i as int].addr as int, views[i as int].bytes.len() as int)
            == is_mapped(mem0, views[i as int].addr as int, views[i as int].bytes.len() as int));
        if !write_guest(mem, writes[i].addr, writes[i].bytes.as_slice()) {
            assert(is_first_unmapped(mem0, views, i as int));
            if i == 0 {
                return Err(ResponseError::WriteHeader);
            } else {
                return Err(ResponseError::WriteDataIn);
            }
        }
        proof {
            let next = views.take(i + 1);
            assert(next.drop_last() =~= views.take(i as int));
            assert(next.last() == views[i as int]);
            assert forall|k: int| 0 <= k < next.len() implies is_mapped(
                mem0,
                (#[trigger] next[k]).addr as int,
                next[k].bytes.len() as int,
            ) by {
                if k < i {
                    assert(next[k] == views.take(i as int)[k]);
                }
            }
        }
        let count: u32 = (writes[i].bytes.len() as u64 % 0x1_0000_0000) as u32;
        total = total.wrapping_add(count);
        i += 1;
    }
    assert(views.take(i as int) =~= views);
    Ok(total)
}

/// A response writes no more than a header and what its buffers hold, and no
/// more than its buffers hold where the first has room for the header.
pub proof fn responses_are_bounded(r: ResultView, descs: Seq<WriteDescriptor>)
    ensures
        descs.len() == 0 ==> written_len(response_plan(r, descs)) == 0,
        descs.len() > 0 ==> written_len(response_plan(r, descs)) <= 108 + capacity(descs),
        descs.len() > 0 && descs[0].len >= 108 ==> written_len(response_plan(r, descs))
            <= capacity(descs),
{
    if descs.len() > 0 {
        let m = data_in_first(r, descs);
        let rest = descs.skip(1);
        let data = r.data_in.skip(m);
        let tail = scattered(data, rest);
        let plan = response_plan(r, descs);
        written_len_of_scattered(data, rest);
        let head = seq![WriteView { addr: descs[0].addr, bytes: response_header_wire(r) }];
        assert(head.drop_last() =~= Seq::<WriteView>::empty());
        assert(written_len(head.drop_last()) == 0);
        assert(written_len(head) == 108);
        if m > 0 {
            let first = head.push(
                WriteView { addr: behind_header(descs[0].addr), bytes: r.data_in.take(m) },
            );
            assert(first.drop_last() =~= head);
            assert(written_len(first) == 108 + m);
            written_len_add(first, tail);
            assert(plan =~= first + tail);
        } else {
            written_len_add(head, tail);
            assert(plan =~= head + tail);
        }
    } else {
        assert(response_plan(r, descs) =~= Seq::empty());
    }
}

proof fn written_len_add(a: Seq<WriteView>, b: Seq<WriteView>)
    ensures
        written_len(a + b) == written_len(a) + written_len(b),
    decreases b.len(),
{
    if b.len() > 0 {
        written_len_add(a, b.drop_last());
        assert((a + b).drop_last() =~= a + b.drop_last());
    } else {
        assert(a + b =~= a);
    }
}

proof fn written_len_of_scattered(data: Seq<u8>, descs: Seq<WriteDescriptor>)
    ensures
        written_len(scattered(data, descs)) <= capacity(descs),
        capacity(descs) >= 0,
    decreases descs.len(),
{
    if descs.len() > 0 {
        let n = if descs[0].len < data.len() {
            descs[0].len as int
        } else {
            data.len() as int
        };
        written_len_of_scattered(data.skip(n), descs.skip(1));
        if data.len() > 0 {
            let head = seq![WriteView { addr: descs[0].addr, bytes: data.take(n) }];
            assert(head.drop_last() =~= Seq::<WriteView>::empty());
            assert(written_len(head.drop_last()) == 0);
            assert(written_len(head) == n);
            written_len_add(head, scattered(data.skip(n), descs.skip(1)));
        }
    }
}

/// How a response to some buffers ends: with the number of bytes written where
/// all of it is in guest memory, and else with the error of the first part that
/// is not; and what was written.
pub open spec fn response_done(
    plan: Seq<WriteView>,
    mem: GuestMemoryMmap<()>,
    before: Map<int, u8>,
    after: Map<int, u8>,
    r: Result<u32, ResponseError>,
) -> bool {
    match r {
        Ok(n) => {
            &&& writes_mapped(mem, plan)
            &&& n == written_count(plan)
            &&& after == all_written(before, plan)
        },
        Err(e) => writes_failed(plan, mem, before, after, e),
    }
}

/// A response fails exactly where a part of it is not in guest memory: with
/// its header where that is the part.
pub proof fn responses_fail_outside_memory(
    plan: Seq<WriteView>,
    mem: GuestMemoryMmap<()>,
    before: Map<int, u8>,
    after: Map<int, u8>,
    r: Result<u32, ResponseError>,
)
    requires
        response_done(plan, mem, before, after, r),
    ensures
        r is Ok <==> writes_mapped(mem, plan),
        r == Err::<u32, ResponseError>(ResponseError::WriteHeader) <==> plan.len() > 0
            && !is_mapped(mem, plan[0].addr as int, plan[0].bytes.len() as int),
{
    if let Err(e) = r {
        let k = choose|k: int|
            #[trigger] is_first_unmapped(mem, plan, k) && e == (if k == 0 {
                ResponseError::WriteHeader
            } else {
                ResponseError::WriteDataIn
            });
        assert(is_first_unmapped(mem, plan, k));
        if k > 0 {
            assert(plan.take(k)[0] == plan[0]);
        }
        assert(!is_mapped(mem, plan[k].addr as int, plan[k].bytes.len() as int));
    }
}

/// Writes the response for a result to the buffers of its chain. Returns the
/// number of bytes written, zero where there is no buffer.
pub fn write_response(
    mem: &mut GuestMemoryMmap<()>,
    result: &ScsiCommandResult,
    write_descs: &[WriteDescriptor],
) -> (r: Result<u32, ResponseError>)
    ensures
        mapped_addresses(*final(mem)) == mapped_addresses(*old(mem)),
        device_reads(*final(mem)) == device_reads(*old(mem)),
        response_done(
            response_plan(result@, write_descs@),
            *old(mem),
            device_writes(*old(mem)),
            device_writes(*final(mem)),
            r,
        ),
{
    let writes = response_writes(result, write_descs);
    perform_writes(mem, writes.as_slice())
}

/// What a chain gets back when its request was taken from its descriptors: the
/// response to what the request came to.
pub open spec fn chain_answered<D: DiskOps>(
    descs: Seq<Descriptor>,
    luns: Seq<ProcessorView>,
    luns_after: Seq<ProcessorView>,
    disks: Seq<LunDisk<D>>,
    disks_after: Seq<LunDisk<D>>,
    mem: GuestMemoryMmap<()>,
    after: GuestMemoryMmap<()>,
    r: Result<u32, ResponseError>,
) -> bool {
    &&& request_read(new_reads(mem, after), descs)
    &&& exists|result: ResultView|
        {
            &&& #[trigger] request_answered(
                new_reads(mem, after),
                descs.skip(1),
                luns,
                luns_after,
                disks,
                disks_after,
                result,
            )
            &&& response_done(
                response_plan(result, writable(descs.skip(1))),
                mem,
                device_writes(mem),
                device_writes(after),
                r,
            )
        }
}

/// What a chain gets back when one of its data-out buffers is not in guest
/// memory: ABORTED COMMAND in the response buffers before that one.
pub open spec fn chain_aborted(
    descs: Seq<Descriptor>,
    mem: GuestMemoryMmap<()>,
    after: GuestMemoryMmap<()>,
    r: Result<u32, ResponseError>,
) -> bool {
    exists|k: int|
        {
            &&& is_first_unreadable(mem, descs, k)
            &&& #[trigger] request_read(new_reads(mem, after), descs.take(k))
            &&& response_done(
                response_plan(
                    failed(sense_key::ABORTED_COMMAND, 0x00, 0x00),
                    writable(descs.subrange(1, k)),
                ),
                mem,
                device_writes(mem),
                device_writes(after),
                r,
            )
        }
}

/// What becomes of a chain: one without a request header in guest memory is
/// used up with nothing read or written; one with a data-out buffer that is not
/// in guest memory is aborted; and any other is answered.
pub open spec fn chain_processed<D: DiskOps>(
    descs: Seq<Descriptor>,
    luns: Seq<ProcessorView>,
    luns_after: Seq<ProcessorView>,
    disks: Seq<LunDisk<D>>,
    disks_after: Seq<LunDisk<D>>,
    mem: GuestMemoryMmap<()>,
    after: GuestMemoryMmap<()>,
    r: Result<u32, ResponseError>,
) -> bool {
    &&& mapped_addresses(after) == mapped_addresses(mem)
    &&& device_reads(after) == device_reads(mem) + new_reads(mem, after)
    &&& if request_readable(mem, descs) {
        chain_answered(descs, luns, luns_after, disks, disks_after, mem, after, r)
    } else {
        &&& luns_after == luns
        &&& disks_after == disks
        &&& if descs.len() == 0 || descs[0].len < 51 || !is_mapped(
            mem,
            descs[0].addr as int,
            51,
        ) {
            r == Ok::<u32, ResponseError>(0) && untouched(mem, after)
        } else {
            chain_aborted(descs, mem, after, r)
        }
    }
}

/// Processes one chain of a request queue: takes the request from it, carries
/// it out, and writes the response, which is ABORTED COMMAND where there was
/// no request to carry out. Returns the number of bytes written.
pub fn process_request<D: DiskOps>(
    mem: &mut GuestMemoryMmap<()>,
    descs: &[Descriptor],
    luns: &mut Vec<ScsiCommandProcessor>,
    disks: &mut Vec<LunDisk<D>>,
) -> (r: Result<u32, ResponseError>)
    requires
        luns_wf(lun_views(old(luns)@)),
        chain_wf(descs@),
    ensures
        luns_wf(lun_views(final(luns)@)),
        lun_views(final(luns)@).len() == lun_views(old(luns)@).len(),
        forall|i: int|
            0 <= i < lun_views(old(luns)@).len() ==> (#[trigger] lun_views(final(luns)@)[i]).config
                == lun_views(old(luns)@)[i].config,
        chain_processed(
            descs@,
            lun_views(old(luns)@),
            lun_views(final(luns)@),
            old(disks)@,
            final(disks)@,
            *old(mem),
            *final(mem),
            r,
        ),
{
    let ghost luns0 = lun_views(luns@);
    let ghost disks0 = disks@;
    let ghost mem0 = *mem;
    let (outcome, write_descs) = process_single_request(mem, descs, luns, disks);
    let ghost done = outcome;
    let ghost mem1 = *mem;
    let answer = answer_of(outcome);
    proof {
        if let Ok(result) = done {
            request_keeps_configs(
                new_reads(mem0, mem1),
                descs@.skip(1),
                luns0,
                lun_views(luns@),
                disks0,
                disks@,
                result@,
            );
        }
    }
    let r = write_response(mem, &answer, write_descs.as_slice());
    proof {
        let reads = new_reads(mem0, *mem);
        let luns1 = lun_views(luns@);
        let plan = response_plan(answer@, write_descs@);
        same_memory_same_response(plan, mem1, mem0, device_writes(mem0), device_writes(*mem), r);
        if done is Ok {
            assert(request_answered(reads, descs@.skip(1), luns0, luns1, disks0, disks@, answer@));
            assert(chain_answered(descs@, luns0, luns1, disks0, disks@, mem0, *mem, r));
        } else {
            assert(luns1 == luns0);
            if descs@.len() == 0 || descs@[0].len < 51 || !is_mapped(
                mem0,
                descs@[0].addr as int,
                51,
            ) {
                assert(plan =~= Seq::empty());
                assert(writes_mapped(mem0, plan));
                assert(written_len(plan) == 0);
            } else {
                assert(chain_aborted(descs@, mem0, *mem, r));
            }
        }
    }
    r
}

/// How a response ends depends only on which addresses are memory.
proof fn same_memory_same_response(
    plan: Seq<WriteView>,
    a: GuestMemoryMmap<()>,
    b: GuestMemoryMmap<()>,
    before: Map<int, u8>,
    after: Map<int, u8>,
    r: Result<u32, ResponseError>,
)
    requires
        mapped_addresses(a) == mapped_addresses(b),
        response_done(plan, a, before, after, r),
    ensures
        response_done(plan, b, before, after, r),
{
    assert forall|writes: Seq<WriteView>| #[trigger] writes_mapped(a, writes) implies writes_mapped(
        b,
        writes,
    ) by {
        assert forall|k: int| 0 <= k < writes.len() implies is_mapped(
            b,
            (#[trigger] writes[k]).addr as int,
            writes[k].bytes.len() as int,
        ) by {
            assert(is_mapped(a, writes[k].addr as int, writes[k].bytes.len() as int));
        }
    }
    if let Err(e) = r {
        let k = choose|k: int|
            {
                &&& #[trigger] is_first_unmapped(a, plan, k)
                &&& e == if k == 0 {
                    ResponseError::WriteHeader
                } else {
                    ResponseError::WriteDataIn
                }
                &&& after == all_written(before, plan.take(k))
            };
        assert(is_first_unmapped(b, plan, k));
    }
}

/// Requests do not change the configuration of any LUN.
proof fn request_keeps_configs<D: DiskOps>(
    reads: Seq<(int, Seq<u8>)>,
    buffers: Seq<Descriptor>,
    luns: Seq<ProcessorView>,
    luns_after: Seq<ProcessorView>,
    disks: Seq<LunDisk<D>>,
    disks_after: Seq<LunDisk<D>>,
    result: ResultView,
)
    requires
        luns_wf(luns),
        request_answered(reads, buffers, luns, luns_after, disks, disks_after, result),
    ensures
        luns_after.len() == luns.len(),
        forall|i: int|
            0 <= i < luns.len() ==> (#[trigger] luns_after[i]).config == luns[i].config,
{
    let lun = reads[0].1.subrange(0, 8);
    let cdb = reads[0].1.subrange(19, 51);
    let data_out = joined(reads.skip(1));
    if lun != report_luns_wlun() {
        if let Some((target, number)) = lun_address(lun) {
            let id = ScsiLunId { target, lun: number };
            if has_lun(luns, id) && has_disk(disks, id) {
                let i = choose|i: int| 0 <= i < luns.len() && #[trigger] luns[i].config.id() == id;
                let j = first_disk(disks, id);
                assert(0 <= i < luns.len() && luns[i].config.id() == id);
                assert(is_disk_of(disks, id, j));
                let changed = luns.update(i, luns[i].after(cdb, data_out));
                let kept = only_changed(disks, disks_after, j);
                assert(luns_after == changed);
                assert(luns[i].wf());
                crate::scsi::commands::commands_keep_the_lun(luns[i], cdb, data_out);
            }
        }
    }
}

/// There is a first disk of a LUN that has one.
proof fn first_disk<D>(disks: Seq<LunDisk<D>>, id: ScsiLunId) -> (j: int)
    requires
        has_disk(disks, id),
    ensures
        is_disk_of(disks, id, j),
    decreases disks.len(),
{
    let front = disks.drop_last();
    if has_disk(front, id) {
        let j = first_disk(front, id);
        assert forall|k: int| 0 <= k < j implies (#[trigger] disks[k]).id != id by {
            assert(front[k] == disks[k]);
        }
        j
    } else {
        let j = disks.len() - 1;
        let w = choose|i: int| 0 <= i < disks.len() && (#[trigger] disks[i]).id == id;
        if w < j {
            assert(front[w].id == id);
        }
        assert forall|k: int| 0 <= k < j implies (#[trigger] disks[k]).id != id by {
            assert(front[k] == disks[k]);
        }
        j
    }
}

// ─── Laws ────────────────────────────────────────────────────────────────────

/// The answers to control requests: 10, that the function succeeded, to a task
/// management function (0); zero to a notification query (1) or subscription (2);
/// and 9, a failure, to any other type.
pub proof fn control_requests_are_answered(request_type: u32)
    ensures
        request_type == 0 ==> ctrl_answer(request_type) == 10,
        request_type == 1 || request_type == 2 ==> ctrl_answer(request_type) == 0,
        request_type > 2 ==> ctrl_answer(request_type) == 9,
{
}

/// Where buffers start when they are put one behind another, and behind them
/// where the last ends.
pub open spec fn are_buffer_starts(descs: Seq<WriteDescriptor>, starts: Seq<int>) -> bool {
    &&& starts.len() == descs.len() + 1
    &&& starts[0] == 0
    &&& forall|k: int| 0 <= k < descs.len() ==> #[trigger] starts[k + 1] == starts[k] + descs[k].len
}

/// The allocation length of a request is where the last of the buffers ends that
/// the device writes.
pub proof fn buffers_add_up(descs: Seq<WriteDescriptor>, starts: Seq<int>)
    requires
        starts.len() == descs.len() + 1,
        starts[0] == 0,
        forall|j: int| 0 <= j < descs.len() ==> #[trigger] starts[j + 1] == starts[j] + descs[j].len,
    ensures
        total_len(descs) == starts.last(),
    decreases descs.len(),
{
    if descs.len() > 0 {
        let front = descs.drop_last();
        let s = starts.drop_last();
        assert forall|k: int| 0 <= k < front.len() implies #[trigger] s[k + 1] == s[k]
            + front[k].len by {
            assert(starts[k + 1] == starts[k] + descs[k].len);
        }
        buffers_add_up(front, s);
        let n = descs.len() - 1;
        assert(starts[n + 1] == starts[n] + descs[n].len);
    }
}

/// Each buffer of a chain that the device writes is among its writable buffers,
/// behind those of the chain before it; each that it reads is among the readable
/// ones likewise; and no others are.
pub proof fn buffers_keep_their_order(descs: Seq<Descriptor>, k: int)
    requires
        0 <= k < descs.len(),
    ensures
        writable(descs).len() + readable(descs).len() == descs.len(),
        descs[k].write_only ==> {
            let i = writable(descs.take(k)).len() as int;
            &&& i < writable(descs).len()
            &&& writable(descs)[i].addr == descs[k].addr
            &&& writable(descs)[i].len == descs[k].len
        },
        !descs[k].write_only ==> {
            let i = readable(descs.take(k)).len() as int;
            &&& i < readable(descs).len()
            &&& readable(descs)[i] == descs[k]
        },
    decreases descs.len(),
{
    let front = descs.drop_last();
    if k < front.len() {
        buffers_keep_their_order(front, k);
        assert(front.take(k) =~= descs.take(k));
        assert(front[k] == descs[k]);
    } else {
        assert(descs.take(k) =~= front);
        if front.len() > 0 {
            buffers_keep_their_order(front, 0);
        }
    }
}

/// Where each byte of data goes that is spread over buffers: the bytes from the
/// start of a buffer on are written to its address, up to its end or to the end
/// of the data.
pub proof fn scattered_bytes_find_their_buffer(
    data: Seq<u8>,
    descs: Seq<WriteDescriptor>,
    starts: Seq<int>,
    k: int,
)
    requires
        starts.len() == descs.len() + 1,
        starts[0] == 0,
        forall|j: int| 0 <= j < descs.len() ==> #[trigger] starts[j + 1] == starts[j] + descs[j].len,
        0 <= k < descs.len(),
        starts[k] < data.len(),
    ensures
        k < scattered(data, descs).len(),
        scattered(data, descs)[k].addr == descs[k].addr,
        scattered(data, descs)[k].bytes == data.subrange(
            starts[k],
            if starts[k + 1] < data.len() {
                starts[k + 1]
            } else {
                data.len() as int
            },
        ),
    decreases descs.len(),
{
    assert(starts[0int + 1] == starts[0] + descs[0].len);
    buffer_starts_grow(descs, starts, k);
    let n = if descs[0].len < data.len() {
        descs[0].len as int
    } else {
        data.len() as int
    };
    let w = scattered(data, descs);
    if k == 0 {
        assert(w[0].bytes =~= data.subrange(0, n));
    } else {
        let rest = descs.skip(1);
        let s = Seq::new((starts.len() - 1) as nat, |i: int| starts[i + 1] - starts[1]);
        assert forall|i: int| 0 <= i < rest.len() implies #[trigger] s[i + 1] == s[i]
            + rest[i].len by {
            assert(starts[i + 1 + 1] == starts[i + 1] + descs[i + 1].len);
        }
        assert(starts[k] >= starts[1]);
        let tail = data.skip(n);
        scattered_bytes_find_their_buffer(tail, rest, s, k - 1);
        assert(w[k] == scattered(tail, rest)[k - 1]);
        let to = if starts[k + 1] < data.len() {
            starts[k + 1]
        } else {
            data.len() as int
        };
        assert(w[k].bytes =~= data.subrange(starts[k], to));
    }
}

/// The starts of buffers grow.
proof fn buffer_starts_grow(descs: Seq<WriteDescriptor>, starts: Seq<int>, k: int)
    requires
        are_buffer_starts(descs, starts),
        0 <= k <= descs.len(),
    ensures
        0 <= starts[k],
        k >= 1 ==> starts[1] <= starts[k],
    decreases k,
{
    if k > 0 {
        buffer_starts_grow(descs, starts, k - 1);
        assert(starts[k - 1 + 1] == starts[k - 1] + descs[k - 1].len);
    }
}

/// The response header of a result, field by field in little-endian order: the
/// length of the sense data in bytes 0 to 3, the residual count in bytes 4 to 7,
/// a status qualifier of zero, the status in byte 10, the response code in byte
/// 11, and the sense data from byte 12 on, with zeros behind it.
pub proof fn response_headers_are_laid_out(r: ResultView, i: int)
    requires
        r.sense.len() <= 96,
        0 <= i < 96,
    ensures
        ({
            let w = response_header_wire(r);
            &&& w.len() == 108
            &&& le_value(w.subrange(0, 4)) == r.sense.len()
            &&& le_value(w.subrange(4, 8)) == r.resid
            &&& w[8] == 0 && w[9] == 0
            &&& w[10] == r.status
            &&& w[11] == r.response
            &&& w[12 + i] == if i < r.sense.len() { r.sense[i] } else { 0 }
        }),
{
    let w = response_header_wire(r);
    bytes_stand_for_their_number(0, r.sense.len() as u32, 0);
    bytes_stand_for_their_number(0, r.resid, 0);
    assert(w.subrange(0, 4) =~= le32(r.sense.len() as u32));
    assert(w.subrange(4, 8) =~= le32(r.resid));
}

/// What is written for a result, and where: the header of 108 bytes at the start
/// of the first buffer; behind it, where the first buffer is longer, as many bytes
/// of the data as find room there; and the rest spread over the other buffers.
/// Without a buffer nothing is written.
pub proof fn responses_start_with_their_header(r: ResultView, descs: Seq<WriteDescriptor>)
    ensures
        descs.len() == 0 ==> response_plan(r, descs).len() == 0,
        descs.len() > 0 ==> {
            let plan = response_plan(r, descs);
            let room = if descs[0].len > 108 { descs[0].len - 108 } else { 0 };
            let first = if room < r.data_in.len() { room } else { r.data_in.len() as int };
            &&& plan.len() > 0
            &&& plan[0].addr == descs[0].addr
            &&& plan[0].bytes == response_header_wire(r)
            &&& first == 0 ==> plan.skip(1) == scattered(r.data_in, descs.skip(1))
            &&& first > 0 ==> {
                &&& plan.len() > 1
                &&& descs[0].addr + 108 <= u64::MAX ==> plan[1].addr == descs[0].addr + 108
                &&& plan[1].bytes == r.data_in.take(first)
                &&& plan.skip(2) == scattered(r.data_in.skip(first), descs.skip(1))
            }
        },
{
    if descs.len() > 0 {
        let plan = response_plan(r, descs);
        let m = data_in_first(r, descs);
        let tail = scattered(r.data_in.skip(m), descs.skip(1));
        if m > 0 {
            assert(plan.skip(2) =~= tail);
        } else {
            assert(r.data_in.skip(0) =~= r.data_in);
            assert(plan.skip(1) =~= tail);
        }
    }
}

/// The count of bytes that is returned for a response is that of its parts.
pub proof fn written_bytes_are_counted(writes: Seq<WriteView>, ends: Seq<int>)
    requires
        ends.len() == writes.len() + 1,
        ends[0] == 0,
        forall|k: int|
            0 <= k < writes.len() ==> #[trigger] ends[k + 1] == ends[k] + writes[k].bytes.len(),
    ensures
        written_len(writes) == ends.last(),
        0 <= ends.last(),
        ends.last() <= u32::MAX ==> written_count(writes) == ends.last(),
    decreases writes.len(),
{
    if writes.len() > 0 {
        let front = writes.drop_last();
        let e = ends.drop_last();
        assert forall|k: int| 0 <= k < front.len() implies #[trigger] e[k + 1] == e[k]
            + front[k].bytes.len() by {
            assert(ends[k + 1] == ends[k] + writes[k].bytes.len());
        }
        written_bytes_are_counted(front, e);
        let n = writes.len() - 1;
        assert(ends[n + 1] == ends[n] + writes[n].bytes.len());
    }
}

/// The list that REPORT LUNS returns at the well-known logical unit, byte by byte
/// where all of it is asked for: its length, eight for each LUN, in the first four
/// bytes, big-endian; and for the `i`-th LUN, from byte 8 + 8 * i on, single level
/// addressing, its target, and its number with 0x4000 in big-endian order.
pub proof fn lun_lists_are_laid_out(luns: Seq<ProcessorView>, n: u32, i: int)
    requires
        luns_wf(luns),
        n >= 8 + 8 * luns.len(),
        0 <= i < luns.len(),
        luns[i].config.lun <= 16383,
    ensures
        ({
            let r = all_luns(luns, n);
            let d = r.data_in;
            let at = 8 + 8 * i;
            &&& r.status == 0 && r.response == 0
            &&& d.len() == 8 + 8 * luns.len()
            &&& be_value(d.subrange(0, 4)) == 8 * luns.len()
            &&& d[at] == 1 && d[at + 1] == luns[i].config.target
            &&& be_value(d.subrange(at + 2, at + 4)) == 0x4000 + luns[i].config.lun
            &&& d[at + 4] == 0 && d[at + 5] == 0 && d[at + 6] == 0 && d[at + 7] == 0
        }),
{
    luns_are_bounded(luns);
    lun_list_layout(luns, i);
    let count = (luns.len() * 8) as u32;
    let d = be32(count) + zeros(4) + lun_fields(luns);
    let at = 8 + 8 * i;
    let f = lun_field(luns[i].config.target, luns[i].config.lun);
    assert(prefix(d, n as int) =~= d);
    bytes_stand_for_their_number(0, count, 0);
    assert(d.subrange(0, 4) =~= be32(count));
    assert(d.subrange(at, at + 8) =~= f);
    assert forall|j: int| 0 <= j < 8 implies #[trigger] d[at + j] == f[j] by {
        assert(d.subrange(at, at + 8)[j] == d[at + j]);
    }
    assert(d[at] == d[at + 0]);
    big_endian_numbers(d, at + 2);
    crate::scsi::protocol::lun_fields_hold_their_lun(luns[i].config.target, luns[i].config.lun);
}

/// Where a request goes, by the bytes of its LUN field. The field 0xC1, 1 and six
/// zeros is the well-known logical unit, which answers REPORT LUNS (0xA0) alone. A
/// field that addresses nothing gets response 3, a bad target; one that addresses a
/// LUN that is not there, or has no disk, ILLEGAL REQUEST with code 0x25; neither
/// changes anything. Any other is carried out by the LUN that it addresses, on its
/// disk: all other LUNs and disks stay as they are.
pub proof fn requests_go_to_the_addressed_lun<D: DiskOps>(
    lun: Seq<u8>,
    cdb: Seq<u8>,
    data_out: Seq<u8>,
    n: u32,
    luns: Seq<ProcessorView>,
    luns_after: Seq<ProcessorView>,
    disks: Seq<LunDisk<D>>,
    disks_after: Seq<LunDisk<D>>,
    result: ResultView,
    target: u8,
    number: u16,
    i: int,
    j: int,
)
    requires
        lun.len() == 8,
        cdb.len() > 0,
        dispatched(
            lun,
            cdb,
            data_out,
            n,
            luns,
            luns_after,
            disks,
            disks_after,
            result,
        ),
    ensures
        ({
            let well_known = lun[0] == 0xC1 && lun[1] == 1 && lun[2] == 0 && lun[3] == 0 && lun[4]
                == 0 && lun[5] == 0 && lun[6] == 0 && lun[7] == 0;
            let quiet = luns_after == luns && disks_after == disks;
            &&& well_known && cdb[0] == 0xA0 ==> quiet && result == all_luns(luns, n)
            &&& well_known && cdb[0] != 0xA0 ==> quiet && result.status == 2 && result.sense[2] == 5
                && result.sense[12] == 0x20
            &&& !well_known && lun_address(lun) is None ==> quiet && result.response == 3
                && result.data_in.len() == 0
            &&& lun_address(lun) == Some((target, number)) ==> {
                let id = ScsiLunId { target, lun: number };
                let addressed = 0 <= i < luns.len() && luns[i].config.target == target
                    && luns[i].config.lun == number;
                let first = 0 <= j < disks.len() && disks[j].id == id && forall|k: int|
                    0 <= k < j ==> (#[trigger] disks[k]).id != id;
                &&& addressed && first ==> {
                    &&& luns_after.len() == luns.len()
                    &&& luns_after[i] == luns[i].after(cdb, data_out)
                    &&& forall|k: int|
                        0 <= k < luns.len() && k != i ==> #[trigger] luns_after[k] == luns[k]
                    &&& disks_after.len() == disks.len()
                    &&& forall|k: int|
                        0 <= k < disks.len() && k != j ==> #[trigger] disks_after[k] == disks[k]
                    &&& carried_out(
                        luns[i].plan(cdb, data_out, n),
                        data_out,
                        disks[j].disk,
                        disks_after[j].disk,
                        result,
                    )
                }
                &&& (forall|k: int|
                    0 <= k < luns.len() ==> (#[trigger] luns[k]).config.target != target
                        || luns[k].config.lun != number) || (forall|k: int|
                    0 <= k < disks.len() ==> (#[trigger] disks[k]).id != id) ==> quiet
                    && result.response == 0 && result.status == 2 && result.sense[2] == 5
                    && result.sense[12] == 0x25
            }
        }),
{
    let w = report_luns_wlun();
    if lun[0] == 0xC1 && lun[1] == 1 && lun[2] == 0 && lun[3] == 0 && lun[4] == 0 && lun[5] == 0
        && lun[6] == 0 && lun[7] == 0 {
        assert(lun =~= w);
    } else {
        if lun == w {
            assert(w[0] == 0xC1 && w[1] == 1 && w[2] == 0 && w[3] == 0);
            assert(w[4] == 0 && w[5] == 0 && w[6] == 0 && w[7] == 0);
        }
        if lun_address(lun) == Some((target, number)) {
            let id = ScsiLunId { target, lun: number };
            let first = 0 <= j < disks.len() && disks[j].id == id && forall|k: int|
                0 <= k < j ==> (#[trigger] disks[k]).id != id;
            if 0 <= i < luns.len() && luns[i].config.target == target && luns[i].config.lun == number
                && first {
                assert(is_disk_of(disks, id, j));
                assert(luns[i].config.id() == id);
                assert(has_lun(luns, id));
                assert(disks[j].id == id);
                assert(has_disk(disks, id));
                let changed = luns.update(i, luns[i].after(cdb, data_out));
                let kept = only_changed(disks, disks_after, j);
                assert(luns_after == changed);
                assert(kept);
            }
            if forall|k: int|
                0 <= k < luns.len() ==> (#[trigger] luns[k]).config.target != target
                    || luns[k].config.lun != number {
                if has_lun(luns, id) {
                    let k = choose|k: int| 0 <= k < luns.len() && #[trigger] luns[k].config.id() == id;
                    assert(luns[k].config.target == target);
                }
            }
        }
    }
}

/// What becomes of a chain whose header and data are in guest memory. The 51 bytes of
/// the header are read from its first buffer, and then each of the others that the
/// device reads, in order. The request has the LUN field in the first eight bytes of
/// the header and the command in its last 32, the bytes of the buffers for its data,
/// and as much room for an answer as the buffers have that the device writes; and the
/// response to its result is written to those.
pub proof fn chains_are_taken_from_their_buffers<D: DiskOps>(
    descs: Seq<Descriptor>,
    luns: Seq<ProcessorView>,
    luns_after: Seq<ProcessorView>,
    disks: Seq<LunDisk<D>>,
    disks_after: Seq<LunDisk<D>>,
    mem: GuestMemoryMmap<()>,
    after: GuestMemoryMmap<()>,
    r: Result<u32, ResponseError>,
) -> (result: ResultView)
    requires
        chain_processed(descs, luns, luns_after, disks, disks_after, mem, after, r),
        descs.len() > 0,
        descs[0].len >= 51,
        is_mapped(mem, descs[0].addr as int, 51),
        forall|k: int|
            1 <= k < descs.len() && !(#[trigger] descs[k]).write_only ==> is_mapped(
                mem,
                descs[k].addr as int,
                descs[k].len as int,
            ),
    ensures
        ({
            let reads = new_reads(mem, after);
            let buffers = readable(descs.skip(1));
            let room = writable(descs.skip(1));
            &&& reads.len() == buffers.len() + 1
            &&& reads[0].0 == descs[0].addr && reads[0].1.len() == 51
            &&& forall|k: int|
                0 <= k < buffers.len() ==> (#[trigger] buffers[k]).addr == reads[k + 1].0
                    && buffers[k].len == reads[k + 1].1.len()
            &&& dispatched(
                reads[0].1.subrange(0, 8),
                reads[0].1.subrange(19, 51),
                joined(reads.skip(1)),
                total_len(room) as u32,
                luns,
                luns_after,
                disks,
                disks_after,
                result,
            )
            &&& response_done(
                response_plan(result, room),
                mem,
                device_writes(mem),
                device_writes(after),
                r,
            )
        }),
{
    let reads = new_reads(mem, after);
    assert(request_readable(mem, descs));
    let result = choose|result: ResultView|
        {
            &&& #[trigger] request_answered(
                reads,
                descs.skip(1),
                luns,
                luns_after,
                disks,
                disks_after,
                result,
            )
            &&& response_done(
                response_plan(result, writable(descs.skip(1))),
                mem,
                device_writes(mem),
                device_writes(after),
                r,
            )
        };
    let buffers = readable(descs.skip(1));
    assert forall|k: int| 0 <= k < buffers.len() implies (#[trigger] buffers[k]).addr == reads[k
        + 1].0 && buffers[k].len == reads[k + 1].1.len() by {
        assert(reads.skip(1)[k] == reads[k + 1]);
    }
    result
}

/// A chain without a header of 51 bytes in guest memory reads and writes nothing, and
/// changes neither a LUN nor a disk; its count is zero.
pub proof fn headless_chains_do_nothing<D: DiskOps>(
    descs: Seq<Descriptor>,
    luns: Seq<ProcessorView>,
    luns_after: Seq<ProcessorView>,
    disks: Seq<LunDisk<D>>,
    disks_after: Seq<LunDisk<D>>,
    mem: GuestMemoryMmap<()>,
    after: GuestMemoryMmap<()>,
    r: Result<u32, ResponseError>,
)
    requires
        chain_processed(descs, luns, luns_after, disks, disks_after, mem, after, r),
        descs.len() == 0 || descs[0].len < 51 || !is_mapped(mem, descs[0].addr as int, 51),
    ensures
        r == Ok::<u32, ResponseError>(0),
        luns_after == luns,
        disks_after == disks,
        device_reads(after) == device_reads(mem),
        device_writes(after) == device_writes(mem),
{
}

/// A chain whose header is in guest memory, but one of whose data buffers is not,
/// changes neither a LUN nor a disk. It is answered in those buffers before that one
/// which the device writes, with the header of a check condition of ABORTED COMMAND.
pub proof fn torn_chains_are_aborted<D: DiskOps>(
    descs: Seq<Descriptor>,
    luns: Seq<ProcessorView>,
    luns_after: Seq<ProcessorView>,
    disks: Seq<LunDisk<D>>,
    disks_after: Seq<LunDisk<D>>,
    mem: GuestMemoryMmap<()>,
    after: GuestMemoryMmap<()>,
    r: Result<u32, ResponseError>,
    k: int,
) -> (result: ResultView)
    requires
        chain_processed(descs, luns, luns_after, disks, disks_after, mem, after, r),
        descs.len() > 0,
        descs[0].len >= 51,
        is_mapped(mem, descs[0].addr as int, 51),
        1 <= k < descs.len(),
        !descs[k].write_only,
        !is_mapped(mem, descs[k].addr as int, descs[k].len as int),
        forall|j: int|
            1 <= j < k && !(#[trigger] descs[j]).write_only ==> is_mapped(
                mem,
                descs[j].addr as int,
                descs[j].len as int,
            ),
    ensures
        luns_after == luns,
        disks_after == disks,
        result.status == 2 && result.response == 0 && result.sense[2] == 0x0B && result.sense.len()
            == 18 && result.data_in.len() == 0,
        response_done(
            response_plan(result, writable(descs.subrange(1, k))),
            mem,
            device_writes(mem),
            device_writes(after),
            r,
        ),
{
    assert(!data_out_mapped(mem, descs)) by {
        assert(1 <= k < descs.len() && !descs[k].write_only);
    }
    let result = failed(sense_key::ABORTED_COMMAND, 0x00, 0x00);
    let j = choose|j: int|
        {
            &&& is_first_unreadable(mem, descs, j)
            &&& #[trigger] request_read(new_reads(mem, after), descs.take(j))
            &&& response_done(
                response_plan(result, writable(descs.subrange(1, j))),
                mem,
                device_writes(mem),
                device_writes(after),
                r,
            )
        };
    if j < k {
        assert(!descs[j].write_only);
    } else if k < j {
        let front = descs.take(j);
        assert(front[k] == descs[k]);
        assert(1 <= k < front.len() && !front[k].write_only);
    }
    result
}

/// A response that is in guest memory is written whole, part after part, and the count
/// is that of its bytes. One that is not ends before the first part that is not, and
/// what was written before it stays.
pub proof fn responses_are_written_in_order(
    plan: Seq<WriteView>,
    mem: GuestMemoryMmap<()>,
    before: Map<int, u8>,
    after: Map<int, u8>,
    r: Result<u32, ResponseError>,
    k: int,
)
    requires
        response_done(plan, mem, before, after, r),
    ensures
        r matches Ok(n) ==> {
            &&& after == all_written(before, plan)
            &&& n == written_len(plan) % 0x1_0000_0000
            &&& 0 <= k < plan.len() ==> is_mapped(
                mem,
                plan[k].addr as int,
                plan[k].bytes.len() as int,
            )
        },
        r is Err && 0 <= k < plan.len() && !is_mapped(
            mem,
            plan[k].addr as int,
            plan[k].bytes.len() as int,
        ) && (forall|j: int|
            0 <= j < k ==> is_mapped(
                mem,
                (#[trigger] plan[j]).addr as int,
                plan[j].bytes.len() as int,
            )) ==> {
            &&& after == all_written(before, plan.take(k))
            &&& r == Err::<u32, ResponseError>(
                if k == 0 {
                    ResponseError::WriteHeader
                } else {
                    ResponseError::WriteDataIn
                },
            )
        },
{
    if let Err(e) = r {
        let i = choose|i: int|
            {
                &&& #[trigger] is_first_unmapped(mem, plan, i)
                &&& e == if i == 0 {
                    ResponseError::WriteHeader
                } else {
                    ResponseError::WriteDataIn
                }
                &&& after == all_written(before, plan.take(i))
            };
        if 0 <= k < plan.len() && !is_mapped(mem, plan[k].addr as int, plan[k].bytes.len() as int)
            && (forall|j: int|
            0 <= j < k ==> is_mapped(
                mem,
                (#[trigger] plan[j]).addr as int,
                plan[j].bytes.len() as int,
            )) {
            if i < k {
                assert(is_mapped(mem, plan[i].addr as int, plan[i].bytes.len() as int));
            } else if k < i {
                let front = plan.take(i);
                assert(front[k] == plan[k]);
                assert(is_mapped(mem, front[k].addr as int, front[k].bytes.len() as int));
            }
        }
    } else {
        if 0 <= k < plan.len() {
            assert(is_mapped(mem, plan[k].addr as int, plan[k].bytes.len() as int));
        }
    }
}

/// A control request is answered by its type, which is the little-endian number in the
/// first four bytes of its first buffer: the answer is the one byte that is written, at
/// the start of the first buffer behind it that the device writes.
pub proof fn control_answers_go_to_the_first_buffer(
    descs: Seq<Descriptor>,
    mem: GuestMemoryMmap<()>,
    after: GuestMemoryMmap<()>,
    i: int,
)
    requires
        ctrl_answered(descs, mem, after),
        1 <= i < descs.len(),
        descs[i].write_only,
        forall|k: int| 1 <= k < i ==> !(#[trigger] descs[k]).write_only,
    ensures
        ({
            let read = device_reads(after).last();
            let answer = ctrl_answer(le_value(read.1) as u32);
            &&& read.0 == descs[0].addr && read.1.len() == 4
            &&& device_reads(after).len() == device_reads(mem).len() + 1
            &&& device_writes(after) == written_over(
                device_writes(mem),
                descs[i].addr as int,
                seq![answer],
            )
        }),
{
    let read = device_reads(after).last().1;
    crate::bytes::little_endian_numbers(read, 0);
    assert(read.subrange(0, 4) =~= read);
    if device_writes(after) == device_writes(mem) && forall|k: int|
        1 <= k < descs.len() ==> !(#[trigger] descs[k]).write_only {
        assert(!descs[i].write_only);
    } else {
        let j = choose|j: int|
            {
                &&& #[trigger] is_first_writable(descs, 1, j)
                &&& device_writes(after) == written_over(
                    device_writes(mem),
                    descs[j].addr as int,
                    seq![ctrl_answer(le32_at(read, 0))],
                )
            };
        if j < i {
            assert(!descs[j].write_only);
        } else if i < j {
            assert(!descs[i].write_only);
        }
    }
}

} // verus!

//! The virtio SCSI host bus adapter: features, configuration space, LUNs and
//! queues.
use virtio_queue::Queue;
use vm_memory::GuestMemoryMmap;
use vstd::prelude::*;
use vstd::string::*;

use crate::bytes::{get_le32, le32_at, le_value, put_bytes, store};
use crate::disk::DiskOps;
use crate::scsi::commands::{fresh_lun, ProcessorView, ScsiCommandProcessor};
use crate::scsi::handler::{
    chain_processed, chain_wf, find_lun, has_lun, lun_views, luns_wf, process_request, Descriptor,
    LunDisk, ResponseError,
};
use crate::scsi::protocol::VirtioScsiConfig;
use crate::scsi::queue::{
    drained, looks, process_requests, requests_failed, requests_served, taken_chains, used_chains,
    QueueError, RequestQueueState,
};
use crate::scsi::target::{LunConfigView, ScsiLunConfig, ScsiLunId};
use crate::text::{decimal, decimal_string};

verus! {

/// Minimum number of queues: one control, one event and one request queue.
pub const MIN_NUM_QUEUES: usize = 3;

/// Block size of every LUN.
pub const BLOCK_SIZE: u32 = 512;

/// The features that the device offers: VIRTIO_F_VERSION_1 (bit 32),
/// VIRTIO_SCSI_F_INOUT (0), VIRTIO_SCSI_F_HOTPLUG (1) and
/// VIRTIO_SCSI_F_CHANGE (2).
pub const SCSI_FEATURES: u64 = 0x1_0000_0007;

/// VIRTIO_F_ACCESS_PLATFORM (bit 33), offered behind an IOMMU.
pub const SCSI_IOMMU_FEATURE: u64 = 0x2_0000_0000;

/// Why a disk image could not be sized.
#[derive(Debug, Clone, Copy, PartialEq, Eq, Structural)]
pub enum DiskProbeError {
    /// The image could not be opened.
    Open,
    /// The size of the image could not be had.
    Size,
}

/// Errors of the device.
#[derive(Debug, Clone, Copy, PartialEq, Eq, Structural)]
pub enum Error {
    /// Failed to open disk
    OpenDisk,
    /// Failed to get disk size
    GetDiskSize,
    /// Invalid queue configuration
    InvalidQueueConfig,
    /// Duplicate LUN
    DuplicateLun(ScsiLunId),
}

/// The error for a disk image that could not be sized.
pub open spec fn probe_error(e: DiskProbeError) -> Error {
    match e {
        DiskProbeError::Open => Error::OpenDisk,
        DiskProbeError::Size => Error::GetDiskSize,
    }
}

/// State for migration and snapshots.
#[derive(Debug, Clone)]
pub struct ScsiState {
    pub avail_features: u64,
    pub acked_features: u64,
    pub config: VirtioScsiConfig,
    pub luns: Vec<ScsiLunConfig>,
}

/// Virtio SCSI device.
pub struct Scsi {
    id: String,
    avail_features: u64,
    acked_features: u64,
    paused: bool,
    config: VirtioScsiConfig,
    /// LUN configurations
    luns: Vec<ScsiLunConfig>,
    /// Command processors of the LUNs, in the same order
    processors: Vec<ScsiCommandProcessor>,
    queue_sizes: Vec<u16>,
}

/// What the device is.
pub struct ScsiView {
    pub id: Seq<char>,
    pub avail_features: u64,
    pub acked_features: u64,
    pub paused: bool,
    pub config: VirtioScsiConfig,
    pub luns: Seq<LunConfigView>,
    pub processors: Seq<ProcessorView>,
    pub queue_sizes: Seq<u16>,
}

/// What the LUN configurations say.
pub open spec fn config_views(luns: Seq<ScsiLunConfig>) -> Seq<LunConfigView> {
    luns.map_values(|c: ScsiLunConfig| c@)
}

impl ScsiView {
    /// The LUNs are well formed and distinct, and each has its configuration.
    pub open spec fn wf(self) -> bool {
        &&& luns_wf(self.processors)
        &&& self.luns.len() == self.processors.len()
        &&& forall|i: int|
            0 <= i < self.luns.len() ==> (#[trigger] self.processors[i]).config == self.luns[i]
    }

    /// What serving one of the request queues works on.
    pub open spec fn queue_state<D: DiskOps>(
        self,
        queue: Queue,
        mem: GuestMemoryMmap<()>,
        disks: Seq<LunDisk<D>>,
    ) -> RequestQueueState<D> {
        RequestQueueState {
            luns: self.processors,
            disks,
            mem,
            taken: taken_chains(queue),
            used: used_chains(queue),
        }
    }

    /// The device with a LUN more.
    pub open spec fn with_lun(self, config: LunConfigView, disk_size: u64) -> ScsiView {
        ScsiView {
            luns: self.luns.push(config),
            processors: self.processors.push(fresh_lun(config, disk_size, BLOCK_SIZE)),
            ..self
        }
    }

    /// The device without its `i`-th LUN.
    pub open spec fn without_lun(self, i: int) -> ScsiView {
        ScsiView {
            luns: self.luns.remove(i),
            processors: self.processors.remove(i),
            ..self
        }
    }

    /// What an attempt to add a LUN ends with.
    pub open spec fn add_error(
        self,
        config: LunConfigView,
        disk_size: Result<u64, DiskProbeError>,
    ) -> Option<Error> {
        if has_lun(self.processors, config.id()) {
            Some(Error::DuplicateLun(config.id()))
        } else {
            match disk_size {
                Ok(_) => None,
                Err(e) => Some(probe_error(e)),
            }
        }
    }
}

impl View for Scsi {
    type V = ScsiView;

    closed spec fn view(&self) -> ScsiView {
        ScsiView {
            id: self.id@,
            avail_features: self.avail_features,
            acked_features: self.acked_features,
            paused: self.paused,
            config: self.config,
            luns: config_views(self.luns@),
            processors: lun_views(self.processors@),
            queue_sizes: self.queue_sizes@,
        }
    }
}

/// The device before its LUNs are added: fresh, or with the features and the
/// configuration of a saved state and paused.
pub open spec fn bare_device(
    id: Seq<char>,
    num_queues: usize,
    queue_size: u16,
    iommu: bool,
    state: Option<ScsiState>,
) -> ScsiView {
    ScsiView {
        id,
        avail_features: match state {
            Some(s) => s.avail_features,
            None => if iommu {
                (SCSI_FEATURES + SCSI_IOMMU_FEATURE) as u64
            } else {
                SCSI_FEATURES
            },
        },
        acked_features: match state {
            Some(s) => s.acked_features,
            None => 0,
        },
        paused: state is Some,
        config: match state {
            Some(s) => s.config,
            None => default_config(num_queues as u32),
        },
        luns: Seq::empty(),
        processors: Seq::empty(),
        queue_sizes: Seq::new((2 + num_queues) as nat, |i: int| queue_size),
    }
}

/// The configuration of a device with `num_queues` request queues.
pub open spec fn default_config(num_queues: u32) -> VirtioScsiConfig {
    VirtioScsiConfig {
        num_queues,
        seg_max: 126,
        max_sectors: 0xFFFF,
        cmd_per_lun: 128,
        event_info_size: 0,
        sense_size: 96,
        cdb_size: 32,
        max_channel: 0,
        max_target: 255,
        max_lun: 16383,
    }
}

/// The device after the first `n` LUNs were added to it in order.
pub open spec fn with_luns(
    base: ScsiView,
    luns: Seq<LunConfigView>,
    sizes: Seq<Result<u64, DiskProbeError>>,
    n: int,
) -> ScsiView
    decreases n,
{
    if n <= 0 {
        base
    } else {
        with_luns(base, luns, sizes, n - 1).with_lun(luns[n - 1], sizes[n - 1]->Ok_0)
    }
}

/// The first `n` LUNs can be added in order.
pub open spec fn all_added(
    base: ScsiView,
    luns: Seq<LunConfigView>,
    sizes: Seq<Result<u64, DiskProbeError>>,
    n: int,
) -> bool {
    forall|i: int|
        0 <= i < n ==> #[trigger] with_luns(base, luns, sizes, i).add_error(luns[i], sizes[i])
            is None
}

/// The first LUN that cannot be added fails with `e`.
pub open spec fn adding_fails(
    base: ScsiView,
    luns: Seq<LunConfigView>,
    sizes: Seq<Result<u64, DiskProbeError>>,
    e: Error,
) -> bool {
    exists|i: int|
        {
            &&& 0 <= i < luns.len()
            &&& all_added(base, luns, sizes, i)
            &&& #[trigger] with_luns(base, luns, sizes, i).add_error(luns[i], sizes[i]) == Some(e)
        }
}

/// What a worker of the device serves.
#[derive(Debug, Clone, Copy, PartialEq, Eq, Structural)]
pub enum WorkerKind {
    /// The control queue
    Control,
    /// The event queue
    Event,
    /// A request queue
    Request,
}

/// A worker of the device.
#[derive(Debug, Clone)]
pub struct Worker {
    /// What it serves
    pub kind: WorkerKind,
    /// The index of its queue
    pub queue_index: u16,
    /// The name of its thread
    pub name: String,
}

/// The worker for the `i`-th queue: 0 is the control queue, 1 the event queue,
/// the rest are request queues.
pub open spec fn is_worker(w: Worker, id: Seq<char>, i: int) -> bool {
    &&& w.queue_index == i as u16
    &&& w.kind == if i == 0 {
        WorkerKind::Control
    } else if i == 1 {
        WorkerKind::Event
    } else {
        WorkerKind::Request
    }
    &&& w.name@ == id + if i == 0 {
        "_ctrl"@
    } else if i == 1 {
        "_event"@
    } else {
        "_req"@ + decimal((i - 2) as nat)
    }
}

/// A disk image to open for a LUN.
#[derive(Debug, Clone)]
pub struct DiskImage {
    /// LUN identifier
    pub id: ScsiLunId,
    /// Path to the disk image
    pub path: String,
    /// Whether it is opened for writing
    pub writable: bool,
    /// Whether it is opened for direct I/O
    pub direct: bool,
}

/// The device cannot be activated.
#[derive(Debug, Clone, Copy, PartialEq, Eq, Structural)]
pub struct BadActivate;

/// Adding a LUN that has no duplicate keeps the device well formed.
proof fn adding_keeps_wf(v: ScsiView, config: LunConfigView, disk_size: u64)
    requires
        v.wf(),
        !has_lun(v.processors, config.id()),
        disk_size <= usize::MAX,
    ensures
        v.with_lun(config, disk_size).wf(),
{
    let w = v.with_lun(config, disk_size);
    assert forall|i: int| 0 <= i < w.processors.len() implies (#[trigger] w.processors[i]).wf() by {
        if i < v.processors.len() {
            assert(v.processors[i].wf());
        }
    }
    assert forall|i: int, j: int|
        0 <= i < w.processors.len() && 0 <= j < w.processors.len()
            && #[trigger] w.processors[i].config.id() == #[trigger] w.processors[j].config.id()
        implies i == j by {
        if i < v.processors.len() && j < v.processors.len() {
            assert(v.processors[i].config.id() == v.processors[j].config.id());
        } else if i < v.processors.len() {
            assert(v.processors[i].config.id() != config.id());
        } else if j < v.processors.len() {
            assert(v.processors[j].config.id() != config.id());
        }
    }
    assert forall|i: int| 0 <= i < w.luns.len() implies (#[trigger] w.processors[i]).config
        == w.luns[i] by {
        if i < v.luns.len() {
            assert(v.processors[i].config == v.luns[i]);
        }
    }
}

/// Removing a LUN keeps the device well formed, and no LUN of that identifier
/// is left.
proof fn removing_keeps_wf(v: ScsiView, i: int)
    requires
        v.wf(),
        0 <= i < v.processors.len(),
    ensures
        v.without_lun(i).wf(),
        !has_lun(v.without_lun(i).processors, v.processors[i].config.id()),
{
    let w = v.without_lun(i);
    assert forall|k: int| 0 <= k < w.processors.len() implies (#[trigger] w.processors[k]).wf() by {
        assert(v.processors[if k < i { k } else { k + 1 }].wf());
    }
    assert forall|a: int, b: int|
        0 <= a < w.processors.len() && 0 <= b < w.processors.len()
            && #[trigger] w.processors[a].config.id() == #[trigger] w.processors[b].config.id()
        implies a == b by {
        let x = if a < i { a } else { a + 1 };
        let y = if b < i { b } else { b + 1 };
        assert(v.processors[x].config.id() == v.processors[y].config.id());
    }
    assert forall|k: int| 0 <= k < w.luns.len() implies (#[trigger] w.processors[k]).config
        == w.luns[k] by {
        assert(v.processors[if k < i { k } else { k + 1 }].config == v.luns[if k < i {
            k
        } else {
            k + 1
        }]);
    }
    assert forall|k: int| 0 <= k < w.processors.len() implies #[trigger] w.processors[k].config.id()
        != v.processors[i].config.id() by {
        let x = if k < i { k } else { k + 1 };
        assert(x != i);
        assert(w.processors[k] == v.processors[x]);
    }
}

/// Adding a LUN and removing it again gives the device back.
pub proof fn add_then_remove(v: ScsiView, config: LunConfigView, disk_size: u64)
    ensures
        v.luns.len() == v.processors.len() ==> v.with_lun(config, disk_size).without_lun(
            v.luns.len() as int,
        ) == v,
{
    let w = v.with_lun(config, disk_size).without_lun(v.luns.len() as int);
    if v.luns.len() == v.processors.len() {
        assert(w.luns =~= v.luns);
        assert(w.processors =~= v.processors);
    }
}

/// The configuration after the driver wrote `data` at `offset`: only the
/// sense size (offset 20) and the CDB size (offset 24) can be written, each
/// with exactly four bytes.
pub open spec fn config_written(c: VirtioScsiConfig, offset: u64, data: Seq<u8>) -> VirtioScsiConfig {
    if offset == 20 && data.len() == 4 {
        VirtioScsiConfig { sense_size: le32_at(data, 0), ..c }
    } else if offset == 24 && data.len() == 4 {
        VirtioScsiConfig { cdb_size: le32_at(data, 0), ..c }
    } else {
        c
    }
}

/// What the driver wrote to a writable field is what the configuration space
/// holds there.
pub proof fn written_fields_read_back(c: VirtioScsiConfig, offset: u64, data: Seq<u8>)
    requires
        offset == 20 || offset == 24,
        data.len() == 4,
    ensures
        config_written(c, offset, data).wire().len() == 36,
        config_written(c, offset, data).wire() == store(c.wire(), offset as int, data),
{
    let w = config_written(c, offset, data).wire();
    let x = le32_at(data, 0);
    crate::bytes::le32_of_bytes(data);
    assert(w =~= store(c.wire(), offset as int, data));
}

/// The features that the driver accepted stay among those that the device
/// offers.
pub proof fn accepted_features_are_offered(avail: u64, acked: u64, value: u64)
    requires
        acked & !avail == 0,
    ensures
        (acked | (value & avail)) & !avail == 0,
{
    assert((acked | (value & avail)) & !avail == 0) by (bit_vector)
        requires
            acked & !avail == 0,
    ;
}

impl Scsi {
    /// Create a new virtio-scsi device.
    ///
    /// # Arguments
    /// * `id` - Device identifier
    /// * `luns` - List of LUN configurations
    /// * `disk_sizes` - For each LUN the size of its disk image
    /// * `num_queues` - Number of request queues (in addition to control and event queues)
    /// * `queue_size` - Size of each virtqueue
    /// * `iommu` - Whether to enable IOMMU support
    /// * `state` - Optional state for restore
    pub fn new(
        id: String,
        luns: Vec<ScsiLunConfig>,
        disk_sizes: Vec<Result<u64, DiskProbeError>>,
        num_queues: usize,
        queue_size: u16,
        iommu: bool,
        state: Option<ScsiState>,
    ) -> (r: Result<Self, Error>)
        requires
            2 + num_queues <= usize::MAX,
            disk_sizes@.len() == luns@.len(),
            forall|i: int|
                0 <= i < disk_sizes@.len() ==> (#[trigger] disk_sizes@[i] matches Ok(n) ==> n
                    <= usize::MAX),
        ensures
            ({
                let base = bare_device(id@, num_queues, queue_size, iommu, state);
                let configs = config_views(luns@);
                match r {
                    Ok(device) => {
                        &&& all_added(base, configs, disk_sizes@, luns@.len() as int)
                        &&& device@ == with_luns(base, configs, disk_sizes@, luns@.len() as int)
                        &&& device@.wf()
                    },
                    Err(e) => adding_fails(base, configs, disk_sizes@, e),
                }
            }),
    {
        let ghost base = bare_device(id@, num_queues, queue_size, iommu, state);
        let (avail_features, acked_features, config, paused) = match state {
            Some(s) => (s.avail_features, s.acked_features, s.config, true),
            None => {
                let features: u64 = if iommu {
                    SCSI_FEATURES + SCSI_IOMMU_FEATURE
                } else {
                    SCSI_FEATURES
                };
                (features, 0u64, VirtioScsiConfig::new(num_queues as u32), false)
            },
        };
        let queue_sizes: Vec<u16> = vec![queue_size; 2 + num_queues];
        let mut device = Scsi {
            id,
            avail_features,
            acked_features,
            paused,
            config,
            luns: Vec::new(),
            processors: Vec::new(),
            queue_sizes,
        };
        let ghost configs = config_views(luns@);
        proof {
            assert(device@.queue_sizes =~= base.queue_sizes);
            assert(device@.luns =~= base.luns);
            assert(device@.processors =~= base.processors);
        }
        let mut i: usize = 0;
        while i < luns.len()
            invariant
                i <= luns@.len(),
                disk_sizes@.len() == luns@.len(),
                base == bare_device(id@, num_queues, queue_size, iommu, state),
                configs == config_views(luns@),
                all_added(base, configs, disk_sizes@, i as int),
                device@ == with_luns(base, configs, disk_sizes@, i as int),
                device@.wf(),
                forall|k: int|
                    0 <= k < disk_sizes@.len() ==> (#[trigger] disk_sizes@[k] matches Ok(n) ==> n
                        <= usize::MAX),
            decreases luns@.len() - i,
        {
            assert(configs[i as int] == luns@[i as int]@);
            match device.add_lun(luns[i].duplicate(), disk_sizes[i]) {
                Ok(_) => {},
                Err(e) => {
                    assert(with_luns(base, configs, disk_sizes@, i as int).add_error(
                        configs[i as int],
                        disk_sizes@[i as int],
                    ) == Some(e));
                    return Err(e);
                },
            }
            i += 1;
        }
        Ok(device)
    }

    /// The state for migration.
    pub fn state(&self) -> (state: ScsiState)
        ensures
            state.avail_features == self@.avail_features,
            state.acked_features == self@.acked_features,
            state.config == self@.config,
            config_views(state.luns@) == self@.luns,
    {
        let mut luns: Vec<ScsiLunConfig> = Vec::new();
        let mut i: usize = 0;
        while i < self.luns.len()
            invariant
                i <= self.luns@.len(),
                config_views(luns@) == config_views(self.luns@).take(i as int),
            decreases self.luns@.len() - i,
        {
            let ghost before = config_views(luns@);
            luns.push(self.luns[i].duplicate());
            i += 1;
            assert(config_views(luns@) =~= before.push(self.luns@[i - 1]@));
            assert(config_views(luns@) =~= config_views(self.luns@).take(i as int));
        }
        assert(config_views(luns@) =~= config_views(self.luns@));
        ScsiState {
            avail_features: self.avail_features,
            acked_features: self.acked_features,
            config: self.config,
            luns,
        }
    }

    /// Add a new LUN to the device, whose disk image has the given size.
    pub fn add_lun(
        &mut self,
        lun_config: ScsiLunConfig,
        disk_size: Result<u64, DiskProbeError>,
    ) -> (r: Result<(), Error>)
        requires
            old(self)@.wf(),
            disk_size matches Ok(n) ==> n <= usize::MAX,
        ensures
            final(self)@.wf(),
            match old(self)@.add_error(lun_config@, disk_size) {
                None => r is Ok && final(self)@ == old(self)@.with_lun(
                    lun_config@,
                    disk_size->Ok_0,
                ),
                Some(e) => r == Err::<(), Error>(e) && final(self)@ == old(self)@,
            },
    {
        let lun_id = lun_config.id();
        if find_lun(&self.processors, lun_id).is_some() {
            return Err(Error::DuplicateLun(lun_id));
        }
        let size: u64 = match disk_size {
            Ok(n) => n,
            Err(DiskProbeError::Open) => {
                return Err(Error::OpenDisk);
            },
            Err(DiskProbeError::Size) => {
                return Err(Error::GetDiskSize);
            },
        };
        proof {
            adding_keeps_wf(self@, lun_config@, size);
        }
        let processor = ScsiCommandProcessor::new(lun_config.duplicate(), size, BLOCK_SIZE);
        let ghost want = self@.with_lun(lun_config@, size);
        self.processors.push(processor);
        self.luns.push(lun_config);
        assert(self@.processors =~= want.processors);
        assert(self@.luns =~= want.luns);
        Ok(())
    }

    /// Remove a LUN from the device. Returns whether there was one.
    pub fn remove_lun(&mut self, lun_id: &ScsiLunId) -> (removed: bool)
        requires
            old(self)@.wf(),
        ensures
            final(self)@.wf(),
            removed == has_lun(old(self)@.processors, *lun_id),
            !has_lun(final(self)@.processors, *lun_id),
            if removed {
                exists|i: int|
                    0 <= i < old(self)@.processors.len() && old(self)@.processors[i].config.id()
                        == *lun_id && final(self)@ == #[trigger] old(self)@.without_lun(i)
            } else {
                final(self)@ == old(self)@
            },
    {
        match find_lun(&self.processors, *lun_id) {
            Some(i) => {
                proof {
                    removing_keeps_wf(self@, i as int);
                    assert(self@.processors[i as int].config.id() == *lun_id);
                }
                let ghost want = self@.without_lun(i as int);
                let _processor = self.processors.remove(i);
                let _config = self.luns.remove(i);
                assert(self@.processors =~= want.processors);
                assert(self@.luns =~= want.luns);
                true
            },
            None => false,
        }
    }

    /// The features that the device offers.
    pub fn features(&self) -> (features: u64)
        ensures
            features == self@.avail_features,
    {
        self.avail_features
    }

    /// Accepts features for the driver, of those that the device offers.
    pub fn ack_features(&mut self, value: u64)
        requires
            old(self)@.wf(),
        ensures
            final(self)@ == (ScsiView {
                acked_features: old(self)@.acked_features | (value & old(self)@.avail_features),
                ..old(self)@
            }),
            final(self)@.wf(),
    {
        self.acked_features = self.acked_features | (value & self.avail_features);
    }

    /// The sizes of the queues.
    pub fn queue_max_sizes(&self) -> (sizes: &[u16])
        ensures
            sizes@ == self@.queue_sizes,
    {
        self.queue_sizes.as_slice()
    }

    /// Whether the device comes up paused.
    pub fn starts_paused(&self) -> (b: bool)
        ensures
            b == self@.paused,
    {
        self.paused
    }

    /// Reads the configuration space at `offset`. A read beyond its end leaves
    /// the buffer as it is.
    pub fn read_config(&self, offset: u64, data: &mut [u8])
        ensures
            final(data)@ == if offset + old(data)@.len() <= 36 {
                self@.config.wire().subrange(offset as int, offset + old(data)@.len())
            } else {
                old(data)@
            },
    {
        let bytes: Vec<u8> = self.config.to_bytes();
        let n: usize = data.len();
        if offset <= 36 && n <= 36 - offset as usize {
            let from: usize = offset as usize;
            let part: Vec<u8> = crate::bytes::copy_range(bytes.as_slice(), from, from + n);
            put_bytes(data, 0, part.as_slice());
            assert(data@ =~= part@);
        }
    }

    /// Writes the configuration space at `offset`.
    pub fn write_config(&mut self, offset: u64, data: &[u8])
        requires
            old(self)@.wf(),
        ensures
            final(self)@ == (ScsiView {
                config: config_written(old(self)@.config, offset, data@),
                ..old(self)@
            }),
            final(self)@.wf(),
    {
        if data.len() != 4 {
            return;
        }
        if offset == 20 {
            self.config.sense_size = get_le32(data, 0);
        } else if offset == 24 {
            self.config.cdb_size = get_le32(data, 0);
        }
    }

    /// The workers for `num_queues` queues. Activation needs a control, an
    /// event and at least one request queue.
    pub fn activate(&self, num_queues: usize) -> (r: Result<Vec<Worker>, BadActivate>)
        ensures
            r is Err <==> num_queues < MIN_NUM_QUEUES,
            r matches Ok(workers) ==> {
                &&& workers@.len() == num_queues
                &&& forall|i: int|
                    0 <= i < num_queues ==> is_worker(#[trigger] workers@[i], self@.id, i)
            },
    {
        if num_queues < MIN_NUM_QUEUES {
            return Err(BadActivate);
        }
        let mut workers: Vec<Worker> = Vec::new();
        let mut i: usize = 0;
        while i < num_queues
            invariant
                i <= num_queues,
                workers@.len() == i,
                forall|k: int| 0 <= k < i ==> is_worker(#[trigger] workers@[k], self.id@, k),
            decreases num_queues - i,
        {
            let mut name: String = self.id.clone();
            let kind = if i == 0 {
                name.append("_ctrl");
                WorkerKind::Control
            } else if i == 1 {
                name.append("_event");
                WorkerKind::Event
            } else {
                name.append("_req");
                let number: String = decimal_string((i - 2) as u64);
                name.append(number.as_str());
                assert(name@ =~= self.id@ + ("_req"@ + decimal((i - 2) as nat)));
                WorkerKind::Request
            };
            workers.push(Worker { kind, queue_index: i as u16, name });
            i += 1;
        }
        Ok(workers)
    }

    /// The disk images to open for a request queue: those of read-only LUNs
    /// for reading alone, and those of LUNs with direct I/O for that.
    pub fn disk_images(&self) -> (images: Vec<DiskImage>)
        requires
            self@.wf(),
        ensures
            images@.len() == self@.luns.len(),
            forall|i: int|
                0 <= i < images@.len() ==> {
                    &&& (#[trigger] images@[i]).id == self@.luns[i].id()
                    &&& images@[i].path@ == self@.luns[i].path
                    &&& images@[i].writable == !self@.luns[i].readonly
                    &&& images@[i].direct == self@.luns[i].direct
                },
    {
        let mut images: Vec<DiskImage> = Vec::new();
        let mut i: usize = 0;
        while i < self.processors.len()
            invariant
                i <= self.processors@.len(),
                self@.wf(),
                images@.len() == i,
                forall|k: int|
                    0 <= k < i ==> {
                        &&& (#[trigger] images@[k]).id == self@.luns[k].id()
                        &&& images@[k].path@ == self@.luns[k].path
                        &&& images@[k].writable == !self@.luns[k].readonly
                        &&& images@[k].direct == self@.luns[k].direct
                    },
            decreases self.processors@.len() - i,
        {
            assert(self@.processors[i as int].config == self@.luns[i as int]);
            let config = self.processors[i].config();
            let readonly = self.processors[i].is_readonly();
            images.push(
                DiskImage {
                    id: config.id(),
                    path: config.path.clone(),
                    writable: !readonly,
                    direct: config.direct,
                },
            );
            i += 1;
        }
        images
    }

    /// Processes one chain of a request queue on the given disks. Returns the
    /// number of bytes written to guest memory.
    pub fn process_request<D: DiskOps>(
        &mut self,
        mem: &mut GuestMemoryMmap<()>,
        descs: &[Descriptor],
        disks: &mut Vec<LunDisk<D>>,
    ) -> (r: Result<u32, ResponseError>)
        requires
            old(self)@.wf(),
            chain_wf(descs@),
        ensures
            final(self)@.wf(),
            final(self)@ == (ScsiView { processors: final(self)@.processors, ..old(self)@ }),
            chain_processed(
                descs@,
                old(self)@.processors,
                final(self)@.processors,
                old(disks)@,
                final(disks)@,
                *old(mem),
                *final(mem),
                r,
            ),
    {
        let r = process_request(mem, descs, &mut self.processors, disks);
        assert forall|i: int| 0 <= i < self@.luns.len() implies (#[trigger] self@.processors[i]).config
            == self@.luns[i] by {
            assert(old(self)@.processors[i].config == old(self)@.luns[i]);
            assert(lun_views(self.processors@)[i].config == old(self)@.processors[i].config);
        }
        r
    }

    /// Serves the chains of a request queue on the given disks until it is
    /// empty, or one cannot be served. Returns how many were served; at
    /// `u64::MAX` it stops without looking for another.
    pub fn process_requests<D: DiskOps>(
        &mut self,
        queue: &mut Queue,
        mem: &mut GuestMemoryMmap<()>,
        disks: &mut Vec<LunDisk<D>>,
    ) -> (r: Result<u64, QueueError>)
        requires
            old(self)@.wf(),
        ensures
            drained(looks(*old(queue)), looks(*final(queue)), r),
            final(self)@.wf(),
            final(self)@ == (ScsiView { processors: final(self)@.processors, ..old(self)@ }),
            match r {
                Ok(n) => requests_served(
                    old(self)@.queue_state(*old(queue), *old(mem), old(disks)@),
                    final(self)@.queue_state(*final(queue), *final(mem), final(disks)@),
                    n as int,
                ),
                Err(e) => requests_failed(
                    old(self)@.queue_state(*old(queue), *old(mem), old(disks)@),
                    final(self)@.queue_state(*final(queue), *final(mem), final(disks)@),
                    e,
                ),
            },
    {
        let r = process_requests(queue, mem, &mut self.processors, disks);
        assert forall|i: int| 0 <= i < self@.luns.len() implies (#[trigger] self@.processors[i]).config
            == self@.luns[i] by {
            assert(old(self)@.processors[i].config == old(self)@.luns[i]);
            assert(lun_views(self.processors@)[i].config == old(self)@.processors[i].config);
        }
        r
    }
}

// ─── Laws ────────────────────────────────────────────────────────────────────

/// A LUN that is added is the last, comes up ready with its configuration and the
/// whole blocks of 512 bytes of its disk, and all others stay as they are.
pub proof fn added_luns_have_their_disk(v: ScsiView, config: LunConfigView, disk_size: u64, i: int)
    requires
        v.luns.len() == v.processors.len(),
        0 <= i < v.luns.len(),
    ensures
        ({
            let w = v.with_lun(config, disk_size);
            let p = w.processors.last();
            &&& w.luns.len() == v.luns.len() + 1 && w.processors.len() == w.luns.len()
            &&& w.luns.last() == config && p.config == config
            &&& p.block_size == 512 && p.disk_size == disk_size && p.ready
            &&& p.num_blocks * 512 <= disk_size < p.num_blocks * 512 + 512
            &&& w.luns[i] == v.luns[i] && w.processors[i] == v.processors[i]
            &&& w.config == v.config && w.queue_sizes == v.queue_sizes && w.avail_features
                == v.avail_features && w.acked_features == v.acked_features
        }),
{
}

/// A LUN that is removed is gone, and all others keep their order.
pub proof fn removed_luns_leave_the_others(v: ScsiView, i: int, k: int)
    requires
        v.luns.len() == v.processors.len(),
        0 <= i < v.luns.len(),
        0 <= k < v.luns.len() - 1,
    ensures
        ({
            let w = v.without_lun(i);
            let from = if k < i { k } else { k + 1 };
            &&& w.luns.len() == v.luns.len() - 1 && w.processors.len() == w.luns.len()
            &&& w.luns[k] == v.luns[from] && w.processors[k] == v.processors[from]
        }),
{
}

/// When a LUN cannot be added: where one with the same target and number is there
/// already, whatever its disk, and where its disk image cannot be opened or sized.
pub proof fn luns_are_refused_for_a_reason(
    v: ScsiView,
    config: LunConfigView,
    disk_size: Result<u64, DiskProbeError>,
    i: int,
)
    ensures
        0 <= i < v.processors.len() && v.processors[i].config.target == config.target
            && v.processors[i].config.lun == config.lun ==> v.add_error(config, disk_size) == Some(
            Error::DuplicateLun(ScsiLunId { target: config.target, lun: config.lun }),
        ),
        (forall|k: int|
            0 <= k < v.processors.len() ==> (#[trigger] v.processors[k]).config.target
                != config.target || v.processors[k].config.lun != config.lun) ==> match disk_size {
            Ok(_) => v.add_error(config, disk_size) is None,
            Err(DiskProbeError::Open) => v.add_error(config, disk_size) == Some(Error::OpenDisk),
            Err(DiskProbeError::Size) => v.add_error(config, disk_size) == Some(Error::GetDiskSize),
        },
{
    let id = config.id();
    if 0 <= i < v.processors.len() && v.processors[i].config.target == config.target
        && v.processors[i].config.lun == config.lun {
        assert(v.processors[i].config.id() == id);
    }
    if has_lun(v.processors, id) {
        let k = choose|k: int| 0 <= k < v.processors.len() && #[trigger] v.processors[k].config.id() == id;
        assert(v.processors[k].config.target == config.target);
    }
}

/// A device that is not restored comes up running, offers the feature bits 0 to 2
/// and 32, and 33 behind an IOMMU, and has the limits that it advertises, its
/// request queues and two queues more, all of one size; a restored one comes up paused, with the features and the
/// configuration that were saved.
pub proof fn devices_come_up_as_configured(
    id: Seq<char>,
    num_queues: usize,
    queue_size: u16,
    iommu: bool,
    state: Option<ScsiState>,
    i: int,
)
    requires
        num_queues <= 0xFFFF,
    ensures
        ({
            let v = bare_device(id, num_queues, queue_size, iommu, state);
            &&& v.id == id
            &&& v.luns.len() == 0 && v.processors.len() == 0
            &&& v.queue_sizes.len() == num_queues + 2
            &&& 0 <= i < num_queues + 2 ==> v.queue_sizes[i] == queue_size
            &&& match state {
                Some(s) => v.paused && v.avail_features == s.avail_features && v.acked_features
                    == s.acked_features && v.config == s.config,
                None => {
                    &&& !v.paused && v.acked_features == 0
                    &&& v.avail_features % 8 == 7
                    &&& v.avail_features / 8 % 0x2000_0000 == 0
                    &&& v.avail_features / 0x1_0000_0000 == if iommu { 3int } else { 1 }
                    &&& v.config.num_queues == num_queues
                    &&& v.config.seg_max == 126 && v.config.max_sectors == 0xFFFF
                    &&& v.config.cmd_per_lun == 128 && v.config.event_info_size == 0
                    &&& v.config.sense_size == 96 && v.config.cdb_size == 32
                    &&& v.config.max_channel == 0 && v.config.max_target == 255
                    &&& v.config.max_lun == 16383
                },
            }
        }),
{
}

/// The driver can write two fields of the configuration space, the sense size at
/// 20 and the command size at 24, each with four little-endian bytes; any other
/// write changes nothing.
pub proof fn drivers_write_two_fields(c: VirtioScsiConfig, offset: u64, data: Seq<u8>)
    ensures
        ({
            let after = config_written(c, offset, data);
            &&& offset == 20 && data.len() == 4 ==> after.sense_size == le_value(data) && after == (
            VirtioScsiConfig { sense_size: after.sense_size, ..c })
            &&& offset == 24 && data.len() == 4 ==> after.cdb_size == le_value(data) && after == (
            VirtioScsiConfig { cdb_size: after.cdb_size, ..c })
            &&& data.len() != 4 || offset != 20 && offset != 24 ==> after == c
        }),
{
    crate::bytes::little_endian_numbers(data, 0);
    if data.len() == 4 {
        assert(data.subrange(0, 4) =~= data);
    }
}

/// A device that is created with LUNs has them all, in order, each with its
/// configuration and the whole blocks of 512 bytes of its disk.
pub proof fn created_devices_have_their_luns(
    base: ScsiView,
    luns: Seq<LunConfigView>,
    sizes: Seq<Result<u64, DiskProbeError>>,
    n: int,
    i: int,
)
    requires
        base.luns.len() == 0,
        base.processors.len() == 0,
        0 <= i < n <= luns.len() == sizes.len(),
    ensures
        ({
            let v = with_luns(base, luns, sizes, n);
            let p = v.processors[i];
            &&& v.luns.len() == n && v.processors.len() == n
            &&& v.luns[i] == luns[i] && p.config == luns[i]
            &&& p.block_size == 512 && p.ready && p.disk_size == sizes[i]->Ok_0
            &&& p.num_blocks * 512 <= p.disk_size < p.num_blocks * 512 + 512
            &&& v.config == base.config && v.avail_features == base.avail_features
                && v.queue_sizes == base.queue_sizes && v.paused == base.paused
        }),
    decreases n,
{
    let front = with_luns(base, luns, sizes, n - 1);
    if n > 1 {
        created_devices_have_their_luns(
            base,
            luns,
            sizes,
            n - 1,
            if i < n - 1 {
                i
            } else {
                0
            },
        );
    } else {
        assert(front == base);
    }
}

/// The worker of each queue serves it by its place: the first is the control queue, the
/// second the event queue, and all others are request queues, which are numbered from
/// zero in the names of their workers.
pub proof fn workers_serve_their_queue(w: Worker, id: Seq<char>, i: int)
    requires
        is_worker(w, id, i),
        0 <= i <= 0xFFFF,
    ensures
        w.queue_index == i,
        i == 0 ==> w.kind == WorkerKind::Control && w.name@ == id + "_ctrl"@,
        i == 1 ==> w.kind == WorkerKind::Event && w.name@ == id + "_event"@,
        i >= 2 ==> w.kind == WorkerKind::Request && w.name@ == id + "_req"@ + decimal(
            (i - 2) as nat,
        ),
{
    if i >= 2 {
        assert(w.name@ =~= id + "_req"@ + decimal((i - 2) as nat));
    }
}

/// The identifiers of the LUNs of a device that is being created.
proof fn created_devices_hold_their_ids(
    base: ScsiView,
    luns: Seq<LunConfigView>,
    sizes: Seq<Result<u64, DiskProbeError>>,
    n: int,
    id: ScsiLunId,
)
    requires
        base.luns.len() == 0,
        base.processors.len() == 0,
        0 <= n <= luns.len() == sizes.len(),
    ensures
        has_lun(with_luns(base, luns, sizes, n).processors, id) <==> exists|i: int|
            0 <= i < n && (#[trigger] luns[i]).id() == id,
{
    let v = with_luns(base, luns, sizes, n);
    if n > 0 {
        created_devices_have_their_luns(base, luns, sizes, n, 0);
    }
    if has_lun(v.processors, id) {
        let i = choose|i: int| 0 <= i < v.processors.len() && #[trigger] v.processors[i].config.id() == id;
        created_devices_have_their_luns(base, luns, sizes, n, i);
        assert(luns[i].id() == id);
    }
    if exists|i: int| 0 <= i < n && (#[trigger] luns[i]).id() == id {
        let i = choose|i: int| 0 <= i < n && (#[trigger] luns[i]).id() == id;
        created_devices_have_their_luns(base, luns, sizes, n, i);
        assert(v.processors[i].config.id() == id);
    }
}

/// A device can be created exactly where its LUNs have different identifiers and the
/// disk image of each can be sized. Otherwise the first LUN that is one too many, or
/// whose image cannot be had, says why.
pub proof fn devices_are_created_of_distinct_luns(
    base: ScsiView,
    luns: Seq<LunConfigView>,
    sizes: Seq<Result<u64, DiskProbeError>>,
    e: Error,
)
    requires
        base.luns.len() == 0,
        base.processors.len() == 0,
        luns.len() == sizes.len(),
    ensures
        all_added(base, luns, sizes, luns.len() as int) <==> {
            &&& forall|i: int| 0 <= i < sizes.len() ==> #[trigger] sizes[i] is Ok
            &&& forall|i: int, j: int|
                0 <= i < j < luns.len() ==> (#[trigger] luns[i]).id() != (#[trigger] luns[j]).id()
        },
        adding_fails(base, luns, sizes, e) ==> exists|i: int|
            {
                &&& 0 <= i < luns.len()
                &&& match e {
                    Error::DuplicateLun(id) => (#[trigger] luns[i]).id() == id && exists|j: int|
                        0 <= j < i && (#[trigger] luns[j]).id() == id,
                    Error::OpenDisk => sizes[i] == Err::<u64, DiskProbeError>(DiskProbeError::Open),
                    Error::GetDiskSize => sizes[i] == Err::<u64, DiskProbeError>(
                        DiskProbeError::Size,
                    ),
                    Error::InvalidQueueConfig => false,
                }
            },
{
    let n = luns.len() as int;
    if all_added(base, luns, sizes, n) {
        assert forall|i: int| 0 <= i < sizes.len() implies #[trigger] sizes[i] is Ok by {
            assert(with_luns(base, luns, sizes, i).add_error(luns[i], sizes[i]) is None);
        }
        assert forall|i: int, j: int| 0 <= i < j < luns.len() implies (#[trigger] luns[i]).id() != (
        #[trigger] luns[j]).id() by {
            assert(with_luns(base, luns, sizes, j).add_error(luns[j], sizes[j]) is None);
            created_devices_hold_their_ids(base, luns, sizes, j, luns[j].id());
        }
    }
    if (forall|i: int| 0 <= i < sizes.len() ==> #[trigger] sizes[i] is Ok) && (forall|
        i: int,
        j: int,
    |
        0 <= i < j < luns.len() ==> (#[trigger] luns[i]).id() != (#[trigger] luns[j]).id()) {
        assert forall|j: int| 0 <= j < n implies #[trigger] with_luns(
            base,
            luns,
            sizes,
            j,
        ).add_error(luns[j], sizes[j]) is None by {
            created_devices_hold_their_ids(base, luns, sizes, j, luns[j].id());
            assert(sizes[j] is Ok);
        }
    }
    if adding_fails(base, luns, sizes, e) {
        let i = choose|i: int|
            {
                &&& 0 <= i < luns.len()
                &&& all_added(base, luns, sizes, i)
                &&& #[trigger] with_luns(base, luns, sizes, i).add_error(luns[i], sizes[i]) == Some(
                    e,
                )
            };
        created_devices_hold_their_ids(base, luns, sizes, i, luns[i].id());
        assert(luns[i].id() == luns[i].id());
    }
}

} // verus!

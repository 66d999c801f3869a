//! The partition: setup, processors, interrupt routing and memory.
use std::collections::HashMap;

use vstd::prelude::*;

use crate::bus::SourceConfig;

verus! {

/// Most virtual processors of a partition.
pub const MAX_WHP_VCPUS: u32 = 240;

/// Interrupt routing entry.
#[derive(Debug, Clone, Copy, PartialEq, Eq, Structural)]
pub struct WhpIrqRoutingEntry {
    pub gsi: u32,
    pub address_hi: u32,
    pub address_lo: u32,
    pub data: u32,
}

impl Default for WhpIrqRoutingEntry {
    fn default() -> (e: Self)
        ensures
            e == (WhpIrqRoutingEntry { gsi: 0, address_hi: 0, address_lo: 0, data: 0 }),
    {
        WhpIrqRoutingEntry { gsi: 0, address_hi: 0, address_lo: 0, data: 0 }
    }
}

/// The routing entry for an interrupt source: the message of one that sends
/// messages, nothing but the number of a pin.
pub open spec fn routing_entry(gsi: u32, config: SourceConfig) -> WhpIrqRoutingEntry {
    match config {
        SourceConfig::Msi(msi) => WhpIrqRoutingEntry {
            gsi,
            address_hi: msi.high_addr,
            address_lo: msi.low_addr,
            data: msi.data,
        },
        SourceConfig::Legacy => WhpIrqRoutingEntry { gsi, address_hi: 0, address_lo: 0, data: 0 },
    }
}

/// Makes the routing entry for an interrupt source.
pub fn make_routing_entry(gsi: u32, config: &SourceConfig) -> (e: WhpIrqRoutingEntry)
    ensures
        e == routing_entry(gsi, *config),
{
    match config {
        SourceConfig::Msi(msi) => WhpIrqRoutingEntry {
            gsi,
            address_hi: msi.high_addr,
            address_lo: msi.low_addr,
            data: msi.data,
        },
        SourceConfig::Legacy => {
            let base = WhpIrqRoutingEntry::default();
            WhpIrqRoutingEntry { gsi, ..base }
        },
    }
}

/// How guest memory may be used.
#[derive(Debug, Clone, Copy, PartialEq, Eq, Structural)]
pub struct MapFlags {
    pub read: bool,
    pub write: bool,
    pub execute: bool,
}

/// The flags of a memory region: a read-only one can be read and no more.
pub fn map_flags(readonly: bool) -> (f: MapFlags)
    ensures
        f == (MapFlags { read: true, write: !readonly, execute: !readonly }),
{
    MapFlags { read: true, write: !readonly, execute: !readonly }
}

/// The pending event that injects an external interrupt: pending (bit 0), of
/// type external interrupt (5, from bit 1), with its vector from bit 16.
pub fn pending_event(vector: u8) -> (event: u64)
    ensures
        event == 1 + 5 * 2 + vector * 0x1_0000,
        event % 2 == 1,
        event / 2 % 0x8000 == 5,
        event / 0x1_0000 == vector,
{
    1 + 5 * 2 + vector as u64 * 0x1_0000
}

/// The event of an injected interrupt holds its vector.
pub proof fn pending_event_holds_vector(vector: u8)
    ensures
        ({
            let event = 1 + 5 * 2 + vector * 0x1_0000;
            &&& event % 2 == 1
            &&& event / 2 % 16 == 5
            &&& event / 0x1_0000 == vector
        }),
{
}

/// The table of interrupt routes.
pub open spec fn routes(entries: Seq<WhpIrqRoutingEntry>) -> Map<u32, WhpIrqRoutingEntry>
    decreases entries.len(),
{
    if entries.len() == 0 {
        Map::empty()
    } else {
        routes(entries.drop_last()).insert(entries.last().gsi, entries.last())
    }
}

/// State of a partition.
pub struct WhpVm {
    is_setup: bool,
    vcpu_count: u32,
    irq_routing: HashMap<u32, WhpIrqRoutingEntry>,
}

/// What is known of a partition.
pub struct WhpVmView {
    pub is_setup: bool,
    pub vcpu_count: u32,
    pub irq_routing: Map<u32, WhpIrqRoutingEntry>,
}

impl View for WhpVm {
    type V = WhpVmView;

    closed spec fn view(&self) -> WhpVmView {
        WhpVmView {
            is_setup: self.is_setup,
            vcpu_count: self.vcpu_count,
            irq_routing: self.irq_routing@,
        }
    }
}

impl WhpVmView {
    /// The number of processors to set the partition up with, where it is not
    /// set up yet: those created so far, and at least one.
    pub open spec fn setup_count(self) -> Option<u32> {
        if self.is_setup {
            None
        } else if self.vcpu_count > 0 {
            Some(self.vcpu_count)
        } else {
            Some(1)
        }
    }
}

impl WhpVm {
    /// A new partition, which is set up with its first processor.
    pub fn new() -> (vm: Self)
        ensures
            !vm@.is_setup,
            vm@.vcpu_count == 0,
            vm@.irq_routing == Map::<u32, WhpIrqRoutingEntry>::empty(),
    {
        WhpVm { is_setup: false, vcpu_count: 0, irq_routing: HashMap::new() }
    }

    /// Counts in a processor.
    pub fn note_vcpu(&mut self, id: u32)
        requires
            id < u32::MAX,
        ensures
            final(self)@ == (WhpVmView {
                vcpu_count: if old(self)@.vcpu_count > id {
                    old(self)@.vcpu_count
                } else {
                    (id + 1) as u32
                },
                ..old(self)@
            }),
    {
        if self.vcpu_count < id + 1 {
            self.vcpu_count = id + 1;
        }
    }

    /// The number of processors to set the partition up with, where that is
    /// still to be done.
    pub fn ensure_setup(&self) -> (count: Option<u32>)
        ensures
            count == self@.setup_count(),
    {
        if self.is_setup {
            None
        } else if self.vcpu_count > 0 {
            Some(self.vcpu_count)
        } else {
            Some(1)
        }
    }

    /// The partition was set up.
    pub fn mark_setup(&mut self)
        ensures
            final(self)@ == (WhpVmView { is_setup: true, ..old(self)@ }),
    {
        self.is_setup = true;
    }

    /// Replaces the interrupt routes; of entries for one interrupt the last
    /// stays.
    pub fn set_gsi_routing(&mut self, entries: &[WhpIrqRoutingEntry])
        ensures
            final(self)@ == (WhpVmView { irq_routing: routes(entries@), ..old(self)@ }),
    {
        broadcast use vstd::std_specs::hash::group_hash_axioms;

        self.irq_routing.clear();
        let mut i: usize = 0;
        assert(entries@.take(0) =~= Seq::<WhpIrqRoutingEntry>::empty());
        while i < entries.len()
            invariant
                i <= entries@.len(),
                self.irq_routing@ == routes(entries@.take(i as int)),
                self.is_setup == old(self).is_setup,
                self.vcpu_count == old(self).vcpu_count,
            decreases entries@.len() - i,
        {
            assert(entries@.take(i + 1).drop_last() =~= entries@.take(i as int));
            let entry: WhpIrqRoutingEntry = entries[i];
            self.irq_routing.insert(entry.gsi, entry);
            i += 1;
        }
        assert(entries@.take(i as int) =~= entries@);
    }

    /// The route of an interrupt.
    pub fn gsi_route(&self, gsi: u32) -> (r: Option<WhpIrqRoutingEntry>)
        ensures
            r == if self@.irq_routing.contains_key(gsi) {
                Some(self@.irq_routing[gsi])
            } else {
                None
            },
    {
        broadcast use vstd::std_specs::hash::group_hash_axioms;

        match self.irq_routing.get(&gsi) {
            Some(e) => Some(*e),
            None => None,
        }
    }
}

/// Every route is found under its own number.
pub proof fn routes_are_keyed_by_gsi(entries: Seq<WhpIrqRoutingEntry>, gsi: u32)
    ensures
        routes(entries).contains_key(gsi) ==> routes(entries)[gsi].gsi == gsi,
        routes(entries).contains_key(gsi) <==> exists|i: int|
            0 <= i < entries.len() && (#[trigger] entries[i]).gsi == gsi,
    decreases entries.len(),
{
    if entries.len() > 0 {
        let front = entries.drop_last();
        routes_are_keyed_by_gsi(front, gsi);
        if routes(front).contains_key(gsi) {
            let i = choose|i: int| 0 <= i < front.len() && (#[trigger] front[i]).gsi == gsi;
            assert(entries[i].gsi == gsi);
        }
        if entries.last().gsi == gsi {
            assert(entries[entries.len() - 1].gsi == gsi);
        }
        if exists|i: int| 0 <= i < entries.len() && (#[trigger] entries[i]).gsi == gsi {
            let i = choose|i: int| 0 <= i < entries.len() && (#[trigger] entries[i]).gsi == gsi;
            if i < front.len() {
                assert(front[i].gsi == gsi);
            }
        }
    }
}

// ─── Processor identification ────────────────────────────────────────────────

/// The identification leaves to query: the basic ones 0 to 0xD, and the
/// extended ones from 0x8000_0000 up to the highest, 0x8000_0020 at most.
pub open spec fn cpuid_leaf(ext_max: u32, i: int) -> u32 {
    if i < 14 {
        i as u32
    } else {
        (0x8000_0000 + i - 14) as u32
    }
}

/// The number of identification leaves to query.
pub open spec fn cpuid_leaf_count(ext_max: u32) -> int {
    if ext_max < 0x8000_0000 {
        14
    } else if ext_max > 0x8000_0020 {
        47
    } else {
        14 + ext_max - 0x8000_0000 + 1
    }
}

/// The identification leaves to query on a processor whose highest extended
/// leaf is `ext_max`.
pub fn cpuid_leaves(ext_max: u32) -> (leaves: Vec<u32>)
    ensures
        leaves@.len() == cpuid_leaf_count(ext_max),
        forall|i: int| 0 <= i < leaves@.len() ==> #[trigger] leaves@[i] == cpuid_leaf(ext_max, i),
{
    let mut leaves: Vec<u32> = Vec::new();
    let mut f: u32 = 0;
    while f <= 0xD
        invariant
            f <= 0xE,
            leaves@.len() == f,
            forall|i: int|
                0 <= i < leaves@.len() ==> #[trigger] leaves@[i] == cpuid_leaf(ext_max, i),
        decreases 0xE - f,
    {
        leaves.push(f);
        f += 1;
    }
    if ext_max >= 0x8000_0000 {
        let last: u32 = if ext_max > 0x8000_0020 {
            0x8000_0020
        } else {
            ext_max
        };
        let mut e: u32 = 0x8000_0000;
        while e <= last
            invariant
                0x8000_0000 <= e <= last + 1,
                last <= 0x8000_0020,
                leaves@.len() == 14 + e - 0x8000_0000,
                forall|i: int|
                    0 <= i < leaves@.len() ==> #[trigger] leaves@[i] == cpuid_leaf(ext_max, i),
            decreases last + 1 - e,
        {
            leaves.push(e);
            e += 1;
        }
    }
    leaves
}

// ─── Laws ────────────────────────────────────────────────────────────────────

/// The route of an interrupt is the last of the entries that are for it.
pub proof fn the_last_route_stays(entries: Seq<WhpIrqRoutingEntry>, i: int)
    requires
        0 <= i < entries.len(),
        forall|k: int| i < k < entries.len() ==> (#[trigger] entries[k]).gsi != entries[i].gsi,
    ensures
        routes(entries).contains_key(entries[i].gsi),
        routes(entries)[entries[i].gsi] == entries[i],
    decreases entries.len(),
{
    if i < entries.len() - 1 {
        let front = entries.drop_last();
        assert(entries[entries.len() - 1].gsi != entries[i].gsi);
        assert forall|k: int| i < k < front.len() implies (#[trigger] front[k]).gsi
            != front[i].gsi by {
            assert(front[k] == entries[k]);
        }
        the_last_route_stays(front, i);
    }
}

/// A routing entry has the number of its interrupt, and of a message the high and
/// the low half of its address and its data; of a pin nothing else.
pub proof fn routes_hold_their_message(gsi: u32, config: SourceConfig)
    ensures
        routing_entry(gsi, config).gsi == gsi,
        config matches SourceConfig::Msi(m) ==> {
            &&& routing_entry(gsi, config).address_hi == m.high_addr
            &&& routing_entry(gsi, config).address_lo == m.low_addr
            &&& routing_entry(gsi, config).data == m.data
        },
        config == SourceConfig::Legacy ==> {
            &&& routing_entry(gsi, config).address_hi == 0
            &&& routing_entry(gsi, config).address_lo == 0
            &&& routing_entry(gsi, config).data == 0
        },
{
}

/// A partition is set up once, with as many processors as were created, and with
/// one where none was.
pub proof fn partitions_are_set_up_once(vm: WhpVmView)
    ensures
        vm.is_setup ==> vm.setup_count() is None,
        !vm.is_setup && vm.vcpu_count == 0 ==> vm.setup_count() == Some(1u32),
        !vm.is_setup && vm.vcpu_count > 0 ==> vm.setup_count() == Some(vm.vcpu_count),
{
}

/// The leaves that are queried, in rising order and each once: 0 to 13, and the
/// extended ones that the processor has from 0x80000000 up to 0x80000020.
pub proof fn known_leaves_are_queried(ext_max: u32, leaf: u32, i: int, j: int)
    ensures
        (exists|k: int|
            0 <= k < cpuid_leaf_count(ext_max) && #[trigger] cpuid_leaf(ext_max, k) == leaf) <==> (
        leaf <= 13 || 0x8000_0000 <= leaf <= 0x8000_0020 && leaf <= ext_max),
        0 <= i < j < cpuid_leaf_count(ext_max) ==> cpuid_leaf(ext_max, i) < cpuid_leaf(ext_max, j),
{
    if leaf <= 13 {
        assert(cpuid_leaf(ext_max, leaf as int) == leaf);
    } else if 0x8000_0000 <= leaf <= 0x8000_0020 && leaf <= ext_max {
        assert(cpuid_leaf(ext_max, leaf - 0x8000_0000 + 14) == leaf);
    }
}

} // verus!

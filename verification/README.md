# cloud_hypervisor

The logic of a virtual machine monitor, written in Verus and proved against
its contracts: a virtio SCSI controller, a virtio block device on PCI, the
loading of a guest, the dispatch of its port and memory accesses, the state of
its virtual processors, and the event loops around them.

## Layout

- `src/scsi/` — the SCSI controller: the wire formats (`protocol`), LUNs and
  their configuration (`target`), the commands (`commands`), persistent
  reservations (`reservation`), requests in guest memory (`handler`), the
  queues (`queue`) and the controller itself (`device`).
- `src/blk/` — the block device: configuration space and registers (`config`),
  its request queue (`queue`) and bounded accesses to guest RAM (`ram`).
- `src/boot/` — guest memory before boot: descriptor and page tables
  (`paging`), MP and ACPI tables (`tables`), the mode-switching code
  (`bootstrap`), boot parameters (`params`), kernel images (`loader`) and all
  of it together (`image`).
- `src/ports.rs`, `src/bus.rs` — where accesses of the guest go.
- `src/whp/` — registers, exits and interrupt routing of virtual processors.
- `src/platform/`, `src/epoll.rs`, `src/vmm.rs` — events, polling, timers,
  mappings, and the steps of the event loops.
- `src/lock.rs`, `src/raw_sync.rs`, `src/vmdk.rs`, `src/disk.rs` — disk images.
- `src/cli.rs` — the table of command-line options.
- `src/guest_memory.rs`, and the first part of `src/scsi/queue.rs` — what is
  assumed of `vm-memory` and `virtio-queue`.
- `app/` — the program: files, events, threads and the hypervisor.
- `tests/` — tests of the library from outside.

## Reading the contracts

Each type has a view or a set of spec functions that say what it holds; the
contracts of its functions are stated over those. What relates several
functions stands as a public proof function, for instance that a read gives
back what a write wrote (`reliable_disks_give_back_writes`), that a saved LUN
address parses back (`lun_round_trip`), or that the page tables map the low
four gigabytes to themselves (`low_memory_is_identity_mapped`).

The guest runs while its devices work. So nothing is claimed of what a read of
shared memory will find. What it did find is logged, and the contracts say
exactly what is done with it: which request is carried out, with which data,
and what is written where.

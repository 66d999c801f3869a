//! Device models, boot images and control logic of a virtual machine monitor.

pub mod blk;
pub mod boot;
pub mod bus;
pub mod bytes;
pub mod cli;
pub mod disk;
pub mod epoll;
pub mod guest_memory;
pub mod lock;
pub mod platform;
pub mod ports;
pub mod raw_sync;
pub mod scsi;
pub mod text;
pub mod vmdk;
pub mod vmm;
pub mod whp;

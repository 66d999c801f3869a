//! A legacy virtio block device on the PCI bus.

pub mod config;
pub mod queue;
pub mod ram;

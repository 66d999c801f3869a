//! The Windows Hypervisor Platform backend: registers, exits and partitions.

pub mod exits;
pub mod registers;
pub mod vm;

[package]
name = "cloud_hypervisor"
version = "0.1.0"
edition = "2021"
publish = false

[dependencies]
anyhow = "1"
clap = { version = "4", features = ["string", "derive"] }
env_logger = "0.11"
epoll = "*"
libc = "0.2"
log = "0.4"
seccompiler = "*"
serde = { version = "1", features = ["derive"] }
signal-hook = "0.3"
thiserror = "2"
virtio-queue = "*"
vm-memory = { version = "*", features = ["backend-mmap", "backend-atomic", "backend-bitmap"] }
vmm-sys-util = "*"
windows = { version = "*", features = ["Win32_Foundation", "Win32_System_Console", "Win32_System_Hypervisor", "Win32_System_SystemInformation", "Win32_System_Threading", "Win32_Security"] }

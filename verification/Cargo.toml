[package]
name = "dillo"
version = "0.1.0"
edition = "2021"
publish = false

[dependencies]
anyhow = "1"
applevisor = "1"
argh = "=0.1.19"
hex = "=0.4.3"
kvm-bindings = { version = "=0.14.2", features = ["fam-wrappers"] }
kvm-ioctls = "=0.25.1"
libc = "0.2"
log = "0.4"
nix = { version = "=0.30.1", features = ["fs", "mman", "poll", "process", "signal"] }
rustix = { version = "=1.1.6", features = ["termios", "stdio"] }
serde = { version = "1", features = ["derive"] }
sha2 = "=0.10.9"
thiserror = "2"
uuid = { version = "=1.29.0", features = ["serde"] }
vm-memory = { version = "=0.17.1", features = ["backend-mmap"] }
vm-superio = "=0.8.1"
vmm-sys-util = "=0.15.0"
windows-sys = { version = "0.61", features = ["Win32_Foundation", "Win32_System_Hypervisor", "Win32_System_Memory"] }

[dev-dependencies]
serde_json = "1"

//! The device side of a virtual-machine monitor: device layout and slot
//! allocation, platform description, MMIO and PCI plumbing, virtio transports
//! and the hypervisor-independent decisions of the machine backends.
pub mod bytes;
pub mod config;
pub mod cpu_state;
pub mod device;
pub mod devtree;
pub mod hexstr;
pub mod hvf;
pub mod interrupts;
pub mod kvm;
pub mod machine;
pub mod message_table;
pub mod mmio;
pub mod mmio_virtio;
pub mod pci;
pub mod pci_virtio;
pub mod platform;
pub mod shared_memory;
pub mod slots;
pub mod substrate;
pub mod syscon;
pub mod text;
pub mod uart;
pub mod vcpu_exit;
pub mod virtio;
pub mod virtio_blk;
pub mod whp;

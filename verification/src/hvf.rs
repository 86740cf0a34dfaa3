//! What the Hypervisor.framework machine decides. Running vCPUs and moving
//! register values is up to the owner.
pub mod exception;
pub mod gic;
pub mod memory;
pub mod psci;
pub mod smp;
pub mod thread;

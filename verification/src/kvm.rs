//! What the KVM machine decides and keeps track of. Talking to KVM is up to the
//! owner.
pub mod cpuid_x86;
pub mod irq;
pub mod memory;
pub mod msi;
pub mod signals;
pub mod vcpu;

//! What the Windows Hypervisor Platform machine decides. Talking to the platform
//! is up to the owner.
pub mod cpuid;
pub mod msi;
pub mod partition;
pub mod registers;
pub mod run;

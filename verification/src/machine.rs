//! What every machine backend shares.
use vstd::prelude::*;

verus! {

/// The architecture of the host.
#[derive(Debug, Clone, Copy, PartialEq, Eq, Structural)]
pub enum HostArchitecture {
    X86_64,
    Aarch64,
}

/// How a machine backend runs its devices.
#[derive(Debug, Clone, Copy, PartialEq, Eq, Structural)]
pub enum DeviceModel {
    Thread,
    Process,
}

/// Why a vCPU stopped without an error.
#[derive(Debug, Clone, Copy, PartialEq, Eq, Structural)]
pub enum VcpuStop {
    /// The guest asked for power off.
    GuestPoweroff,
    /// The guest asked for a reset.
    GuestReset,
    /// The supervisor asked the vCPU to stop.
    Stopped,
}

} // verus!

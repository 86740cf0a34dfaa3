//! What the exits of an x86 vCPU mean for its run.
use vstd::prelude::*;

use crate::machine::VcpuStop;
use crate::mmio::MmioWriteOutcome;

verus! {

/// An exit of the vCPU.
#[derive(Debug)]
pub enum VmExit {
    MmioRead { addr: u64, size: u8 },
    MmioWrite { addr: u64, data: [u8; 8], size: u8 },
    PioRead { port: u16, size: u8 },
    PioWrite { port: u16, data: [u8; 4], size: u8 },
    Shutdown,
    Interrupted,
    Halted,
    Unknown(String),
    Debug,
}

/// Why running a vCPU ends.
#[derive(Debug, Clone, Copy)]
pub enum VcpuExit {
    MmioWrite { addr: u64, data: [u8; 8], size: u8 },
    Interrupted,
    Shutdown,
}

/// What follows an exit.
#[derive(Debug)]
pub enum RunStep<E> {
    /// Run on.
    Continue,
    /// Write the port, then run on.
    WritePort { port: u16, data: [u8; 4], size: u8 },
    /// Write the bus, then end.
    WriteBus { addr: u64, data: [u8; 8], size: u8, exit: E },
    /// End.
    Return(E),
    /// End with an error.
    Fail(String),
}

/// What follows an exit of a vCPU.
pub open spec fn step_of(exit: VmExit) -> RunStep<VcpuExit> {
    match exit {
        VmExit::MmioRead { .. } => RunStep::Continue,
        VmExit::PioRead { .. } => RunStep::Continue,
        VmExit::PioWrite { port, data, size } => RunStep::WritePort { port, data, size },
        VmExit::MmioWrite { addr, data, size } => RunStep::WriteBus {
            addr,
            data,
            size,
            exit: VcpuExit::MmioWrite { addr, data, size },
        },
        VmExit::Interrupted => RunStep::Return(VcpuExit::Interrupted),
        VmExit::Halted => RunStep::Continue,
        VmExit::Shutdown => RunStep::Return(VcpuExit::Shutdown),
        VmExit::Debug => RunStep::Continue,
        VmExit::Unknown(reason) => RunStep::Fail(reason),
    }
}

/// What follows an exit of a vCPU.
pub fn run_step(exit: VmExit) -> (r: RunStep<VcpuExit>)
    ensures
        r == step_of(exit),
{
    match exit {
        VmExit::MmioRead { .. } => RunStep::Continue,
        VmExit::PioRead { .. } => RunStep::Continue,
        VmExit::PioWrite { port, data, size } => RunStep::WritePort { port, data, size },
        VmExit::MmioWrite { addr, data, size } => RunStep::WriteBus {
            addr,
            data,
            size,
            exit: VcpuExit::MmioWrite { addr, data, size },
        },
        VmExit::Interrupted => RunStep::Return(VcpuExit::Interrupted),
        VmExit::Halted => RunStep::Continue,
        VmExit::Shutdown => RunStep::Return(VcpuExit::Shutdown),
        VmExit::Debug => RunStep::Continue,
        VmExit::Unknown(reason) => RunStep::Fail(reason),
    }
}

/// What the guest asked for by a device write, for the run of its vCPU: a write that
/// no device took asks for nothing.
pub fn stop_written(outcome: Option<MmioWriteOutcome>) -> (r: Option<VcpuStop>)
    ensures
        r == match outcome {
            Some(MmioWriteOutcome::GuestPoweroff) => Some(VcpuStop::GuestPoweroff),
            Some(MmioWriteOutcome::GuestReset) => Some(VcpuStop::GuestReset),
            _ => None,
        },
{
    match outcome {
        Some(MmioWriteOutcome::GuestPoweroff) => Some(VcpuStop::GuestPoweroff),
        Some(MmioWriteOutcome::GuestReset) => Some(VcpuStop::GuestReset),
        _ => None,
    }
}

/// Whether a vCPU that ended so stops for good: a shutdown of the guest is a power
/// off, and after any other end a demand of the supervisor decides.
pub fn stop_after(exit: &VcpuExit, demanded: Option<VcpuStop>) -> (r: Option<VcpuStop>)
    ensures
        r == match *exit {
            VcpuExit::Shutdown => Some(VcpuStop::GuestPoweroff),
            _ => demanded,
        },
{
    match exit {
        VcpuExit::Shutdown => Some(VcpuStop::GuestPoweroff),
        _ => demanded,
    }
}

/// A write of the guest is handed on as it is, to the port or the bus that it names; a
/// read has been served already, and only a write to memory, an interruption and a
/// shutdown end the run.
pub proof fn law_accesses_are_handed_on(exit: VmExit)
    ensures
        match step_of(exit) {
            RunStep::WritePort { port, data, size } => exit == (VmExit::PioWrite {
                port,
                data,
                size,
            }),
            RunStep::WriteBus { addr, data, size, exit: end } => {
                &&& exit == (VmExit::MmioWrite { addr, data, size })
                &&& end == (VcpuExit::MmioWrite { addr, data, size })
            },
            RunStep::Return(end) => (end is Interrupted && exit is Interrupted) || (end is Shutdown
                && exit is Shutdown),
            RunStep::Fail(reason) => exit == VmExit::Unknown(reason),
            RunStep::Continue => exit is MmioRead || exit is PioRead || exit is Halted
                || exit is Debug,
        },
{
}

/// What a device write asks for is what the vCPU stops for, and a shutdown stops it
/// whatever is demanded.
pub proof fn law_stops(outcome: Option<MmioWriteOutcome>, exit: VcpuExit, demanded: Option<VcpuStop>)
    ensures
        forall|r: Option<VcpuStop>| #[trigger]
            call_ensures(stop_written, (outcome,), r) ==> {
                &&& r == Some(VcpuStop::GuestPoweroff) <==> outcome == Some(
                    MmioWriteOutcome::GuestPoweroff,
                )
                &&& r == Some(VcpuStop::GuestReset) <==> outcome == Some(
                    MmioWriteOutcome::GuestReset,
                )
                &&& r != Some(VcpuStop::Stopped)
            },
        forall|r: Option<VcpuStop>| #[trigger]
            call_ensures(stop_after, (&exit, demanded), r) ==> if exit is Shutdown {
                r == Some(VcpuStop::GuestPoweroff)
            } else {
                r == demanded
            },
{
}

} // verus!

//! What a synchronous exception of an aarch64 guest means.
use vstd::arithmetic::power2::pow2;
use vstd::prelude::*;

verus! {

/// The length of an instruction.
pub const INSN_LEN: u64 = 4;

pub const EC_WFX: u64 = 0x01;

pub const EC_HVC: u64 = 0x16;

pub const EC_SMC: u64 = 0x17;

pub const EC_SYSREG: u64 = 0x18;

pub const EC_DATA_ABORT: u64 = 0x24;

/// The number of the register that reads as zero.
pub const XZR: u8 = 31;

/// What a synchronous exception asks for.
#[derive(Debug, Clone, Copy, PartialEq, Eq, Structural)]
pub enum Exception {
    /// A hypervisor call, with its arguments in x0 to x7.
    Hvc,
    /// A secure monitor call, with its arguments in x0 to x7.
    Smc,
    /// A read of `size` bytes into register `srt`; the instruction is still to be
    /// completed.
    MmioRead { addr: u64, size: u8, srt: u8 },
    /// A write of `size` bytes of register `srt`.
    MmioWrite { addr: u64, size: u8, srt: u8 },
    /// The guest waits.
    Wait,
    /// A system register is read into a register, or written. Reads give zero,
    /// writes are ignored.
    Sysreg { clear: Option<u8> },
    /// A data abort that does not say what was accessed.
    NoSyndrome,
    /// Another class.
    Unknown { ec: u64 },
}

/// The exception class of a syndrome.
pub open spec fn class_of(esr: u64) -> u64 {
    esr / 0x400_0000
}

/// The size of an access by the two bits that give it.
pub open spec fn access_size(esr: u64) -> u8 {
    let sas = esr / 0x40_0000 % 4;
    if sas == 0 {
        1
    } else if sas == 1 {
        2
    } else if sas == 2 {
        4
    } else {
        8
    }
}

/// What a data abort at a guest address asks for.
pub open spec fn data_abort(esr: u64, ipa: u64) -> Exception {
    let srt = (esr / 0x1_0000 % 0x20) as u8;
    if esr / 0x100_0000 % 2 == 0 {
        Exception::NoSyndrome
    } else if esr / 0x40 % 2 == 1 {
        Exception::MmioWrite { addr: ipa, size: access_size(esr), srt }
    } else {
        Exception::MmioRead { addr: ipa, size: access_size(esr), srt }
    }
}

/// What an access to a system register asks for.
pub open spec fn sysreg_access(esr: u64) -> Exception {
    let rt = (esr / 0x20 % 0x20) as u8;
    Exception::Sysreg {
        clear: if esr % 2 == 1 && rt != XZR {
            Some(rt)
        } else {
            None
        },
    }
}

/// What an exception asks for.
pub open spec fn meaning(esr: u64, ipa: u64) -> Exception {
    let ec = class_of(esr);
    if ec == EC_SYSREG {
        sysreg_access(esr)
    } else if ec == EC_HVC {
        Exception::Hvc
    } else if ec == EC_SMC {
        Exception::Smc
    } else if ec == EC_DATA_ABORT {
        data_abort(esr, ipa)
    } else if ec == EC_WFX {
        Exception::Wait
    } else {
        Exception::Unknown { ec }
    }
}

/// Why a vCPU came back from its run.
#[derive(Debug, Clone, Copy, PartialEq, Eq, Structural)]
pub enum ExitReason {
    Exception,
    /// The virtual timer fired.
    VtimerActivated,
    Other,
}

/// What follows.
#[derive(Debug, Clone, Copy, PartialEq, Eq, Structural)]
pub enum ExitStep {
    /// Mask the virtual timer, whose interrupt is delivered, and run on.
    MaskTimer,
    /// Serve an exception.
    Serve(Exception),
    Unknown,
}

/// What follows an exit; `esr` and `ipa` are those of the exception.
pub fn exit_step(reason: ExitReason, esr: u64, ipa: u64) -> (r: ExitStep)
    ensures
        r == match reason {
            ExitReason::VtimerActivated => ExitStep::MaskTimer,
            ExitReason::Exception => ExitStep::Serve(meaning(esr, ipa)),
            ExitReason::Other => ExitStep::Unknown,
        },
{
    match reason {
        ExitReason::VtimerActivated => ExitStep::MaskTimer,
        ExitReason::Exception => ExitStep::Serve(translate(esr, ipa)),
        ExitReason::Other => ExitStep::Unknown,
    }
}

/// What an exception with syndrome `esr` at guest address `ipa` asks for.
pub fn translate(esr: u64, ipa: u64) -> (r: Exception)
    ensures
        r == meaning(esr, ipa),
{
    let ec: u64 = esr / 0x400_0000;
    match ec {
        EC_SYSREG => handle_sysreg_trap(esr),
        EC_HVC => Exception::Hvc,
        EC_SMC => Exception::Smc,
        EC_DATA_ABORT => translate_mmio(esr, ipa),
        EC_WFX => Exception::Wait,
        _ => Exception::Unknown { ec },
    }
}

fn translate_mmio(esr: u64, ipa: u64) -> (r: Exception)
    ensures
        r == data_abort(esr, ipa),
{
    if esr / 0x100_0000 % 2 == 0 {
        return Exception::NoSyndrome;
    }
    let sas: u64 = esr / 0x40_0000 % 4;
    let size: u8 = if sas == 0 {
        1
    } else if sas == 1 {
        2
    } else if sas == 2 {
        4
    } else {
        8
    };
    let srt: u8 = (esr / 0x1_0000 % 0x20) as u8;
    if esr / 0x40 % 2 == 1 {
        Exception::MmioWrite { addr: ipa, size, srt }
    } else {
        Exception::MmioRead { addr: ipa, size, srt }
    }
}

fn handle_sysreg_trap(esr: u64) -> (r: Exception)
    ensures
        r == sysreg_access(esr),
{
    let rt: u8 = (esr / 0x20 % 0x20) as u8;
    if esr % 2 == 1 && rt != XZR {
        Exception::Sysreg { clear: Some(rt) }
    } else {
        Exception::Sysreg { clear: None }
    }
}

/// Whether the guest has to be moved past the instruction before it goes on. A
/// call has moved past it by itself, and a read does so when it is completed.
pub fn advances(exception: Exception) -> (r: bool)
    ensures
        r == (exception is MmioWrite || exception is Wait || exception is Sysreg),
{
    match exception {
        Exception::MmioWrite { .. } => true,
        Exception::Wait => true,
        Exception::Sysreg { .. } => true,
        _ => false,
    }
}

/// The register that takes what a read gives; the zero register takes nothing.
pub fn destination(srt: u8) -> (r: Option<u8>)
    ensures
        r == if srt == XZR {
            None
        } else {
            Some(srt)
        },
{
    if srt == XZR {
        None
    } else {
        Some(srt)
    }
}

/// The instruction behind the one at `pc`.
pub fn next_pc(pc: u64) -> (r: u64)
    ensures
        r == (pc + INSN_LEN) % 0x1_0000_0000_0000_0000,
{
    pc.wrapping_add(INSN_LEN)
}

/// The number of the vCPU of some index in its affinity register.
pub fn mpidr_for(idx: usize) -> (r: u64)
    ensures
        r == 0x8000_0000u64 | idx as u64,
        idx < 0x8000_0000 ==> r == 0x8000_0000 + idx,
        idx < 0x100_0000 ==> r & 0x00ff_ffff == idx,
{
    let i: u64 = idx as u64;
    proof {
        assert((i < 0x8000_0000 ==> 0x8000_0000u64 | i == 0x8000_0000 + i) && (i < 0x100_0000 ==> (
        0x8000_0000u64 | i) & 0x00ff_ffff == i)) by (bit_vector);
    }
    0x8000_0000u64 | i
}

/// A read or a write concerns one, two, four or eight bytes of one of 32
/// registers.
pub proof fn law_access_is_of_one_register(esr: u64, ipa: u64)
    ensures
        match meaning(esr, ipa) {
            Exception::MmioRead { addr, size, srt } => addr == ipa && (size == 1 || size == 2
                || size == 4 || size == 8) && srt <= XZR,
            Exception::MmioWrite { addr, size, srt } => addr == ipa && (size == 1 || size == 2
                || size == 4 || size == 8) && srt <= XZR,
            Exception::Sysreg { clear } => clear matches Some(rt) ==> rt < XZR,
            _ => true,
        },
{
}

/// The fields of a data abort: bits 31:26 are its class, bit 24 says whether the rest
/// is valid, bits 23:22 are the power of two of the size, bits 20:16 the register, and
/// bit 6 tells a write from a read.
pub proof fn law_data_abort_fields(esr: u64, ipa: u64)
    requires
        esr >> 26 == 0x24,
    ensures
        meaning(esr, ipa) is NoSyndrome <==> (esr >> 24) & 1 == 0,
        meaning(esr, ipa) is MmioWrite <==> (esr >> 24) & 1 == 1 && (esr >> 6) & 1 == 1,
        meaning(esr, ipa) is MmioRead <==> (esr >> 24) & 1 == 1 && (esr >> 6) & 1 == 0,
        match meaning(esr, ipa) {
            Exception::MmioRead { addr, size, srt } => {
                &&& addr == ipa
                &&& size == pow2(((esr >> 22) & 3) as nat)
                &&& srt == (esr >> 16) & 0x1f
            },
            Exception::MmioWrite { addr, size, srt } => {
                &&& addr == ipa
                &&& size == pow2(((esr >> 22) & 3) as nat)
                &&& srt == (esr >> 16) & 0x1f
            },
            _ => true,
        },
{
    assert(esr >> 26 == esr / 0x400_0000 && (esr >> 24) & 1 == esr / 0x100_0000 % 2 && (esr >> 6)
        & 1 == esr / 0x40 % 2 && (esr >> 22) & 3 == esr / 0x40_0000 % 4 && (esr >> 16) & 0x1f == esr
        / 0x1_0000 % 0x20) by (bit_vector);
    vstd::arithmetic::power2::lemma2_to64();
}

/// The fields of a trapped system-register access: bit 0 tells a read from a write, and
/// bits 9:5 name the register that a read clears, unless it is the zero register.
pub proof fn law_sysreg_fields(esr: u64, ipa: u64)
    requires
        esr >> 26 == 0x18,
    ensures
        meaning(esr, ipa) matches Exception::Sysreg { clear } && match clear {
            Some(rt) => esr & 1 == 1 && rt == (esr >> 5) & 0x1f && rt < 31,
            None => esr & 1 == 0 || (esr >> 5) & 0x1f == 31,
        },
{
    assert(esr >> 26 == esr / 0x400_0000 && esr & 1 == esr % 2 && (esr >> 5) & 0x1f == esr / 0x20
        % 0x20) by (bit_vector);
}

/// The class alone decides what else an exception asks for.
pub proof fn law_classes(esr: u64, ipa: u64)
    ensures
        meaning(esr, ipa) is Hvc <==> esr >> 26 == 0x16,
        meaning(esr, ipa) is Smc <==> esr >> 26 == 0x17,
        meaning(esr, ipa) is Wait <==> esr >> 26 == 0x01,
        meaning(esr, ipa) is Sysreg <==> esr >> 26 == 0x18,
        meaning(esr, ipa) matches Exception::Unknown { ec } ==> ec == esr >> 26,
        meaning(esr, ipa) is Unknown <==> esr >> 26 != 0x16 && esr >> 26 != 0x17 && esr >> 26
            != 0x01 && esr >> 26 != 0x18 && esr >> 26 != 0x24,
{
    assert(esr >> 26 == esr / 0x400_0000) by (bit_vector);
}

/// The timer alone is masked and an exception alone is served. The program counter goes on
/// behind the four bytes of the instruction at a write, a wait and a register access, and
/// not yet at a read or a call; the zero register takes nothing.
pub proof fn law_vcpu_goes_on(
    reason: ExitReason,
    esr: u64,
    ipa: u64,
    step: ExitStep,
    pc: u64,
    next: u64,
    e: Exception,
    moves: bool,
    srt: u8,
    to: Option<u8>,
)
    requires
        call_ensures(exit_step, (reason, esr, ipa), step),
        call_ensures(next_pc, (pc,), next),
        call_ensures(advances, (e,), moves),
        call_ensures(destination, (srt,), to),
    ensures
        step is MaskTimer <==> reason is VtimerActivated,
        step is Unknown <==> reason is Other,
        reason is Exception ==> step == ExitStep::Serve(meaning(esr, ipa)),
        pc <= u64::MAX - 4 ==> next - pc == 4,
        moves ==> e is MmioWrite || e is Wait || e is Sysreg,
        e is MmioWrite || e is Wait || e is Sysreg ==> moves,
        e is MmioRead || e is Hvc ==> !moves,
        srt == 31 ==> to is None,
        srt != 31 ==> to == Some(srt),
{
}

} // verus!

//! A KVM vCPU: the register values it boots with, and what its exits mean.
use vstd::prelude::*;

use crate::bytes::byte_of;
use crate::cpu_state::{Aarch64CpuState, SegReg, X86CpuState};
use crate::kvm::cpuid_x86::{first_missing, level_named, missing_from, CpuidEntry, X86Level};
use crate::pci_virtio::transport::register_byte;
use crate::vcpu_exit::{RunStep, VmExit};

verus! {

/// General-purpose registers.
#[derive(Debug, Clone, Copy, PartialEq, Eq, Structural)]
pub struct X86Regs {
    pub rip: u64,
    pub rsp: u64,
    pub rflags: u64,
    pub rax: u64,
    pub rbx: u64,
    pub rcx: u64,
    pub rdx: u64,
    pub rsi: u64,
    pub rdi: u64,
    pub rbp: u64,
    pub r8: u64,
    pub r9: u64,
    pub r10: u64,
    pub r11: u64,
    pub r12: u64,
    pub r13: u64,
    pub r14: u64,
    pub r15: u64,
}

/// A segment as KVM takes it.
#[derive(Debug, Clone, Copy, PartialEq, Eq, Structural)]
pub struct Segment {
    pub base: u64,
    pub limit: u32,
    pub selector: u16,
    pub type_: u8,
    pub present: u8,
    pub dpl: u8,
    pub db: u8,
    pub s: u8,
    pub l: u8,
    pub g: u8,
    pub avl: u8,
}

/// The system registers that a boot state sets.
#[derive(Debug, Clone, Copy, PartialEq, Eq, Structural)]
pub struct X86Sregs {
    pub cr0: u64,
    pub cr3: u64,
    pub cr4: u64,
    pub efer: u64,
    pub cs: Segment,
    pub ds: Segment,
    pub es: Segment,
    pub fs: Segment,
    pub gs: Segment,
    pub ss: Segment,
    pub tr: Segment,
    pub ldt: Segment,
    pub gdt_base: u64,
    pub gdt_limit: u16,
    pub idt_base: u64,
    pub idt_limit: u16,
}

/// A segment of a boot state.
pub open spec fn segment_of(s: SegReg) -> Segment {
    Segment {
        base: s.base,
        limit: s.limit,
        selector: s.selector,
        type_: (s.attributes % 0x10) as u8,
        s: (s.attributes / 0x10 % 2) as u8,
        dpl: (s.attributes / 0x20 % 4) as u8,
        present: (s.attributes / 0x80 % 2) as u8,
        avl: (s.attributes / 0x1000 % 2) as u8,
        l: (s.attributes / 0x2000 % 2) as u8,
        db: (s.attributes / 0x4000 % 2) as u8,
        g: (s.attributes / 0x8000 % 2) as u8,
    }
}

/// A present system segment of some type.
pub open spec fn system_segment(type_: u8) -> Segment {
    Segment {
        base: 0,
        limit: 0xffff,
        selector: 0,
        type_,
        present: 1,
        dpl: 0,
        db: 0,
        s: 0,
        l: 0,
        g: 0,
        avl: 0,
    }
}

/// The type of a busy 64-bit task-state segment.
pub const TSS_BUSY: u8 = 0xb;

/// The type of a local descriptor table.
pub const LDT: u8 = 0x2;

fn seg_from_state(s: &SegReg) -> (r: Segment)
    ensures
        r == segment_of(*s),
{
    let attr: u16 = s.attributes;
    Segment {
        base: s.base,
        limit: s.limit,
        selector: s.selector,
        type_: (attr % 0x10) as u8,
        s: (attr / 0x10 % 2) as u8,
        dpl: (attr / 0x20 % 4) as u8,
        present: (attr / 0x80 % 2) as u8,
        avl: (attr / 0x1000 % 2) as u8,
        l: (attr / 0x2000 % 2) as u8,
        db: (attr / 0x4000 % 2) as u8,
        g: (attr / 0x8000 % 2) as u8,
    }
}

fn make_system_segment(type_: u8) -> (r: Segment)
    ensures
        r == system_segment(type_),
{
    Segment {
        base: 0,
        limit: 0xffff,
        selector: 0,
        type_,
        present: 1,
        dpl: 0,
        db: 0,
        s: 0,
        l: 0,
        g: 0,
        avl: 0,
    }
}

/// The registers that a vCPU boots with. Flags that are not given are those of a
/// reset: only the bit that is always set.
pub fn x86_64_state(state: &X86CpuState) -> (r: (X86Regs, X86Sregs))
    ensures
        r.0 == (X86Regs {
            rip: state.rip,
            rsp: state.rsp,
            rflags: if state.rflags == 0 {
                2
            } else {
                state.rflags
            },
            rax: state.rax,
            rbx: state.rbx,
            rcx: state.rcx,
            rdx: state.rdx,
            rsi: state.rsi,
            rdi: state.rdi,
            rbp: state.rbp,
            r8: state.r8,
            r9: state.r9,
            r10: state.r10,
            r11: state.r11,
            r12: state.r12,
            r13: state.r13,
            r14: state.r14,
            r15: state.r15,
        }),
        r.1 == (X86Sregs {
            cr0: state.cr0,
            cr3: state.cr3,
            cr4: state.cr4,
            efer: state.efer,
            cs: segment_of(state.cs),
            ds: segment_of(state.ds),
            es: segment_of(state.es),
            fs: segment_of(state.fs),
            gs: segment_of(state.gs),
            ss: segment_of(state.ss),
            tr: system_segment(TSS_BUSY),
            ldt: system_segment(LDT),
            gdt_base: state.gdtr.base,
            gdt_limit: state.gdtr.limit,
            idt_base: state.idtr.base,
            idt_limit: state.idtr.limit,
        }),
{
    let regs = X86Regs {
        rip: state.rip,
        rsp: state.rsp,
        rflags: if state.rflags == 0 {
            2
        } else {
            state.rflags
        },
        rax: state.rax,
        rbx: state.rbx,
        rcx: state.rcx,
        rdx: state.rdx,
        rsi: state.rsi,
        rdi: state.rdi,
        rbp: state.rbp,
        r8: state.r8,
        r9: state.r9,
        r10: state.r10,
        r11: state.r11,
        r12: state.r12,
        r13: state.r13,
        r14: state.r14,
        r15: state.r15,
    };
    let sregs = X86Sregs {
        cr0: state.cr0,
        cr3: state.cr3,
        cr4: state.cr4,
        efer: state.efer,
        cs: seg_from_state(&state.cs),
        ds: seg_from_state(&state.ds),
        es: seg_from_state(&state.es),
        fs: seg_from_state(&state.fs),
        gs: seg_from_state(&state.gs),
        ss: seg_from_state(&state.ss),
        // Entering long mode takes a present task-state segment, which a boot
        // state does not give.
        tr: make_system_segment(TSS_BUSY),
        ldt: make_system_segment(LDT),
        gdt_base: state.gdtr.base,
        gdt_limit: state.gdtr.limit,
        idt_base: state.idtr.base,
        idt_limit: state.idtr.limit,
    };
    (regs, sregs)
}

/// The size and class of an aarch64 core register in a register id.
pub const CORE_REG_BASE: u64 = 0x6030_0000_0010_0000;

/// The flags of a vCPU that boots at EL1 with interrupts masked.
pub const PSTATE_EL1H_MASKED: u64 = 0x3c5;

/// The id of a core register.
pub open spec fn core_reg_id(index: int) -> u64 {
    (CORE_REG_BASE + 2 * index) as u64
}

/// The value of each core register that a boot state sets: x0 to x30, the program
/// counter, the flags and the stack pointer of EL1.
pub open spec fn core_value(state: Aarch64CpuState, i: int) -> (u64, u64) {
    if i < 31 {
        (core_reg_id(i), state.x@[i])
    } else if i == 31 {
        (core_reg_id(32), state.pc)
    } else if i == 32 {
        (
            core_reg_id(33),
            if state.pstate == 0 {
                PSTATE_EL1H_MASKED
            } else {
                state.pstate
            },
        )
    } else {
        (core_reg_id(34), state.sp_el1)
    }
}

/// The registers that an aarch64 vCPU boots with, as register ids and values.
pub fn aarch64_state(state: &Aarch64CpuState) -> (r: Vec<(u64, u64)>)
    ensures
        r@ == Seq::new(34, |i: int| core_value(*state, i)),
{
    let mut out: Vec<(u64, u64)> = Vec::new();
    let mut i: usize = 0;
    while i < 31
        invariant
            i <= 31,
            out@.len() == i,
            forall|k: int| 0 <= k < i ==> #[trigger] out@[k] == core_value(*state, k),
        decreases 31 - i,
    {
        out.push((CORE_REG_BASE + 2 * i as u64, state.x[i]));
        i = i + 1;
    }
    out.push((CORE_REG_BASE + 64, state.pc));
    let pstate: u64 = if state.pstate == 0 {
        PSTATE_EL1H_MASKED
    } else {
        state.pstate
    };
    out.push((CORE_REG_BASE + 66, pstate));
    out.push((CORE_REG_BASE + 68, state.sp_el1));
    assert(out@ =~= Seq::new(34, |i: int| core_value(*state, i)));
    out
}

/// vCPU feature: power control by firmware calls.
pub const FEATURE_PSCI_0_2: u32 = 4;

/// vCPU feature: powered off until it is turned on.
pub const FEATURE_POWER_OFF: u32 = 1;

/// The features of an aarch64 vCPU: every vCPU but the first waits to be turned
/// on.
pub fn vcpu_features(preferred: u32, idx: u32) -> (r: u32)
    ensures
        r == if idx != 0 {
            preferred | FEATURE_PSCI_0_2 | FEATURE_POWER_OFF
        } else {
            preferred | FEATURE_PSCI_0_2
        },
{
    let features: u32 = preferred | FEATURE_PSCI_0_2;
    if idx != 0 {
        features | FEATURE_POWER_OFF
    } else {
        features
    }
}

/// The number by which KVM knows the line of a shared interrupt.
pub fn spi_irq_line(intid: u32) -> (r: u32)
    ensures
        r == 0x100_0000u32 | intid,
{
    0x100_0000u32 | intid
}

/// Why a CPU profile cannot be had.
#[derive(Debug, Clone, Copy)]
pub enum ProfileError {
    /// No profile of that name is known.
    Unknown,
    /// The host lacks a feature.
    HostMissing { profile: &'static str, feature: &'static str },
}

/// Whether the host can run a guest of a CPU profile: every feature that the
/// profile demands is checked.
pub fn check_profile(profile: &str, supported: &[CpuidEntry]) -> (r: Result<(), ProfileError>)
    ensures
        r == match level_named(profile@) {
            None => Err(ProfileError::Unknown),
            Some(level) => match missing_from(supported@, level.features(), 0) {
                Some(feature) => Err(
                    ProfileError::HostMissing { profile: level.name(), feature },
                ),
                None => Ok(()),
            },
        },
{
    match X86Level::parse(profile) {
        None => Err(ProfileError::Unknown),
        Some(level) => match first_missing(level, supported) {
            Some(feature) => Err(
                ProfileError::HostMissing { profile: level.as_str(), feature },
            ),
            None => Ok(()),
        },
    }
}

/// What to do when running a vCPU fails with an error number.
#[derive(Debug, Clone, Copy, PartialEq, Eq, Structural)]
pub enum RunFailure {
    /// Run it again.
    Retry,
    /// It was interrupted.
    Interrupted,
    Fail,
}

/// The error number of a call that may be tried again.
pub const EAGAIN: i32 = 11;

/// The error number of an interrupted call.
pub const EINTR: i32 = 4;

/// A vCPU that still waits to be started is run again; a signal interrupts it.
pub fn run_failure(errno: i32) -> (r: RunFailure)
    ensures
        r == if errno == EAGAIN {
            RunFailure::Retry
        } else if errno == EINTR {
            RunFailure::Interrupted
        } else {
            RunFailure::Fail
        },
{
    if errno == EAGAIN {
        RunFailure::Retry
    } else if errno == EINTR {
        RunFailure::Interrupted
    } else {
        RunFailure::Fail
    }
}

/// An exit of the vCPU as KVM reports it.
#[derive(Debug)]
pub enum RawExit<'a> {
    IoIn(u16, usize),
    IoOut(u16, &'a [u8]),
    MmioRead(u64, usize),
    MmioWrite(u64, &'a [u8]),
    Hlt,
    Shutdown,
    Debug,
    SystemEvent,
    Other(String),
}

/// The first bytes of `data` that a buffer of `len` bytes holds, with zeros behind
/// them.
pub open spec fn held(data: Seq<u8>, len: nat) -> Seq<u8> {
    Seq::new(
        len,
        |i: int|
            if i < data.len() {
                data[i]
            } else {
                0
            },
    )
}

/// How many bytes of `data` a buffer of `len` bytes holds.
pub open spec fn held_len(data: Seq<u8>, len: int) -> u8 {
    if data.len() < len {
        data.len() as u8
    } else {
        len as u8
    }
}

/// What an exit means.
pub fn translate_exit(exit: RawExit<'_>) -> (r: VmExit)
    ensures
        match exit {
            RawExit::IoIn(port, len) => r == (VmExit::PioRead { port, size: len as u8 }),
            RawExit::IoOut(port, data) => r matches VmExit::PioWrite { port: p, data: buf, size }
                && p == port && buf@ == held(data@, 4) && size == held_len(data@, 4),
            RawExit::MmioRead(addr, len) => r == (VmExit::MmioRead { addr, size: len as u8 }),
            RawExit::MmioWrite(addr, data) => r matches VmExit::MmioWrite {
                addr: a,
                data: buf,
                size,
            } && a == addr && buf@ == held(data@, 8) && size == held_len(data@, 8),
            RawExit::Hlt => r == VmExit::Halted,
            RawExit::Shutdown => r == VmExit::Shutdown,
            RawExit::Debug => r == VmExit::Debug,
            RawExit::SystemEvent => r == VmExit::Shutdown,
            RawExit::Other(reason) => r == VmExit::Unknown(reason),
        },
{
    match exit {
        RawExit::IoIn(port, len) => VmExit::PioRead { port, size: len as u8 },
        RawExit::IoOut(port, data) => {
            let mut buf: [u8; 4] = [0u8;4];
            let n: usize = if data.len() < 4 {
                data.len()
            } else {
                4
            };
            let mut i: usize = 0;
            while i < n
                invariant
                    i <= n,
                    n <= 4,
                    n <= data@.len(),
                    forall|k: int| 0 <= k < i ==> #[trigger] buf@[k] == data@[k],
                    forall|k: int| i <= k < 4 ==> #[trigger] buf@[k] == 0,
                decreases n - i,
            {
                buf[i] = data[i];
                i = i + 1;
            }
            assert(buf@ =~= held(data@, 4));
            VmExit::PioWrite { port, data: buf, size: n as u8 }
        },
        RawExit::MmioRead(addr, len) => VmExit::MmioRead { addr, size: len as u8 },
        RawExit::MmioWrite(addr, data) => {
            let mut buf: [u8; 8] = [0u8;8];
            let n: usize = if data.len() < 8 {
                data.len()
            } else {
                8
            };
            let mut i: usize = 0;
            while i < n
                invariant
                    i <= n,
                    n <= 8,
                    n <= data@.len(),
                    forall|k: int| 0 <= k < i ==> #[trigger] buf@[k] == data@[k],
                    forall|k: int| i <= k < 8 ==> #[trigger] buf@[k] == 0,
                decreases n - i,
            {
                buf[i] = data[i];
                i = i + 1;
            }
            assert(buf@ =~= held(data@, 8));
            VmExit::MmioWrite { addr, data: buf, size: n as u8 }
        },
        RawExit::Hlt => VmExit::Halted,
        RawExit::Shutdown => VmExit::Shutdown,
        RawExit::Debug => VmExit::Debug,
        RawExit::SystemEvent => VmExit::Shutdown,
        RawExit::Other(reason) => VmExit::Unknown(reason),
    }
}

/// Fills the buffer of a port read with the value that was read.
pub fn fill_pio(value: u32, data: &mut [u8])
    requires
        old(data)@.len() <= 4,
    ensures
        final(data)@ == Seq::new(old(data)@.len(), |i: int| register_byte(value, i)),
{
    let n: usize = data.len();
    let mut i: usize = 0;
    while i < n
        invariant
            n == data@.len(),
            n == old(data)@.len(),
            n <= 4,
            i <= n,
            forall|k: int| 0 <= k < i ==> #[trigger] data@[k] == register_byte(value, k),
        decreases n - i,
    {
        data[i] = byte_of(value, i);
        i = i + 1;
    }
    assert(data@ =~= Seq::new(old(data)@.len(), |i: int| register_byte(value, i)));
}

/// Why running a vCPU under a debugger ends.
#[derive(Debug)]
pub enum DebugExit {
    Debug,
    Halted,
    MmioWrite { addr: u64, data: [u8; 8], size: u8 },
    Shutdown,
    Interrupted,
    Unknown(String),
}

/// What follows an exit of a vCPU under a debugger, which sees every exit but
/// reads and port writes.
pub open spec fn debug_step_of(exit: VmExit) -> RunStep<DebugExit> {
    match exit {
        VmExit::MmioRead { .. } => RunStep::Continue,
        VmExit::PioRead { .. } => RunStep::Continue,
        VmExit::PioWrite { port, data, size } => RunStep::WritePort { port, data, size },
        VmExit::MmioWrite { addr, data, size } => RunStep::WriteBus {
            addr,
            data,
            size,
            exit: DebugExit::MmioWrite { addr, data, size },
        },
        VmExit::Interrupted => RunStep::Return(DebugExit::Interrupted),
        VmExit::Halted => RunStep::Return(DebugExit::Halted),
        VmExit::Shutdown => RunStep::Return(DebugExit::Shutdown),
        VmExit::Debug => RunStep::Return(DebugExit::Debug),
        VmExit::Unknown(reason) => RunStep::Return(DebugExit::Unknown(reason)),
    }
}

/// What follows an exit of a vCPU under a debugger.
pub fn debug_step(exit: VmExit) -> (r: RunStep<DebugExit>)
    ensures
        r == debug_step_of(exit),
{
    match exit {
        VmExit::MmioRead { .. } => RunStep::Continue,
        VmExit::PioRead { .. } => RunStep::Continue,
        VmExit::PioWrite { port, data, size } => RunStep::WritePort { port, data, size },
        VmExit::MmioWrite { addr, data, size } => RunStep::WriteBus {
            addr,
            data,
            size,
            exit: DebugExit::MmioWrite { addr, data, size },
        },
        VmExit::Interrupted => RunStep::Return(DebugExit::Interrupted),
        VmExit::Halted => RunStep::Return(DebugExit::Halted),
        VmExit::Shutdown => RunStep::Return(DebugExit::Shutdown),
        VmExit::Debug => RunStep::Return(DebugExit::Debug),
        VmExit::Unknown(reason) => RunStep::Return(DebugExit::Unknown(reason)),
    }
}

/// Every bit of a segment's attributes that has a meaning goes into one field, and
/// the fields hold nothing else.
pub proof fn law_segment_keeps_its_attributes(s: SegReg)
    ensures
        ({
            let k = segment_of(s);
            s.attributes == k.type_ + k.s * 0x10 + k.dpl * 0x20 + k.present * 0x80
                + s.attributes / 0x100 % 0x10 * 0x100 + k.avl * 0x1000 + k.l * 0x2000 + k.db
                * 0x4000 + k.g * 0x8000
        }),
{
    let a = s.attributes;
    assert(a == a % 0x10 + a / 0x10 % 2 * 0x10 + a / 0x20 % 4 * 0x20 + a / 0x80 % 2 * 0x80 + a
        / 0x100 % 0x10 * 0x100 + a / 0x1000 % 2 * 0x1000 + a / 0x2000 % 2 * 0x2000 + a / 0x4000
        % 2 * 0x4000 + a / 0x8000 % 2 * 0x8000) by (bit_vector);
}

/// The fields of a segment are as wide as the attribute bits that they take, and the rest
/// of the segment stays.
pub proof fn law_segment_fields_are_narrow(s: SegReg)
    ensures
        ({
            let k = segment_of(s);
            &&& k.type_ < 16 && k.s < 2 && k.dpl < 4 && k.present < 2
            &&& k.avl < 2 && k.l < 2 && k.db < 2 && k.g < 2
            &&& k.base == s.base && k.limit == s.limit && k.selector == s.selector
        }),
        ({
            let t = system_segment(0xb);
            &&& t.type_ == 0xb && t.present == 1 && t.limit == 0xffff && t.base == 0
            &&& t.s == 0 && t.dpl == 0 && t.selector == 0 && t.l == 0 && t.db == 0 && t.g == 0
        }),
        system_segment(2).type_ == 2,
        TSS_BUSY == 0xb && LDT == 2,
{
}

/// An aarch64 boot state sets x0 to x30, the program counter, the flags and the stack
/// pointer, each by an id of its own; flags that are not given mask the interrupts at EL1.
pub proof fn law_core_registers(state: Aarch64CpuState, i: int, j: int)
    requires
        0 <= i < 34,
        0 <= j < 34,
    ensures
        core_value(state, i).0 == core_value(state, j).0 ==> i == j,
        i < 31 ==> core_value(state, i) == ((0x6030_0000_0010_0000 + 2 * i) as u64, state.x@[i]),
        core_value(state, 31) == (0x6030_0000_0010_0040u64, state.pc),
        core_value(state, 32).0 == 0x6030_0000_0010_0042,
        core_value(state, 32).1 == if state.pstate != 0 {
            state.pstate
        } else {
            0x3c5
        },
        core_value(state, 33) == (0x6030_0000_0010_0044u64, state.sp_el1),
{
}

/// A buffer holds as much of the data as fits, from its start, and zeros behind it.
pub proof fn law_buffer_holds_the_front(data: Seq<u8>, len: nat, i: int)
    requires
        0 <= i < len,
        len < 256,
    ensures
        held(data, len).len() == len,
        i < held_len(data, len as int) ==> held(data, len)[i] == data[i],
        i >= held_len(data, len as int) ==> held(data, len)[i] == 0,
        held_len(data, len as int) <= len && held_len(data, len as int) <= data.len(),
        held_len(data, len as int) == len || held_len(data, len as int) == data.len(),
{
}

/// Under a debugger a write of the guest is handed on as it is, and every other exit but
/// a read is reported as what it is.
pub proof fn law_debugger_sees_what_happened(exit: VmExit)
    ensures
        match debug_step_of(exit) {
            RunStep::WritePort { port, data, size } => exit == (VmExit::PioWrite {
                port,
                data,
                size,
            }),
            RunStep::WriteBus { addr, data, size, exit: end } => {
                &&& exit == (VmExit::MmioWrite { addr, data, size })
                &&& end == (DebugExit::MmioWrite { addr, data, size })
            },
            RunStep::Return(end) => match end {
                DebugExit::Interrupted => exit is Interrupted,
                DebugExit::Halted => exit is Halted,
                DebugExit::Shutdown => exit is Shutdown,
                DebugExit::Debug => exit is Debug,
                DebugExit::Unknown(reason) => exit == VmExit::Unknown(reason),
                DebugExit::MmioWrite { .. } => false,
            },
            RunStep::Continue => exit is MmioRead || exit is PioRead,
            RunStep::Fail(_) => false,
        },
{
}

/// What the errors of a run mean, by their numbers, and what is told of an interrupt line
/// and of a vCPU that is not the first.
pub proof fn law_numbers_of_the_platform(errno: i32, intid: u32, preferred: u32, idx: u32)
    requires
        intid < 0x100_0000,
    ensures
        forall|r: RunFailure| #[trigger]
            call_ensures(run_failure, (errno,), r) ==> (r is Retry <==> errno == 11) && (
            r is Interrupted <==> errno == 4),
        forall|r: u32| #[trigger]
            call_ensures(spi_irq_line, (intid,), r) ==> r == 0x100_0000 + intid,
        forall|r: u32| #[trigger]
            call_ensures(vcpu_features, (preferred, idx), r) ==> {
                &&& r & 4 != 0
                &&& idx != 0 ==> r & 1 != 0
                &&& idx == 0 ==> r & 1 == preferred & 1
                &&& r & !5u32 == preferred & !5u32
            },
{
    assert((intid < 0x100_0000 ==> 0x100_0000u32 | intid == 0x100_0000 + intid) && (preferred | 4
        | 1) & 4 != 0 && (preferred | 4) & 4 != 0 && (preferred | 4 | 1) & 1 != 0 && (preferred | 4)
        & 1 == preferred & 1 && (preferred | 4 | 1) & !5u32 == preferred & !5u32 && (preferred | 4)
        & !5u32 == preferred & !5u32) by (bit_vector);
}

/// A vCPU starts with the registers of the boot state, each in its place; flags of zero
/// become the flags of a reset, in which bit one is set.
pub proof fn law_boot_registers_are_loaded(s: &X86CpuState, r: (X86Regs, X86Sregs))
    requires
        call_ensures(x86_64_state, (s,), r),
    ensures
        r.0.rip == s.rip && r.0.rsp == s.rsp && r.0.rbp == s.rbp,
        r.0.rax == s.rax && r.0.rbx == s.rbx && r.0.rcx == s.rcx && r.0.rdx == s.rdx,
        r.0.rsi == s.rsi && r.0.rdi == s.rdi,
        r.0.r8 == s.r8 && r.0.r9 == s.r9 && r.0.r10 == s.r10 && r.0.r11 == s.r11,
        r.0.r12 == s.r12 && r.0.r13 == s.r13 && r.0.r14 == s.r14 && r.0.r15 == s.r15,
        s.rflags != 0 ==> r.0.rflags == s.rflags,
        s.rflags == 0 ==> r.0.rflags == 2,
        r.1.cr0 == s.cr0 && r.1.cr3 == s.cr3 && r.1.cr4 == s.cr4 && r.1.efer == s.efer,
        r.1.gdt_base == s.gdtr.base && r.1.gdt_limit == s.gdtr.limit,
        r.1.idt_base == s.idtr.base && r.1.idt_limit == s.idtr.limit,
        r.1.cs.selector == s.cs.selector && r.1.cs.base == s.cs.base && r.1.cs.limit
            == s.cs.limit,
        r.1.ds.selector == s.ds.selector && r.1.es.selector == s.es.selector,
        r.1.fs.base == s.fs.base && r.1.gs.base == s.gs.base && r.1.ss.selector == s.ss.selector,
        r.1.tr.type_ == 11 && r.1.tr.present == 1 && r.1.tr.s == 0,
        r.1.ldt.type_ == 2 && r.1.ldt.present == 1 && r.1.ldt.s == 0,
{
}

/// An exit is told with the address and the bytes of the access; of what is longer than
/// the buffer, the front.
pub proof fn law_exits_are_told_as_they_are(exit: RawExit<'_>, r: VmExit)
    requires
        call_ensures(translate_exit, (exit,), r),
    ensures
        match exit {
            RawExit::MmioWrite(addr, data) => r matches VmExit::MmioWrite { addr: a, data: buf, size }
                && a == addr && (data@.len() <= 8 ==> size == data@.len()) && forall|i: int|
                0 <= i < data@.len() && i < 8 ==> #[trigger] buf@[i] == data@[i],
            RawExit::IoOut(port, data) => r matches VmExit::PioWrite { port: p, data: buf, size }
                && p == port && (data@.len() <= 4 ==> size == data@.len()) && forall|i: int|
                0 <= i < data@.len() && i < 4 ==> #[trigger] buf@[i] == data@[i],
            RawExit::MmioRead(addr, len) => r matches VmExit::MmioRead { addr: a, size } && a
                == addr && (len < 256 ==> size == len),
            RawExit::IoIn(port, len) => r matches VmExit::PioRead { port: p, size } && p == port
                && (len < 256 ==> size == len),
            RawExit::Hlt => r is Halted,
            RawExit::Shutdown => r is Shutdown,
            RawExit::SystemEvent => r is Shutdown,
            RawExit::Debug => r is Debug,
            RawExit::Other(reason) => r == VmExit::Unknown(reason),
        },
{
}

/// A failed run is tried again on EAGAIN and was interrupted on EINTR.
pub proof fn law_failed_runs(errno: i32, r: RunFailure)
    requires
        call_ensures(run_failure, (errno,), r),
    ensures
        r is Retry <==> errno == 11,
        r is Interrupted <==> errno == 4,
        r is Fail <==> errno != 11 && errno != 4,
{
}

} // verus!

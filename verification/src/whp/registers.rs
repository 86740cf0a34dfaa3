//! The register values that a vCPU boots with.
use vstd::prelude::*;

use crate::cpu_state::{SegReg, TableReg, X86CpuState};

verus! {

/// A register of a vCPU.
#[derive(Debug, Clone, Copy, PartialEq, Eq, Structural)]
pub enum WhpRegister {
    Rip,
    Rsp,
    Rflags,
    Rax,
    Rbx,
    Rcx,
    Rdx,
    Rsi,
    Rdi,
    Rbp,
    R8,
    R9,
    R10,
    R11,
    R12,
    R13,
    R14,
    R15,
    Cr0,
    Cr3,
    Cr4,
    Efer,
    Cs,
    Ds,
    Es,
    Fs,
    Gs,
    Ss,
    Gdtr,
    Idtr,
    Tr,
    Ldtr,
}

/// The value of a register.
#[derive(Debug, Clone, Copy, PartialEq, Eq, Structural)]
pub enum WhpValue {
    Reg64(u64),
    Segment(SegReg),
    Table(TableReg),
}

/// A present system segment with some attributes.
pub open spec fn system_segment(attributes: u16) -> SegReg {
    SegReg { base: 0, limit: 0xffff, selector: 0, attributes }
}

fn make_system_segment(attributes: u16) -> (r: SegReg)
    ensures
        r == system_segment(attributes),
{
    SegReg { base: 0, limit: 0xffff, selector: 0, attributes }
}

/// The attributes of a present, busy 64-bit task-state segment.
pub const TR_ATTRIBUTES: u16 = 0x8b;

/// The attributes of a present local descriptor table.
pub const LDTR_ATTRIBUTES: u16 = 0x82;

/// The registers that a boot state sets, with their values. Flags that are not
/// given are those of a reset.
pub open spec fn boot_registers(state: X86CpuState) -> Seq<(WhpRegister, WhpValue)> {
    seq![
        (WhpRegister::Rip, WhpValue::Reg64(state.rip)),
        (WhpRegister::Rsp, WhpValue::Reg64(state.rsp)),
        (
            WhpRegister::Rflags,
            WhpValue::Reg64(
                if state.rflags == 0 {
                    2
                } else {
                    state.rflags
                },
            ),
        ),
        (WhpRegister::Rax, WhpValue::Reg64(state.rax)),
        (WhpRegister::Rbx, WhpValue::Reg64(state.rbx)),
        (WhpRegister::Rcx, WhpValue::Reg64(state.rcx)),
        (WhpRegister::Rdx, WhpValue::Reg64(state.rdx)),
        (WhpRegister::Rsi, WhpValue::Reg64(state.rsi)),
        (WhpRegister::Rdi, WhpValue::Reg64(state.rdi)),
        (WhpRegister::Rbp, WhpValue::Reg64(state.rbp)),
        (WhpRegister::R8, WhpValue::Reg64(state.r8)),
        (WhpRegister::R9, WhpValue::Reg64(state.r9)),
        (WhpRegister::R10, WhpValue::Reg64(state.r10)),
        (WhpRegister::R11, WhpValue::Reg64(state.r11)),
        (WhpRegister::R12, WhpValue::Reg64(state.r12)),
        (WhpRegister::R13, WhpValue::Reg64(state.r13)),
        (WhpRegister::R14, WhpValue::Reg64(state.r14)),
        (WhpRegister::R15, WhpValue::Reg64(state.r15)),
        (WhpRegister::Cr0, WhpValue::Reg64(state.cr0)),
        (WhpRegister::Cr3, WhpValue::Reg64(state.cr3)),
        (WhpRegister::Cr4, WhpValue::Reg64(state.cr4)),
        (WhpRegister::Efer, WhpValue::Reg64(state.efer)),
        (WhpRegister::Cs, WhpValue::Segment(state.cs)),
        (WhpRegister::Ds, WhpValue::Segment(state.ds)),
        (WhpRegister::Es, WhpValue::Segment(state.es)),
        (WhpRegister::Fs, WhpValue::Segment(state.fs)),
        (WhpRegister::Gs, WhpValue::Segment(state.gs)),
        (WhpRegister::Ss, WhpValue::Segment(state.ss)),
        (WhpRegister::Gdtr, WhpValue::Table(state.gdtr)),
        (WhpRegister::Idtr, WhpValue::Table(state.idtr)),
        (WhpRegister::Tr, WhpValue::Segment(system_segment(TR_ATTRIBUTES))),
        (WhpRegister::Ldtr, WhpValue::Segment(system_segment(LDTR_ATTRIBUTES))),
    ]
}

/// The registers that a vCPU boots with.
pub fn x86_64_state(state: &X86CpuState) -> (r: Vec<(WhpRegister, WhpValue)>)
    ensures
        r@ == boot_registers(*state),
{
    let rflags: u64 = if state.rflags == 0 {
        2
    } else {
        state.rflags
    };
    let r: Vec<(WhpRegister, WhpValue)> = vec![
        (WhpRegister::Rip, WhpValue::Reg64(state.rip)),
        (WhpRegister::Rsp, WhpValue::Reg64(state.rsp)),
        (WhpRegister::Rflags, WhpValue::Reg64(rflags)),
        (WhpRegister::Rax, WhpValue::Reg64(state.rax)),
        (WhpRegister::Rbx, WhpValue::Reg64(state.rbx)),
        (WhpRegister::Rcx, WhpValue::Reg64(state.rcx)),
        (WhpRegister::Rdx, WhpValue::Reg64(state.rdx)),
        (WhpRegister::Rsi, WhpValue::Reg64(state.rsi)),
        (WhpRegister::Rdi, WhpValue::Reg64(state.rdi)),
        (WhpRegister::Rbp, WhpValue::Reg64(state.rbp)),
        (WhpRegister::R8, WhpValue::Reg64(state.r8)),
        (WhpRegister::R9, WhpValue::Reg64(state.r9)),
        (WhpRegister::R10, WhpValue::Reg64(state.r10)),
        (WhpRegister::R11, WhpValue::Reg64(state.r11)),
        (WhpRegister::R12, WhpValue::Reg64(state.r12)),
        (WhpRegister::R13, WhpValue::Reg64(state.r13)),
        (WhpRegister::R14, WhpValue::Reg64(state.r14)),
        (WhpRegister::R15, WhpValue::Reg64(state.r15)),
        (WhpRegister::Cr0, WhpValue::Reg64(state.cr0)),
        (WhpRegister::Cr3, WhpValue::Reg64(state.cr3)),
        (WhpRegister::Cr4, WhpValue::Reg64(state.cr4)),
        (WhpRegister::Efer, WhpValue::Reg64(state.efer)),
        (WhpRegister::Cs, WhpValue::Segment(state.cs)),
        (WhpRegister::Ds, WhpValue::Segment(state.ds)),
        (WhpRegister::Es, WhpValue::Segment(state.es)),
        (WhpRegister::Fs, WhpValue::Segment(state.fs)),
        (WhpRegister::Gs, WhpValue::Segment(state.gs)),
        (WhpRegister::Ss, WhpValue::Segment(state.ss)),
        (WhpRegister::Gdtr, WhpValue::Table(state.gdtr)),
        (WhpRegister::Idtr, WhpValue::Table(state.idtr)),
        (WhpRegister::Tr, WhpValue::Segment(make_system_segment(TR_ATTRIBUTES))),
        (WhpRegister::Ldtr, WhpValue::Segment(make_system_segment(LDTR_ATTRIBUTES))),
    ];
    assert(r@ =~= boot_registers(*state));
    r
}

/// What a boot state says of one register.
pub open spec fn boot_value(state: X86CpuState, register: WhpRegister) -> WhpValue {
    match register {
        WhpRegister::Rip => WhpValue::Reg64(state.rip),
        WhpRegister::Rsp => WhpValue::Reg64(state.rsp),
        WhpRegister::Rflags => WhpValue::Reg64(
            if state.rflags != 0 {
                state.rflags
            } else {
                2
            },
        ),
        WhpRegister::Rax => WhpValue::Reg64(state.rax),
        WhpRegister::Rbx => WhpValue::Reg64(state.rbx),
        WhpRegister::Rcx => WhpValue::Reg64(state.rcx),
        WhpRegister::Rdx => WhpValue::Reg64(state.rdx),
        WhpRegister::Rsi => WhpValue::Reg64(state.rsi),
        WhpRegister::Rdi => WhpValue::Reg64(state.rdi),
        WhpRegister::Rbp => WhpValue::Reg64(state.rbp),
        WhpRegister::R8 => WhpValue::Reg64(state.r8),
        WhpRegister::R9 => WhpValue::Reg64(state.r9),
        WhpRegister::R10 => WhpValue::Reg64(state.r10),
        WhpRegister::R11 => WhpValue::Reg64(state.r11),
        WhpRegister::R12 => WhpValue::Reg64(state.r12),
        WhpRegister::R13 => WhpValue::Reg64(state.r13),
        WhpRegister::R14 => WhpValue::Reg64(state.r14),
        WhpRegister::R15 => WhpValue::Reg64(state.r15),
        WhpRegister::Cr0 => WhpValue::Reg64(state.cr0),
        WhpRegister::Cr3 => WhpValue::Reg64(state.cr3),
        WhpRegister::Cr4 => WhpValue::Reg64(state.cr4),
        WhpRegister::Efer => WhpValue::Reg64(state.efer),
        WhpRegister::Cs => WhpValue::Segment(state.cs),
        WhpRegister::Ds => WhpValue::Segment(state.ds),
        WhpRegister::Es => WhpValue::Segment(state.es),
        WhpRegister::Fs => WhpValue::Segment(state.fs),
        WhpRegister::Gs => WhpValue::Segment(state.gs),
        WhpRegister::Ss => WhpValue::Segment(state.ss),
        WhpRegister::Gdtr => WhpValue::Table(state.gdtr),
        WhpRegister::Idtr => WhpValue::Table(state.idtr),
        WhpRegister::Tr => WhpValue::Segment(
            SegReg { base: 0, limit: 0xffff, selector: 0, attributes: 0x8b },
        ),
        WhpRegister::Ldtr => WhpValue::Segment(
            SegReg { base: 0, limit: 0xffff, selector: 0, attributes: 0x82 },
        ),
    }
}

/// Every register is set once, to what the boot state says of it.
pub proof fn law_every_register_is_set_once(state: X86CpuState, i: int, j: int)
    requires
        0 <= i < boot_registers(state).len(),
        0 <= j < boot_registers(state).len(),
    ensures
        boot_registers(state).len() == 32,
        boot_registers(state)[i].1 == boot_value(state, boot_registers(state)[i].0),
        boot_registers(state)[i].0 == boot_registers(state)[j].0 ==> i == j,
{
}

} // verus!

//! The state that a launch image gives a vCPU.
use vstd::prelude::*;

verus! {

/// A segment register.
#[derive(Debug, Clone, Copy, PartialEq, Eq, Structural)]
pub struct SegReg {
    pub base: u64,
    pub limit: u32,
    pub selector: u16,
    /// Type, s, dpl and present in the low byte; avl, l, db and g in the four
    /// highest bits.
    pub attributes: u16,
}

/// A descriptor-table register.
#[derive(Debug, Clone, Copy, PartialEq, Eq, Structural)]
pub struct TableReg {
    pub base: u64,
    pub limit: u16,
}

/// The boot state of an x86-64 vCPU.
#[derive(Debug, Clone, Copy, PartialEq, Eq, Structural)]
pub struct X86CpuState {
    pub rip: u64,
    pub rsp: u64,
    pub rflags: u64,
    pub rax: u64,
    pub rbx: u64,
    pub rcx: u64,
    pub rdx: u64,
    pub rsi: u64,
    pub rdi: u64,
    pub rbp: u64,
    pub r8: u64,
    pub r9: u64,
    pub r10: u64,
    pub r11: u64,
    pub r12: u64,
    pub r13: u64,
    pub r14: u64,
    pub r15: u64,
    pub cr0: u64,
    pub cr3: u64,
    pub cr4: u64,
    pub efer: u64,
    pub cs: SegReg,
    pub ds: SegReg,
    pub es: SegReg,
    pub fs: SegReg,
    pub gs: SegReg,
    pub ss: SegReg,
    pub gdtr: TableReg,
    pub idtr: TableReg,
}

/// The boot state of an aarch64 vCPU.
#[derive(Debug, Clone, Copy)]
pub struct Aarch64CpuState {
    /// x0 to x30.
    pub x: [u64; 31],
    pub pc: u64,
    pub pstate: u64,
    pub sp_el1: u64,
    pub sctlr_el1: u64,
    pub vbar_el1: u64,
    pub cpacr_el1: u64,
    pub tcr_el1: u64,
    pub ttbr0_el1: u64,
    pub ttbr1_el1: u64,
    pub mair_el1: u64,
}

impl Aarch64CpuState {
    /// Whether every general-purpose register from `from` on is zero.
    pub open spec fn zero_from(self, from: int) -> bool {
        forall|i: int| from <= i < 31 ==> #[trigger] self.x@[i] == 0
    }

    /// A state of all zeros.
    pub fn zeroed() -> (r: Aarch64CpuState)
        ensures
            r.zero_from(0),
            r.pc == 0 && r.pstate == 0 && r.sp_el1 == 0 && r.sctlr_el1 == 0 && r.vbar_el1 == 0
                && r.cpacr_el1 == 0 && r.tcr_el1 == 0 && r.ttbr0_el1 == 0 && r.ttbr1_el1 == 0
                && r.mair_el1 == 0,
    {
        Aarch64CpuState {
            x: [0u64;31],
            pc: 0,
            pstate: 0,
            sp_el1: 0,
            sctlr_el1: 0,
            vbar_el1: 0,
            cpacr_el1: 0,
            tcr_el1: 0,
            ttbr0_el1: 0,
            ttbr1_el1: 0,
            mair_el1: 0,
        }
    }
}

} // verus!

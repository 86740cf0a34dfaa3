//! Making a partition.
use vstd::prelude::*;

verus! {

/// How a partition is set up.
#[derive(Debug, Clone, Copy, PartialEq, Eq, Structural)]
pub struct PartitionOptions {
    pub processor_count: u32,
    pub local_apic: bool,
    pub hyperv_enlightenments: bool,
}

impl Default for PartitionOptions {
    fn default() -> (r: PartitionOptions)
        ensures
            r == (PartitionOptions {
                processor_count: 1,
                local_apic: false,
                hyperv_enlightenments: false,
            }),
    {
        PartitionOptions { processor_count: 1, local_apic: false, hyperv_enlightenments: false }
    }
}

/// One step of setting up a partition.
#[derive(Debug, Clone, Copy, PartialEq, Eq, Structural)]
pub enum SetupStep {
    ProcessorCount(u32),
    Enlightenments,
    CpuidResults,
    LocalApic,
    Setup,
}

/// A partition needs a processor.
#[derive(Debug, Clone, Copy, PartialEq, Eq, Structural)]
pub struct EmptyProcessorCount;

impl PartitionOptions {
    /// The options of a partition that runs an x86-64 guest.
    pub fn x86_64(processor_count: u32) -> (r: PartitionOptions)
        ensures
            r == (PartitionOptions {
                processor_count,
                local_apic: true,
                hyperv_enlightenments: true,
            }),
    {
        PartitionOptions { processor_count, local_apic: true, hyperv_enlightenments: true }
    }

    /// The steps of setting up a partition: what is chosen comes before the setup
    /// itself.
    pub open spec fn steps(self) -> Seq<SetupStep> {
        seq![SetupStep::ProcessorCount(self.processor_count)] + (if self.hyperv_enlightenments {
            seq![SetupStep::Enlightenments, SetupStep::CpuidResults]
        } else {
            Seq::empty()
        }) + (if self.local_apic {
            seq![SetupStep::LocalApic]
        } else {
            Seq::empty()
        }) + seq![SetupStep::Setup]
    }

    /// The steps of setting up a partition, in order.
    pub fn setup_steps(&self) -> (r: Result<Vec<SetupStep>, EmptyProcessorCount>)
        ensures
            match r {
                Ok(steps) => self.processor_count != 0 && steps@ == self.steps(),
                Err(_) => self.processor_count == 0,
            },
    {
        if self.processor_count == 0 {
            return Err(EmptyProcessorCount);
        }
        let mut out: Vec<SetupStep> = Vec::new();
        out.push(SetupStep::ProcessorCount(self.processor_count));
        if self.hyperv_enlightenments {
            out.push(SetupStep::Enlightenments);
            out.push(SetupStep::CpuidResults);
        }
        if self.local_apic {
            out.push(SetupStep::LocalApic);
        }
        out.push(SetupStep::Setup);
        assert(out@ =~= self.steps());
        Ok(out)
    }
}

/// The size of a list of `len` items of `item` bytes as the platform takes it.
pub fn list_bytes(len: usize, item: usize) -> (r: Option<u32>)
    ensures
        r == if len * item <= u32::MAX {
            Some((len * item) as u32)
        } else {
            None
        },
{
    match len.checked_mul(item) {
        Some(n) => if n <= u32::MAX as usize {
            Some(n as u32)
        } else {
            None
        },
        None => None,
    }
}

/// Why a vCPU came back from its run, as the platform numbers it.
pub const EXIT_MEMORY_ACCESS: i32 = 1;

pub const EXIT_X64_IO_PORT_ACCESS: i32 = 2;

pub const EXIT_UNRECOVERABLE_EXCEPTION: i32 = 4;

pub const EXIT_X64_HALT: i32 = 8;

pub const EXIT_X64_CPUID: i32 = 4097;

pub const EXIT_CANCELED: i32 = 8193;

/// What follows an exit.
#[derive(Debug, Clone, Copy, PartialEq, Eq, Structural)]
pub enum ExitStep {
    /// Answer the CPUID instruction, then run on.
    Cpuid,
    /// Emulate a port access.
    Io,
    /// Emulate a memory access.
    Mmio,
    Halted,
    Shutdown,
    Canceled,
    Unknown(i32),
}

/// What follows an exit for some reason.
pub fn exit_step(reason: i32) -> (r: ExitStep)
    ensures
        r == if reason == EXIT_X64_CPUID {
            ExitStep::Cpuid
        } else if reason == EXIT_X64_HALT {
            ExitStep::Halted
        } else if reason == EXIT_X64_IO_PORT_ACCESS {
            ExitStep::Io
        } else if reason == EXIT_MEMORY_ACCESS {
            ExitStep::Mmio
        } else if reason == EXIT_UNRECOVERABLE_EXCEPTION {
            ExitStep::Shutdown
        } else if reason == EXIT_CANCELED {
            ExitStep::Canceled
        } else {
            ExitStep::Unknown(reason)
        },
{
    match reason {
        EXIT_X64_CPUID => ExitStep::Cpuid,
        EXIT_X64_HALT => ExitStep::Halted,
        EXIT_X64_IO_PORT_ACCESS => ExitStep::Io,
        EXIT_MEMORY_ACCESS => ExitStep::Mmio,
        EXIT_UNRECOVERABLE_EXCEPTION => ExitStep::Shutdown,
        EXIT_CANCELED => ExitStep::Canceled,
        _ => ExitStep::Unknown(reason),
    }
}

/// The number of processors is set first and the partition is set up last; in between
/// comes what was chosen, once each, and the CPUID results follow the enlightenments.
pub proof fn law_choices_come_before_the_setup(o: PartitionOptions, i: int)
    requires
        0 <= i < o.steps().len(),
    ensures
        o.steps()[0] == SetupStep::ProcessorCount(o.processor_count),
        o.steps()[i] is Setup <==> i == o.steps().len() - 1,
        o.steps()[i] is ProcessorCount <==> i == 0,
        o.steps()[i] is Enlightenments ==> o.hyperv_enlightenments && o.steps()[i
            + 1] is CpuidResults,
        o.steps()[i] is CpuidResults ==> o.steps()[i - 1] is Enlightenments,
        o.hyperv_enlightenments <==> o.steps().contains(SetupStep::Enlightenments),
        o.local_apic <==> o.steps().contains(SetupStep::LocalApic),
        o.steps().len() == 2 + (if o.hyperv_enlightenments {
            2int
        } else {
            0
        }) + (if o.local_apic {
            1int
        } else {
            0
        }),
{
    let s = o.steps();
    if o.hyperv_enlightenments {
        assert(s[1] == SetupStep::Enlightenments);
        if o.local_apic {
            assert(s[3] == SetupStep::LocalApic);
        }
    } else if o.local_apic {
        assert(s[1] == SetupStep::LocalApic);
    }
}

/// What follows an exit, by the number that the platform gives its reason.
pub proof fn law_exit_reasons(reason: i32)
    ensures
        forall|r: ExitStep| #[trigger]
            call_ensures(exit_step, (reason,), r) ==> {
                &&& r is Mmio <==> reason == 1
                &&& r is Io <==> reason == 2
                &&& r is Shutdown <==> reason == 4
                &&& r is Halted <==> reason == 8
                &&& r is Cpuid <==> reason == 0x1001
                &&& r is Canceled <==> reason == 0x2001
                &&& r matches ExitStep::Unknown(n) ==> n == reason
            },
{
}

/// What a partition is made with: one processor and nothing else by default, a local APIC
/// and the enlightenments for an x86-64 guest. One without processors is refused.
pub proof fn law_partition_choices(
    plain: PartitionOptions,
    n: u32,
    full: PartitionOptions,
    o: &PartitionOptions,
    r: Result<Vec<SetupStep>, EmptyProcessorCount>,
    len: usize,
    item: usize,
    bytes: Option<u32>,
)
    requires
        call_ensures(<PartitionOptions as Default>::default, (), plain),
        call_ensures(PartitionOptions::x86_64, (n,), full),
        call_ensures(PartitionOptions::setup_steps, (o,), r),
        call_ensures(list_bytes, (len, item), bytes),
    ensures
        plain.processor_count == 1 && !plain.local_apic && !plain.hyperv_enlightenments,
        full.processor_count == n && full.local_apic && full.hyperv_enlightenments,
        r is Err <==> o.processor_count == 0,
        bytes matches Some(b) ==> b == len * item,
        bytes is None <==> len * item > 0xffff_ffff,
{
}

} // verus!

//! The CPUID leaves that a guest sees.
use vstd::prelude::*;

use crate::kvm::cpuid_x86::{
    entries_read, first_missing_native, first_missing_read, level_named, missing_from,
    missing_natively, native_entries, native_entry, told, CpuidEntry, X86Level,
};
use crate::kvm::vcpu::ProfileError;

verus! {

/// The first leaf of the hypervisor.
pub const HV_FIRST: u32 = 0x4000_0000;

/// The last leaf of the hypervisor that a guest may see.
pub const HV_LAST: u32 = 0x4000_000c;

/// The leaf of the hypervisor's features.
pub const HV_FEATURES: u32 = 0x4000_0003;

/// The leaf of power management.
pub const POWER: u32 = 6;

/// Power-management bits that need registers that a guest does not get.
pub const POWER_EAX: u32 = 0x8f80;

/// Guest crash registers.
pub const HV_CRASH: u32 = 0x400;

/// One CPUID leaf.
#[derive(Debug, Clone, Copy, PartialEq, Eq, Structural)]
pub struct CpuidResult {
    pub function: u32,
    pub eax: u32,
    pub ebx: u32,
    pub ecx: u32,
    pub edx: u32,
}

/// The leaves that a guest sees in place of the processor's.
#[derive(Debug)]
pub struct HypervCpuidResults {
    pub common: Vec<CpuidResult>,
}

/// What a guest sees of a leaf: no power management that is not virtualized, no
/// privileges of the root partition and no crash registers.
pub open spec fn guest_leaf(function: u32, raw: CpuidResult) -> CpuidResult {
    if function == POWER {
        CpuidResult { eax: raw.eax & !POWER_EAX, ecx: raw.ecx & !1u32, ..raw }
    } else if function == HV_FEATURES {
        CpuidResult { ebx: 0, edx: raw.edx & !HV_CRASH, ..raw }
    } else {
        raw
    }
}

/// What a guest sees of a leaf.
pub fn mask_leaf(function: u32, raw: CpuidResult) -> (r: CpuidResult)
    ensures
        r == guest_leaf(function, raw),
{
    let mut leaf = raw;
    if function == POWER {
        leaf.eax = leaf.eax & !POWER_EAX;
        leaf.ecx = leaf.ecx & !1u32;
    } else if function == HV_FEATURES {
        leaf.ebx = 0;
        leaf.edx = leaf.edx & !HV_CRASH;
    }
    leaf
}

/// The leaves that a guest gets, by the highest basic leaf and the highest leaf of
/// the hypervisor: power management, if there is that leaf, and the leaves of the
/// hypervisor. Without a hypervisor there are none.
pub open spec fn leaves(basic_max: u32, hv_max: u32) -> Seq<u32> {
    let last = if hv_max < HV_LAST {
        hv_max
    } else {
        HV_LAST
    };
    if hv_max < HV_FIRST {
        Seq::empty()
    } else {
        (if basic_max >= 6 {
            seq![POWER]
        } else {
            Seq::empty()
        }) + Seq::new((last - HV_FIRST + 1) as nat, |i: int| (HV_FIRST + i) as u32)
    }
}

/// Whether `out` is what a guest sees of some leaf that `read` may give for a
/// function.
pub open spec fn seen<F: Fn(u32) -> CpuidResult>(
    read: F,
    function: u32,
    out: CpuidResult,
) -> bool {
    exists|raw: CpuidResult|
        out == guest_leaf(function, raw) && #[trigger] call_ensures(read, (function,), raw)
}

/// The leaves that a guest sees, where `read` reads the processor's.
pub fn hyperv_cpuid_results_from<F: Fn(u32) -> CpuidResult>(read: F) -> (r: HypervCpuidResults)
    requires
        forall|function: u32| #[trigger] call_requires(read, (function,)),
    ensures
        exists|basic: CpuidResult, hv: CpuidResult|
            #![trigger call_ensures(read, (0u32,), basic), call_ensures(read, (HV_FIRST,), hv)]
            {
                &&& call_ensures(read, (0u32,), basic)
                &&& call_ensures(read, (HV_FIRST,), hv)
                &&& r.common@.len() == leaves(basic.eax, hv.eax).len()
                &&& forall|i: int|
                    0 <= i < r.common@.len() ==> seen(
                        read,
                        leaves(basic.eax, hv.eax)[i],
                        #[trigger] r.common@[i],
                    )
            },
{
    let basic = read(0);
    let hv = read(HV_FIRST);
    let ghost want = leaves(basic.eax, hv.eax);
    let mut common: Vec<CpuidResult> = Vec::new();
    if hv.eax < HV_FIRST {
        assert(call_ensures(read, (0u32,), basic) && call_ensures(read, (HV_FIRST,), hv));
        return HypervCpuidResults { common };
    }
    if basic.eax >= 6 {
        let raw = read(POWER);
        let leaf = mask_leaf(POWER, raw);
        assert(seen(read, POWER, leaf));
        common.push(leaf);
    }
    let ghost first = common@.len();
    let last: u32 = if hv.eax < HV_LAST {
        hv.eax
    } else {
        HV_LAST
    };
    let mut function: u32 = HV_FIRST;
    while function <= last
        invariant
            forall|function: u32| #[trigger] call_requires(read, (function,)),
            HV_FIRST <= last <= HV_LAST,
            HV_FIRST <= function <= last + 1,
            first <= 1,
            want.len() == first + (last - HV_FIRST + 1),
            first == 1 ==> want[0] == POWER,
            forall|i: int| 0 <= i <= last - HV_FIRST ==> #[trigger] want[first + i] == HV_FIRST + i,
            common@.len() == first + (function - HV_FIRST),
            forall|i: int|
                0 <= i < common@.len() ==> seen(read, want[i], #[trigger] common@[i]),
        decreases last + 1 - function,
    {
        let raw = read(function);
        let leaf = mask_leaf(function, raw);
        assert(want[first + (function - HV_FIRST)] == function);
        assert(seen(read, function, leaf));
        common.push(leaf);
        function = function + 1;
    }
    assert(call_ensures(read, (0u32,), basic) && call_ensures(read, (HV_FIRST,), hv));
    HypervCpuidResults { common }
}

/// An entry of a processor as a leaf.
pub open spec fn leaf_of(entry: CpuidEntry) -> CpuidResult {
    CpuidResult {
        function: entry.function,
        eax: entry.eax,
        ebx: entry.ebx,
        ecx: entry.ecx,
        edx: entry.edx,
    }
}

/// A leaf of this processor.
pub fn native_leaf(function: u32) -> (r: CpuidResult)
    ensures
        r.function == function,
        exists|entry: CpuidEntry| #[trigger] told(entry, function) && r == leaf_of(entry),
{
    let entry = native_entry(function);
    CpuidResult {
        function: entry.function,
        eax: entry.eax,
        ebx: entry.ebx,
        ecx: entry.ecx,
        edx: entry.edx,
    }
}

/// Whether `common` is what a guest sees of this processor: of the leaves that there
/// are by the highest basic leaf and the highest leaf of the hypervisor, each in its
/// place.
pub open spec fn shown_natively(common: Seq<CpuidResult>) -> bool {
    exists|basic: CpuidResult, hv: CpuidResult|
        #![trigger call_ensures(native_leaf, (0u32,), basic), call_ensures(native_leaf, (HV_FIRST,), hv)]
        {
            &&& call_ensures(native_leaf, (0u32,), basic)
            &&& call_ensures(native_leaf, (HV_FIRST,), hv)
            &&& common.len() == leaves(basic.eax, hv.eax).len()
            &&& forall|i: int|
                0 <= i < common.len() ==> seen(
                    native_leaf,
                    leaves(basic.eax, hv.eax)[i],
                    #[trigger] common[i],
                )
        }
}

/// The leaves that a guest sees of this processor.
pub fn hyperv_cpuid_results() -> (r: HypervCpuidResults)
    ensures
        shown_natively(r.common@),
{
    hyperv_cpuid_results_from(native_leaf)
}

/// What a guest sees of the first leaf on the vCPU of some index: its own initial
/// APIC id, no monitor instruction, and that it runs under a hypervisor.
pub fn hyperv_leaf1_cpuid(vp_index: u32, rax: u64, rbx: u64, rcx: u64, rdx: u64) -> (r: (
    u64,
    u64,
    u64,
    u64,
))
    ensures
        r.0 == rax,
        r.1 == rbx % 0x100_0000 + vp_index * 0x100_0000,
        r.2 == (rcx & !8u64) | 0x8000_0000,
        r.2 & 0x8000_0000 == 0x8000_0000,
        r.2 & 8 == 0,
        r.3 == rdx,
{
    assert(((rcx & !8u64) | 0x8000_0000) & 0x8000_0000 == 0x8000_0000 && ((rcx & !8u64)
        | 0x8000_0000) & 8 == 0) by (bit_vector);
    let rbx_out: u64 = rbx % 0x100_0000 + (vp_index as u64) * 0x100_0000;
    let rcx_out: u64 = (rcx & !8u64) | 0x8000_0000;
    (rax, rbx_out, rcx_out, rdx)
}

/// The registers after a CPUID exit of a vCPU: the program counter behind the
/// instruction, and the result of the leaf.
pub fn cpuid_exit(
    vp_index: u32,
    function: u64,
    defaults: (u64, u64, u64, u64),
    rip: u64,
    instruction_bits: u8,
) -> (r: (u64, (u64, u64, u64, u64)))
    requires
        rip + instruction_bits % 0x10 <= u64::MAX,
    ensures
        r.0 == rip + instruction_bits % 0x10,
        function as u32 != 1 ==> r.1 == defaults,
        function as u32 == 1 ==> r.1.0 == defaults.0 && r.1.1 == defaults.1 % 0x100_0000 + vp_index
            * 0x100_0000 && r.1.2 == (defaults.2 & !8u64) | 0x8000_0000 && r.1.3 == defaults.3,
{
    let results: (u64, u64, u64, u64) = if function as u32 == 1 {
        hyperv_leaf1_cpuid(vp_index, defaults.0, defaults.1, defaults.2, defaults.3)
    } else {
        defaults
    };
    (rip + (instruction_bits % 0x10) as u64, results)
}

/// What a missing feature of a level means for a profile.
pub open spec fn profile_answer(level: X86Level, missing: Option<&'static str>) -> Result<
    (),
    ProfileError,
> {
    match missing {
        Some(feature) => Err(ProfileError::HostMissing { profile: level.name(), feature }),
        None => Ok(()),
    }
}

fn answer(level: X86Level, missing: Option<&'static str>) -> (r: Result<(), ProfileError>)
    ensures
        r == profile_answer(level, missing),
{
    match missing {
        Some(feature) => Err(ProfileError::HostMissing { profile: level.as_str(), feature }),
        None => Ok(()),
    }
}

/// Whether a processor can run a guest of a CPU profile, where `read` reads what
/// the processor says of a function at index 0.
pub fn validate_cpu_profile_read<F: Fn(u32) -> CpuidEntry>(cpu_profile: &str, read: F) -> (r:
    Result<(), ProfileError>)
    requires
        forall|function: u32| #[trigger] call_requires(read, (function,)),
    ensures
        match level_named(cpu_profile@) {
            None => r == Err::<(), _>(ProfileError::Unknown),
            Some(level) => exists|
                basic: CpuidEntry,
                ext: CpuidEntry,
                one: CpuidEntry,
                seven: CpuidEntry,
                extended: CpuidEntry,
            |
                #[trigger] entries_read(read, basic, ext, one, seven, extended) && r
                    == profile_answer(
                    level,
                    missing_from(
                        native_entries(basic.eax, ext.eax, one, seven, extended),
                        level.features(),
                        0,
                    ),
                ),
        },
{
    match X86Level::parse(cpu_profile) {
        None => Err(ProfileError::Unknown),
        Some(level) => answer(level, first_missing_read(level, read)),
    }
}

/// Whether this processor can run a guest of a CPU profile.
pub fn validate_cpu_profile(cpu_profile: &str) -> (r: Result<(), ProfileError>)
    ensures
        match level_named(cpu_profile@) {
            None => r == Err::<(), _>(ProfileError::Unknown),
            Some(level) => exists|missing: Option<&'static str>|
                #[trigger] missing_natively(level, missing) && r == profile_answer(
                    level,
                    missing,
                ),
        },
{
    match X86Level::parse(cpu_profile) {
        None => Err(ProfileError::Unknown),
        Some(level) => answer(level, first_missing_native(level)),
    }
}

/// A guest never sees the privileges of the root partition, crash registers, or
/// power management that is not virtualized.
pub proof fn law_guest_sees_no_privileges(raw: CpuidResult)
    ensures
        guest_leaf(HV_FEATURES, raw).ebx == 0,
        guest_leaf(HV_FEATURES, raw).edx & HV_CRASH == 0,
        guest_leaf(POWER, raw).eax & POWER_EAX == 0,
        guest_leaf(POWER, raw).ecx & 1 == 0,
        guest_leaf(0x4000_0003, raw).edx & !0x400u32 == raw.edx & !0x400u32,
        guest_leaf(6, raw).eax & !0x8f80u32 == raw.eax & !0x8f80u32,
        guest_leaf(6, raw).ecx & !1u32 == raw.ecx & !1u32,
{
    let (a, c, d) = (raw.eax, raw.ecx, raw.edx);
    assert((d & !0x400u32) & 0x400 == 0 && (a & !0x8f80u32) & 0x8f80 == 0 && (c & !1u32) & 1 == 0
        && (d & !0x400u32) & !0x400u32 == d & !0x400u32 && (a & !0x8f80u32) & !0x8f80u32 == a
        & !0x8f80u32 && (c & !1u32) & !1u32 == c & !1u32) by (bit_vector);
}

/// What is not withheld of a leaf stays: all of every leaf but those of power management
/// and of the hypervisor's features, and of these two the registers that hold neither.
pub proof fn law_other_leaves_stay(function: u32, raw: CpuidResult)
    ensures
        function != 6 && function != 0x4000_0003 ==> guest_leaf(function, raw) == raw,
        guest_leaf(function, raw).function == raw.function,
        guest_leaf(6, raw).ebx == raw.ebx && guest_leaf(6, raw).edx == raw.edx,
        guest_leaf(0x4000_0003, raw).eax == raw.eax && guest_leaf(0x4000_0003, raw).ecx == raw.ecx,
{
}

/// The leaves that a guest gets: leaf 6 where the processor has it, and from 0x40000000
/// on those of the hypervisor, up to 0x4000000c at most, each once and in ascending
/// order; without a hypervisor none.
pub proof fn law_leaves_of_a_guest(basic_max: u32, hv_max: u32, x: u32, i: int, j: int)
    ensures
        leaves(basic_max, hv_max).contains(x) <==> hv_max >= 0x4000_0000 && ((x == 6 && basic_max
            >= 6) || (0x4000_0000 <= x <= hv_max && x <= 0x4000_000c)),
        0 <= i < j < leaves(basic_max, hv_max).len() ==> leaves(basic_max, hv_max)[i] < leaves(
            basic_max,
            hv_max,
        )[j],
{
    let all = leaves(basic_max, hv_max);
    let first: int = if basic_max >= 6 {
        1
    } else {
        0
    };
    if hv_max >= 0x4000_0000 {
        if x == 6 && basic_max >= 6 {
            assert(all[0] == x);
        }
        if 0x4000_0000 <= x <= hv_max && x <= 0x4000_000c {
            assert(all[first + (x - 0x4000_0000)] == x);
        }
    }
}

/// On the first leaf a vCPU sees its own number as its APIC id, no monitor instruction
/// and a hypervisor, and everything else as the processor says.
pub proof fn law_first_leaf_of_a_vcpu(
    vp: u32,
    a: u64,
    b: u64,
    c: u64,
    d: u64,
    r: (u64, u64, u64, u64),
)
    requires
        call_ensures(hyperv_leaf1_cpuid, (vp, a, b, c, d), r),
    ensures
        r.0 == a && r.3 == d,
        r.1 / 0x100_0000 == vp,
        r.1 % 0x100_0000 == b % 0x100_0000,
        r.2 & 0x8000_0008 == 0x8000_0000,
        r.2 & !0x8000_0008u64 == c & !0x8000_0008u64,
{
    assert(((c & !8u64) | 0x8000_0000) & 0x8000_0008 == 0x8000_0000 && ((c & !8u64) | 0x8000_0000)
        & !0x8000_0008u64 == c & !0x8000_0008u64) by (bit_vector);
    let (low, v) = (b as int % 0x100_0000, vp as int);
    let x = low + v * 0x100_0000;
    assert(x / 0x100_0000 == v && x % 0x100_0000 == low) by (nonlinear_arith)
        requires
            x == low + v * 0x100_0000,
            0 <= low < 0x100_0000,
            0 <= v,
    ;
}

/// A vCPU goes on behind the CPUID instruction, whose length is in the low four bits.
pub proof fn law_vcpu_goes_on_behind_cpuid(
    vp: u32,
    function: u64,
    defaults: (u64, u64, u64, u64),
    rip: u64,
    bits: u8,
    r: (u64, (u64, u64, u64, u64)),
)
    requires
        rip + bits % 0x10 <= u64::MAX,
        call_ensures(cpuid_exit, (vp, function, defaults, rip, bits), r),
    ensures
        r.0 - rip == bits % 16,
        2 <= function <= 0xffff_ffff || function == 0 ==> r.1 == defaults,
        function == 1 ==> r.1.0 == defaults.0 && r.1.3 == defaults.3,
{
}

} // verus!

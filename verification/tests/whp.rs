use std::collections::BTreeMap;

use dillo::cpu_state::{SegReg, TableReg, X86CpuState};
use dillo::interrupts::MessageInterrupt;
use dillo::kvm::cpuid_x86::CpuidEntry;
use dillo::kvm::vcpu::ProfileError;
use dillo::machine::VcpuStop;
use dillo::message_table::MessageTable;
use dillo::whp::cpuid::{
    cpuid_exit, hyperv_cpuid_results, hyperv_cpuid_results_from, hyperv_leaf1_cpuid,
    validate_cpu_profile, validate_cpu_profile_read, CpuidResult,
};
use dillo::whp::msi::{decode_fixed_msi, fixed_message_for, FixedMessage, FixedMsi};
use dillo::whp::partition::{
    exit_step, list_bytes, EmptyProcessorCount, ExitStep, PartitionOptions, SetupStep,
};
use dillo::whp::registers::{x86_64_state, WhpRegister, WhpValue};
use dillo::whp::run::{
    emulated_exit, failed, io_port_access, memory_access, optional, stop_requested, HResult,
    RunExit, RunOutcome, ThreadEnd,
};

fn leaf(function: u32, eax: u32, ebx: u32, ecx: u32, edx: u32) -> CpuidResult {
    CpuidResult { function, eax, ebx, ecx, edx }
}

#[test]
fn hyperv_cpuid_does_not_expose_root_partition_privileges() {
    let mut leaves = BTreeMap::new();
    leaves.insert(1, leaf(1, 0, 0, 0, 0));
    leaves.insert(
        0x4000_0000,
        leaf(
            0x4000_0000,
            0x4000_000c,
            u32::from_le_bytes(*b"Micr"),
            u32::from_le_bytes(*b"osof"),
            u32::from_le_bytes(*b"t Hv"),
        ),
    );
    leaves.insert(0x4000_0001, leaf(0x4000_0001, u32::from_le_bytes(*b"Hv#1"), 0, 0, 0));
    leaves.insert(0x4000_0003, leaf(0x4000_0003, 0x0000_3fff, 0x002b_b9ff, 0, 0));

    let results = hyperv_cpuid_results_from(|function| {
        leaves.get(&function).copied().unwrap_or(leaf(function, 0, 0, 0, 0))
    });
    let feature_leaf =
        results.common.iter().find(|r| r.function == 0x4000_0003).expect("Hyper-V feature leaf");

    assert_eq!(
        feature_leaf.ebx, 0,
        "leaf 0x40000003 EBX advertises root/management partition privileges"
    );
    assert_eq!(
        feature_leaf.edx & (1 << 10),
        0,
        "leaf 0x40000003 EDX advertises guest crash MSRs"
    );
}

#[test]
fn hyperv_cpuid_exposes_guest_initial_apic_id_per_vp() {
    let (_, vp0_rbx, vp0_rcx, _) = hyperv_leaf1_cpuid(0, 0, 0x0100_0000, 0, 0);
    let (_, vp1_rbx, vp1_rcx, _) = hyperv_leaf1_cpuid(1, 0, 0x0100_0000, 0, 0);

    assert_eq!(vp0_rbx >> 24, 0);
    assert_eq!(vp1_rbx >> 24, 1);
    assert_eq!(vp0_rcx & (1 << 31), 1 << 31);
    assert_eq!(vp1_rcx & (1 << 31), 1 << 31);
}

#[test]
fn hyperv_cpuid_does_not_expose_pstate_power_management() {
    let mut leaves = BTreeMap::new();
    leaves.insert(0, leaf(0, 6, 0, 0, 0));
    leaves.insert(1, leaf(1, 0, 0, 0, 0));
    leaves.insert(
        6,
        leaf(6, (1 << 7) | (1 << 8) | (1 << 9) | (1 << 10) | (1 << 11) | (1 << 15), 0, 1, 0),
    );
    leaves.insert(
        0x4000_0000,
        leaf(
            0x4000_0000,
            0x4000_0001,
            u32::from_le_bytes(*b"Micr"),
            u32::from_le_bytes(*b"osof"),
            u32::from_le_bytes(*b"t Hv"),
        ),
    );
    leaves.insert(0x4000_0001, leaf(0x4000_0001, u32::from_le_bytes(*b"Hv#1"), 0, 0, 0));

    let results = hyperv_cpuid_results_from(|function| {
        leaves.get(&function).copied().unwrap_or(leaf(function, 0, 0, 0, 0))
    });
    let power_leaf =
        results.common.iter().find(|r| r.function == 6).expect("thermal and power management leaf");

    assert_eq!(power_leaf.eax, 0);
    assert_eq!(power_leaf.ecx & 1, 0, "leaf 0x6 ECX advertises APERF/MPERF");
}

#[test]
fn native_leaves_are_masked() {
    for leaf in hyperv_cpuid_results().common {
        assert!(leaf.function == 6 || leaf.function >= 0x4000_0000);
        if leaf.function == 6 {
            assert_eq!(leaf.eax & 0x8f80, 0);
        }
    }
    assert!(hyperv_cpuid_results_from(|function| leaf(function, 0, 0, 0, 0)).common.is_empty());
}

#[test]
fn cpuid_exits_move_past_the_instruction() {
    assert_eq!(cpuid_exit(2, 0, (1, 2, 3, 4), 0x1000, 0xf2), (0x1002, (1, 2, 3, 4)));
    assert_eq!(
        cpuid_exit(2, 1, (1, 0x0500_0001, 8, 4), 0x1000, 2),
        (0x1002, (1, 0x0200_0001, 0x8000_0000, 4))
    );
}

#[test]
fn unknown_cpu_profiles_are_refused() {
    assert!(matches!(validate_cpu_profile("x86-64-v5"), Err(ProfileError::Unknown)));
    assert!(validate_cpu_profile("x86-64-v1").is_ok());
    match validate_cpu_profile("x86-64-v4") {
        Ok(()) => {}
        Err(ProfileError::HostMissing { profile, feature }) => {
            assert_eq!(profile, "x86-64-v4");
            assert!(!feature.is_empty());
        }
        Err(err) => panic!("unexpected v4 validation error: {:?}", err),
    }
}

#[test]
fn decodes_fixed_physical_msi() {
    assert_eq!(
        decode_fixed_msi(FixedMessage { address: 0xFEE0_3000, data: 0x45, masked: false }),
        Some(FixedMsi { destination: 3, vector: 0x45 })
    );
}

#[test]
fn rejects_non_lapic_msi_address() {
    assert!(decode_fixed_msi(FixedMessage { address: 0xDEAD_0000, data: 0x45, masked: false })
        .is_none());
}

#[test]
fn vectors_ask_for_fixed_interrupts() {
    let mut table = MessageTable::new(1, false);
    table.set_enabled(true);
    table.update(0, MessageInterrupt { address: 0xFEE0_1000, data: 0x30, masked: false });
    assert_eq!(fixed_message_for(&table, 0), Some(FixedMsi { destination: 1, vector: 0x30 }));
    assert_eq!(fixed_message_for(&table, 1), None);
    // Level triggered, then lowest priority.
    table.update(0, MessageInterrupt { address: 0xFEE0_1000, data: 0x8030, masked: false });
    assert_eq!(fixed_message_for(&table, 0), None);
    table.update(0, MessageInterrupt { address: 0xFEE0_1000, data: 0x130, masked: false });
    assert_eq!(fixed_message_for(&table, 0), None);
}

#[test]
fn boot_registers_are_listed() {
    let none = SegReg { base: 0, limit: 0, selector: 0, attributes: 0 };
    let state = X86CpuState {
        rip: 0x1000, rsp: 0x8000, rflags: 0, rax: 0x55AA, rbx: 0, rcx: 0, rdx: 0, rsi: 0, rdi: 0,
        rbp: 0, r8: 0, r9: 0, r10: 0, r11: 0, r12: 0, r13: 0, r14: 0, r15: 0, cr0: 0, cr3: 0,
        cr4: 0, efer: 0, cs: none, ds: none, es: none, fs: none, gs: none, ss: none,
        gdtr: TableReg { base: 0, limit: 0 },
        idtr: TableReg { base: 0, limit: 0 },
    };
    let regs = x86_64_state(&state);
    let value = |name: WhpRegister| {
        regs.iter().find(|(reg, _)| *reg == name).map(|(_, value)| *value).expect("register")
    };
    assert_eq!(value(WhpRegister::Rip), WhpValue::Reg64(0x1000));
    assert_eq!(value(WhpRegister::Rsp), WhpValue::Reg64(0x8000));
    assert_eq!(value(WhpRegister::Rax), WhpValue::Reg64(0x55AA));
    assert_eq!(value(WhpRegister::Rflags), WhpValue::Reg64(0x2));
}

#[test]
fn partitions_are_set_up_in_order() {
    assert_eq!(
        PartitionOptions::default().setup_steps(),
        Ok(vec![SetupStep::ProcessorCount(1), SetupStep::Setup])
    );
    assert_eq!(
        PartitionOptions::x86_64(2).setup_steps(),
        Ok(vec![
            SetupStep::ProcessorCount(2),
            SetupStep::Enlightenments,
            SetupStep::CpuidResults,
            SetupStep::LocalApic,
            SetupStep::Setup,
        ])
    );
    assert_eq!(PartitionOptions::x86_64(0).setup_steps(), Err(EmptyProcessorCount));
    assert_eq!(list_bytes(3, 8), Some(24));
    assert_eq!(list_bytes(usize::MAX, 2), None);
    assert_eq!(list_bytes(0x1_0000, 0x1_0000), None);
}

#[test]
fn exit_reasons_are_told_apart() {
    assert_eq!(exit_step(1), ExitStep::Mmio);
    assert_eq!(exit_step(2), ExitStep::Io);
    assert_eq!(exit_step(4), ExitStep::Shutdown);
    assert_eq!(exit_step(8), ExitStep::Halted);
    assert_eq!(exit_step(0x1001), ExitStep::Cpuid);
    assert_eq!(exit_step(0x2001), ExitStep::Canceled);
    assert_eq!(exit_step(0), ExitStep::Unknown(0));
}

#[test]
fn emulated_accesses_become_exits() {
    assert!(matches!(emulated_exit(0, None), RunExit::EmulationFailed { status: 0 }));
    assert!(matches!(emulated_exit(1, None), RunExit::NoAccess));
    assert!(matches!(emulated_exit(1, Some(RunExit::Halted)), RunExit::Halted));
    assert!(matches!(io_port_access(0, 0x60, 1, 0), RunExit::PioRead { port: 0x60, size: 1 }));
    assert!(matches!(
        io_port_access(1, 0x60, 2, 0x1234_5678),
        RunExit::PioWrite { port: 0x60, data: [0x78, 0x56, 0, 0], size: 2 }
    ));
    assert!(matches!(
        memory_access(0, 0x10, 9, &[0; 8]),
        RunExit::MmioRead { addr: 0x10, size: 8 }
    ));
    assert!(matches!(
        memory_access(1, 0x10, 1, &[7, 8, 0, 0, 0, 0, 0, 0]),
        RunExit::MmioWrite { addr: 0x10, data: [7, 0, 0, 0, 0, 0, 0, 0], size: 1 }
    ));
}

#[test]
fn runs_end_together() {
    assert_eq!(stop_requested(true, None), (Some(VcpuStop::Stopped), true));
    assert_eq!(
        stop_requested(false, Some(VcpuStop::GuestReset)),
        (Some(VcpuStop::GuestReset), true)
    );
    assert_eq!(stop_requested(false, None), (None, false));

    let mut run = RunOutcome::new();
    run.join(ThreadEnd::Stopped(VcpuStop::GuestPoweroff), false);
    run.join(ThreadEnd::Stopped(VcpuStop::Stopped), true);
    assert_eq!(run.finish(), Ok(VcpuStop::GuestPoweroff));

    let mut run = RunOutcome::new();
    run.join(ThreadEnd::Failed("first".into()), false);
    run.join(ThreadEnd::Panicked, true);
    assert_eq!(run.finish(), Err("first".to_string()));
}

#[test]
fn optional_features_may_be_missing() {
    assert!(failed(-1));
    assert!(!failed(0));
    assert_eq!(optional(Ok(())), Ok(true));
    assert_eq!(optional(Err(HResult(-2147024846))), Ok(false));
    assert_eq!(optional(Err(HResult(-1))), Err(HResult(-1)));
}

#[test]
fn profiles_are_held_against_what_the_processor_says() {
    let processor = |basic: u32| {
        move |function: u32| CpuidEntry {
            function,
            index: 0,
            eax: if function == 0 { basic } else { u32::MAX },
            ebx: u32::MAX,
            ecx: u32::MAX,
            edx: u32::MAX,
        }
    };
    assert!(validate_cpu_profile_read("x86-64-v4", processor(7)).is_ok());
    match validate_cpu_profile_read("x86-64-v4", processor(6)) {
        Err(ProfileError::HostMissing { profile, feature }) => {
            assert_eq!(profile, "x86-64-v4");
            assert_eq!(feature, "avx2");
        }
        other => panic!("unexpected answer: {:?}", other),
    }
    assert!(matches!(
        validate_cpu_profile_read("x86-64-v0", processor(7)),
        Err(ProfileError::Unknown)
    ));
}

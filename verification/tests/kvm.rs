use dillo::cpu_state::{Aarch64CpuState, SegReg, TableReg, X86CpuState};
use dillo::interrupts::MessageInterrupt;
use dillo::kvm::cpuid_x86::{
    first_missing, first_missing_native, first_missing_read, CpuidEntry, X86Level,
};
use dillo::kvm::irq::{IrqError, IrqManager, RouteTarget, IRQCHIP_GIC, IRQCHIP_IOAPIC, NUM_DEFAULT_ROUTES};
use dillo::kvm::memory::{backing_offsets, GpaMap, MappedRegion, WriteError};
use dillo::kvm::msi::{KvmMessageInterruptDomain, MessageAction};
use dillo::kvm::signals::{on_signal, signal_name, SignalAction};
use dillo::kvm::vcpu::{
    aarch64_state, check_profile, debug_step, fill_pio, run_failure, spi_irq_line, translate_exit,
    vcpu_features, x86_64_state, DebugExit, ProfileError, RawExit, RunFailure,
};
use dillo::machine::{HostArchitecture, VcpuStop};
use dillo::mmio::MmioWriteOutcome;
use dillo::vcpu_exit::{run_step, stop_after, stop_written, RunStep, VcpuExit, VmExit};

/// Hands out a GSI and takes note of its interrupt descriptor.
fn allocate(mgr: &mut IrqManager, addr_lo: u32, addr_hi: u32, data: u32) -> u32 {
    let gsi = mgr.allocate_irqfd(addr_lo, addr_hi, data);
    mgr.bind_irqfd(gsi);
    gsi
}

#[test]
fn new_initializes_default_irqchip_routes() {
    let mgr = IrqManager::new(HostArchitecture::X86_64);
    // 8 PIC master + 8 PIC slave + 24 IOAPIC = 40 default routes
    assert_eq!(mgr.route_count(), NUM_DEFAULT_ROUTES);

    // All should be IRQCHIP type
    for entry in mgr.routes() {
        assert!(matches!(entry.target, RouteTarget::IrqChip { .. }));
    }

    // Verify IOAPIC entries exist for all 24 pins
    let ioapic_count = mgr
        .routes()
        .iter()
        .filter(|e| matches!(e.target, RouteTarget::IrqChip { irqchip: IRQCHIP_IOAPIC, .. }))
        .count();
    assert_eq!(ioapic_count, 24);
}

#[test]
fn allocate_irqfd_returns_gsi_starting_at_24() {
    let mut mgr = IrqManager::new(HostArchitecture::X86_64);

    let gsi1 = allocate(&mut mgr, 0xFEE0_0000, 0, 0x41);
    assert_eq!(gsi1, 24);

    let gsi2 = allocate(&mut mgr, 0xFEE0_0000, 0, 0x42);
    assert_eq!(gsi2, 25);
}

#[test]
fn allocate_irqfd_preserves_ioapic_defaults() {
    let mut mgr = IrqManager::new(HostArchitecture::X86_64);

    allocate(&mut mgr, 0xFEE0_0000, 0, 0x41);
    // Should have 40 defaults + 1 MSI = 41
    assert_eq!(mgr.route_count(), NUM_DEFAULT_ROUTES + 1);

    // First 40 should still be IRQCHIP
    for entry in &mgr.routes()[..NUM_DEFAULT_ROUTES] {
        assert!(matches!(entry.target, RouteTarget::IrqChip { .. }));
    }

    // Last entry should be MSI
    let msi_entry = &mgr.routes()[NUM_DEFAULT_ROUTES];
    assert_eq!(msi_entry.gsi, 24);
    assert_eq!(
        msi_entry.target,
        RouteTarget::Msi { address_lo: 0xFEE0_0000, address_hi: 0, data: 0x41 }
    );
}

#[test]
fn update_route_modifies_existing_msi_entry() {
    let mut mgr = IrqManager::new(HostArchitecture::X86_64);

    let gsi = allocate(&mut mgr, 0xFEE0_0000, 0, 0x41);

    // Update the route with new MSI address/data
    mgr.update_route(gsi, 0xFEE0_1000, 0, 0x42).unwrap();

    let msi_entry = mgr
        .routes()
        .iter()
        .find(|e| e.gsi == gsi && matches!(e.target, RouteTarget::Msi { .. }))
        .unwrap();
    assert_eq!(
        msi_entry.target,
        RouteTarget::Msi { address_lo: 0xFEE0_1000, address_hi: 0, data: 0x42 }
    );
}

#[test]
fn teardown_irqfds_removes_msi_keeps_ioapic() {
    let mut mgr = IrqManager::new(HostArchitecture::X86_64);

    allocate(&mut mgr, 0xFEE0_0000, 0, 0x41);
    allocate(&mut mgr, 0xFEE0_0000, 0, 0x42);
    assert_eq!(mgr.route_count(), NUM_DEFAULT_ROUTES + 2);

    mgr.teardown_irqfds();
    // Should be back to 40 default irqchip entries
    assert_eq!(mgr.route_count(), NUM_DEFAULT_ROUTES);
    for entry in mgr.routes() {
        assert!(matches!(entry.target, RouteTarget::IrqChip { .. }));
    }
}

#[test]
fn commit_routes_builds_correct_entry_count() {
    let mut mgr = IrqManager::new(HostArchitecture::X86_64);

    // After new(): 40 default entries committed
    assert_eq!(mgr.route_count(), NUM_DEFAULT_ROUTES);

    // After 2 allocations: 42 entries
    allocate(&mut mgr, 0xFEE0_0000, 0, 0x41);
    allocate(&mut mgr, 0xFEE0_0000, 0, 0x42);
    assert_eq!(mgr.route_count(), NUM_DEFAULT_ROUTES + 2);
}

#[test]
fn allocate_irqfd_monotonic_without_freelist() {
    let mut mgr = IrqManager::new(HostArchitecture::X86_64);
    let gsi1 = allocate(&mut mgr, 0xFEE0_0000, 0, 0x41);
    let gsi2 = allocate(&mut mgr, 0xFEE0_0000, 0, 0x42);
    let gsi3 = allocate(&mut mgr, 0xFEE0_0000, 0, 0x43);
    assert_eq!(gsi1, 24);
    assert_eq!(gsi2, 25);
    assert_eq!(gsi3, 26);
}

#[test]
fn release_irqfd_returns_gsi_to_freelist() {
    let mut mgr = IrqManager::new(HostArchitecture::X86_64);
    let gsi1 = allocate(&mut mgr, 0xFEE0_0000, 0, 0x41);
    let gsi2 = allocate(&mut mgr, 0xFEE0_0000, 0, 0x42);
    assert_eq!(gsi1, 24);
    assert_eq!(gsi2, 25);
    // Release GSI 25
    mgr.release_irqfd(gsi2);
    // Next allocation should return the reclaimed GSI 25
    let gsi_new = allocate(&mut mgr, 0xFEE0_0000, 0, 0x43);
    assert_eq!(gsi_new, 25, "should reuse released GSI 25");
}

#[test]
fn release_irqfd_min_heap_ordering() {
    let mut mgr = IrqManager::new(HostArchitecture::X86_64);
    let gsi1 = allocate(&mut mgr, 0xFEE0_0000, 0, 0x41);
    let gsi2 = allocate(&mut mgr, 0xFEE0_0000, 0, 0x42);
    assert_eq!(gsi1, 24);
    assert_eq!(gsi2, 25);
    // Release 25 first, then 24: min-heap should still return 24 first
    mgr.release_irqfd(gsi2);
    mgr.release_irqfd(gsi1);
    let first = allocate(&mut mgr, 0xFEE0_0000, 0, 0x43);
    let second = allocate(&mut mgr, 0xFEE0_0000, 0, 0x44);
    assert_eq!(
        first, 24,
        "min-heap: smallest GSI should be allocated first"
    );
    assert_eq!(second, 25);
}

#[test]
fn release_irqfd_decreases_route_count() {
    let mut mgr = IrqManager::new(HostArchitecture::X86_64);
    let gsi = allocate(&mut mgr, 0xFEE0_0000, 0, 0x41);
    assert_eq!(mgr.route_count(), NUM_DEFAULT_ROUTES + 1);
    mgr.release_irqfd(gsi);
    assert_eq!(
        mgr.route_count(),
        NUM_DEFAULT_ROUTES,
        "route count should decrease after release"
    );
}

#[test]
fn release_irqfd_idempotent_on_unknown_gsi() {
    let mut mgr = IrqManager::new(HostArchitecture::X86_64);
    // Release a GSI that was never allocated: should return Ok without panic
    mgr.release_irqfd(99);
    assert_eq!(mgr.route_count(), NUM_DEFAULT_ROUTES, "release_irqfd on unknown GSI should return Ok");
}

#[test]
fn release_irqfd_reallocation_creates_valid_route() {
    let mut mgr = IrqManager::new(HostArchitecture::X86_64);
    let gsi = allocate(&mut mgr, 0xFEE0_0000, 0, 0x41);
    mgr.release_irqfd(gsi);
    // Reallocate: should create a valid routing entry for the reused GSI
    let gsi2 = allocate(&mut mgr, 0xFEE0_1000, 0, 0x99);
    assert_eq!(gsi2, gsi, "should reuse the released GSI");
    let msi_entry = mgr
        .routes()
        .iter()
        .find(|e| e.gsi == gsi2 && matches!(e.target, RouteTarget::Msi { .. }))
        .expect("MSI routing entry must exist for reallocated GSI");
    assert_eq!(
        msi_entry.target,
        RouteTarget::Msi { address_lo: 0xFEE0_1000, address_hi: 0, data: 0x99 }
    );
}

#[test]
fn teardown_irqfds_still_works_after_release() {
    let mut mgr = IrqManager::new(HostArchitecture::X86_64);
    let gsi1 = allocate(&mut mgr, 0xFEE0_0000, 0, 0x41);
    let gsi2 = allocate(&mut mgr, 0xFEE0_0000, 0, 0x42);
    // Release one, then tear down everything
    mgr.release_irqfd(gsi1);
    mgr.teardown_irqfds();
    // Full teardown should remove all MSI entries (only gsi2 remains active)
    assert_eq!(mgr.route_count(), NUM_DEFAULT_ROUTES);
    for entry in mgr.routes() {
        assert!(matches!(entry.target, RouteTarget::IrqChip { .. }));
    }
    let _ = gsi2;
}

#[test]
fn teardown_device_irqfds_removes_only_specified_gsis() {
    let mut mgr = IrqManager::new(HostArchitecture::X86_64);
    // Allocate 4 irqfds: GSI 24, 25, 26, 27
    let gsi0 = allocate(&mut mgr, 0xFEE0_0000, 0, 0x41);
    let gsi1 = allocate(&mut mgr, 0xFEE0_0000, 0, 0x42);
    let gsi2 = allocate(&mut mgr, 0xFEE0_0000, 0, 0x43);
    let gsi3 = allocate(&mut mgr, 0xFEE0_0000, 0, 0x44);
    assert_eq!(mgr.route_count(), NUM_DEFAULT_ROUTES + 4);

    // Tear down only gsi1 and gsi2
    mgr.teardown_device_irqfds(&[gsi1, gsi2]);
    assert_eq!(
        mgr.route_count(),
        NUM_DEFAULT_ROUTES + 2,
        "only 2 of 4 MSI routes should remain"
    );

    // gsi0 and gsi3 should still have MSI routing entries
    let has_gsi0 = mgr
        .routes()
        .iter()
        .any(|e| e.gsi == gsi0 && matches!(e.target, RouteTarget::Msi { .. }));
    let has_gsi3 = mgr
        .routes()
        .iter()
        .any(|e| e.gsi == gsi3 && matches!(e.target, RouteTarget::Msi { .. }));
    assert!(has_gsi0, "gsi0 should still have an MSI route");
    assert!(has_gsi3, "gsi3 should still have an MSI route");
}

#[test]
fn teardown_device_irqfds_empty_slice_is_noop() {
    let mut mgr = IrqManager::new(HostArchitecture::X86_64);
    allocate(&mut mgr, 0xFEE0_0000, 0, 0x41);
    allocate(&mut mgr, 0xFEE0_0000, 0, 0x42);
    let count_before = mgr.route_count();

    mgr.teardown_device_irqfds(&[]);
    assert_eq!(
        mgr.route_count(),
        count_before,
        "empty slice teardown must be a no-op"
    );
}

#[test]
fn teardown_device_irqfds_keeps_gsi_count_bounded() {
    let mut mgr = IrqManager::new(HostArchitecture::X86_64);

    // Run 10 cycles of allocate 3 + teardown 3
    // After the first cycle GSIs 24, 25, 26 are freed and reused from free-list.
    // next_gsi should never exceed 27 (24 + 3 fresh allocations before any free-list entries).
    for _ in 0..10 {
        let g0 = allocate(&mut mgr, 0xFEE0_0000, 0, 0x41);
        let g1 = allocate(&mut mgr, 0xFEE0_0000, 0, 0x42);
        let g2 = allocate(&mut mgr, 0xFEE0_0000, 0, 0x43);
        mgr.teardown_device_irqfds(&[g0, g1, g2]);
    }
    // After all cycles, no MSI routes should remain (all returned to free-list)
    assert_eq!(
        mgr.route_count(),
        NUM_DEFAULT_ROUTES,
        "all MSI routes should be freed"
    );
    // next_gsi bounded: 3 fresh GSIs on first cycle, then all reused from free-list.
    // Allocate once more to verify reuse (GSI must be from free-list, not >= 27).
    let recycled = allocate(&mut mgr, 0xFEE0_0000, 0, 0x45);
    assert!(
        recycled < 27,
        "GSI must be recycled from free-list after 10 allocate+teardown cycles, got {recycled}"
    );
}

#[test]
fn teardown_device_irqfds_released_gsis_available_for_realloc() {
    let mut mgr = IrqManager::new(HostArchitecture::X86_64);
    let gsi0 = allocate(&mut mgr, 0xFEE0_0000, 0, 0x41);
    let gsi1 = allocate(&mut mgr, 0xFEE0_0000, 0, 0x42);
    assert_eq!(gsi0, 24);
    assert_eq!(gsi1, 25);

    mgr.teardown_device_irqfds(&[gsi1, gsi0]);

    // Both GSIs should be back in the free-list; min-heap returns 24 first
    let new0 = allocate(&mut mgr, 0xFEE0_0000, 0, 0x43);
    let new1 = allocate(&mut mgr, 0xFEE0_0000, 0, 0x44);
    assert_eq!(new0, 24, "smallest GSI reallocated first");
    assert_eq!(new1, 25, "second GSI reallocated next");
}

#[test]
fn messages_lead_to_shared_interrupts_on_aarch64() {
    let mut mgr = IrqManager::new(HostArchitecture::Aarch64);
    assert_eq!(mgr.route_count(), 0);
    let gsi = mgr.allocate_irqfd(0x0800_0040, 0, 96);
    assert_eq!(
        mgr.routes()[0].target,
        RouteTarget::IrqChip { irqchip: IRQCHIP_GIC, pin: 64 }
    );
    assert_eq!(mgr.update_route(gsi + 1, 0, 0, 96), Err(IrqError::RoutingAllocation));
}

#[test]
fn wired_interrupts_wait_for_the_controller() {
    let mut mgr = IrqManager::new(HostArchitecture::Aarch64);
    mgr.register_spi_irqfd(5);
    mgr.register_spi_irqfd(7);
    assert_eq!(mgr.route_count(), 0);
    let (gsi0, pin0) = mgr.flush_pending_wired().unwrap();
    let (gsi1, pin1) = mgr.flush_pending_wired().unwrap();
    assert_eq!((pin0, pin1), (5, 7));
    assert_ne!(gsi0, gsi1);
    assert_eq!(mgr.flush_pending_wired(), None);
    assert!(mgr.can_allocate());
    assert_eq!(mgr.route_count(), 2);
}

#[test]
fn dropped_wired_interrupts_wait_no_more() {
    let mut mgr = IrqManager::new(HostArchitecture::Aarch64);
    mgr.register_spi_irqfd(5);
    mgr.register_spi_irqfd(7);
    assert!(matches!(mgr.flush_pending_wired(), Some((_, 5))));
    mgr.drop_pending_wired();
    assert_eq!(mgr.flush_pending_wired(), None);
    mgr.register_spi_irqfd(9);
    assert!(matches!(mgr.flush_pending_wired(), Some((_, 9))));
}

#[test]
fn message_vectors_are_programmed_once() {
    let mut mgr = IrqManager::new(HostArchitecture::X86_64);
    let mut domain = KvmMessageInterruptDomain::new(2);
    let msg = MessageInterrupt { address: 0x1_FEE0_0000, data: 0x41, masked: false };
    let masked = MessageInterrupt { masked: true, ..msg };
    assert_eq!(domain.update_message(&mut mgr, 0, masked), MessageAction::Nothing);
    assert_eq!(domain.update_message(&mut mgr, 2, msg), MessageAction::Nothing);
    assert_eq!(domain.update_message(&mut mgr, 0, msg), MessageAction::Bind { gsi: 24 });
    assert_eq!(domain.gsi_for_vector(0), None);
    domain.vector_bound(0, 24);
    assert_eq!(domain.gsi_for_vector(0), Some(24));
    let changed = MessageInterrupt { data: 0x42, ..msg };
    assert_eq!(domain.update_message(&mut mgr, 0, changed), MessageAction::Commit);
    assert_eq!(
        mgr.routes()[NUM_DEFAULT_ROUTES].target,
        RouteTarget::Msi { address_lo: 0xFEE0_0000, address_hi: 1, data: 0x42 }
    );
}

#[test]
fn parse_levels() {
    assert_eq!(X86Level::parse("x86-64-v1"), Some(X86Level::V1));
    assert_eq!(X86Level::parse("x86-64-v2"), Some(X86Level::V2));
    assert_eq!(X86Level::parse("x86-64-v3"), Some(X86Level::V3));
    assert_eq!(X86Level::parse("x86-64-v4"), Some(X86Level::V4));
    assert_eq!(X86Level::parse("x86-64-v5"), None);
    assert_eq!(X86Level::parse("armv8.2-a"), None);
}

#[test]
fn levels_are_supersets() {
    let names = |level: X86Level| -> std::collections::HashSet<&'static str> {
        level.cumulative_features().iter().map(|f| f.name).collect()
    };
    let v1 = names(X86Level::V1);
    let v2 = names(X86Level::V2);
    let v3 = names(X86Level::V3);
    let v4 = names(X86Level::V4);
    assert!(v1.is_subset(&v2));
    assert!(v2.is_subset(&v3));
    assert!(v3.is_subset(&v4));
}

#[test]
fn native_cpuid_supports_at_least_v1() {
    assert_eq!(first_missing_native(X86Level::V1), None);
}

#[test]
fn missing_features_are_named() {
    let everything = |function: u32| CpuidEntry {
        function,
        index: 0,
        eax: u32::MAX,
        ebx: u32::MAX,
        ecx: u32::MAX,
        edx: u32::MAX,
    };
    let all = [everything(1), everything(7), everything(0x8000_0001)];
    assert_eq!(first_missing(X86Level::V4, &all), None);
    assert!(check_profile("x86-64-v4", &all).is_ok());
    let first = X86Level::V1.cumulative_features()[0].name;
    assert_eq!(first_missing(X86Level::V1, &[]), Some(first));
    assert!(matches!(check_profile("x86-64-v9", &all), Err(ProfileError::Unknown)));
    match check_profile("x86-64-v2", &[]) {
        Err(ProfileError::HostMissing { profile, feature }) => {
            assert_eq!(profile, "x86-64-v2");
            assert_eq!(feature, first);
        }
        other => panic!("unexpected {:?}", other),
    }
    assert_eq!(X86Level::V3.as_str(), "x86-64-v3");
}

#[test]
fn guest_addresses_are_looked_up() {
    let mut map = GpaMap::new();
    map.add(0x1000, 0x7f00_0000, 0x1000);
    map.add(0x4000, 0x7f10_0000, 0x800);
    assert_eq!(map.lookup(0x1010), Some(0x7f00_0010));
    assert_eq!(map.lookup(0x2000), None);
    assert_eq!(map.write_target(0x4000, 0x800), Ok(0x7f10_0000));
    assert_eq!(
        map.write_target(0x4001, 0x800),
        Err(WriteError::SpansRegion { gpa: 0x4001, len: 0x800, region: 0x4000, size: 0x800 })
    );
    assert_eq!(map.write_target(0x3000, 1), Err(WriteError::NoRegion { gpa: 0x3000 }));
    let region = MappedRegion { gpa: 1, host_addr: 2, size: 3 };
    assert_eq!((region.gpa(), region.host_addr(), region.size()), (1, 2, 3));
    assert!(region.in_bounds());
    assert!(!MappedRegion { gpa: u64::MAX, host_addr: 0, size: 1 }.in_bounds());
    assert_eq!(
        backing_offsets(&[(0, 0x1000), (0x8000, 0x2000), (0x10000, 0x10)]),
        (vec![0, 0x1000, 0x3000], 0x3010)
    );
}

fn seg(attributes: u16) -> SegReg {
    SegReg { base: 0, limit: 0xffff_ffff, selector: 8, attributes }
}

#[test]
fn x86_boot_state_becomes_registers() {
    let state = X86CpuState {
        rip: 0x1000, rsp: 0x8000, rflags: 0, rax: 0x55AA, rbx: 0, rcx: 0, rdx: 0, rsi: 7, rdi: 0,
        rbp: 0, r8: 0, r9: 0, r10: 0, r11: 0, r12: 0, r13: 0, r14: 0, r15: 15, cr0: 0x8000_0011,
        cr3: 0x2000, cr4: 0x20, efer: 0x500, cs: seg(0xa09b), ds: seg(0xc093), es: seg(0xc093),
        fs: seg(0xc093), gs: seg(0xc093), ss: seg(0xc093),
        gdtr: TableReg { base: 0x500, limit: 0x17 },
        idtr: TableReg { base: 0x600, limit: 0 },
    };
    let (regs, sregs) = x86_64_state(&state);
    assert_eq!((regs.rip, regs.rsp, regs.rflags, regs.rax), (0x1000, 0x8000, 2, 0x55AA));
    assert_eq!((regs.rsi, regs.r15), (7, 15));
    assert_eq!((sregs.cs.type_, sregs.cs.s, sregs.cs.present, sregs.cs.l), (0xb, 1, 1, 1));
    assert_eq!((sregs.cs.db, sregs.cs.g, sregs.cs.dpl, sregs.cs.avl), (0, 1, 0, 0));
    assert_eq!((sregs.ds.db, sregs.ds.type_), (1, 3));
    assert_eq!((sregs.tr.type_, sregs.ldt.type_), (0xb, 2));
    assert_eq!((sregs.gdt_base, sregs.gdt_limit, sregs.idt_base), (0x500, 0x17, 0x600));
}

#[test]
fn aarch64_boot_state_becomes_registers() {
    let mut state = Aarch64CpuState::zeroed();
    state.x[0] = 0x4400_0000;
    state.pc = 0x4000_0000;
    state.sp_el1 = 0x5000;
    let regs = aarch64_state(&state);
    assert_eq!(regs.len(), 34);
    assert_eq!(regs[0], (0x6030_0000_0010_0000, 0x4400_0000));
    assert_eq!(regs[30].0, 0x6030_0000_0010_003c);
    assert_eq!(regs[31], (0x6030_0000_0010_0040, 0x4000_0000));
    assert_eq!(regs[32], (0x6030_0000_0010_0042, 0x3c5));
    assert_eq!(regs[33], (0x6030_0000_0010_0044, 0x5000));
    assert_eq!(vcpu_features(8, 0), 12);
    assert_eq!(vcpu_features(8, 1), 13);
    assert_eq!(spi_irq_line(33), 0x0100_0021);
}

#[test]
fn exits_are_translated() {
    assert!(matches!(
        translate_exit(RawExit::IoOut(0x3f8, &[1, 2, 3, 4, 5])),
        VmExit::PioWrite { port: 0x3f8, data: [1, 2, 3, 4], size: 4 }
    ));
    assert!(matches!(
        translate_exit(RawExit::MmioWrite(0x10, &[1, 2])),
        VmExit::MmioWrite { addr: 0x10, data: [1, 2, 0, 0, 0, 0, 0, 0], size: 2 }
    ));
    assert!(matches!(translate_exit(RawExit::MmioRead(1, 4)), VmExit::MmioRead { addr: 1, size: 4 }));
    assert!(matches!(translate_exit(RawExit::IoIn(1, 2)), VmExit::PioRead { port: 1, size: 2 }));
    assert!(matches!(translate_exit(RawExit::Hlt), VmExit::Halted));
    assert!(matches!(translate_exit(RawExit::SystemEvent), VmExit::Shutdown));
    assert!(matches!(translate_exit(RawExit::Debug), VmExit::Debug));
    assert!(matches!(translate_exit(RawExit::Other("x".into())), VmExit::Unknown(_)));
    let mut data = [0u8; 2];
    fill_pio(0x1234_5678, &mut data);
    assert_eq!(data, [0x78, 0x56]);
    assert_eq!(run_failure(11), RunFailure::Retry);
    assert_eq!(run_failure(4), RunFailure::Interrupted);
    assert_eq!(run_failure(5), RunFailure::Fail);
}

#[test]
fn exits_are_followed_by_steps() {
    assert!(matches!(run_step(VmExit::Halted), RunStep::Continue));
    assert!(matches!(debug_step(VmExit::Halted), RunStep::Return(DebugExit::Halted)));
    assert!(matches!(run_step(VmExit::Unknown("boom".into())), RunStep::Fail(_)));
    assert!(matches!(
        run_step(VmExit::PioWrite { port: 1, data: [2, 0, 0, 0], size: 1 }),
        RunStep::WritePort { port: 1, data: [2, 0, 0, 0], size: 1 }
    ));
    assert!(matches!(
        run_step(VmExit::MmioWrite { addr: 1, data: [0; 8], size: 4 }),
        RunStep::WriteBus { addr: 1, size: 4, exit: VcpuExit::MmioWrite { .. }, .. }
    ));
    assert_eq!(
        stop_after(&VcpuExit::Shutdown, Some(VcpuStop::Stopped)),
        Some(VcpuStop::GuestPoweroff)
    );
    assert_eq!(stop_after(&VcpuExit::Interrupted, None), None);
    assert_eq!(
        stop_after(&VcpuExit::Interrupted, Some(VcpuStop::GuestReset)),
        Some(VcpuStop::GuestReset)
    );
}

#[test]
fn device_writes_power_off_and_reset() {
    assert_eq!(stop_written(None), None);
    assert_eq!(stop_written(Some(MmioWriteOutcome::Continue)), None);
    assert_eq!(
        stop_written(Some(MmioWriteOutcome::GuestPoweroff)),
        Some(VcpuStop::GuestPoweroff)
    );
    assert_eq!(stop_written(Some(MmioWriteOutcome::GuestReset)), Some(VcpuStop::GuestReset));
}

#[test]
fn second_signal_exits_hard() {
    assert_eq!(on_signal(28, 0), (SignalAction::Ignore, 0));
    assert_eq!(on_signal(2, 0), (SignalAction::Graceful { exit_code: 130 }, 1));
    assert_eq!(on_signal(15, 1), (SignalAction::HardExit { exit_code: 143 }, 2));
    assert_eq!(on_signal(3, 0), (SignalAction::HardExit { exit_code: 131 }, 1));
    assert_eq!(signal_name(15), "SIGTERM");
    assert_eq!(signal_name(9), "signal");
}

#[test]
fn shared_interrupts_route_from_their_first_number() {
    let gic = IrqManager::new(HostArchitecture::Aarch64);
    assert!(!gic.can_route(31));
    assert!(gic.can_route(32));
    let apic = IrqManager::new(HostArchitecture::X86_64);
    assert!(apic.can_route(0));
}

#[test]
fn functions_above_the_highest_do_not_count() {
    let processor = |basic: u32, extended: u32| {
        move |function: u32| CpuidEntry {
            function,
            index: 0,
            eax: match function {
                0 => basic,
                0x8000_0000 => extended,
                _ => u32::MAX,
            },
            ebx: u32::MAX,
            ecx: u32::MAX,
            edx: u32::MAX,
        }
    };
    assert_eq!(first_missing_read(X86Level::V4, processor(7, 0x8000_0001)), None);
    assert_eq!(first_missing_read(X86Level::V3, processor(6, 0x8000_0001)), Some("avx2"));
    assert_eq!(first_missing_read(X86Level::V2, processor(7, 0x8000_0000)), Some("lahf-lm"));
    assert_eq!(first_missing_read(X86Level::V1, processor(0, 0)), Some("fpu"));
    let without_sse2 = |function: u32| CpuidEntry {
        edx: if function == 1 { !(1 << 26) } else { 0 },
        ..processor(7, 0x8000_0001)(function)
    };
    assert_eq!(first_missing_read(X86Level::V1, without_sse2), Some("sse2"));
}

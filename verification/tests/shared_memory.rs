use dillo::mmio::{AddressRange, SharedAccess, SharedMemoryRequirement};
use dillo::shared_memory::{
    MappedSharedMemory, SharedMemoryError, SharedMemoryState, SharedRange,
};
use vm_memory::{Bytes, GuestAddress, GuestMemoryMmap};

#[test]
fn mapped_shared_memory_reads_and_writes_claimed_region() {
    let memory = GuestMemoryMmap::from_ranges(&[(GuestAddress(0), 0x4000)]).unwrap();
    memory.write(&[1, 2, 3, 4], GuestAddress(0x1200)).unwrap();
    let shared = MappedSharedMemory::new(
        memory,
        SharedMemoryRequirement {
            range: AddressRange {
                base: 0x1000,
                size: 0x1000,
            },
            access: SharedAccess::ReadWrite,
        },
    );

    let region = shared
        .region(SharedRange {
            gpa: 0x1200,
            size: 4,
            access: SharedAccess::ReadWrite,
        })
        .unwrap();
    let mut buf = [0; 4];
    region.read(0, &mut buf).unwrap();
    assert_eq!(buf, [1, 2, 3, 4]);

    region.write(1, &[9, 8]).unwrap();
    region.read(0, &mut buf).unwrap();
    assert_eq!(buf, [1, 9, 8, 4]);
}

#[test]
fn mapped_shared_memory_rejects_outside_capability_limits() {
    let memory = GuestMemoryMmap::from_ranges(&[(GuestAddress(0), 0x4000)]).unwrap();
    let shared = MappedSharedMemory::new(
        memory,
        SharedMemoryRequirement {
            range: AddressRange {
                base: 0x1000,
                size: 0x1000,
            },
            access: SharedAccess::ReadWrite,
        },
    );

    let err = shared
        .region(SharedRange {
            gpa: 0x1ff0,
            size: 0x20,
            access: SharedAccess::ReadOnly,
        })
        .expect_err("range crosses capability limits");
    assert!(matches!(err, SharedMemoryError::OutOfLimits));
}

#[test]
fn mapped_shared_memory_can_limit_claims_to_guest_ram() {
    let memory = GuestMemoryMmap::from_ranges(&[
        (GuestAddress(0x1000), 0x1000),
        (GuestAddress(0x4000), 0x1000),
    ])
    .unwrap();
    memory.write(&[1, 2], GuestAddress(0x4100)).unwrap();
    let shared = MappedSharedMemory::for_guest_memory(memory, SharedAccess::ReadWrite);

    let region = shared
        .region(SharedRange {
            gpa: 0x4100,
            size: 2,
            access: SharedAccess::ReadOnly,
        })
        .expect("runtime claim inside guest RAM");
    let mut buf = [0; 2];
    region.read(0, &mut buf).unwrap();
    assert_eq!(buf, [1, 2]);

    let err = shared
        .region(SharedRange {
            gpa: 0x3000,
            size: 0x10,
            access: SharedAccess::ReadOnly,
        })
        .expect_err("runtime claim outside guest RAM");
    assert!(matches!(err, SharedMemoryError::OutOfLimits));
}

#[test]
fn mapped_shared_memory_rejects_private_range() {
    let memory = GuestMemoryMmap::from_ranges(&[(GuestAddress(0), 0x4000)]).unwrap();
    let shared = MappedSharedMemory::with_shared_ranges(
        memory,
        SharedMemoryRequirement {
            range: AddressRange {
                base: 0x1000,
                size: 0x1000,
            },
            access: SharedAccess::ReadWrite,
        },
        vec![AddressRange {
            base: 0x1000,
            size: 0x100,
        }],
    );

    let err = shared
        .region(SharedRange {
            gpa: 0x1200,
            size: 0x10,
            access: SharedAccess::ReadOnly,
        })
        .expect_err("range is not currently shared");
    assert!(matches!(err, SharedMemoryError::NotShared));
}

#[test]
fn mapped_shared_memory_observes_runtime_private_shared_updates() {
    let memory = GuestMemoryMmap::from_ranges(&[(GuestAddress(0), 0x4000)]).unwrap();
    let state = SharedMemoryState::new(vec![AddressRange {
        base: 0x1000,
        size: 0x1000,
    }]);
    let mut shared = MappedSharedMemory::with_shared_state(
        memory,
        SharedMemoryRequirement {
            range: AddressRange {
                base: 0x1000,
                size: 0x1000,
            },
            access: SharedAccess::ReadWrite,
        },
        state,
    );

    shared
        .region(SharedRange {
            gpa: 0x1200,
            size: 0x10,
            access: SharedAccess::ReadOnly,
        })
        .expect("range starts shared");

    shared.shared_mut().mark_private(AddressRange {
        base: 0x1100,
        size: 0x200,
    });
    let err = shared
        .region(SharedRange {
            gpa: 0x1200,
            size: 0x10,
            access: SharedAccess::ReadOnly,
        })
        .expect_err("range became private");
    assert!(matches!(err, SharedMemoryError::NotShared));

    shared.shared_mut().mark_shared(AddressRange {
        base: 0x1200,
        size: 0x10,
    });
    shared
        .region(SharedRange {
            gpa: 0x1200,
            size: 0x10,
            access: SharedAccess::ReadOnly,
        })
        .expect("range became shared again");
}

#[test]
fn mapped_shared_memory_enforces_access_mode() {
    let memory = GuestMemoryMmap::from_ranges(&[(GuestAddress(0), 0x4000)]).unwrap();
    let shared = MappedSharedMemory::new(
        memory,
        SharedMemoryRequirement {
            range: AddressRange {
                base: 0x1000,
                size: 0x1000,
            },
            access: SharedAccess::ReadOnly,
        },
    );

    let err = shared
        .region(SharedRange {
            gpa: 0x1100,
            size: 0x10,
            access: SharedAccess::ReadWrite,
        })
        .expect_err("capability is read-only");
    assert!(matches!(err, SharedMemoryError::AccessDenied));

    let region = shared
        .region(SharedRange {
            gpa: 0x1100,
            size: 0x10,
            access: SharedAccess::ReadOnly,
        })
        .unwrap();
    let err = region.write(0, &[1]).expect_err("region is read-only");
    assert!(matches!(err, SharedMemoryError::AccessDenied));
}

#[test]
fn mapped_shared_memory_region_bounds_are_enforced() {
    let memory = GuestMemoryMmap::from_ranges(&[(GuestAddress(0), 0x4000)]).unwrap();
    let shared = MappedSharedMemory::new(
        memory,
        SharedMemoryRequirement {
            range: AddressRange {
                base: 0x1000,
                size: 0x1000,
            },
            access: SharedAccess::ReadWrite,
        },
    );
    let region = shared
        .region(SharedRange {
            gpa: 0x1100,
            size: 4,
            access: SharedAccess::ReadWrite,
        })
        .unwrap();

    let err = region.write(3, &[1, 2]).expect_err("write crosses region");
    assert!(matches!(err, SharedMemoryError::OutOfRange));
}

#[test]
fn mapped_shared_memory_reports_unmapped_memory() {
    let memory = GuestMemoryMmap::from_ranges(&[(GuestAddress(0), 0x1000)]).unwrap();
    let shared = MappedSharedMemory::new(
        memory,
        SharedMemoryRequirement {
            range: AddressRange { base: 0x0, size: 0x4000 },
            access: SharedAccess::ReadWrite,
        },
    );
    let region = shared
        .region(SharedRange { gpa: 0xff0, size: 0x1020, access: SharedAccess::ReadWrite })
        .unwrap();
    let mut buf = [0u8; 4];
    let err = region.read(0x1010, &mut buf).expect_err("not mapped");
    assert!(matches!(err, SharedMemoryError::Backing(_)));
    let err = region.write(0x1010, &[1]).expect_err("not mapped");
    assert!(matches!(err, SharedMemoryError::Backing(_)));
    assert!(region.write(0x1010, &[]).is_ok());
}

#[test]
fn shared_ranges_can_be_replaced() {
    let mut state = SharedMemoryState::new(vec![]);
    assert!(!state.contains(0x1000, 1));
    state.set_shared_ranges(vec![AddressRange { base: 0x1000, size: 0x1000 }]);
    assert!(state.contains(0x1000, 0x1000));
    state.mark_private(AddressRange { base: 0x1800, size: 1 });
    assert!(!state.contains(0x1000, 0x1000));
    assert!(state.contains(0x1000, 0x800));
    assert!(state.contains(0x1801, 0x7ff));
}

#[test]
fn shared_access_goes_as_far_as_memory_does() {
    let memory = GuestMemoryMmap::from_ranges(&[(GuestAddress(0x1000), 0x1000)]).unwrap();
    memory.write(&[1, 2], GuestAddress(0x1ffe)).unwrap();
    let capability = MappedSharedMemory::new(
        memory,
        SharedMemoryRequirement {
            range: AddressRange { base: 0x1000, size: 0x2000 },
            access: SharedAccess::ReadWrite,
        },
    );
    let range = SharedRange { gpa: 0x1ffe, size: 8, access: SharedAccess::ReadWrite };
    let region = capability.region(range).unwrap();
    let mut buf = [7; 4];
    region.read(0, &mut buf).unwrap();
    assert_eq!(buf, [1, 2, 7, 7]);
    region.write(1, &[9, 8]).unwrap();
    region.read(0, &mut buf).unwrap();
    assert_eq!(buf, [1, 9, 7, 7]);
    assert!(matches!(region.read(2, &mut buf), Err(SharedMemoryError::Backing(_))));
    assert_eq!(buf, [1, 9, 7, 7]);
    assert!(matches!(region.write(2, &[1]), Err(SharedMemoryError::Backing(_))));
    region.read(2, &mut []).unwrap();
}

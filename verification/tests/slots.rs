use dillo::slots::{allocate, AllocError, Bus, Capacity, Placed, Placement};

fn auto(n: usize) -> Vec<Placement> {
    (0..n).map(|_| Placement { bus: None, slot: None }).collect()
}

#[test]
fn auto_prefers_default_bus_when_both_present() {
    let cap = Capacity { pci: Some(8), mmio: 8 };
    let placed = allocate(&cap, Bus::Pci, &auto(3)).unwrap();
    assert!(placed.iter().all(|p| p.bus == Bus::Pci));
    // console=slot1, then 2,3
    assert_eq!(placed[0].index, 1);
    assert_eq!(placed[1].index, 2);
    assert_eq!(placed[2].index, 3);
}

#[test]
fn auto_picks_only_present_bus() {
    let cap = Capacity { pci: None, mmio: 4 };
    let placed = allocate(&cap, Bus::Pci, &auto(2)).unwrap();
    assert!(placed.iter().all(|p| p.bus == Bus::Mmio));
    assert_eq!(placed[0].index, 0);
    assert_eq!(placed[1].index, 1);
}

#[test]
fn explicit_absent_bus_errors() {
    let cap = Capacity { pci: None, mmio: 4 };
    let reqs = vec![Placement { bus: Some(Bus::Pci), slot: None }];
    assert_eq!(
        allocate(&cap, Bus::Mmio, &reqs),
        Err(AllocError::BusUnavailable { index: 0, bus: Bus::Pci })
    );
}

#[test]
fn explicit_slot_reserved_before_auto() {
    let cap = Capacity { pci: Some(8), mmio: 8 };
    // device 0 auto, device 1 pinned to pci slot 1: device 0 must avoid it.
    let reqs = vec![
        Placement { bus: None, slot: None },
        Placement { bus: Some(Bus::Pci), slot: Some(1) },
    ];
    let placed = allocate(&cap, Bus::Pci, &reqs).unwrap();
    assert_eq!(placed[1], Placed { bus: Bus::Pci, index: 1 });
    assert_ne!(placed[0].index, 1);
    assert_eq!(placed[0], Placed { bus: Bus::Pci, index: 2 });
}

#[test]
fn slot_conflict_errors() {
    let cap = Capacity { pci: Some(8), mmio: 8 };
    let reqs = vec![
        Placement { bus: Some(Bus::Pci), slot: Some(3) },
        Placement { bus: Some(Bus::Pci), slot: Some(3) },
    ];
    assert_eq!(
        allocate(&cap, Bus::Pci, &reqs),
        Err(AllocError::SlotConflict { index: 1, bus: Bus::Pci, slot: 3 })
    );
}

#[test]
fn exhaustion_errors() {
    let cap = Capacity { pci: Some(2), mmio: 0 };
    // pci slots 1,2 only: 3 auto devices overflow.
    let err = allocate(&cap, Bus::Pci, &auto(3)).unwrap_err();
    assert!(matches!(err, AllocError::Exhausted { bus: Bus::Pci, .. }));
}

#[test]
fn slot_out_of_range_errors() {
    let cap = Capacity { pci: Some(8), mmio: 2 };
    let pci_zero = vec![Placement { bus: Some(Bus::Pci), slot: Some(0) }];
    let err = allocate(&cap, Bus::Pci, &pci_zero).unwrap_err();
    assert!(matches!(err, AllocError::SlotOutOfRange { index: 0, bus: Bus::Pci, slot: 0, .. }));
    let mmio_two = vec![Placement { bus: Some(Bus::Mmio), slot: Some(2) }];
    let err = allocate(&cap, Bus::Pci, &mmio_two).unwrap_err();
    assert!(matches!(err, AllocError::SlotOutOfRange { index: 0, bus: Bus::Mmio, slot: 2, .. }));
}

#[test]
fn no_two_devices_share_a_slot() {
    let cap = Capacity { pci: Some(8), mmio: 8 };
    let reqs = vec![
        Placement { bus: Some(Bus::Mmio), slot: None },
        Placement { bus: None, slot: Some(2) },
        Placement { bus: None, slot: None },
        Placement { bus: Some(Bus::Mmio), slot: Some(0) },
        Placement { bus: None, slot: None },
    ];
    let placed = allocate(&cap, Bus::Pci, &reqs).unwrap();
    assert_eq!(
        placed,
        vec![
            Placed { bus: Bus::Mmio, index: 1 },
            Placed { bus: Bus::Pci, index: 2 },
            Placed { bus: Bus::Pci, index: 1 },
            Placed { bus: Bus::Mmio, index: 0 },
            Placed { bus: Bus::Pci, index: 3 },
        ]
    );
    assert_eq!(Bus::Pci.other(), Bus::Mmio);
}

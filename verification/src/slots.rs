//! Bus and slot allocation for the devices of a layout.
//!
//! Every device asks for a bus, a slot, both or neither. Devices that pin a
//! slot are placed first; the others take the lowest free slot of their bus,
//! in input order.
use std::collections::BTreeSet;
use vstd::prelude::*;
use vstd::set_lib::{lemma_len_subset, FiniteRange};

verus! {

/// Which guest bus a device sits on.
#[derive(Debug, Clone, Copy, PartialEq, Eq, Structural)]
pub enum Bus {
    Pci,
    Mmio,
}

impl Bus {
    /// The bus that is not this one.
    pub fn other(self) -> (r: Bus)
        ensures
            r == self.spec_other(),
    {
        match self {
            Bus::Pci => Bus::Mmio,
            Bus::Mmio => Bus::Pci,
        }
    }

    pub open spec fn spec_other(self) -> Bus {
        match self {
            Bus::Pci => Bus::Mmio,
            Bus::Mmio => Bus::Pci,
        }
    }
}

/// What a device asks of the allocator.
#[derive(Debug, Clone, Copy, PartialEq, Eq, Structural)]
pub struct Placement {
    pub bus: Option<Bus>,
    pub slot: Option<u32>,
}

/// Available placement targets derived from the platform.
#[derive(Debug, Clone, Copy, PartialEq, Eq, Structural)]
pub struct Capacity {
    /// Number of usable PCI functions (device numbers `1..=pci`), or `None` if
    /// the platform has no PCIe root.
    pub pci: Option<u32>,
    /// Number of virtio-mmio slots (indices `0..mmio`).
    pub mmio: u32,
}

/// A resolved bus and index for one device.
#[derive(Debug, Clone, Copy, PartialEq, Eq, Structural)]
pub struct Placed {
    pub bus: Bus,
    /// PCI device number (when `bus` is `Pci`) or virtio-mmio slot index.
    pub index: u32,
}

/// Why a set of requests cannot be placed.
#[derive(Debug, Clone, Copy, PartialEq, Eq, Structural)]
pub enum AllocError {
    /// A device names a bus that the platform does not have.
    BusUnavailable { index: usize, bus: Bus },
    /// A device names no bus and the platform has none.
    NoBus { index: usize },
    /// A pinned slot lies outside the slots of its bus.
    SlotOutOfRange { index: usize, bus: Bus, slot: u32, max: u32 },
    /// Two devices pin the same slot.
    SlotConflict { index: usize, bus: Bus, slot: u32 },
    /// No slot is left on the bus of a device.
    Exhausted { index: usize, bus: Bus, requested: usize, capacity: u32 },
}

/// PCI device numbers start at 1 (slot 0 is the host bridge).
pub const PCI_FIRST_SLOT: u32 = 1;

impl Capacity {
    /// Whether the platform declares `bus`.
    pub open spec fn has(self, bus: Bus) -> bool {
        match bus {
            Bus::Pci => self.pci is Some,
            Bus::Mmio => self.mmio > 0,
        }
    }

    /// How many slots `bus` has.
    pub open spec fn slots(self, bus: Bus) -> u32 {
        match bus {
            Bus::Pci => match self.pci {
                Some(n) => n,
                None => 0,
            },
            Bus::Mmio => self.mmio,
        }
    }

    /// Whether `slot` is one of the slots of `bus`.
    pub open spec fn in_range(self, bus: Bus, slot: u32) -> bool {
        first_slot(bus) <= slot < first_slot(bus) + self.slots(bus)
    }

    fn available(&self, bus: Bus) -> (r: bool)
        ensures
            r == self.has(bus),
    {
        match bus {
            Bus::Pci => self.pci.is_some(),
            Bus::Mmio => self.mmio > 0,
        }
    }

    fn slot_max(&self, bus: Bus) -> (r: u32)
        ensures
            r == self.slots(bus),
    {
        match bus {
            Bus::Pci => match self.pci {
                Some(n) => n,
                None => 0,
            },
            Bus::Mmio => self.mmio,
        }
    }
}

/// The lowest slot number of a bus.
pub open spec fn first_slot(bus: Bus) -> u32 {
    match bus {
        Bus::Pci => PCI_FIRST_SLOT,
        Bus::Mmio => 0,
    }
}

/// The bus that a request ends up on: the one it names when the platform has
/// it, else the default bus, else the other one.
pub open spec fn chosen_bus(cap: Capacity, default_bus: Bus, req: Placement) -> Option<Bus> {
    match req.bus {
        Some(bus) => if cap.has(bus) {
            Some(bus)
        } else {
            None
        },
        None => if cap.has(default_bus) {
            Some(default_bus)
        } else if cap.has(default_bus.spec_other()) {
            Some(default_bus.spec_other())
        } else {
            None
        },
    }
}

/// The error owed to a request that no bus can take.
pub open spec fn bus_error(req: Placement, i: int) -> AllocError {
    match req.bus {
        Some(bus) => AllocError::BusUnavailable { index: i as usize, bus },
        None => AllocError::NoBus { index: i as usize },
    }
}

/// Whether request `j` pins slot `slot` of `bus`.
pub open spec fn pins(
    cap: Capacity,
    default_bus: Bus,
    reqs: Seq<Placement>,
    j: int,
    bus: Bus,
    slot: u32,
) -> bool {
    reqs[j].slot == Some(slot) && chosen_bus(cap, default_bus, reqs[j]) == Some(bus)
}

/// What is wrong with the slot that request `i` pins, if it pins one.
pub open spec fn pin_error(cap: Capacity, default_bus: Bus, reqs: Seq<Placement>, i: int) -> Option<
    AllocError,
> {
    match reqs[i].slot {
        None => None,
        Some(slot) => match chosen_bus(cap, default_bus, reqs[i]) {
            None => Some(bus_error(reqs[i], i)),
            Some(bus) => if !cap.in_range(bus, slot) {
                Some(
                    AllocError::SlotOutOfRange {
                        index: i as usize,
                        bus,
                        slot,
                        max: cap.slots(bus),
                    },
                )
            } else if exists|j: int|
                0 <= j < i && #[trigger] pins(cap, default_bus, reqs, j, bus, slot) {
                Some(AllocError::SlotConflict { index: i as usize, bus, slot })
            } else {
                None
            },
        },
    }
}

/// Whether request `j` sits on `bus` and is placed before automatic request `i`:
/// every pinned request is, and every earlier one.
pub open spec fn goes_before(
    cap: Capacity,
    default_bus: Bus,
    reqs: Seq<Placement>,
    bus: Bus,
    i: int,
    j: int,
) -> bool {
    chosen_bus(cap, default_bus, reqs[j]) == Some(bus) && (reqs[j].slot is Some || j < i)
}

/// How many of the first `n` requests sit on `bus` and are placed before
/// automatic request `i`.
pub open spec fn occupied(
    cap: Capacity,
    default_bus: Bus,
    reqs: Seq<Placement>,
    bus: Bus,
    i: int,
    n: int,
) -> nat
    decreases n,
{
    if n <= 0 {
        0
    } else {
        occupied(cap, default_bus, reqs, bus, i, n - 1) + if goes_before(
            cap,
            default_bus,
            reqs,
            bus,
            i,
            n - 1,
        ) {
            1nat
        } else {
            0nat
        }
    }
}

/// What is wrong with automatic request `i`, if it is one: no bus takes it, or
/// the requests placed before it fill its bus.
pub open spec fn auto_error(
    cap: Capacity,
    default_bus: Bus,
    reqs: Seq<Placement>,
    i: int,
) -> Option<AllocError> {
    if reqs[i].slot is Some {
        None
    } else {
        match chosen_bus(cap, default_bus, reqs[i]) {
            None => Some(bus_error(reqs[i], i)),
            Some(bus) => if occupied(cap, default_bus, reqs, bus, i, reqs.len() as int)
                >= cap.slots(bus) {
                Some(
                    AllocError::Exhausted {
                        index: i as usize,
                        bus,
                        requested: reqs.len() as usize,
                        capacity: cap.slots(bus),
                    },
                )
            } else {
                None
            },
        }
    }
}

/// No request pins a slot that it cannot have.
pub open spec fn pins_fit(cap: Capacity, default_bus: Bus, reqs: Seq<Placement>) -> bool {
    forall|i: int| 0 <= i < reqs.len() ==> #[trigger] pin_error(cap, default_bus, reqs, i) is None
}

/// Every automatic request finds a free slot.
pub open spec fn autos_fit(cap: Capacity, default_bus: Bus, reqs: Seq<Placement>) -> bool {
    forall|i: int| 0 <= i < reqs.len() ==> #[trigger] auto_error(cap, default_bus, reqs, i) is None
}

/// `e` is what is wrong with the first request whose pinned slot fails.
pub open spec fn first_pin_error(
    cap: Capacity,
    default_bus: Bus,
    reqs: Seq<Placement>,
    e: AllocError,
) -> bool {
    exists|i: int|
        0 <= i < reqs.len() && #[trigger] pin_error(cap, default_bus, reqs, i) == Some(e) && (
        forall|j: int| 0 <= j < i ==> #[trigger] pin_error(cap, default_bus, reqs, j) is None)
}

/// `e` is what is wrong with the first automatic request that fails.
pub open spec fn first_auto_error(
    cap: Capacity,
    default_bus: Bus,
    reqs: Seq<Placement>,
    e: AllocError,
) -> bool {
    exists|i: int|
        0 <= i < reqs.len() && #[trigger] auto_error(cap, default_bus, reqs, i) == Some(e) && (
        forall|j: int| 0 <= j < i ==> #[trigger] auto_error(cap, default_bus, reqs, j) is None)
}

/// Whether `placed[i]` is where request `i` belongs, given where the others are.
pub open spec fn well_placed(
    cap: Capacity,
    default_bus: Bus,
    reqs: Seq<Placement>,
    placed: Seq<Placed>,
    i: int,
) -> bool {
    &&& chosen_bus(cap, default_bus, reqs[i]) == Some(placed[i].bus)
    &&& cap.in_range(placed[i].bus, placed[i].index)
    &&& match reqs[i].slot {
        Some(slot) => placed[i].index == slot,
        None => forall|s: u32|
            first_slot(placed[i].bus) <= s < placed[i].index ==> #[trigger] taken_before(
                reqs,
                placed,
                i,
                Placed { bus: placed[i].bus, index: s },
            ),
    }
}

/// Whether a request that is placed before automatic request `i` holds `p`.
pub open spec fn taken_before(
    reqs: Seq<Placement>,
    placed: Seq<Placed>,
    i: int,
    p: Placed,
) -> bool {
    exists|j: int|
        0 <= j < reqs.len() && (reqs[j].slot is Some || j < i) && #[trigger] placed[j] == p
}

/// The placement of a whole layout: every request where it belongs, and no two
/// in one place.
pub open spec fn allocation(
    cap: Capacity,
    default_bus: Bus,
    reqs: Seq<Placement>,
    placed: Seq<Placed>,
) -> bool {
    &&& placed.len() == reqs.len()
    &&& forall|i: int|
        0 <= i < reqs.len() ==> #[trigger] well_placed(cap, default_bus, reqs, placed, i)
    &&& forall|i: int, j: int|
        0 <= i < j < placed.len() ==> #[trigger] placed[i] != #[trigger] placed[j]
}

/// The slots that are already taken, per bus.
struct Taken {
    pci: BTreeSet<u32>,
    mmio: BTreeSet<u32>,
}

impl Taken {
    spec fn on(self, bus: Bus) -> Set<u32> {
        match bus {
            Bus::Pci => self.pci@,
            Bus::Mmio => self.mmio@,
        }
    }

    fn new() -> (r: Taken)
        ensures
            forall|b: Bus| r.on(b) == Set::<u32>::empty(),
    {
        Taken { pci: BTreeSet::new(), mmio: BTreeSet::new() }
    }

    fn contains(&self, bus: Bus, slot: u32) -> (r: bool)
        ensures
            r == self.on(bus).contains(slot),
    {
        proof {
            broadcast use vstd::laws_cmp::group_laws_cmp;
        }
        match bus {
            Bus::Pci => self.pci.contains(&slot),
            Bus::Mmio => self.mmio.contains(&slot),
        }
    }

    fn insert(&mut self, bus: Bus, slot: u32) -> (r: bool)
        ensures
            r == !old(self).on(bus).contains(slot),
            final(self).on(bus) == old(self).on(bus).insert(slot),
            forall|b: Bus| b != bus ==> final(self).on(b) == old(self).on(b),
    {
        proof {
            broadcast use vstd::laws_cmp::group_laws_cmp;
        }
        match bus {
            Bus::Pci => self.pci.insert(slot),
            Bus::Mmio => self.mmio.insert(slot),
        }
    }

    /// The lowest slot of `bus` that nobody has taken.
    fn lowest_free(&self, cap: &Capacity, bus: Bus) -> (r: Option<u32>)
        ensures
            match r {
                Some(slot) => cap.in_range(bus, slot) && !self.on(bus).contains(slot) && (
                forall|s: u32| first_slot(bus) <= s < slot ==> self.on(bus).contains(s)),
                None => forall|s: u32| cap.in_range(bus, s) ==> self.on(bus).contains(s),
            },
    {
        let first: u32 = match bus {
            Bus::Pci => PCI_FIRST_SLOT,
            Bus::Mmio => 0,
        };
        let count: u32 = cap.slot_max(bus);
        let mut k: u32 = 0;
        while k < count
            invariant
                first == first_slot(bus),
                count == cap.slots(bus),
                k <= count,
                forall|s: u32| first <= s < first + k ==> self.on(bus).contains(s),
            decreases count - k,
        {
            // The last PCI slot of a full-width bus is `u32::MAX`.
            if k > u32::MAX - first {
                return None;
            }
            let slot: u32 = first + k;
            if !self.contains(bus, slot) {
                return Some(slot);
            }
            k = k + 1;
        }
        None
    }
}

/// Picks the bus of request `index`.
fn resolve_bus(cap: &Capacity, default_bus: Bus, req: &Placement, index: usize) -> (r: Result<
    Bus,
    AllocError,
>)
    ensures
        match r {
            Ok(bus) => chosen_bus(*cap, default_bus, *req) == Some(bus),
            Err(e) => chosen_bus(*cap, default_bus, *req) is None && e == bus_error(
                *req,
                index as int,
            ),
        },
{
    match req.bus {
        Some(bus) => {
            if cap.available(bus) {
                Ok(bus)
            } else {
                Err(AllocError::BusUnavailable { index, bus })
            }
        },
        None => {
            if cap.available(default_bus) {
                Ok(default_bus)
            } else if cap.available(default_bus.other()) {
                Ok(default_bus.other())
            } else {
                Err(AllocError::NoBus { index })
            }
        },
    }
}

/// A set of slots of `bus` is all of them exactly when it has as many members.
proof fn lemma_slot_set(cap: Capacity, bus: Bus, used: Set<u32>)
    requires
        used.finite(),
        forall|s: u32| used.contains(s) ==> cap.in_range(bus, s),
    ensures
        used.len() <= cap.slots(bus),
        used.len() == cap.slots(bus) <==> forall|s: u32|
            cap.in_range(bus, s) ==> used.contains(s),
{
    let first = first_slot(bus);
    let end = first + cap.slots(bus);
    let all = Set::new(|s: u32| cap.in_range(bus, s));
    if end <= u32::MAX {
        u32::range_properties(first, end as u32);
        assert(all =~= Set::range(first, end as u32));
    } else {
        u32::range_properties(first, u32::MAX);
        assert(all =~= Set::range(first, u32::MAX).insert(u32::MAX));
    }
    assert(all.finite() && all.len() == cap.slots(bus));
    lemma_len_subset(used, all);
    if used.len() == cap.slots(bus) {
        vstd::set_lib::lemma_subset_equality(used, all);
        assert(used =~= all);
        assert forall|s: u32| cap.in_range(bus, s) implies used.contains(s) by {
            assert(all.contains(s));
        }
    }
    if forall|s: u32| cap.in_range(bus, s) ==> used.contains(s) {
        assert(used =~= all);
    }
}

/// Whether request `j` has been placed once the first `pinned` requests went
/// through the first pass and the first `autos` through the second.
spec fn is_placed(reqs: Seq<Placement>, pinned: int, autos: int, j: int) -> bool {
    (reqs[j].slot is Some && j < pinned) || (reqs[j].slot is None && j < autos)
}

/// What holds between the requests, the placements made so far and the slots
/// marked as taken.
spec fn progress(
    cap: Capacity,
    default_bus: Bus,
    reqs: Seq<Placement>,
    out: Seq<Option<Placed>>,
    taken: Taken,
    pinned: int,
    autos: int,
) -> bool {
    &&& out.len() == reqs.len()
    &&& forall|j: int|
        0 <= j < reqs.len() ==> (#[trigger] out[j] is Some <==> is_placed(reqs, pinned, autos, j))
    &&& forall|j: int|
        0 <= j < reqs.len() && #[trigger] out[j] is Some ==> {
            let p = out[j]->0;
            &&& chosen_bus(cap, default_bus, reqs[j]) == Some(p.bus)
            &&& cap.in_range(p.bus, p.index)
            &&& reqs[j].slot matches Some(slot) ==> p.index == slot
        }
    &&& forall|j: int, s: u32|
        0 <= j < reqs.len() && #[trigger] out[j] is Some && reqs[j].slot is None && first_slot(
            (out[j]->0).bus,
        ) <= s < (out[j]->0).index ==> #[trigger] held_before(
            reqs,
            out,
            j,
            Placed { bus: (out[j]->0).bus, index: s },
        )
    &&& forall|bus: Bus, s: u32| #[trigger]
        taken.on(bus).contains(s) <==> holds(out, Placed { bus, index: s })
    &&& forall|i: int, j: int|
        0 <= i < j < out.len() && #[trigger] out[i] is Some && #[trigger] out[j] is Some ==> out[i]
            != out[j]
    &&& forall|bus: Bus|
        (#[trigger] taken.on(bus)).finite() && taken.on(bus).len() == occupied(
            cap,
            default_bus,
            reqs,
            bus,
            autos,
            pinned,
        )
}

spec fn holds(out: Seq<Option<Placed>>, p: Placed) -> bool {
    exists|j: int| 0 <= j < out.len() && #[trigger] out[j] == Some(p)
}

spec fn held_before(reqs: Seq<Placement>, out: Seq<Option<Placed>>, i: int, p: Placed) -> bool {
    exists|j: int|
        0 <= j < reqs.len() && (reqs[j].slot is Some || j < i) && #[trigger] out[j] == Some(p)
}

/// Placing one more request keeps the counts: `occupied` grows by the request
/// that stands at `i`.
proof fn lemma_occupied_step(
    cap: Capacity,
    default_bus: Bus,
    reqs: Seq<Placement>,
    bus: Bus,
    i: int,
    n: int,
)
    requires
        0 <= i,
        0 <= n,
    ensures
        occupied(cap, default_bus, reqs, bus, i + 1, n) == occupied(
            cap,
            default_bus,
            reqs,
            bus,
            i,
            n,
        ) + if i < n && reqs[i].slot is None && chosen_bus(cap, default_bus, reqs[i]) == Some(
            bus,
        ) {
            1nat
        } else {
            0nat
        },
    decreases n,
{
    if n > 0 {
        lemma_occupied_step(cap, default_bus, reqs, bus, i, n - 1);
    }
}

/// Puts `p` at `i` and marks its slot, keeping [`progress`].
proof fn lemma_place(
    cap: Capacity,
    default_bus: Bus,
    reqs: Seq<Placement>,
    out: Seq<Option<Placed>>,
    before: Taken,
    after: Taken,
    pinned: int,
    autos: int,
    i: int,
    p: Placed,
)
    requires
        0 <= i < reqs.len(),
        progress(cap, default_bus, reqs, out, before, pinned, autos),
        chosen_bus(cap, default_bus, reqs[i]) == Some(p.bus),
        cap.in_range(p.bus, p.index),
        !before.on(p.bus).contains(p.index),
        after.on(p.bus) == before.on(p.bus).insert(p.index),
        forall|b: Bus| b != p.bus ==> after.on(b) == before.on(b),
        match reqs[i].slot {
            Some(slot) => p.index == slot && i == pinned && autos == 0,
            None => i == autos && pinned == reqs.len() && (forall|s: u32|
                first_slot(p.bus) <= s < p.index ==> before.on(p.bus).contains(s)),
        },
    ensures
        reqs[i].slot is Some ==> progress(
            cap,
            default_bus,
            reqs,
            out.update(i, Some(p)),
            after,
            pinned + 1,
            autos,
        ),
        reqs[i].slot is None ==> progress(
            cap,
            default_bus,
            reqs,
            out.update(i, Some(p)),
            after,
            pinned,
            autos + 1,
        ),
{
    let new = out.update(i, Some(p));
    assert(!is_placed(reqs, pinned, autos, i));
    assert(out[i] is None);
    assert forall|bus: Bus, s: u32| #[trigger]
        after.on(bus).contains(s) <==> holds(new, Placed { bus, index: s }) by {
        let q = Placed { bus, index: s };
        if holds(out, q) {
            let j = choose|j: int| 0 <= j < out.len() && #[trigger] out[j] == Some(q);
            assert(new[j] == Some(q));
        }
        if q == p {
            assert(new[i] == Some(q));
        }
        if holds(new, q) && q != p {
            let j = choose|j: int| 0 <= j < new.len() && #[trigger] new[j] == Some(q);
            assert(out[j] == Some(q));
        }
        assert(before.on(bus).contains(s) <==> holds(out, q));
    }
    assert forall|a: int, b: int|
        0 <= a < b < new.len() && #[trigger] new[a] is Some && #[trigger] new[b] is Some implies new[a]
        != new[b] by {
        let q = if a == i {
            out[b]
        } else {
            out[a]
        };
        if a == i && out[b] == Some(p) {
            assert(holds(out, p));
        }
        if b == i && out[a] == Some(p) {
            assert(holds(out, p));
        }
    }
    assert forall|j: int, s: u32|
        0 <= j < reqs.len() && #[trigger] new[j] is Some && reqs[j].slot is None && first_slot(
            (new[j]->0).bus,
        ) <= s < (new[j]->0).index implies #[trigger] held_before(
        reqs,
        new,
        j,
        Placed { bus: (new[j]->0).bus, index: s },
    ) by {
        let q = Placed { bus: (new[j]->0).bus, index: s };
        if j == i {
            assert(before.on(p.bus).contains(s));
            assert(holds(out, q));
            let k = choose|k: int| 0 <= k < out.len() && #[trigger] out[k] == Some(q);
            assert(is_placed(reqs, pinned, autos, k));
            assert(new[k] == Some(q));
        } else {
            assert(out[j] == new[j]);
            assert(held_before(reqs, out, j, q));
            let k = choose|k: int|
                0 <= k < reqs.len() && (reqs[k].slot is Some || k < j) && #[trigger] out[k] == Some(
                    q,
                );
            assert(new[k] == Some(q));
        }
    }
    assert forall|bus: Bus|
        (#[trigger] after.on(bus)).finite() && after.on(bus).len() == if reqs[i].slot is Some {
            occupied(cap, default_bus, reqs, bus, autos, pinned + 1)
        } else {
            occupied(cap, default_bus, reqs, bus, autos + 1, pinned)
        } by {
        assert(before.on(bus).finite());
        if reqs[i].slot is None {
            lemma_occupied_step(cap, default_bus, reqs, bus, autos, pinned);
        }
    }
}

/// Assigns every request a bus and a slot.
///
/// A request goes to the bus it names, an error if the platform lacks it; one
/// that names none goes to `default_bus` when the platform has it, else to the
/// other bus. Requests with an explicit slot are placed first; the others take
/// the lowest free slot of their bus, in input order.
pub fn allocate(cap: &Capacity, default_bus: Bus, requests: &[Placement]) -> (r: Result<
    Vec<Placed>,
    AllocError,
>)
    ensures
        match r {
            Ok(placed) => {
                &&& pins_fit(*cap, default_bus, requests@)
                &&& autos_fit(*cap, default_bus, requests@)
                &&& allocation(*cap, default_bus, requests@, placed@)
            },
            Err(e) => {
                ||| first_pin_error(*cap, default_bus, requests@, e)
                ||| {
                    &&& pins_fit(*cap, default_bus, requests@)
                    &&& first_auto_error(*cap, default_bus, requests@, e)
                }
            },
        },
{
    let n: usize = requests.len();
    let mut taken = Taken::new();
    let mut out: Vec<Option<Placed>> = Vec::new();
    let mut k: usize = 0;
    while k < n
        invariant
            k <= n,
            out@.len() == k,
            forall|j: int| 0 <= j < k ==> #[trigger] out@[j] is None,
        decreases n - k,
    {
        out.push(None);
        k = k + 1;
    }
    let mut i: usize = 0;
    while i < n
        invariant
            n == requests@.len(),
            i <= n,
            progress(*cap, default_bus, requests@, out@, taken, i as int, 0),
            forall|j: int|
                0 <= j < i ==> #[trigger] pin_error(*cap, default_bus, requests@, j) is None,
        decreases n - i,
    {
        let req = &requests[i];
        if let Some(slot) = req.slot {
            let bus = match resolve_bus(cap, default_bus, req, i) {
                Ok(bus) => bus,
                Err(e) => {
                    assert(pin_error(*cap, default_bus, requests@, i as int) == Some(e));
                    return Err(e);
                },
            };
            let first: u32 = match bus {
                Bus::Pci => PCI_FIRST_SLOT,
                Bus::Mmio => 0,
            };
            let count: u32 = cap.slot_max(bus);
            if slot < first || slot - first >= count {
                let e = AllocError::SlotOutOfRange { index: i, bus, slot, max: count };
                assert(pin_error(*cap, default_bus, requests@, i as int) == Some(e));
                return Err(e);
            }
            let ghost before = taken;
            let ghost p = Placed { bus, index: slot };
            proof {
                assert(before.on(bus).contains(slot) <==> holds(out@, p));
                if holds(out@, p) {
                    let j = choose|j: int| 0 <= j < out@.len() && #[trigger] out@[j] == Some(p);
                    assert(is_placed(requests@, i as int, 0, j));
                    assert(pins(*cap, default_bus, requests@, j, bus, slot));
                }
                assert forall|j: int|
                    0 <= j < i && #[trigger] pins(
                        *cap,
                        default_bus,
                        requests@,
                        j,
                        bus,
                        slot,
                    ) implies holds(out@, p) by {
                    assert(out@[j] is Some);
                    assert(out@[j] == Some(p));
                }
            }
            if !taken.insert(bus, slot) {
                let e = AllocError::SlotConflict { index: i, bus, slot };
                assert(pin_error(*cap, default_bus, requests@, i as int) == Some(e));
                return Err(e);
            }
            proof {
                lemma_place(
                    *cap,
                    default_bus,
                    requests@,
                    out@,
                    before,
                    taken,
                    i as int,
                    0,
                    i as int,
                    p,
                );
            }
            out.set(i, Some(Placed { bus, index: slot }));
        }
        assert(pin_error(*cap, default_bus, requests@, i as int) is None);
        i = i + 1;
    }
    let mut i: usize = 0;
    while i < n
        invariant
            n == requests@.len(),
            i <= n,
            pins_fit(*cap, default_bus, requests@),
            progress(*cap, default_bus, requests@, out@, taken, n as int, i as int),
            forall|j: int|
                0 <= j < i ==> #[trigger] auto_error(*cap, default_bus, requests@, j) is None,
        decreases n - i,
    {
        let req = &requests[i];
        if req.slot.is_none() {
            let bus = match resolve_bus(cap, default_bus, req, i) {
                Ok(bus) => bus,
                Err(e) => {
                    assert(auto_error(*cap, default_bus, requests@, i as int) == Some(e));
                    return Err(e);
                },
            };
            proof {
                assert forall|s: u32| taken.on(bus).contains(s) implies cap.in_range(bus, s) by {
                    let p = Placed { bus, index: s };
                    assert(holds(out@, p));
                    let j = choose|j: int| 0 <= j < out@.len() && #[trigger] out@[j] == Some(p);
                }
                lemma_slot_set(*cap, bus, taken.on(bus));
            }
            let slot: u32 = match taken.lowest_free(cap, bus) {
                Some(slot) => slot,
                None => {
                    let e = AllocError::Exhausted {
                        index: i,
                        bus,
                        requested: n,
                        capacity: cap.slot_max(bus),
                    };
                    assert(auto_error(*cap, default_bus, requests@, i as int) == Some(e));
                    return Err(e);
                },
            };
            let ghost before = taken;
            taken.insert(bus, slot);
            proof {
                lemma_place(
                    *cap,
                    default_bus,
                    requests@,
                    out@,
                    before,
                    taken,
                    n as int,
                    i as int,
                    i as int,
                    Placed { bus, index: slot },
                );
            }
            out.set(i, Some(Placed { bus, index: slot }));
        } else {
            assert forall|bus: Bus|
                (#[trigger] taken.on(bus)).finite() && taken.on(bus).len() == occupied(
                    *cap,
                    default_bus,
                    requests@,
                    bus,
                    i + 1,
                    n as int,
                ) by {
                lemma_occupied_step(*cap, default_bus, requests@, bus, i as int, n as int);
            }
        }
        assert(auto_error(*cap, default_bus, requests@, i as int) is None);
        i = i + 1;
    }
    let mut placed: Vec<Placed> = Vec::new();
    let mut k: usize = 0;
    while k < n
        invariant
            n == requests@.len(),
            k <= n,
            progress(*cap, default_bus, requests@, out@, taken, n as int, n as int),
            placed@.len() == k,
            forall|j: int| 0 <= j < k ==> out@[j] == Some(#[trigger] placed@[j]),
        decreases n - k,
    {
        assert(is_placed(requests@, n as int, n as int, k as int));
        assert(out@[k as int] is Some);
        if let Some(p) = out[k] {
            placed.push(p);
        }
        k = k + 1;
    }
    proof {
        assert forall|i: int| 0 <= i < requests@.len() implies #[trigger] well_placed(
            *cap,
            default_bus,
            requests@,
            placed@,
            i,
        ) by {
            assert(out@[i] == Some(placed@[i]));
            if requests@[i].slot is None {
                assert forall|s: u32|
                    first_slot(placed@[i].bus) <= s
                        < placed@[i].index implies #[trigger] taken_before(
                    requests@,
                    placed@,
                    i,
                    Placed { bus: placed@[i].bus, index: s },
                ) by {
                    let q = Placed { bus: placed@[i].bus, index: s };
                    assert(held_before(requests@, out@, i, q));
                    let j = choose|j: int|
                        0 <= j < requests@.len() && (requests@[j].slot is Some || j < i)
                            && #[trigger] out@[j] == Some(q);
                    assert(placed@[j] == q);
                }
            }
        }
        assert forall|a: int, b: int| 0 <= a < b < placed@.len() implies #[trigger] placed@[a]
            != #[trigger] placed@[b] by {
            assert(out@[a] != out@[b]);
        }
    }
    Ok(placed)
}

/// Two placements of one layout agree: the platform, the default bus and the
/// requests decide where every device goes.
pub proof fn law_allocation_is_unique(
    cap: Capacity,
    default_bus: Bus,
    reqs: Seq<Placement>,
    a: Seq<Placed>,
    b: Seq<Placed>,
)
    requires
        allocation(cap, default_bus, reqs, a),
        allocation(cap, default_bus, reqs, b),
    ensures
        a == b,
{
    assert forall|i: int| 0 <= i < reqs.len() implies a[i] == b[i] by {
        lemma_same_place(cap, default_bus, reqs, a, b, i);
    }
    assert(a =~= b);
}

proof fn lemma_same_place(
    cap: Capacity,
    default_bus: Bus,
    reqs: Seq<Placement>,
    a: Seq<Placed>,
    b: Seq<Placed>,
    i: int,
)
    requires
        0 <= i < reqs.len(),
        allocation(cap, default_bus, reqs, a),
        allocation(cap, default_bus, reqs, b),
    ensures
        a[i] == b[i],
    decreases i,
{
    assert(well_placed(cap, default_bus, reqs, a, i));
    assert(well_placed(cap, default_bus, reqs, b, i));
    if reqs[i].slot is None && a[i] != b[i] {
        let (lo, hi) = if a[i].index < b[i].index {
            (a, b)
        } else {
            (b, a)
        };
        assert(taken_before(reqs, hi, i, lo[i]));
        let j = choose|j: int|
            0 <= j < reqs.len() && (reqs[j].slot is Some || j < i) && #[trigger] hi[j] == lo[i];
        assert(well_placed(cap, default_bus, reqs, a, j));
        assert(well_placed(cap, default_bus, reqs, b, j));
        if reqs[j].slot is None {
            lemma_same_place(cap, default_bus, reqs, a, b, j);
        }
        assert(lo[j] == lo[i]);
        assert(j != i);
    }
}

/// A device that pins a slot gets that slot, and no other device gets it.
pub proof fn law_pinned_slot_is_exclusive(
    cap: Capacity,
    default_bus: Bus,
    reqs: Seq<Placement>,
    placed: Seq<Placed>,
    i: int,
    j: int,
)
    requires
        allocation(cap, default_bus, reqs, placed),
        0 <= i < reqs.len(),
        0 <= j < reqs.len(),
        reqs[i].slot is Some,
        i != j,
    ensures
        placed[i].index == reqs[i].slot->0,
        placed[j].bus == placed[i].bus ==> placed[j].index != reqs[i].slot->0,
{
    assert(well_placed(cap, default_bus, reqs, placed, i));
    if i < j {
        assert(placed[i] != placed[j]);
    } else {
        assert(placed[j] != placed[i]);
    }
}

/// Where the devices of a layout go: a device that names a bus sits on it, one
/// that names none sits on the default bus as long as the platform has that, a
/// pinned slot is kept, PCI slots run from 1 and virtio-mmio slots from 0, and
/// no two devices share a slot of a bus.
pub proof fn law_devices_are_placed(
    cap: &Capacity,
    default_bus: Bus,
    requests: &[Placement],
    placed: Vec<Placed>,
)
    requires
        call_ensures(allocate, (cap, default_bus, requests), Ok(placed)),
    ensures
        placed@.len() == requests@.len(),
        forall|i: int|
            #![trigger placed@[i]]
            0 <= i < placed@.len() ==> {
                let asked = requests@[i];
                let got = placed@[i];
                &&& asked.bus is Some ==> got.bus == asked.bus->0
                &&& asked.bus is None && default_bus is Pci ==> (got.bus is Pci <==> cap.pci is Some)
                &&& asked.bus is None && default_bus is Mmio ==> (got.bus is Mmio <==> cap.mmio
                    > 0)
                &&& got.bus is Pci ==> cap.pci is Some && 1 <= got.index <= cap.pci->0
                &&& got.bus is Mmio ==> got.index < cap.mmio
                &&& asked.slot is Some ==> got.index == asked.slot->0
            },
        forall|i: int, j: int|
            0 <= i < j < placed@.len() && (#[trigger] placed@[i]).bus == (
            #[trigger] placed@[j]).bus ==> placed@[i].index != placed@[j].index,
{
    assert forall|i: int| #![trigger placed@[i]] 0 <= i < placed@.len() implies well_placed(
        *cap,
        default_bus,
        requests@,
        placed@,
        i,
    ) by {}
}

/// An automatic device takes the lowest slot that is left: of two slots of its
/// bus the lower one is held by a pinned device or by an earlier one.
pub proof fn law_lower_slots_are_held(
    cap: &Capacity,
    default_bus: Bus,
    requests: &[Placement],
    placed: Vec<Placed>,
    i: int,
    lower: int,
)
    requires
        call_ensures(allocate, (cap, default_bus, requests), Ok(placed)),
        0 <= i < placed@.len(),
        requests@[i].slot is None,
        placed@[i].bus is Pci ==> 1 <= lower,
        0 <= lower < placed@[i].index,
    ensures
        exists|j: int|
            0 <= j < placed@.len() && (requests@[j].slot is Some || j < i) && (
            #[trigger] placed@[j]).bus == placed@[i].bus && placed@[j].index == lower,
{
    assert(well_placed(*cap, default_bus, requests@, placed@, i));
    let p = Placed { bus: placed@[i].bus, index: lower as u32 };
    assert(taken_before(requests@, placed@, i, p));
    let j = choose|j: int|
        0 <= j < requests@.len() && (requests@[j].slot is Some || j < i) && #[trigger] placed@[j]
            == p;
    assert(placed@[j].bus == placed@[i].bus && placed@[j].index == lower);
}

/// What a refusal says is so: the named device asks for what the error states,
/// and the platform cannot give it.
pub proof fn law_refusals_are_founded(
    cap: &Capacity,
    default_bus: Bus,
    requests: &[Placement],
    e: AllocError,
)
    requires
        requests@.len() <= usize::MAX,
        call_ensures(allocate, (cap, default_bus, requests), Err(e)),
    ensures
        match e {
            AllocError::BusUnavailable { index, bus } => {
                &&& index < requests@.len()
                &&& requests@[index as int].bus == Some(bus)
                &&& bus is Pci ==> cap.pci is None
                &&& bus is Mmio ==> cap.mmio == 0
            },
            AllocError::NoBus { index } => {
                &&& index < requests@.len()
                &&& requests@[index as int].bus is None
                &&& cap.pci is None
                &&& cap.mmio == 0
            },
            AllocError::SlotOutOfRange { index, bus, slot, max } => {
                &&& index < requests@.len()
                &&& requests@[index as int].slot == Some(slot)
                &&& requests@[index as int].bus is Some ==> requests@[index as int].bus->0 == bus
                &&& bus is Pci ==> cap.pci == Some(max) && !(1 <= slot <= max)
                &&& bus is Mmio ==> cap.mmio == max && slot >= max
            },
            AllocError::SlotConflict { index, bus, slot } => {
                &&& index < requests@.len()
                &&& requests@[index as int].slot == Some(slot)
                &&& exists|j: int|
                    0 <= j < index && (#[trigger] requests@[j]).slot == Some(slot) && (
                    requests@[j].bus is Some ==> requests@[j].bus->0 == bus) && (
                    requests@[index as int].bus == requests@[j].bus || requests@[j].bus is None
                        || requests@[index as int].bus is None)
            },
            AllocError::Exhausted { index, bus, requested, capacity } => {
                &&& index < requests@.len()
                &&& requests@[index as int].slot is None
                &&& requests@[index as int].bus is Some ==> requests@[index as int].bus->0 == bus
                &&& bus is Pci ==> cap.pci == Some(capacity)
                &&& bus is Mmio ==> cap.mmio == capacity
                &&& requested == requests@.len()
                &&& capacity < requested
            },
        },
{
    if first_pin_error(*cap, default_bus, requests@, e) {
        let i = choose|i: int|
            0 <= i < requests@.len() && #[trigger] pin_error(*cap, default_bus, requests@, i)
                == Some(e) && (forall|j: int|
                0 <= j < i ==> #[trigger] pin_error(*cap, default_bus, requests@, j) is None);
        assert(i as usize == i);
        if let AllocError::SlotConflict { index, bus, slot } = e {
            let j = choose|j: int|
                0 <= j < i && #[trigger] pins(*cap, default_bus, requests@, j, bus, slot);
            assert(requests@[j].slot == Some(slot));
        }
    } else {
        let i = choose|i: int|
            0 <= i < requests@.len() && #[trigger] auto_error(*cap, default_bus, requests@, i)
                == Some(e) && (forall|j: int|
                0 <= j < i ==> #[trigger] auto_error(*cap, default_bus, requests@, j) is None);
        assert(i as usize == i);
        if let AllocError::Exhausted { index, bus, requested, capacity } = e {
            lemma_occupied_below(*cap, default_bus, requests@, bus, i, requests@.len() as int);
        }
    }
}

/// The requests placed before automatic request `i` leave that one out.
proof fn lemma_occupied_below(
    cap: Capacity,
    default_bus: Bus,
    reqs: Seq<Placement>,
    bus: Bus,
    i: int,
    n: int,
)
    requires
        0 <= i,
        0 <= n,
        reqs[i].slot is None,
    ensures
        occupied(cap, default_bus, reqs, bus, i, n) + if i < n {
            1int
        } else {
            0int
        } <= n,
    decreases n,
{
    if n > 0 {
        lemma_occupied_below(cap, default_bus, reqs, bus, i, n - 1);
    }
}

/// As many requests as asked for nothing were placed before one of them.
proof fn lemma_occupied_in_order(
    cap: Capacity,
    default_bus: Bus,
    reqs: Seq<Placement>,
    bus: Bus,
    i: int,
    n: int,
)
    requires
        0 <= n <= reqs.len(),
        0 <= i,
        forall|k: int|
            0 <= k < reqs.len() ==> (#[trigger] reqs[k]).slot is None && reqs[k].bus is None,
        chosen_bus(cap, default_bus, Placement { bus: None, slot: None }) == Some(bus),
    ensures
        occupied(cap, default_bus, reqs, bus, i, n) == if i < n {
            i
        } else {
            n
        },
    decreases n,
{
    if n > 0 {
        lemma_occupied_in_order(cap, default_bus, reqs, bus, i, n - 1);
        assert(reqs[n - 1] == Placement { bus: None, slot: None });
    }
}

/// Devices that ask for nothing are placed as long as the default bus has a
/// slot for each, one after the other from its first slot on.
pub proof fn law_plain_devices_follow_each_other(
    cap: &Capacity,
    default_bus: Bus,
    requests: &[Placement],
    r: Result<Vec<Placed>, AllocError>,
)
    requires
        call_ensures(allocate, (cap, default_bus, requests), r),
        forall|k: int|
            0 <= k < requests@.len() ==> (#[trigger] requests@[k]).slot is None
                && requests@[k].bus is None,
        match default_bus {
            Bus::Pci => cap.pci is Some && requests@.len() <= cap.pci->0,
            Bus::Mmio => 0 < cap.mmio && requests@.len() <= cap.mmio,
        },
    ensures
        r is Ok,
        r->Ok_0@.len() == requests@.len(),
        forall|k: int|
            0 <= k < requests@.len() ==> #[trigger] r->Ok_0@[k] == (Placed {
                bus: default_bus,
                index: if default_bus is Pci {
                    (k + 1) as u32
                } else {
                    k as u32
                },
            }),
{
    let reqs = requests@;
    assert forall|i: int| 0 <= i < reqs.len() implies #[trigger] auto_error(
        *cap,
        default_bus,
        reqs,
        i,
    ) is None && pin_error(*cap, default_bus, reqs, i) is None by {
        assert(reqs[i] == Placement { bus: None, slot: None });
        lemma_occupied_in_order(*cap, default_bus, reqs, default_bus, i, reqs.len() as int);
    }
    if let Err(e) = r {
        if first_pin_error(*cap, default_bus, reqs, e) {
            let i = choose|i: int|
                0 <= i < reqs.len() && #[trigger] pin_error(*cap, default_bus, reqs, i) == Some(e)
                    && (forall|j: int|
                    0 <= j < i ==> #[trigger] pin_error(*cap, default_bus, reqs, j) is None);
            assert(auto_error(*cap, default_bus, reqs, i) is None);
        }
        assert(false);
    }
    let placed = r->Ok_0@;
    let first: int = if default_bus is Pci {
        1
    } else {
        0
    };
    assert forall|k: int| 0 <= k < reqs.len() implies #[trigger] placed[k] == (Placed {
        bus: default_bus,
        index: (k + first) as u32,
    }) by {
        lemma_plain_place(*cap, default_bus, reqs, placed, k);
    }
}

proof fn lemma_plain_place(
    cap: Capacity,
    default_bus: Bus,
    reqs: Seq<Placement>,
    placed: Seq<Placed>,
    k: int,
)
    requires
        allocation(cap, default_bus, reqs, placed),
        cap.has(default_bus),
        0 <= k < reqs.len(),
        forall|k: int|
            0 <= k < reqs.len() ==> (#[trigger] reqs[k]).slot is None && reqs[k].bus is None,
    ensures
        placed[k].bus == default_bus,
        placed[k].index == k + first_slot(default_bus),
    decreases k,
{
    assert(well_placed(cap, default_bus, reqs, placed, k));
    assert(reqs[k] == Placement { bus: None, slot: None });
    let first = first_slot(default_bus);
    if placed[k].index < first + k {
        let j = placed[k].index - first;
        lemma_plain_place(cap, default_bus, reqs, placed, j);
        assert(placed[j] == placed[k]);
        assert(placed[j] != placed[k]);
    }
    if placed[k].index > first + k {
        let p = Placed { bus: default_bus, index: (first + k) as u32 };
        assert(taken_before(reqs, placed, k, p));
        let j = choose|j: int|
            0 <= j < reqs.len() && (reqs[j].slot is Some || j < k) && #[trigger] placed[j] == p;
        assert(reqs[j].slot is None);
        lemma_plain_place(cap, default_bus, reqs, placed, j);
    }
}

} // verus!

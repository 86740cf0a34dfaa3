//! GSI allocation and the GSI routing table.
//!
//! The table is committed to KVM, and interrupt descriptors are registered, by
//! the owner, after each change.
use vstd::prelude::*;

use crate::machine::HostArchitecture;

verus! {

/// The first GSI that is handed out: behind the pins of the IOAPIC.
pub const FIRST_MSI_GSI: u32 = 24;

/// How many routes an x86 table starts with: two PICs of eight pins and an IOAPIC
/// of 24.
pub const NUM_DEFAULT_ROUTES: usize = 40;

pub const IRQCHIP_PIC_MASTER: u32 = 0;

pub const IRQCHIP_PIC_SLAVE: u32 = 1;

pub const IRQCHIP_IOAPIC: u32 = 2;

/// The number of the only interrupt controller of an aarch64 machine.
pub const IRQCHIP_GIC: u32 = 0;

/// The INTID of the first shared interrupt.
pub const FIRST_SPI: u32 = 32;

/// Where a GSI leads.
#[derive(Debug, Clone, Copy, PartialEq, Eq, Structural)]
pub enum RouteTarget {
    /// A pin of an interrupt controller.
    IrqChip { irqchip: u32, pin: u32 },
    /// A message.
    Msi { address_lo: u32, address_hi: u32, data: u32 },
}

/// One entry of the routing table.
#[derive(Debug, Clone, Copy, PartialEq, Eq, Structural)]
pub struct Route {
    pub gsi: u32,
    pub target: RouteTarget,
}

/// Error of a route change.
#[derive(Debug, Clone, Copy, PartialEq, Eq, Structural)]
pub enum IrqError {
    /// There is no route to change.
    RoutingAllocation,
}

/// The GSIs and routes of a machine.
#[derive(Debug)]
pub struct IrqManager {
    arch: HostArchitecture,
    next_gsi: u32,
    /// Released GSIs, smallest first.
    free_gsis: Vec<u32>,
    routes: Vec<Route>,
    /// The GSIs with a registered interrupt descriptor, oldest first.
    irqfds: Vec<u32>,
    /// The shared interrupts that wait for the interrupt controller.
    pending_wired: Vec<u32>,
}

/// An [`IrqManager`] with its lists as sequences.
pub struct IrqView {
    pub arch: HostArchitecture,
    pub next_gsi: u32,
    pub free_gsis: Seq<u32>,
    pub routes: Seq<Route>,
    pub irqfds: Seq<u32>,
    pub pending_wired: Seq<u32>,
}

impl View for IrqManager {
    type V = IrqView;

    closed spec fn view(&self) -> IrqView {
        IrqView {
            arch: self.arch,
            next_gsi: self.next_gsi,
            free_gsis: self.free_gsis@,
            routes: self.routes@,
            irqfds: self.irqfds@,
            pending_wired: self.pending_wired@,
        }
    }
}

/// The routes that a machine starts with. An aarch64 machine has none.
pub open spec fn default_routes(arch: HostArchitecture) -> Seq<Route> {
    match arch {
        HostArchitecture::X86_64 => Seq::new(
            NUM_DEFAULT_ROUTES as nat,
            |i: int|
                if i < 8 {
                    chip_route(i as u32, IRQCHIP_PIC_MASTER, i as u32)
                } else if i < 16 {
                    chip_route(i as u32, IRQCHIP_PIC_SLAVE, (i - 8) as u32)
                } else {
                    chip_route((i - 16) as u32, IRQCHIP_IOAPIC, (i - 16) as u32)
                },
        ),
        HostArchitecture::Aarch64 => Seq::empty(),
    }
}

pub open spec fn chip_route(gsi: u32, irqchip: u32, pin: u32) -> Route {
    Route { gsi, target: RouteTarget::IrqChip { irqchip, pin } }
}

/// The route of a message. On aarch64 a message is a write of an INTID, and leads
/// to that shared interrupt.
pub open spec fn message_route(
    arch: HostArchitecture,
    gsi: u32,
    address_lo: u32,
    address_hi: u32,
    data: u32,
) -> Route {
    match arch {
        HostArchitecture::X86_64 => Route {
            gsi,
            target: RouteTarget::Msi { address_lo, address_hi, data },
        },
        HostArchitecture::Aarch64 => chip_route(gsi, IRQCHIP_GIC, (data - FIRST_SPI) as u32),
    }
}

/// A sorted list with one number put in.
pub open spec fn put(list: Seq<u32>, n: u32) -> Seq<u32>
    decreases list.len(),
{
    if list.len() == 0 || list[0] >= n {
        seq![n] + list
    } else {
        seq![list[0]] + put(list.drop_first(), n)
    }
}

/// Where a number stands first, from `i` on.
pub open spec fn place(list: Seq<u32>, n: u32, i: int) -> Option<int>
    decreases list.len() - i,
{
    if i < 0 || i >= list.len() {
        None
    } else if list[i] == n {
        Some(i)
    } else {
        place(list, n, i + 1)
    }
}

/// Where a route of a GSI stands first, from `i` on.
pub open spec fn route_place(routes: Seq<Route>, gsi: u32, i: int) -> Option<int>
    decreases routes.len() - i,
{
    if i < 0 || i >= routes.len() {
        None
    } else if routes[i].gsi == gsi {
        Some(i)
    } else {
        route_place(routes, gsi, i + 1)
    }
}

/// The routes without the messages of a GSI, or without any message.
pub open spec fn without_messages(routes: Seq<Route>, gsi: Option<u32>) -> Seq<Route>
    decreases routes.len(),
{
    if routes.len() == 0 {
        routes
    } else {
        let rest = without_messages(routes.drop_last(), gsi);
        let last = routes.last();
        if last.target is Msi && (gsi is None || gsi == Some(last.gsi)) {
            rest
        } else {
            rest.push(last)
        }
    }
}

impl IrqView {
    /// The free list is sorted.
    pub open spec fn wf(self) -> bool {
        forall|i: int, j: int|
            0 <= i <= j < self.free_gsis.len() ==> self.free_gsis[i] <= self.free_gsis[j]
    }

    /// The GSI that is handed out next: the smallest one that was released, or a
    /// new one.
    pub open spec fn next(self) -> u32 {
        if self.free_gsis.len() > 0 {
            self.free_gsis[0]
        } else {
            self.next_gsi
        }
    }

    /// Whether a message with some data can be routed. Without message routes the
    /// data is the number of a shared interrupt.
    pub open spec fn routes_data(self, data: u32) -> bool {
        self.arch is Aarch64 ==> data >= FIRST_SPI
    }

    /// Whether a GSI can be handed out.
    pub open spec fn has_next(self) -> bool {
        self.free_gsis.len() > 0 || self.next_gsi < u32::MAX
    }

    /// The state once the next GSI was handed out.
    pub open spec fn taken(self) -> IrqView {
        if self.free_gsis.len() > 0 {
            IrqView { free_gsis: self.free_gsis.drop_first(), ..self }
        } else {
            IrqView { next_gsi: (self.next_gsi + 1) as u32, ..self }
        }
    }

    /// The state once the next GSI was handed out for a route.
    pub open spec fn routed(self, route: Route) -> IrqView {
        IrqView { routes: self.routes.push(route), ..self.taken() }
    }

    /// The state once a descriptor is registered for a GSI.
    pub open spec fn bound(self, gsi: u32) -> IrqView {
        IrqView { irqfds: self.irqfds.push(gsi), ..self }
    }

    /// The state once a GSI was released; one without a descriptor changes
    /// nothing.
    pub open spec fn released(self, gsi: u32) -> IrqView {
        match place(self.irqfds, gsi, 0) {
            Some(i) => IrqView {
                irqfds: self.irqfds.remove(i),
                routes: without_messages(self.routes, Some(gsi)),
                free_gsis: put(self.free_gsis, gsi),
                ..self
            },
            None => self,
        }
    }

    /// The state once the first `n` of some GSIs were released.
    pub open spec fn released_all(self, gsis: Seq<u32>, n: int) -> IrqView
        decreases n,
    {
        if n <= 0 || n > gsis.len() {
            self
        } else {
            self.released_all(gsis, n - 1).released(gsis[n - 1])
        }
    }

    /// No GSI has two descriptors, and none that is free or still to come has
    /// one.
    pub open spec fn exclusive(self) -> bool {
        &&& self.irqfds.no_duplicates()
        &&& self.free_gsis.no_duplicates()
        &&& forall|i: int| 0 <= i < self.irqfds.len() ==> (#[trigger] self.irqfds[i])
            < self.next_gsi && !self.free_gsis.contains(self.irqfds[i])
        &&& forall|i: int| 0 <= i < self.free_gsis.len() ==> (#[trigger] self.free_gsis[i])
            < self.next_gsi
    }

    /// What a manager keeps whose descriptors are those of the GSIs that it handed
    /// out. Its GSIs start behind the pins of the IOAPIC; each one that was handed
    /// out is in use or free, and never both; and the routes of the interrupt
    /// controllers come first, before one message each for GSIs in use.
    pub open spec fn kept(self) -> bool {
        &&& self.wf()
        &&& self.exclusive()
        &&& FIRST_MSI_GSI <= self.next_gsi
        &&& forall|i: int|
            0 <= i < self.irqfds.len() ==> (#[trigger] self.irqfds[i]) >= FIRST_MSI_GSI
        &&& forall|i: int|
            0 <= i < self.free_gsis.len() ==> (#[trigger] self.free_gsis[i]) >= FIRST_MSI_GSI
        &&& forall|g: u32|
            FIRST_MSI_GSI <= g < self.next_gsi ==> #[trigger] self.irqfds.contains(g)
                || self.free_gsis.contains(g)
        &&& default_routes(self.arch).is_prefix_of(self.routes)
        &&& self.arch is X86_64 ==> messages_follow(self.routes, self.irqfds)
    }

    /// The state after one step.
    pub open spec fn after(self, step: IrqStep) -> IrqView {
        match step {
            IrqStep::Allocate { address_lo, address_hi, data } => self.routed(
                message_route(self.arch, self.next(), address_lo, address_hi, data),
            ).bound(self.next()),
            IrqStep::Release { gsi } => self.released(gsi),
            IrqStep::Teardown { gsis } => self.released_all(gsis, gsis.len() as int),
        }
    }
}

/// Whether the routes behind the first forty are one message each for some of the
/// GSIs in use.
pub open spec fn messages_follow(routes: Seq<Route>, irqfds: Seq<u32>) -> bool {
    &&& forall|i: int|
        NUM_DEFAULT_ROUTES <= i < routes.len() ==> (#[trigger] routes[i]).target is Msi
            && irqfds.contains(routes[i].gsi)
    &&& forall|i: int, j: int|
        NUM_DEFAULT_ROUTES <= i < j < routes.len() ==> (#[trigger] routes[i]).gsi != (
        #[trigger] routes[j]).gsi
}

/// A change of a manager.
pub enum IrqStep {
    /// A GSI is handed out for a message, and gets a descriptor.
    Allocate { address_lo: u32, address_hi: u32, data: u32 },
    /// A GSI is released.
    Release { gsi: u32 },
    /// The GSIs of a device are released.
    Teardown { gsis: Seq<u32> },
}

/// The manager that a run of steps leads to from a fresh one.
pub open spec fn reached(arch: HostArchitecture, steps: Seq<IrqStep>) -> IrqView
    decreases steps.len(),
{
    if steps.len() == 0 {
        IrqView {
            arch,
            next_gsi: FIRST_MSI_GSI,
            free_gsis: Seq::empty(),
            routes: default_routes(arch),
            irqfds: Seq::empty(),
            pending_wired: Seq::empty(),
        }
    } else {
        reached(arch, steps.drop_last()).after(steps.last())
    }
}

/// Whether a GSI is left wherever a run of steps needs one.
pub open spec fn gsis_suffice(arch: HostArchitecture, steps: Seq<IrqStep>) -> bool
    decreases steps.len(),
{
    steps.len() == 0 || (gsis_suffice(arch, steps.drop_last()) && (steps.last() is Allocate
        ==> reached(arch, steps.drop_last()).has_next()))
}

impl IrqManager {
    pub fn new(arch: HostArchitecture) -> (r: IrqManager)
        ensures
            r@ == (IrqView {
                arch,
                next_gsi: FIRST_MSI_GSI,
                free_gsis: Seq::empty(),
                routes: default_routes(arch),
                irqfds: Seq::empty(),
                pending_wired: Seq::empty(),
            }),
            r@.wf(),
            r@.exclusive(),
    {
        let mut routes: Vec<Route> = Vec::new();
        match arch {
            HostArchitecture::X86_64 => {
                let mut i: u32 = 0;
                while i < NUM_DEFAULT_ROUTES as u32
                    invariant
                        i <= NUM_DEFAULT_ROUTES,
                        routes@ == default_routes(HostArchitecture::X86_64).take(i as int),
                    decreases NUM_DEFAULT_ROUTES - i,
                {
                    let (gsi, irqchip, pin): (u32, u32, u32) = if i < 8 {
                        (i, IRQCHIP_PIC_MASTER, i)
                    } else if i < 16 {
                        (i, IRQCHIP_PIC_SLAVE, i - 8)
                    } else {
                        (i - 16, IRQCHIP_IOAPIC, i - 16)
                    };
                    routes.push(Route { gsi, target: RouteTarget::IrqChip { irqchip, pin } });
                    i = i + 1;
                    assert(routes@ =~= default_routes(HostArchitecture::X86_64).take(i as int));
                }
                assert(routes@ =~= default_routes(arch));
            },
            HostArchitecture::Aarch64 => {},
        }
        IrqManager {
            arch,
            next_gsi: FIRST_MSI_GSI,
            free_gsis: Vec::new(),
            routes,
            irqfds: Vec::new(),
            pending_wired: Vec::new(),
        }
    }

    /// Whether a GSI can be handed out.
    pub fn can_allocate(&self) -> (r: bool)
        ensures
            r == self@.has_next(),
    {
        self.free_gsis.len() > 0 || self.next_gsi < u32::MAX
    }

    /// Whether a message with some data can be routed.
    pub fn can_route(&self, data: u32) -> (r: bool)
        ensures
            r == self@.routes_data(data),
    {
        match self.arch {
            HostArchitecture::X86_64 => true,
            HostArchitecture::Aarch64 => data >= FIRST_SPI,
        }
    }

    /// Hands out the next GSI.
    fn take_gsi(&mut self) -> (r: u32)
        requires
            old(self)@.wf(),
            old(self)@.has_next(),
        ensures
            r == old(self)@.next(),
            final(self)@ == old(self)@.taken(),
            final(self)@.wf(),
    {
        if self.free_gsis.len() > 0 {
            let g: u32 = self.free_gsis.remove(0);
            assert(self@.free_gsis =~= old(self)@.free_gsis.drop_first());
            g
        } else {
            let g: u32 = self.next_gsi;
            self.next_gsi = self.next_gsi + 1;
            g
        }
    }

    /// Hands out a GSI and routes a message by it.
    pub fn allocate_irqfd(&mut self, addr_lo: u32, addr_hi: u32, data: u32) -> (r: u32)
        requires
            old(self)@.wf(),
            old(self)@.has_next(),
            old(self)@.routes_data(data),
        ensures
            final(self)@.wf(),
            r == old(self)@.next(),
            final(self)@ == old(self)@.routed(
                message_route(old(self)@.arch, r, addr_lo, addr_hi, data),
            ),
    {
        let gsi: u32 = self.take_gsi();
        let route = self.make_route(gsi, addr_lo, addr_hi, data);
        self.routes.push(route);
        gsi
    }

    /// Takes note of the descriptor that was registered for a GSI.
    pub fn bind_irqfd(&mut self, gsi: u32)
        requires
            old(self)@.wf(),
        ensures
            final(self)@.wf(),
            final(self)@ == old(self)@.bound(gsi),
    {
        self.irqfds.push(gsi);
    }

    fn make_route(&self, gsi: u32, addr_lo: u32, addr_hi: u32, data: u32) -> (r: Route)
        requires
            self@.routes_data(data),
        ensures
            r == message_route(self@.arch, gsi, addr_lo, addr_hi, data),
    {
        match self.arch {
            HostArchitecture::X86_64 => Route {
                gsi,
                target: RouteTarget::Msi { address_lo: addr_lo, address_hi: addr_hi, data },
            },
            HostArchitecture::Aarch64 => Route {
                gsi,
                target: RouteTarget::IrqChip { irqchip: IRQCHIP_GIC, pin: data - FIRST_SPI },
            },
        }
    }

    /// Puts off the route of a shared interrupt until the interrupt controller is
    /// there.
    pub fn register_spi_irqfd(&mut self, pin: u32)
        requires
            old(self)@.wf(),
        ensures
            final(self)@.wf(),
            final(self)@ == (IrqView {
                pending_wired: old(self)@.pending_wired.push(pin),
                ..old(self)@
            }),
    {
        self.pending_wired.push(pin);
    }

    /// Hands out a GSI for the shared interrupt that has waited longest, and
    /// routes it.
    pub fn flush_pending_wired(&mut self) -> (r: Option<(u32, u32)>)
        requires
            old(self)@.wf(),
            old(self)@.pending_wired.len() > 0 ==> old(self)@.has_next(),
        ensures
            final(self)@.wf(),
            if old(self)@.pending_wired.len() == 0 {
                r is None && final(self)@ == old(self)@
            } else {
                let pin = old(self)@.pending_wired[0];
                let gsi = old(self)@.next();
                &&& r == Some((gsi, pin))
                &&& final(self)@ == (IrqView {
                    pending_wired: old(self)@.pending_wired.drop_first(),
                    ..old(self)@.routed(chip_route(gsi, IRQCHIP_GIC, pin))
                })
            },
    {
        if self.pending_wired.len() == 0 {
            return None;
        }
        let pin: u32 = self.pending_wired.remove(0);
        assert(self@.pending_wired =~= old(self)@.pending_wired.drop_first());
        let gsi: u32 = self.take_gsi();
        self.routes.push(
            Route { gsi, target: RouteTarget::IrqChip { irqchip: IRQCHIP_GIC, pin } },
        );
        Some((gsi, pin))
    }

    /// Gives up the shared interrupts that still wait for a route.
    pub fn drop_pending_wired(&mut self)
        requires
            old(self)@.wf(),
        ensures
            final(self)@.wf(),
            final(self)@ == (IrqView { pending_wired: Seq::empty(), ..old(self)@ }),
    {
        self.pending_wired = Vec::new();
        assert(self@.pending_wired =~= Seq::<u32>::empty());
    }

    /// Changes where a GSI leads: its first route.
    pub fn update_route(&mut self, gsi: u32, addr_lo: u32, addr_hi: u32, data: u32) -> (r: Result<
        (),
        IrqError,
    >)
        requires
            old(self)@.wf(),
            route_place(old(self)@.routes, gsi, 0) is Some ==> old(self)@.routes_data(data),
        ensures
            final(self)@.wf(),
            match route_place(old(self)@.routes, gsi, 0) {
                Some(i) => {
                    &&& r is Ok
                    &&& final(self)@ == (IrqView {
                        routes: old(self)@.routes.update(
                            i,
                            message_route(old(self)@.arch, gsi, addr_lo, addr_hi, data),
                        ),
                        ..old(self)@
                    })
                },
                None => {
                    &&& r == Err::<(), _>(IrqError::RoutingAllocation)
                    &&& final(self)@ == old(self)@
                },
            },
    {
        let mut i: usize = 0;
        while i < self.routes.len()
            invariant
                i <= self.routes@.len(),
                *self == *old(self),
                old(self)@.wf(),
                route_place(old(self)@.routes, gsi, 0) is Some ==> old(self)@.routes_data(data),
                route_place(self.routes@, gsi, 0) == route_place(self.routes@, gsi, i as int),
            decreases self.routes@.len() - i,
        {
            if self.routes[i].gsi == gsi {
                let route = self.make_route(gsi, addr_lo, addr_hi, data);
                self.routes.set(i, route);
                return Ok(());
            }
            i = i + 1;
        }
        Err(IrqError::RoutingAllocation)
    }

    /// Forgets every descriptor and every message route.
    pub fn teardown_irqfds(&mut self)
        requires
            old(self)@.wf(),
        ensures
            final(self)@.wf(),
            final(self)@ == (IrqView {
                irqfds: Seq::empty(),
                routes: without_messages(old(self)@.routes, None),
                ..old(self)@
            }),
    {
        self.irqfds.clear();
        self.drop_messages(None);
    }

    /// Releases a GSI, so that it can be handed out again. Releasing one without
    /// a descriptor does nothing.
    pub fn release_irqfd(&mut self, gsi: u32)
        requires
            old(self)@.wf(),
        ensures
            final(self)@.wf(),
            final(self)@ == old(self)@.released(gsi),
    {
        let mut i: usize = 0;
        while i < self.irqfds.len()
            invariant
                i <= self.irqfds@.len(),
                *self == *old(self),
                old(self)@.wf(),
                place(self.irqfds@, gsi, 0) == place(self.irqfds@, gsi, i as int),
            decreases self.irqfds@.len() - i,
        {
            if self.irqfds[i] == gsi {
                self.irqfds.remove(i);
                self.drop_messages(Some(gsi));
                self.free(gsi);
                return;
            }
            i = i + 1;
        }
    }

    /// Releases the GSIs of one device.
    pub fn teardown_device_irqfds(&mut self, gsis: &[u32])
        requires
            old(self)@.wf(),
        ensures
            final(self)@.wf(),
            final(self)@ == old(self)@.released_all(gsis@, gsis@.len() as int),
    {
        let mut i: usize = 0;
        while i < gsis.len()
            invariant
                i <= gsis@.len(),
                self@.wf(),
                self@ == old(self)@.released_all(gsis@, i as int),
            decreases gsis@.len() - i,
        {
            self.release_irqfd(gsis[i]);
            i = i + 1;
        }
    }

    pub fn route_count(&self) -> (r: usize)
        ensures
            r == self@.routes.len(),
    {
        self.routes.len()
    }

    pub fn routes(&self) -> (r: &[Route])
        ensures
            r@ == self@.routes,
    {
        self.routes.as_slice()
    }

    /// Removes message routes: those of one GSI, or all.
    fn drop_messages(&mut self, gsi: Option<u32>)
        requires
            old(self)@.wf(),
        ensures
            final(self)@.wf(),
            final(self)@ == (IrqView {
                routes: without_messages(old(self)@.routes, gsi),
                ..old(self)@
            }),
    {
        let mut kept: Vec<Route> = Vec::new();
        let mut i: usize = 0;
        assert(self.routes@.take(0) =~= Seq::<Route>::empty());
        while i < self.routes.len()
            invariant
                i <= self.routes@.len(),
                *self == *old(self),
                kept@ == without_messages(self.routes@.take(i as int), gsi),
            decreases self.routes@.len() - i,
        {
            let route = self.routes[i];
            let message = match route.target {
                RouteTarget::Msi { .. } => true,
                RouteTarget::IrqChip { .. } => false,
            };
            let named = match gsi {
                Some(g) => g == route.gsi,
                None => true,
            };
            proof {
                let upto = self.routes@.take(i + 1);
                assert(upto.drop_last() =~= self.routes@.take(i as int));
                assert(upto.last() == route);
            }
            if !(message && named) {
                kept.push(route);
            }
            i = i + 1;
        }
        assert(self.routes@.take(i as int) =~= self.routes@);
        self.routes = kept;
    }

    /// Puts a GSI on the free list.
    fn free(&mut self, gsi: u32)
        requires
            old(self)@.wf(),
        ensures
            final(self)@.wf(),
            final(self)@ == (IrqView { free_gsis: put(old(self)@.free_gsis, gsi), ..old(self)@ }),
    {
        let mut i: usize = 0;
        while i < self.free_gsis.len() && self.free_gsis[i] < gsi
            invariant
                i <= self.free_gsis@.len(),
                *self == *old(self),
                forall|k: int| 0 <= k < i ==> #[trigger] self.free_gsis@[k] < gsi,
            decreases self.free_gsis@.len() - i,
        {
            i = i + 1;
        }
        self.free_gsis.insert(i, gsi);
        proof {
            lemma_put_inserts(old(self)@.free_gsis, gsi, i as int);
        }
    }
}

/// Putting a number into a sorted list inserts it before the first one that is not
/// smaller.
proof fn lemma_put_inserts(list: Seq<u32>, n: u32, i: int)
    requires
        0 <= i <= list.len(),
        forall|k: int| 0 <= k < i ==> #[trigger] list[k] < n,
        i < list.len() ==> list[i] >= n,
    ensures
        put(list, n) == list.insert(i, n),
    decreases list.len(),
{
    if i == 0 {
        assert(seq![n] + list =~= list.insert(0, n));
    } else {
        let rest = list.drop_first();
        assert forall|k: int| 0 <= k < i - 1 implies #[trigger] rest[k] < n by {
            assert(rest[k] == list[k + 1]);
        }
        lemma_put_inserts(rest, n, i - 1);
        assert(list[0] < n);
        assert(seq![list[0]] + rest.insert(i - 1, n) =~= list.insert(i, n));
    }
}

/// Where a number goes in a sorted list.
proof fn lemma_put_place(list: Seq<u32>, n: u32) -> (i: int)
    ensures
        0 <= i <= list.len(),
        put(list, n) == list.insert(i, n),
        forall|k: int| 0 <= k < i ==> #[trigger] list[k] < n,
        i < list.len() ==> list[i] >= n,
    decreases list.len(),
{
    if list.len() == 0 || list[0] >= n {
        assert(seq![n] + list =~= list.insert(0, n));
        0
    } else {
        let rest = list.drop_first();
        let i = lemma_put_place(rest, n);
        assert forall|k: int| 0 <= k < i + 1 implies #[trigger] list[k] < n by {
            if k > 0 {
                assert(rest[k - 1] < n);
            }
        }
        assert(i + 1 < list.len() ==> list[i + 1] == rest[i]);
        lemma_put_inserts(list, n, i + 1);
        i + 1
    }
}

proof fn lemma_place(list: Seq<u32>, n: u32, i: int)
    requires
        0 <= i <= list.len(),
    ensures
        match place(list, n, i) {
            Some(p) => i <= p < list.len() && list[p] == n,
            None => forall|k: int| i <= k < list.len() ==> list[k] != n,
        },
    decreases list.len() - i,
{
    if i < list.len() && list[i] != n {
        lemma_place(list, n, i + 1);
    }
}

/// A GSI that is handed out has no descriptor, and once it has one, no GSI has two
/// and none that is free has one.
pub proof fn law_allocated_gsi_is_unused(m: IrqView, route: Route)
    requires
        m.exclusive(),
        m.has_next(),
    ensures
        !m.irqfds.contains(m.next()),
        m.routed(route).bound(m.next()).exclusive(),
{
    let gsi = m.next();
    if m.free_gsis.len() > 0 {
        assert(m.free_gsis.contains(m.free_gsis[0]));
    }
    assert(!m.irqfds.contains(gsi));
    let after = m.routed(route).bound(gsi);
    assert forall|i: int| 0 <= i < after.irqfds.len() implies (#[trigger] after.irqfds[i])
        < after.next_gsi && !after.free_gsis.contains(after.irqfds[i]) by {
        if i < m.irqfds.len() {
            assert(after.irqfds[i] == m.irqfds[i]);
        }
        if after.free_gsis.contains(after.irqfds[i]) {
            let j = choose|j: int|
                0 <= j < after.free_gsis.len() && after.free_gsis[j] == after.irqfds[i];
            if m.free_gsis.len() > 0 {
                assert(after.free_gsis[j] == m.free_gsis[j + 1]);
                assert(m.free_gsis.contains(m.free_gsis[j + 1]));
            }
        }
    }
}

/// The smallest of the GSIs that were released is handed out first.
pub proof fn law_smallest_free_gsi_comes_first(m: IrqView, i: int)
    requires
        m.wf(),
        0 <= i < m.free_gsis.len(),
    ensures
        m.next() <= m.free_gsis[i],
{
}

/// Releasing a GSI frees it, and keeps GSIs and descriptors apart.
pub proof fn law_released_gsi_is_free(m: IrqView, gsi: u32)
    requires
        m.exclusive(),
        m.irqfds.contains(gsi),
    ensures
        m.released(gsi).exclusive(),
        m.released(gsi).free_gsis.contains(gsi),
        !m.released(gsi).irqfds.contains(gsi),
        m.released(gsi).next() <= gsi,
{
    lemma_place(m.irqfds, gsi, 0);
    let p = place(m.irqfds, gsi, 0)->0;
    let i = lemma_put_place(m.free_gsis, gsi);
    let after = m.released(gsi);
    assert(after.irqfds =~= m.irqfds.remove(p));
    assert(after.free_gsis[i] == gsi);
    assert forall|k: int| 0 <= k < after.irqfds.len() implies (#[trigger] after.irqfds[k])
        < after.next_gsi && !after.free_gsis.contains(after.irqfds[k]) by {
        let q = if k < p {
            k
        } else {
            k + 1
        };
        assert(after.irqfds[k] == m.irqfds[q]);
        assert(m.irqfds[q] != m.irqfds[p]);
        if after.free_gsis.contains(after.irqfds[k]) {
            let j = choose|j: int|
                0 <= j < after.free_gsis.len() && after.free_gsis[j] == after.irqfds[k];
            let s = if j < i {
                j
            } else {
                j - 1
            };
            if j != i {
                assert(after.free_gsis[j] == m.free_gsis[s]);
                assert(m.free_gsis.contains(m.free_gsis[s]));
            }
        }
    }
    assert(!m.free_gsis.contains(gsi));
    assert forall|a: int, b: int|
        0 <= a < after.free_gsis.len() && 0 <= b < after.free_gsis.len() && a != b implies
        after.free_gsis[a] != after.free_gsis[b] by {
        let sa = if a < i {
            a
        } else {
            a - 1
        };
        let sb = if b < i {
            b
        } else {
            b - 1
        };
        if a != i {
            assert(after.free_gsis[a] == m.free_gsis[sa]);
            assert(m.free_gsis.contains(m.free_gsis[sa]));
        }
        if b != i {
            assert(after.free_gsis[b] == m.free_gsis[sb]);
            assert(m.free_gsis.contains(m.free_gsis[sb]));
        }
    }
    assert forall|a: int| 0 <= a < after.free_gsis.len() implies (#[trigger] after.free_gsis[a])
        < after.next_gsi by {
        let sa = if a < i {
            a
        } else {
            a - 1
        };
        if a != i {
            assert(after.free_gsis[a] == m.free_gsis[sa]);
        }
    }
    if after.irqfds.contains(gsi) {
        let k = choose|k: int| 0 <= k < after.irqfds.len() && after.irqfds[k] == gsi;
        let q = if k < p {
            k
        } else {
            k + 1
        };
        assert(after.irqfds[k] == m.irqfds[q]);
    }
}

/// Tearing down the messages leaves the routes of the interrupt controllers.
pub proof fn law_teardown_keeps_chip_routes(routes: Seq<Route>, gsi: Option<u32>, route: Route)
    requires
        routes.contains(route),
        route.target is IrqChip,
    ensures
        without_messages(routes, gsi).contains(route),
    decreases routes.len(),
{
    let rest = without_messages(routes.drop_last(), gsi);
    let i = choose|i: int| 0 <= i < routes.len() && routes[i] == route;
    if i == routes.len() - 1 {
        assert(rest.push(route).last() == route);
        assert(rest.push(route)[rest.len() as int] == route);
    } else {
        assert(routes.drop_last()[i] == route);
        law_teardown_keeps_chip_routes(routes.drop_last(), gsi, route);
        let k = choose|k: int| 0 <= k < rest.len() && rest[k] == route;
        assert(rest.push(routes.last())[k] == route);
    }
}

/// Removing messages keeps the routes of interrupt controllers that come first, and
/// leaves only routes that were there, in their order.
proof fn lemma_without_messages(routes: Seq<Route>, gsi: Option<u32>, first: Seq<Route>)
    requires
        first.is_prefix_of(routes),
        forall|i: int| 0 <= i < first.len() ==> (#[trigger] first[i]).target is IrqChip,
        forall|i: int| first.len() <= i < routes.len() ==> (#[trigger] routes[i]).target is Msi,
        forall|i: int, j: int|
            first.len() <= i < j < routes.len() ==> (#[trigger] routes[i]).gsi != (
            #[trigger] routes[j]).gsi,
    ensures
        first.is_prefix_of(without_messages(routes, gsi)),
        forall|i: int|
            first.len() <= i < without_messages(routes, gsi).len() ==> (#[trigger] routes.skip(
                first.len() as int,
            ).contains(without_messages(routes, gsi)[i])) && (gsi matches Some(g)
                ==> without_messages(routes, gsi)[i].gsi != g) && gsi is Some,
        forall|i: int, j: int|
            first.len() <= i < j < without_messages(routes, gsi).len() ==> (
            #[trigger] without_messages(routes, gsi)[i]).gsi != (#[trigger] without_messages(
                routes,
                gsi,
            )[j]).gsi,
    decreases routes.len(),
{
    let n = first.len() as int;
    let out = without_messages(routes, gsi);
    if routes.len() == 0 {
    } else if routes.len() == n {
        assert(first =~= routes);
        let less = routes.drop_last();
        assert forall|i: int| 0 <= i < less.len() implies (#[trigger] less[i]).target is IrqChip by {
            assert(less[i] == first[i]);
        }
        lemma_without_messages(less, gsi, less);
        assert(routes.last() == first[n - 1]);
        let rest = without_messages(less, gsi);
        lemma_no_longer(less, gsi);
        assert(rest =~= less);
        assert(out =~= routes);
    } else {
        let less = routes.drop_last();
        let rest = without_messages(less, gsi);
        assert(first =~= less.subrange(0, n));
        lemma_without_messages(less, gsi, first);
        assert(routes.last() == routes[routes.len() - 1]);
        assert forall|i: int| n <= i < out.len() implies (#[trigger] routes.skip(n).contains(
            out[i],
        )) && (gsi matches Some(g) ==> out[i].gsi != g) && gsi is Some by {
            if i < rest.len() {
                assert(out[i] == rest[i]);
                assert(less.skip(n).contains(rest[i]));
                let k = choose|k: int| 0 <= k < less.skip(n).len() && less.skip(n)[k] == rest[i];
                assert(routes.skip(n)[k] == rest[i]);
            } else {
                assert(routes.skip(n)[routes.len() - 1 - n] == out[i]);
            }
        }
        assert forall|i: int, j: int| n <= i < j < out.len() implies (#[trigger] out[i]).gsi != (
        #[trigger] out[j]).gsi by {
            assert(out[i] == rest[i]);
            if j < rest.len() {
                assert(out[j] == rest[j]);
            } else {
                assert(less.skip(n).contains(rest[i]));
                let k = choose|k: int| 0 <= k < less.skip(n).len() && less.skip(n)[k] == rest[i];
                assert(routes[k + n] == rest[i]);
            }
        }
    }
}

proof fn lemma_no_longer(routes: Seq<Route>, gsi: Option<u32>)
    ensures
        without_messages(routes, gsi).len() <= routes.len(),
    decreases routes.len(),
{
    if routes.len() > 0 {
        lemma_no_longer(routes.drop_last(), gsi);
    }
}

/// Handing out a GSI for a message keeps what a manager keeps.
proof fn lemma_allocate_keeps(m: IrqView, route: Route)
    requires
        m.kept(),
        m.has_next(),
        route.gsi == m.next(),
        m.arch is X86_64 ==> route.target is Msi,
    ensures
        m.routed(route).bound(m.next()).kept(),
{
    let gsi = m.next();
    let after = m.routed(route).bound(gsi);
    law_allocated_gsi_is_unused(m, route);
    assert(gsi >= FIRST_MSI_GSI);
    assert(after.irqfds[m.irqfds.len() as int] == gsi);
    assert forall|i: int| 0 <= i < after.free_gsis.len() implies (#[trigger] after.free_gsis[i])
        >= FIRST_MSI_GSI by {
        if m.free_gsis.len() > 0 {
            assert(after.free_gsis[i] == m.free_gsis[i + 1]);
        }
    }
    assert forall|g: u32| FIRST_MSI_GSI <= g < after.next_gsi implies (
    #[trigger] after.irqfds.contains(g)) || after.free_gsis.contains(g) by {
        if g != gsi {
            assert(g < m.next_gsi);
            if m.irqfds.contains(g) {
                let k = choose|k: int| 0 <= k < m.irqfds.len() && m.irqfds[k] == g;
                assert(after.irqfds[k] == g);
            } else {
                let k = choose|k: int| 0 <= k < m.free_gsis.len() && m.free_gsis[k] == g;
                assert(after.free_gsis[k - 1] == g);
            }
        }
    }
    if m.arch is X86_64 {
        assert forall|i: int| NUM_DEFAULT_ROUTES <= i < after.routes.len() implies (
        #[trigger] after.routes[i]).target is Msi && after.irqfds.contains(after.routes[i].gsi) by {
            if i < m.routes.len() {
                let k = choose|k: int|
                    0 <= k < m.irqfds.len() && m.irqfds[k] == m.routes[i].gsi;
                assert(after.irqfds[k] == m.routes[i].gsi);
            }
        }
        assert forall|i: int, j: int| NUM_DEFAULT_ROUTES <= i < j < after.routes.len() implies (
        #[trigger] after.routes[i]).gsi != (#[trigger] after.routes[j]).gsi by {
            assert(after.routes[i] == m.routes[i]);
            if j < m.routes.len() {
                assert(after.routes[j] == m.routes[j]);
            } else {
                assert(m.irqfds.contains(m.routes[i].gsi));
            }
        }
    }
}

/// Releasing a GSI keeps what a manager keeps.
proof fn lemma_release_keeps(m: IrqView, gsi: u32)
    requires
        m.kept(),
    ensures
        m.released(gsi).kept(),
        m.released(gsi).arch == m.arch,
{
    lemma_place(m.irqfds, gsi, 0);
    if m.irqfds.contains(gsi) {
        let after = m.released(gsi);
        law_released_gsi_is_free(m, gsi);
        let p = place(m.irqfds, gsi, 0)->0;
        let at = lemma_put_place(m.free_gsis, gsi);
        assert(m.irqfds[p] == gsi);
        assert forall|i: int| 0 <= i < after.irqfds.len() implies (#[trigger] after.irqfds[i])
            >= FIRST_MSI_GSI by {
            assert(after.irqfds[i] == m.irqfds[if i < p {
                i
            } else {
                i + 1
            }]);
        }
        assert forall|i: int| 0 <= i < after.free_gsis.len() implies (#[trigger] after.free_gsis[i])
            >= FIRST_MSI_GSI by {
            if i != at {
                assert(after.free_gsis[i] == m.free_gsis[if i < at {
                    i
                } else {
                    i - 1
                }]);
            }
        }
        assert(after.wf());
        assert forall|g: u32| FIRST_MSI_GSI <= g < after.next_gsi implies (
        #[trigger] after.irqfds.contains(g)) || after.free_gsis.contains(g) by {
            if g != gsi {
                if m.irqfds.contains(g) {
                    lemma_removed(m.irqfds, p, g);
                } else {
                    let k = choose|k: int| 0 <= k < m.free_gsis.len() && m.free_gsis[k] == g;
                    assert(after.free_gsis[if k < at {
                        k
                    } else {
                        k + 1
                    }] == g);
                }
            }
        }
        let first = default_routes(m.arch);
        match m.arch {
            HostArchitecture::X86_64 => {
                lemma_without_messages(m.routes, Some(gsi), first);
                let kept = after.routes;
                assert forall|i: int| NUM_DEFAULT_ROUTES <= i < kept.len() implies (
                #[trigger] kept[i]).target is Msi && after.irqfds.contains(kept[i].gsi) by {
                    assert(m.routes.skip(first.len() as int).contains(kept[i]));
                    let k = choose|k: int|
                        0 <= k < m.routes.skip(first.len() as int).len() && m.routes.skip(
                            first.len() as int,
                        )[k] == kept[i];
                    assert(m.routes[k + first.len()] == kept[i]);
                    lemma_removed(m.irqfds, p, kept[i].gsi);
                }
            },
            HostArchitecture::Aarch64 => {
                assert(first.is_prefix_of(after.routes));
            },
        }
    } else {
        if place(m.irqfds, gsi, 0) is Some {
            assert(m.irqfds.contains(m.irqfds[place(m.irqfds, gsi, 0)->0]));
        }
    }
}

/// What is in a list, and is not what stands at `p`, stays when `p` is removed.
proof fn lemma_removed(list: Seq<u32>, p: int, g: u32)
    requires
        0 <= p < list.len(),
        list.contains(g),
        g != list[p],
    ensures
        list.remove(p).contains(g),
{
    let k = choose|k: int| 0 <= k < list.len() && list[k] == g;
    assert(list.remove(p)[if k < p {
        k
    } else {
        k - 1
    }] == g);
}

proof fn lemma_release_all_keeps(m: IrqView, gsis: Seq<u32>, n: int)
    requires
        m.kept(),
    ensures
        m.released_all(gsis, n).kept(),
        m.released_all(gsis, n).arch == m.arch,
    decreases n,
{
    if 0 < n <= gsis.len() {
        lemma_release_all_keeps(m, gsis, n - 1);
        lemma_release_keeps(m.released_all(gsis, n - 1), gsis[n - 1]);
    }
}

/// However GSIs were handed out, released and torn down: none is in use twice or in
/// use and free, all start at the first one behind the pins of the IOAPIC and none
/// is skipped, and the routes that a machine starts with stay first, in order,
/// before one message for each further route. The GSI that comes next is the smallest
/// free one, else the first that was never handed out; it is not in use, and gets
/// one route behind all others.
pub proof fn law_reached_manager_is_kept(
    arch: HostArchitecture,
    steps: Seq<IrqStep>,
    address_lo: u32,
    address_hi: u32,
    data: u32,
)
    requires
        gsis_suffice(arch, steps),
    ensures
        ({
            let m = reached(arch, steps);
            let after = m.after(IrqStep::Allocate { address_lo, address_hi, data });
            &&& m.arch == arch
            &&& m.kept()
            &&& m.has_next() ==> {
                &&& m.next() >= FIRST_MSI_GSI
                &&& !m.irqfds.contains(m.next())
                &&& forall|i: int| 0 <= i < m.free_gsis.len() ==> m.next() <= m.free_gsis[i]
                &&& m.free_gsis.len() == 0 ==> m.next() == m.next_gsi
                &&& after.irqfds == m.irqfds.push(m.next())
                &&& after.routes == m.routes.push(
                    message_route(arch, m.next(), address_lo, address_hi, data),
                )
                &&& after.kept()
            }
        }),
    decreases steps.len(),
{
    let m = reached(arch, steps);
    if steps.len() > 0 {
        let less = steps.drop_last();
        let before = reached(arch, less);
        law_reached_manager_is_kept(arch, less, address_lo, address_hi, data);
        match steps.last() {
            IrqStep::Allocate { address_lo, address_hi, data } => {
                lemma_allocate_keeps(
                    before,
                    message_route(arch, before.next(), address_lo, address_hi, data),
                );
            },
            IrqStep::Release { gsi } => {
                lemma_release_keeps(before, gsi);
            },
            IrqStep::Teardown { gsis } => {
                lemma_release_all_keeps(before, gsis, gsis.len() as int);
            },
        }
    }
    if m.has_next() {
        let route = message_route(arch, m.next(), address_lo, address_hi, data);
        lemma_allocate_keeps(m, route);
        law_allocated_gsi_is_unused(m, route);
    }
}

/// An x86 machine starts with every pin of its three interrupt controllers routed once:
/// GSI by GSI the pins of the IOAPIC, and below sixteen the pins of the two PICs.
pub proof fn law_default_routes(i: int)
    requires
        0 <= i < 40,
    ensures
        ({
            let r = default_routes(HostArchitecture::X86_64);
            &&& r.len() == 40
            &&& i < 8 ==> r[i] == (Route {
                gsi: i as u32,
                target: RouteTarget::IrqChip { irqchip: 0, pin: i as u32 },
            })
            &&& 8 <= i < 16 ==> r[i] == (Route {
                gsi: i as u32,
                target: RouteTarget::IrqChip { irqchip: 1, pin: (i - 8) as u32 },
            })
            &&& 16 <= i ==> r[i] == (Route {
                gsi: (i - 16) as u32,
                target: RouteTarget::IrqChip { irqchip: 2, pin: (i - 16) as u32 },
            })
            &&& r[i].gsi < 24
        }),
        default_routes(HostArchitecture::Aarch64).len() == 0,
        reached(HostArchitecture::X86_64, Seq::empty()).next() == 24,
        reached(HostArchitecture::Aarch64, Seq::empty()).next() == 24,
{
}

/// A message is routed by the GSI that was handed out for it, with its address and data;
/// on aarch64 its data is the number of the shared interrupt that it leads to.
pub proof fn law_message_reaches_its_target(gsi: u32, lo: u32, hi: u32, data: u32)
    ensures
        message_route(HostArchitecture::X86_64, gsi, lo, hi, data).gsi == gsi,
        message_route(HostArchitecture::X86_64, gsi, lo, hi, data).target
            matches RouteTarget::Msi { address_lo, address_hi, data: d } && address_lo == lo
            && address_hi == hi && d == data,
        data >= 32 ==> {
            let route = message_route(HostArchitecture::Aarch64, gsi, lo, hi, data);
            &&& route.gsi == gsi
            &&& route.target matches RouteTarget::IrqChip { irqchip, pin } && irqchip == 0 && pin
                + 32 == data
        },
{
}

/// A GSI that is handed out is the smallest released one, which is then not free any
/// more, or else the next new one; the route is put behind the others.
pub proof fn law_handing_out(m: IrqView, route: Route)
    requires
        m.wf(),
        m.has_next(),
    ensures
        m.routed(route).routes == m.routes.push(route),
        m.routed(route).irqfds == m.irqfds,
        m.free_gsis.len() == 0 ==> m.next() == m.next_gsi && m.routed(route).next_gsi == m.next_gsi
            + 1 && m.routed(route).free_gsis.len() == 0,
        m.free_gsis.len() > 0 ==> {
            &&& m.free_gsis.contains(m.next())
            &&& m.routed(route).next_gsi == m.next_gsi
            &&& m.free_gsis == seq![m.next()] + m.routed(route).free_gsis
            &&& forall|i: int| 0 <= i < m.free_gsis.len() ==> m.next() <= #[trigger] m.free_gsis[i]
        },
        m.bound(m.next()).irqfds == m.irqfds.push(m.next()),
{
    if m.free_gsis.len() > 0 {
        assert(m.free_gsis[0] == m.next());
        assert(m.free_gsis =~= seq![m.next()] + m.free_gsis.drop_first());
    }
}

/// Removing messages keeps every other route in its order.
pub proof fn law_other_routes_stay(routes: Seq<Route>, gsi: Option<u32>)
    ensures
        without_messages(routes, gsi) == routes.filter(
            |r: Route| !(r.target is Msi && (gsi is None || gsi == Some(r.gsi))),
        ),
    decreases routes.len(),
{
    reveal(Seq::filter);
    if routes.len() > 0 {
        law_other_routes_stay(routes.drop_last(), gsi);
    }
}

/// The route of a GSI that is changed is the first one.
pub proof fn law_first_route_is_changed(routes: Seq<Route>, gsi: u32, i: int)
    requires
        0 <= i <= routes.len(),
    ensures
        match route_place(routes, gsi, i) {
            Some(k) => i <= k < routes.len() && routes[k].gsi == gsi && forall|j: int|
                i <= j < k ==> (#[trigger] routes[j]).gsi != gsi,
            None => forall|j: int| i <= j < routes.len() ==> (#[trigger] routes[j]).gsi != gsi,
        },
    decreases routes.len() - i,
{
    if i < routes.len() {
        law_first_route_is_changed(routes, gsi, i + 1);
    }
}

/// A release takes one descriptor, all messages of the GSI and nothing else; one of a GSI
/// without a descriptor changes nothing.
pub proof fn law_release_concerns_one_gsi(m: IrqView, gsi: u32, other: u32)
    requires
        other != gsi,
    ensures
        !m.irqfds.contains(gsi) ==> m.released(gsi) == m,
        m.released(gsi).irqfds.contains(other) <==> m.irqfds.contains(other),
        m.released(gsi).free_gsis.contains(other) <==> m.free_gsis.contains(other),
        m.released(gsi).next_gsi == m.next_gsi,
        m.irqfds.contains(gsi) ==> m.released(gsi).irqfds.len() == m.irqfds.len() - 1
            && m.released(gsi).free_gsis.len() == m.free_gsis.len() + 1
            && m.released(gsi).routes == without_messages(m.routes, Some(gsi)),
{
    lemma_place(m.irqfds, gsi, 0);
    match place(m.irqfds, gsi, 0) {
        Some(p) => {
            let at = lemma_put_place(m.free_gsis, gsi);
            let (fds, free) = (m.released(gsi).irqfds, m.released(gsi).free_gsis);
            assert(m.irqfds.contains(gsi));
            if m.irqfds.contains(other) {
                lemma_removed(m.irqfds, p, other);
            }
            if fds.contains(other) {
                let k = choose|k: int| 0 <= k < fds.len() && fds[k] == other;
                assert(m.irqfds[if k < p {
                    k
                } else {
                    k + 1
                }] == other);
            }
            if m.free_gsis.contains(other) {
                let k = choose|k: int| 0 <= k < m.free_gsis.len() && m.free_gsis[k] == other;
                assert(free[if k < at {
                    k
                } else {
                    k + 1
                }] == other);
            }
            if free.contains(other) {
                let k = choose|k: int| 0 <= k < free.len() && free[k] == other;
                assert(m.free_gsis[if k < at {
                    k
                } else {
                    k - 1
                }] == other);
            }
        },
        None => {},
    }
}

/// Pins are routed in the order in which they were registered, each to its own pin of
/// the interrupt controller, and no pin is routed twice.
pub proof fn law_pins_are_routed_in_order(
    a: &mut IrqManager,
    pin: u32,
    b: &mut IrqManager,
    r: Option<(u32, u32)>,
)
    requires
        old(a)@.wf(),
        call_ensures(IrqManager::register_spi_irqfd, (a, pin), ()),
        old(b)@.wf(),
        old(b)@.pending_wired.len() > 0 ==> old(b)@.has_next(),
        call_ensures(IrqManager::flush_pending_wired, (b,), r),
    ensures
        final(a)@.pending_wired.len() == old(a)@.pending_wired.len() + 1,
        final(a)@.pending_wired.last() == pin,
        final(a)@.pending_wired.take(old(a)@.pending_wired.len() as int) == old(a)@.pending_wired,
        final(a)@.routes == old(a)@.routes,
        r is None <==> old(b)@.pending_wired.len() == 0,
        r matches Some((gsi, taken)) ==> {
            &&& taken == old(b)@.pending_wired[0]
            &&& final(b)@.pending_wired == old(b)@.pending_wired.skip(1)
            &&& final(b)@.routes.len() == old(b)@.routes.len() + 1
            &&& final(b)@.routes.last().gsi == gsi
            &&& (final(b)@.routes.last().target matches RouteTarget::IrqChip { irqchip, pin: led }
                && led == taken)
        },
{
    assert(final(a)@.pending_wired.take(old(a)@.pending_wired.len() as int) =~= old(
        a)@.pending_wired);
    if r is Some {
        assert(old(b)@.pending_wired.drop_first() =~= old(b)@.pending_wired.skip(1));
    }
}

/// Changing where a GSI leads changes one route, the first of the GSI, and nothing else;
/// a GSI without a route is refused.
pub proof fn law_changed_route_leads_to_the_message(
    m: &mut IrqManager,
    gsi: u32,
    lo: u32,
    hi: u32,
    data: u32,
    r: Result<(), IrqError>,
    other: int,
)
    requires
        old(m)@.wf(),
        old(m)@.arch is X86_64,
        call_ensures(IrqManager::update_route, (m, gsi, lo, hi, data), r),
        0 <= other < old(m)@.routes.len(),
    ensures
        final(m)@.routes.len() == old(m)@.routes.len(),
        r is Ok <==> route_place(old(m)@.routes, gsi, 0) is Some,
        final(m)@.routes[other] == old(m)@.routes[other] || (final(m)@.routes[other].gsi == gsi
            && old(m)@.routes[other].gsi == gsi && final(m)@.routes[other].target
            == (RouteTarget::Msi { address_lo: lo, address_hi: hi, data })),
        r is Ok ==> exists|k: int|
            0 <= k < final(m)@.routes.len() && (#[trigger] final(m)@.routes[k]).gsi == gsi && final(
                m)@.routes[k].target == (RouteTarget::Msi { address_lo: lo, address_hi: hi, data }),
        final(m)@.free_gsis == old(m)@.free_gsis && final(m)@.next_gsi == old(m)@.next_gsi
            && final(m)@.irqfds == old(m)@.irqfds,
{
    lemma_route_place(old(m)@.routes, gsi, 0);
    if let Some(k) = route_place(old(m)@.routes, gsi, 0) {
        assert(final(m)@.routes[k].gsi == gsi);
    }
}

pub proof fn lemma_route_place(routes: Seq<Route>, gsi: u32, i: int)
    requires
        0 <= i,
    ensures
        route_place(routes, gsi, i) matches Some(k) ==> i <= k < routes.len() && routes[k].gsi
            == gsi,
    decreases routes.len() - i,
{
    if i < routes.len() && routes[i].gsi != gsi {
        lemma_route_place(routes, gsi, i + 1);
    }
}

} // verus!

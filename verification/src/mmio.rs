//! The boundary between guest MMIO accesses and device models.
use vstd::prelude::*;

verus! {

/// A guest-physical MMIO window owned by one device.
#[derive(Debug, Clone, Copy, PartialEq, Eq)]
pub struct MmioWindow {
    pub name: &'static str,
    pub base: u64,
    pub size: u64,
}

/// A guest-physical address range.
#[derive(Debug, Clone, Copy, PartialEq, Eq, Structural)]
pub struct AddressRange {
    pub base: u64,
    pub size: u64,
}

/// Access allowed through a shared-memory capability.
#[derive(Debug, Clone, Copy, PartialEq, Eq, Structural)]
pub enum SharedAccess {
    ReadOnly,
    WriteOnly,
    ReadWrite,
}

/// Fixed shared-memory requirement declared by a device.
#[derive(Debug, Clone, Copy, PartialEq, Eq, Structural)]
pub struct SharedMemoryRequirement {
    pub range: AddressRange,
    pub access: SharedAccess,
}

/// The source of one wired interrupt, as the device tree gives it.
#[derive(Debug, Clone, Copy, PartialEq, Eq)]
pub struct InterruptSource {
    pub controller: u32,
    pub cells: [u32; 4],
    pub cell_count: u8,
}

/// The source of one message-interrupt domain, as the device tree gives it.
#[derive(Debug, Clone, Copy, PartialEq, Eq, Structural)]
pub struct MessageInterruptSource {
    pub controller: u32,
}

/// One interrupt requirement of a device.
#[derive(Debug, Clone, Copy, PartialEq, Eq)]
pub enum MmioInterruptRequirement {
    Line { source: InterruptSource },
    MessageDomain { source: MessageInterruptSource, vectors: u16 },
}

/// Error returned by a routed MMIO device access.
#[derive(Debug, Clone, Copy, PartialEq, Eq, Structural)]
pub enum MmioError {
    /// The routed device does not support the access.
    Unsupported,
}

/// What a device write means for the run of the guest.
#[derive(Debug, Clone, Copy, PartialEq, Eq, Structural)]
pub enum MmioWriteOutcome {
    Continue,
    GuestPoweroff,
    GuestReset,
}

impl AddressRange {
    /// Whether the range lies in the 64-bit address space and covers
    /// `[base, base + size)`, which must lie in it too.
    pub open spec fn covers(self, base: u64, size: u64) -> bool {
        &&& self.base + self.size <= u64::MAX
        &&& base + size <= u64::MAX
        &&& self.base <= base
        &&& base + size <= self.base + self.size
    }

    /// Whether an address lies in the range.
    pub open spec fn has(self, x: u64) -> bool {
        self.base <= x < self.base + self.size
    }

    /// Whether the range lies in the 64-bit address space.
    pub open spec fn bounded(self) -> bool {
        self.base + self.size <= u64::MAX
    }

    /// Whether the range covers `[base, base + size)`.
    pub fn contains(&self, base: u64, size: u64) -> (r: bool)
        ensures
            r == self.covers(base, size),
    {
        match (self.base.checked_add(self.size), base.checked_add(size)) {
            (Some(container_end), Some(end)) => base >= self.base && end <= container_end,
            _ => false,
        }
    }

    /// The end of the range, if it lies in the 64-bit address space.
    pub fn end(&self) -> (r: Option<u64>)
        ensures
            r == if self.bounded() {
                Some((self.base + self.size) as u64)
            } else {
                None
            },
    {
        self.base.checked_add(self.size)
    }

    /// What is left of the range without `removed`: nothing, one part or two. A
    /// range that leaves the address space is left alone and takes nothing away.
    pub open spec fn minus(self, removed: AddressRange) -> Seq<AddressRange> {
        let end = self.base + self.size;
        let removed_end = removed.base + removed.size;
        if !self.bounded() || !removed.bounded() || removed_end <= self.base || removed.base
            >= end {
            seq![self]
        } else {
            let low = AddressRange { base: self.base, size: (removed.base - self.base) as u64 };
            let high = AddressRange { base: removed_end as u64, size: (end - removed_end) as u64 };
            if removed.base > self.base && removed_end < end {
                seq![low, high]
            } else if removed.base > self.base {
                seq![low]
            } else if removed_end < end {
                seq![high]
            } else {
                seq![]
            }
        }
    }

    /// The range without `removed`.
    pub fn subtract(&self, removed: AddressRange) -> (r: Vec<AddressRange>)
        ensures
            r@ == self.minus(removed),
    {
        let mut remaining: Vec<AddressRange> = Vec::new();
        match (self.end(), removed.end()) {
            (Some(end), Some(removed_end)) => {
                if removed_end <= self.base || removed.base >= end {
                    remaining.push(*self);
                } else {
                    if removed.base > self.base {
                        remaining.push(
                            AddressRange { base: self.base, size: removed.base - self.base },
                        );
                    }
                    if removed_end < end {
                        remaining.push(
                            AddressRange { base: removed_end, size: end - removed_end },
                        );
                    }
                }
            },
            _ => {
                remaining.push(*self);
            },
        }
        assert(remaining@ =~= self.minus(removed));
        remaining
    }
}

/// Whether an address lies in one of the ranges.
pub open spec fn any_has(ranges: Seq<AddressRange>, x: u64) -> bool {
    exists|i: int| 0 <= i < ranges.len() && (#[trigger] ranges[i]).has(x)
}

/// Subtracting takes away exactly the addresses of the removed range.
pub proof fn law_subtract_removes_the_addresses(
    range: AddressRange,
    removed: AddressRange,
    x: u64,
)
    requires
        range.bounded(),
        removed.bounded(),
    ensures
        any_has(range.minus(removed), x) <==> range.has(x) && !removed.has(x),
{
    let parts = range.minus(removed);
    if range.has(x) && !removed.has(x) {
        if parts.len() > 0 && parts[0].has(x) {
        } else {
            assert(parts.len() > 1 && parts[1].has(x));
        }
    }
}

impl SharedAccess {
    pub open spec fn reads(self) -> bool {
        self is ReadOnly || self is ReadWrite
    }

    pub open spec fn writes(self) -> bool {
        self is WriteOnly || self is ReadWrite
    }

    /// Whether everything that `requested` asks for is allowed.
    pub open spec fn allows(self, requested: SharedAccess) -> bool {
        (requested.reads() ==> self.reads()) && (requested.writes() ==> self.writes())
    }

    pub fn permits_read(self) -> (r: bool)
        ensures
            r == self.reads(),
    {
        matches!(self, SharedAccess::ReadOnly | SharedAccess::ReadWrite)
    }

    pub fn permits_write(self) -> (r: bool)
        ensures
            r == self.writes(),
    {
        matches!(self, SharedAccess::WriteOnly | SharedAccess::ReadWrite)
    }

    /// Whether everything that `requested` asks for is allowed.
    pub fn includes(self, requested: SharedAccess) -> (r: bool)
        ensures
            r == self.allows(requested),
    {
        match requested {
            SharedAccess::ReadOnly => self.permits_read(),
            SharedAccess::WriteOnly => self.permits_write(),
            SharedAccess::ReadWrite => self.permits_read() && self.permits_write(),
        }
    }
}

/// A device with one or more guest-visible MMIO windows.
///
/// An implementation says by `read_step` and `write_step` how an access may turn
/// the device and the data; one that it leaves out allows anything. A bus
/// promises which access reaches which device.
pub trait MmioDevice: Sized {
    /// What the device keeps between accesses.
    open spec fn wf(&self) -> bool {
        true
    }

    /// The windows of the device.
    open spec fn window_list(&self) -> Seq<MmioWindow> {
        arbitrary()
    }

    /// Whether a read of `window` at `offset` may take the device from `before`
    /// to `after` and the data from `data` to `out`.
    open spec fn read_step(
        before: Self,
        window: MmioWindow,
        offset: u64,
        data: Seq<u8>,
        after: Self,
        out: Seq<u8>,
        r: Result<(), MmioError>,
    ) -> bool {
        true
    }

    /// Whether a write of `data` to `window` at `offset` may take the device from
    /// `before` to `after`.
    open spec fn write_step(
        before: Self,
        window: MmioWindow,
        offset: u64,
        data: Seq<u8>,
        after: Self,
        r: Result<MmioWriteOutcome, MmioError>,
    ) -> bool {
        true
    }

    fn windows(&self) -> (r: &[MmioWindow])
        ensures
            r@ == self.window_list(),
    ;

    fn read(&mut self, window: MmioWindow, offset: u64, data: &mut [u8]) -> (r: Result<
        (),
        MmioError,
    >)
        requires
            old(self).wf(),
        ensures
            final(self).wf(),
            final(data)@.len() == old(data)@.len(),
            Self::read_step(
                *old(self),
                window,
                offset,
                old(data)@,
                *final(self),
                final(data)@,
                r,
            ),
    ;

    fn write(&mut self, window: MmioWindow, offset: u64, data: &[u8]) -> (r: Result<
        MmioWriteOutcome,
        MmioError,
    >)
        requires
            old(self).wf(),
        ensures
            final(self).wf(),
            Self::write_step(*old(self), window, offset, data@, *final(self), r),
    ;
}

/// Fixed shared memory was asked for, which no machine provides.
#[derive(Debug, Clone, Copy, PartialEq, Eq, Structural)]
pub struct FixedSharedMemoryError {
    /// How many ranges were asked for.
    pub requested: usize,
}

/// A window and the device that owns it.
#[derive(Debug, Clone, Copy)]
pub struct Range {
    pub window: MmioWindow,
    pub device: usize,
}

/// Routes guest accesses to devices by their windows.
#[derive(Debug)]
pub struct MmioBus<D> {
    ranges: Vec<Range>,
    devices: Vec<D>,
}

/// Whether two windows share an address.
pub open spec fn windows_overlap(a: MmioWindow, b: MmioWindow) -> bool {
    a.base < b.base + b.size && b.base < a.base + a.size
}

/// Whether the windows of a device can be added to a bus: there is at least one,
/// they end within the address space, and they overlap neither each other nor a
/// window of the bus.
pub open spec fn can_add(ranges: Seq<Range>, windows: Seq<MmioWindow>) -> bool {
    &&& windows.len() > 0
    &&& forall|i: int|
        0 <= i < windows.len() ==> (#[trigger] windows[i]).base + windows[i].size <= u64::MAX
    &&& forall|i: int, k: int|
        0 <= i < windows.len() && 0 <= k < ranges.len() ==> !windows_overlap(
            #[trigger] windows[i],
            (#[trigger] ranges[k]).window,
        )
    &&& forall|i: int, j: int|
        0 <= i < j < windows.len() ==> !windows_overlap(
            #[trigger] windows[j],
            #[trigger] windows[i],
        )
}

/// Whether an access falls into a window.
pub open spec fn hits(window: MmioWindow, addr: u64, len: u64) -> bool {
    window.base <= addr && addr + len <= window.base + window.size
}

/// The first window from `i` on that an access falls into.
pub open spec fn first_hit(ranges: Seq<Range>, addr: u64, len: u64, i: int) -> Option<int>
    decreases ranges.len() - i,
{
    if i < 0 || i >= ranges.len() {
        None
    } else if hits(ranges[i].window, addr, len) {
        Some(i)
    } else {
        first_hit(ranges, addr, len, i + 1)
    }
}

/// The window that an access goes to. An access that leaves the address space
/// goes nowhere.
pub open spec fn route(ranges: Seq<Range>, addr: u64, len: u64) -> Option<int> {
    if addr + len > u64::MAX {
        None
    } else {
        first_hit(ranges, addr, len, 0)
    }
}

proof fn lemma_first_hit(ranges: Seq<Range>, addr: u64, len: u64, i: int)
    requires
        0 <= i,
    ensures
        match first_hit(ranges, addr, len, i) {
            Some(k) => i <= k < ranges.len() && hits(ranges[k].window, addr, len),
            None => forall|k: int|
                i <= k < ranges.len() ==> !hits((#[trigger] ranges[k]).window, addr, len),
        },
    decreases ranges.len() - i,
{
    if i < ranges.len() && !hits(ranges[i].window, addr, len) {
        lemma_first_hit(ranges, addr, len, i + 1);
    }
}

/// What every bus keeps: each window ends within the address space and belongs
/// to a device, and no two overlap.
pub open spec fn routes_wf(ranges: Seq<Range>, devices: int) -> bool {
    &&& forall|i: int|
        0 <= i < ranges.len() ==> (#[trigger] ranges[i]).window.base + ranges[i].window.size
            <= u64::MAX && ranges[i].device < devices
    &&& forall|i: int, j: int|
        0 <= i < j < ranges.len() ==> !windows_overlap(
            (#[trigger] ranges[j]).window,
            (#[trigger] ranges[i]).window,
        )
}

/// On a bus, at most one window takes an access: routing does not depend on the
/// order in which devices were registered.
pub proof fn law_route_is_unique(
    ranges: Seq<Range>,
    devices: int,
    addr: u64,
    len: u64,
    i: int,
    j: int,
)
    requires
        routes_wf(ranges, devices),
        len > 0,
        0 <= i < ranges.len(),
        0 <= j < ranges.len(),
        hits(ranges[i].window, addr, len),
        hits(ranges[j].window, addr, len),
    ensures
        i == j,
        route(ranges, addr, len) == Some(i),
{
    if i < j {
        assert(!windows_overlap(ranges[j].window, ranges[i].window));
    } else if j < i {
        assert(!windows_overlap(ranges[i].window, ranges[j].window));
    }
    lemma_first_hit(ranges, addr, len, 0);
    let k = first_hit(ranges, addr, len, 0)->0;
    if k < i {
        assert(!windows_overlap(ranges[i].window, ranges[k].window));
    } else if i < k {
        assert(!windows_overlap(ranges[k].window, ranges[i].window));
    }
}

impl<D> MmioBus<D> {
    /// The windows of the bus with their devices, in the order of registration.
    pub closed spec fn routes(&self) -> Seq<Range> {
        self.ranges@
    }

    /// The devices of the bus, in the order of registration.
    pub closed spec fn attached(&self) -> Seq<D> {
        self.devices@
    }

    /// A bus without devices.
    pub fn new() -> (r: MmioBus<D>)
        ensures
            r.routes() == Seq::<Range>::empty(),
            r.attached() == Seq::<D>::empty(),
    {
        MmioBus { ranges: Vec::new(), devices: Vec::new() }
    }

    /// Finds the window that an access goes to.
    pub fn find(&self, addr: u64, len: u64) -> (r: Option<usize>)
        requires
            routes_wf(self.routes(), self.attached().len() as int),
        ensures
            match r {
                Some(i) => route(self.routes(), addr, len) == Some(i as int) && i
                    < self.routes().len(),
                None => route(self.routes(), addr, len) is None,
            },
    {
        let end: u64 = match addr.checked_add(len) {
            Some(end) => end,
            None => {
                return None;
            },
        };
        let mut i: usize = 0;
        while i < self.ranges.len()
            invariant
                i <= self.ranges@.len(),
                end == addr + len,
                routes_wf(self.ranges@, self.devices@.len() as int),
                first_hit(self.ranges@, addr, len, 0) == first_hit(
                    self.ranges@,
                    addr,
                    len,
                    i as int,
                ),
            decreases self.ranges@.len() - i,
        {
            let window = self.ranges[i].window;
            if window.base <= addr && end <= window.base + window.size {
                return Some(i);
            }
            i = i + 1;
        }
        None
    }

    /// Whether the windows of a device can be added to the bus.
    pub fn accepts(&self, windows: &[MmioWindow]) -> (r: bool)
        requires
            routes_wf(self.routes(), self.attached().len() as int),
        ensures
            r == can_add(self.routes(), windows@),
    {
        if windows.len() == 0 {
            return false;
        }
        let mut i: usize = 0;
        while i < windows.len()
            invariant
                i <= windows@.len(),
                windows@.len() > 0,
                routes_wf(self.ranges@, self.devices@.len() as int),
                can_add(self.ranges@, windows@.take(i as int)) || i == 0,
            decreases windows@.len() - i,
        {
            let w = windows[i];
            let end: u64 = match w.base.checked_add(w.size) {
                Some(end) => end,
                None => {
                    assert(windows@[i as int].base + windows@[i as int].size > u64::MAX);
                    return false;
                },
            };
            let mut k: usize = 0;
            while k < self.ranges.len()
                invariant
                    k <= self.ranges@.len(),
                    i < windows@.len(),
                    w == windows@[i as int],
                    end == w.base + w.size,
                    routes_wf(self.ranges@, self.devices@.len() as int),
                    forall|m: int|
                        0 <= m < k ==> !windows_overlap(w, (#[trigger] self.ranges@[m]).window),
                decreases self.ranges@.len() - k,
            {
                let o = self.ranges[k].window;
                if w.base < o.base + o.size && o.base < end {
                    assert(windows_overlap(windows@[i as int], self.ranges@[k as int].window));
                    return false;
                }
                k = k + 1;
            }
            let mut j: usize = 0;
            while j < i
                invariant
                    j <= i < windows@.len(),
                    w == windows@[i as int],
                    end == w.base + w.size,
                    can_add(self.ranges@, windows@.take(i as int)) || i == 0,
                    forall|m: int|
                        0 <= m < j ==> !windows_overlap(w, #[trigger] windows@[m]),
                decreases i - j,
            {
                let o = windows[j];
                assert(windows@.take(i as int)[j as int] == o);
                if w.base < o.base + o.size && o.base < end {
                    assert(windows_overlap(windows@[i as int], windows@[j as int]));
                    return false;
                }
                j = j + 1;
            }
            proof {
                let before = windows@.take(i as int);
                let now = windows@.take(i + 1);
                assert forall|a: int| 0 <= a < now.len() implies (#[trigger] now[a]).base
                    + now[a].size <= u64::MAX by {
                    if a < i {
                        assert(before[a] == now[a]);
                    }
                }
                assert forall|a: int, m: int|
                    0 <= a < now.len() && 0 <= m < self.ranges@.len() implies !windows_overlap(
                    #[trigger] now[a],
                    (#[trigger] self.ranges@[m]).window,
                ) by {
                    if a < i {
                        assert(before[a] == now[a]);
                    }
                }
                assert forall|a: int, b: int| 0 <= a < b < now.len() implies !windows_overlap(
                    #[trigger] now[b],
                    #[trigger] now[a],
                ) by {
                    if b < i {
                        assert(before[a] == now[a] && before[b] == now[b]);
                    }
                }
            }
            i = i + 1;
        }
        assert(windows@.take(windows@.len() as int) =~= windows@);
        true
    }
}

/// The windows of a device as routes to it.
pub open spec fn routes_to(windows: Seq<MmioWindow>, device: usize) -> Seq<Range> {
    windows.map_values(|window: MmioWindow| Range { window, device })
}

/// A device can be added to a bus exactly where it has a window and the bus with its
/// windows keeps what every bus keeps: none overlaps another, and each ends within
/// the address space.
pub proof fn law_added_windows_stay_apart(
    ranges: Seq<Range>,
    devices: usize,
    windows: Seq<MmioWindow>,
)
    requires
        routes_wf(ranges, devices as int),
    ensures
        can_add(ranges, windows) <==> windows.len() > 0 && routes_wf(
            ranges + routes_to(windows, devices),
            devices + 1,
        ),
{
    let now = ranges + routes_to(windows, devices);
    let n = ranges.len();
    if can_add(ranges, windows) {
        assert forall|a: int| 0 <= a < now.len() implies (#[trigger] now[a]).window.base
            + now[a].window.size <= u64::MAX && now[a].device < devices + 1 by {
            if a >= n {
                assert(now[a].window == windows[a - n]);
            } else {
                assert(now[a] == ranges[a]);
            }
        }
        assert forall|a: int, b: int| 0 <= a < b < now.len() implies !windows_overlap(
            (#[trigger] now[b]).window,
            (#[trigger] now[a]).window,
        ) by {
            if a >= n {
                assert(now[a].window == windows[a - n]);
                assert(now[b].window == windows[b - n]);
            } else if b >= n {
                assert(now[a] == ranges[a]);
                assert(now[b].window == windows[b - n]);
            } else {
                assert(now[a] == ranges[a] && now[b] == ranges[b]);
            }
        }
    }
    if windows.len() > 0 && routes_wf(now, devices + 1) {
        assert forall|i: int| 0 <= i < windows.len() implies (#[trigger] windows[i]).base
            + windows[i].size <= u64::MAX by {
            assert(now[n + i].window == windows[i]);
        }
        assert forall|i: int, k: int| 0 <= i < windows.len() && 0 <= k < n implies !windows_overlap(
            #[trigger] windows[i],
            (#[trigger] ranges[k]).window,
        ) by {
            assert(now[n + i].window == windows[i] && now[k] == ranges[k]);
        }
        assert forall|i: int, j: int| 0 <= i < j < windows.len() implies !windows_overlap(
            #[trigger] windows[j],
            #[trigger] windows[i],
        ) by {
            assert(now[n + i].window == windows[i] && now[n + j].window == windows[j]);
        }
    }
}

impl<D: MmioDevice> MmioBus<D> {
    /// What the bus keeps: its routes and its devices are in order.
    pub open spec fn inv(&self) -> bool {
        &&& routes_wf(self.routes(), self.attached().len() as int)
        &&& forall|i: int| 0 <= i < self.attached().len() ==> (#[trigger] self.attached()[i]).wf()
    }

    /// Adds a device that asks for some fixed shared memory. No machine provides
    /// any, so that a device that asks for it is refused.
    pub fn attach_device(&mut self, device: D, fixed: &[SharedMemoryRequirement]) -> (r: Result<
        (),
        FixedSharedMemoryError,
    >)
        requires
            old(self).inv(),
            fixed@.len() == 0 ==> device.wf() && can_add(
                old(self).routes(),
                device.window_list(),
            ) && old(self).attached().len() < usize::MAX,
        ensures
            final(self).inv(),
            match r {
                Ok(_) => fixed@.len() == 0 && final(self).attached() == old(self).attached().push(
                    device,
                ) && final(self).routes() == old(self).routes() + routes_to(
                    device.window_list(),
                    old(self).attached().len() as usize,
                ),
                Err(e) => fixed@.len() > 0 && e.requested == fixed@.len() && *final(self) == *old(self),
            },
    {
        if fixed.len() > 0 {
            return Err(FixedSharedMemoryError { requested: fixed.len() });
        }
        self.register_device(device);
        Ok(())
    }

    /// Adds a device. Its windows must be acceptable to the bus; see
    /// [`MmioBus::accepts`].
    pub fn register_device(&mut self, device: D)
        requires
            old(self).inv(),
            device.wf(),
            can_add(old(self).routes(), device.window_list()),
            old(self).attached().len() < usize::MAX,
        ensures
            final(self).inv(),
            final(self).attached() == old(self).attached().push(device),
            final(self).routes() == old(self).routes() + routes_to(
                device.window_list(),
                old(self).attached().len() as usize,
            ),
    {
        let index: usize = self.devices.len();
        let ghost start = self.ranges@;
        let ghost list = device.window_list();
        {
            let windows = device.windows();
            let mut i: usize = 0;
            assert(start + routes_to(list.take(0), index) =~= start);
            while i < windows.len()
                invariant
                    i <= windows@.len(),
                    windows@ == list,
                    self.devices == old(self).devices,
                    self.ranges@ == start + routes_to(list.take(i as int), index),
                decreases windows@.len() - i,
            {
                self.ranges.push(Range { window: windows[i], device: index });
                assert(self.ranges@ =~= start + routes_to(list.take(i + 1), index));
                i = i + 1;
            }
            assert(list.take(i as int) =~= list);
        }
        self.devices.push(device);
        proof {
            law_added_windows_stay_apart(start, index, list);
        }
    }

    /// Hands a guest read to the device whose window takes it; reports whether a
    /// device answered.
    pub fn read(&mut self, addr: u64, data: &mut [u8]) -> (r: bool)
        requires
            old(self).inv(),
        ensures
            final(self).inv(),
            final(self).routes() == old(self).routes(),
            final(data)@.len() == old(data)@.len(),
            match route(old(self).routes(), addr, old(data)@.len() as u64) {
                None => !r && *final(self) == *old(self) && final(data)@ == old(data)@,
                Some(i) => {
                    let range = old(self).routes()[i];
                    let d = range.device as int;
                    &&& final(self).attached() == old(self).attached().update(
                        d,
                        final(self).attached()[d],
                    )
                    &&& exists|res: Result<(), MmioError>|
                        r == (res is Ok) && #[trigger] D::read_step(
                            old(self).attached()[d],
                            range.window,
                            (addr - range.window.base) as u64,
                            old(data)@,
                            final(self).attached()[d],
                            final(data)@,
                            res,
                        )
                },
            },
    {
        proof {
            lemma_first_hit(self.ranges@, addr, data@.len() as u64, 0);
        }
        match self.find(addr, data.len() as u64) {
            Some(i) => {
                let range = self.ranges[i];
                let offset: u64 = addr - range.window.base;
                let res = self.devices[range.device].read(range.window, offset, data);
                assert(self.devices@ =~= old(self).devices@.update(
                    range.device as int,
                    self.devices@[range.device as int],
                ));
                res.is_ok()
            },
            None => false,
        }
    }

    /// Hands a guest write to the device whose window takes it, and tells what
    /// the device made of it.
    pub fn dispatch_write(&mut self, addr: u64, data: &[u8]) -> (r: Option<
        Result<MmioWriteOutcome, MmioError>,
    >)
        requires
            old(self).inv(),
        ensures
            final(self).inv(),
            final(self).routes() == old(self).routes(),
            match route(old(self).routes(), addr, data@.len() as u64) {
                None => r is None && *final(self) == *old(self),
                Some(i) => {
                    let range = old(self).routes()[i];
                    let d = range.device as int;
                    &&& final(self).attached() == old(self).attached().update(
                        d,
                        final(self).attached()[d],
                    )
                    &&& r matches Some(res) && D::write_step(
                        old(self).attached()[d],
                        range.window,
                        (addr - range.window.base) as u64,
                        data@,
                        final(self).attached()[d],
                        res,
                    )
                },
            },
    {
        proof {
            lemma_first_hit(self.ranges@, addr, data@.len() as u64, 0);
        }
        match self.find(addr, data.len() as u64) {
            Some(i) => {
                let range = self.ranges[i];
                let offset: u64 = addr - range.window.base;
                let res = self.devices[range.device].write(range.window, offset, data);
                assert(self.devices@ =~= old(self).devices@.update(
                    range.device as int,
                    self.devices@[range.device as int],
                ));
                Some(res)
            },
            None => None,
        }
    }

    /// Hands a guest write to the device whose window takes it; reports whether a
    /// device took it.
    pub fn write(&mut self, addr: u64, data: &[u8]) -> (r: bool)
        requires
            old(self).inv(),
        ensures
            final(self).inv(),
            final(self).routes() == old(self).routes(),
            match route(old(self).routes(), addr, data@.len() as u64) {
                None => !r && *final(self) == *old(self),
                Some(i) => {
                    let range = old(self).routes()[i];
                    let d = range.device as int;
                    &&& final(self).attached() == old(self).attached().update(
                        d,
                        final(self).attached()[d],
                    )
                    &&& exists|res: Result<MmioWriteOutcome, MmioError>|
                        r == (res is Ok) && #[trigger] D::write_step(
                            old(self).attached()[d],
                            range.window,
                            (addr - range.window.base) as u64,
                            data@,
                            final(self).attached()[d],
                            res,
                        )
                },
            },
    {
        match self.dispatch_write(addr, data) {
            Some(Ok(_)) => true,
            _ => false,
        }
    }
}

/// A range covers another that is not empty exactly where it has each of its
/// addresses and both end within the address space.
pub proof fn law_covering_is_by_address(range: AddressRange, base: u64, size: u64, x: u64)
    requires
        size > 0,
    ensures
        range.covers(base, size) ==> base <= x < base + size ==> range.has(x),
        range.bounded() && base + size <= u64::MAX && range.has(base) && range.has(
            (base + size - 1) as u64,
        ) ==> range.covers(base, size),
        range.covers(base, size) ==> range.base + range.size <= 0xffff_ffff_ffff_ffff,
{
}

/// Two windows that are not empty overlap exactly where they share an address.
pub proof fn law_windows_overlap_where_they_share_an_address(a: MmioWindow, b: MmioWindow)
    requires
        a.size > 0,
        b.size > 0,
    ensures
        windows_overlap(a, b) <==> exists|x: int|
            #![trigger holds(a, x)]
            holds(a, x) && holds(b, x),
{
    if windows_overlap(a, b) {
        let x: int = if a.base < b.base {
            b.base as int
        } else {
            a.base as int
        };
        assert(holds(a, x) && holds(b, x));
    }
}

/// Whether an address lies in a window.
pub open spec fn holds(w: MmioWindow, x: int) -> bool {
    w.base <= x < w.base + w.size
}

/// The window that takes an access holds every byte of it, and where no window takes
/// an access, none holds both its first and its last byte.
pub proof fn law_route_holds_the_access(ranges: Seq<Range>, addr: u64, len: u64, x: int, k: int)
    requires
        len > 0,
        addr + len <= u64::MAX,
    ensures
        route(ranges, addr, len) matches Some(i) ==> {
            &&& 0 <= i < ranges.len()
            &&& addr <= x < addr + len ==> holds(ranges[i].window, x)
            &&& 0 <= addr - ranges[i].window.base
            &&& (addr - ranges[i].window.base) + len <= ranges[i].window.size
        },
        route(ranges, addr, len) is None && 0 <= k < ranges.len() ==> !(holds(
            ranges[k].window,
            addr as int,
        ) && holds(ranges[k].window, addr + len - 1)),
{
    lemma_first_hit(ranges, addr, len, 0);
    if route(ranges, addr, len) is None && 0 <= k < ranges.len() {
        assert(!hits(ranges[k].window, addr, len));
    }
}

/// What one kind of access allows: each is allowed by itself, both by the one that
/// reads and writes, and neither of the narrow ones allows the other.
pub proof fn law_access_kinds(a: SharedAccess, b: SharedAccess)
    ensures
        SharedAccess::ReadWrite.allows(a),
        a.allows(a),
        a.allows(b) && b.allows(a) ==> a == b,
        !SharedAccess::ReadOnly.allows(SharedAccess::WriteOnly),
        !SharedAccess::WriteOnly.allows(SharedAccess::ReadOnly),
        a.reads() <==> a != SharedAccess::WriteOnly,
        a.writes() <==> a != SharedAccess::ReadOnly,
{
}

/// A read reaches the device whose window holds it, at the distance from the start of
/// the window, and no other device; a read that no window holds reaches none and leaves
/// the data alone.
pub proof fn law_read_reaches_the_device_behind_the_window<D: MmioDevice>(
    bus: &mut MmioBus<D>,
    addr: u64,
    data: &mut [u8],
    r: bool,
    i: int,
    other: int,
)
    requires
        old(bus).inv(),
        0 < old(data)@.len() <= u64::MAX,
        call_ensures(MmioBus::<D>::read, (bus, addr, data), r),
        0 <= other < old(bus).attached().len(),
    ensures
        0 <= i < old(bus).routes().len() && old(bus).routes()[i].window.base <= addr && addr + old(data)@.len() <= old(bus).routes()[i].window.base + old(bus).routes()[i].window.size ==> ({
            let range = old(bus).routes()[i];
            &&& exists|offset: u64, res: Result<(), MmioError>|
                range.window.base + offset == addr && r == (res is Ok) && #[trigger] D::read_step(
                    old(bus).attached()[range.device as int],
                    range.window,
                    offset,
                    old(data)@,
                    final(bus).attached()[range.device as int],
                    final(data)@,
                    res,
                )
            &&& other != range.device ==> final(bus).attached()[other] == old(bus).attached()[other]
        }),
        (forall|k: int|
            0 <= k < old(bus).routes().len() ==> !((#[trigger] old(bus).routes()[k]).window.base
                <= addr && addr + old(data)@.len() <= old(bus).routes()[k].window.base + old(bus).routes()[k].window.size)) ==> !r && final(data)@ == old(data)@ && final(bus).attached() == old(bus).attached(),
{
    let ranges = old(bus).routes();
    let len = old(data)@.len() as u64;
    lemma_first_hit(ranges, addr, len, 0);
    if 0 <= i < ranges.len() && ranges[i].window.base <= addr && addr + len
        <= ranges[i].window.base + ranges[i].window.size {
        law_route_is_unique(ranges, old(bus).attached().len() as int, addr, len, i, i);
        let d = ranges[i].device as int;
        let offset = (addr - ranges[i].window.base) as u64;
        let res = choose|res: Result<(), MmioError>|
            r == (res is Ok) && #[trigger] D::read_step(
                old(bus).attached()[d],
                ranges[i].window,
                offset,
                old(data)@,
                final(bus).attached()[d],
                final(data)@,
                res,
            );
        assert(ranges[i].window.base + offset == addr);
    }
}

/// A write reaches the device whose window holds it, at the distance from the start of
/// the window, with its data, and no other device; a write that no window holds reaches
/// none.
pub proof fn law_write_reaches_the_device_behind_the_window<D: MmioDevice>(
    bus: &mut MmioBus<D>,
    addr: u64,
    data: &[u8],
    r: Option<Result<MmioWriteOutcome, MmioError>>,
    i: int,
    other: int,
)
    requires
        old(bus).inv(),
        0 < data@.len() <= u64::MAX,
        call_ensures(MmioBus::<D>::dispatch_write, (bus, addr, data), r),
        0 <= other < old(bus).attached().len(),
    ensures
        0 <= i < old(bus).routes().len() && old(bus).routes()[i].window.base <= addr && addr
            + data@.len() <= old(bus).routes()[i].window.base + old(bus).routes()[i].window.size
            ==> ({
            let range = old(bus).routes()[i];
            &&& r is Some
            &&& exists|offset: u64|
                range.window.base + offset == addr && #[trigger] D::write_step(
                    old(bus).attached()[range.device as int],
                    range.window,
                    offset,
                    data@,
                    final(bus).attached()[range.device as int],
                    r->0,
                )
            &&& other != range.device ==> final(bus).attached()[other] == old(bus).attached()[other]
        }),
        (forall|k: int|
            0 <= k < old(bus).routes().len() ==> !((#[trigger] old(bus).routes()[k]).window.base
                <= addr && addr + data@.len() <= old(bus).routes()[k].window.base + old(bus).routes()[k].window.size)) ==> r is None && final(bus).attached() == old(bus).attached(),
{
    let ranges = old(bus).routes();
    let len = data@.len() as u64;
    lemma_first_hit(ranges, addr, len, 0);
    if 0 <= i < ranges.len() && ranges[i].window.base <= addr && addr + len
        <= ranges[i].window.base + ranges[i].window.size {
        law_route_is_unique(ranges, old(bus).attached().len() as int, addr, len, i, i);
        let offset = (addr - ranges[i].window.base) as u64;
        assert(ranges[i].window.base + offset == addr);
        assert(D::write_step(
            old(bus).attached()[ranges[i].device as int],
            ranges[i].window,
            offset,
            data@,
            final(bus).attached()[ranges[i].device as int],
            r->0,
        ));
    }
}

/// A write is reported as taken exactly where a device took it without an error.
pub proof fn law_write_is_taken_where_a_device_takes_it<D: MmioDevice>(
    bus: &mut MmioBus<D>,
    addr: u64,
    data: &[u8],
    r: bool,
)
    requires
        old(bus).inv(),
        0 < data@.len() <= u64::MAX,
        call_ensures(MmioBus::<D>::write, (bus, addr, data), r),
    ensures
        match route(old(bus).routes(), addr, data@.len() as u64) {
            None => !r,
            Some(i) => exists|offset: u64, res: Result<MmioWriteOutcome, MmioError>|
                old(bus).routes()[i].window.base + offset == addr && r == (res is Ok)
                    && #[trigger] D::write_step(
                    old(bus).attached()[old(bus).routes()[i].device as int],
                    old(bus).routes()[i].window,
                    offset,
                    data@,
                    final(bus).attached()[old(bus).routes()[i].device as int],
                    res,
                ),
        },
{
    let ranges = old(bus).routes();
    lemma_first_hit(ranges, addr, data@.len() as u64, 0);
    match route(ranges, addr, data@.len() as u64) {
        None => {},
        Some(i) => {
            let offset = (addr - ranges[i].window.base) as u64;
            let res = choose|res: Result<MmioWriteOutcome, MmioError>|
                r == (res is Ok) && #[trigger] D::write_step(
                    old(bus).attached()[ranges[i].device as int],
                    ranges[i].window,
                    offset,
                    data@,
                    final(bus).attached()[ranges[i].device as int],
                    res,
                );
            assert(ranges[i].window.base + offset == addr);
        },
    }
}

/// A registered device comes behind the others and is reached through each of its
/// windows; the other devices are reached as before.
pub proof fn law_registered_device_gets_its_windows<D: MmioDevice>(
    bus: &mut MmioBus<D>,
    device: D,
    k: int,
    i: int,
)
    requires
        old(bus).inv(),
        device.wf(),
        can_add(old(bus).routes(), device.window_list()),
        old(bus).attached().len() < usize::MAX,
        call_ensures(MmioBus::<D>::register_device, (bus, device), ()),
    ensures
        final(bus).attached().len() == old(bus).attached().len() + 1,
        final(bus).attached().last() == device,
        0 <= i < old(bus).attached().len() ==> final(bus).attached()[i] == old(bus).attached()[i],
        final(bus).routes().len() == old(bus).routes().len() + device.window_list().len(),
        0 <= k < device.window_list().len() ==> ({
            let range = final(bus).routes()[old(bus).routes().len() + k];
            range.window == device.window_list()[k] && range.device == old(bus).attached().len()
        }),
        0 <= i < old(bus).routes().len() ==> final(bus).routes()[i] == old(bus).routes()[i],
{
}

} // verus!

//! Device access to guest memory, limited by capabilities.
use vm_memory::{
    Address, Bytes, GuestAddress, GuestMemory, GuestMemoryMmap, GuestMemoryRegion,
    GuestRegionCollection, GuestRegionMmap,
};
use vstd::prelude::*;

use crate::mmio::{any_has, AddressRange, SharedAccess, SharedMemoryRequirement};

verus! {

/// One mapped region of guest memory: `vm_memory::GuestRegionMmap`.
#[verifier::external_type_specification]
#[verifier::external_body]
#[verifier::reject_recursive_types(B)]
pub struct ExGuestRegionMmap<B>(GuestRegionMmap<B>);

/// The memory of a guest: `vm_memory::GuestRegionCollection`, which is
/// `GuestMemoryMmap` for mapped regions.
#[verifier::external_type_specification]
#[verifier::external_body]
#[verifier::reject_recursive_types(R)]
pub struct ExGuestRegionCollection<R>(GuestRegionCollection<R>);

/// The regions of a guest memory as start address and length, in address order.
pub uninterp spec fn mapped_regions(memory: GuestMemoryMmap<()>) -> Seq<(u64, u64)>;

/// Whether an address is mapped.
pub open spec fn is_mapped(memory: GuestMemoryMmap<()>, addr: u64) -> bool {
    exists|i: int|
        0 <= i < mapped_regions(memory).len() && region_has(
            #[trigger] mapped_regions(memory)[i],
            addr,
            1,
        )
}

/// Whether one region holds `len` bytes from `addr`.
pub open spec fn in_one_region(memory: GuestMemoryMmap<()>, addr: u64, len: nat) -> bool {
    exists|i: int|
        0 <= i < mapped_regions(memory).len() && region_has(
            #[trigger] mapped_regions(memory)[i],
            addr,
            len,
        )
}

/// Whether `len` bytes from `addr` lie in a region.
pub open spec fn region_has(region: (u64, u64), addr: u64, len: nat) -> bool {
    region.0 <= addr && addr + len <= region.0 + region.1
}

/// Lists the regions of a guest memory through `GuestMemory::iter`, with each
/// region's `start_addr` and `len`.
#[verifier::external_body]
fn regions_of(memory: &GuestMemoryMmap<()>) -> (r: Vec<(u64, u64)>)
    ensures
        r@ == mapped_regions(*memory),
{
    memory.iter().map(|region| (region.start_addr().raw_value(), region.len())).collect()
}

/// A second handle on a guest memory through `GuestMemoryMmap::clone`. Both hold the
/// same regions, so that they are one memory.
#[verifier::external_body]
fn share(memory: &GuestMemoryMmap<()>) -> (r: GuestMemoryMmap<()>)
    ensures
        r == *memory,
{
    memory.clone()
}

/// Copies up to `len` bytes of guest memory with `Bytes::read`, and gives their
/// number and a buffer of `len` bytes that starts with them. A copy of no bytes
/// succeeds; another one fails exactly when the first address is not mapped. Else it
/// goes as far as memory does, which is all of it when one region holds the range.
/// Which bytes it gives is not said: the guest may write them at any time.
#[verifier::external_body]
fn read_guest(memory: &GuestMemoryMmap<()>, addr: u64, len: usize) -> (r: Result<
    (usize, Vec<u8>),
    String,
>)
    ensures
        r is Ok <==> len == 0 || is_mapped(*memory, addr),
        r matches Ok(x) ==> x.0 <= len && x.1@.len() == len,
        r matches Ok(x) ==> (in_one_region(*memory, addr, len as nat) ==> x.0 == len),
{
    let mut bytes = vec![0u8; len];
    match memory.read(&mut bytes, GuestAddress(addr)) {
        Ok(n) => Ok((n, bytes)),
        Err(e) => Err(e.to_string()),
    }
}

/// Copies to guest memory with `Bytes::write`. A copy of no bytes succeeds; another
/// one fails exactly when the first address is not mapped. Else it goes as far as
/// memory does, which is all of it when one region holds the range. What the guest
/// finds there is not said: it may write the same bytes at any time.
#[verifier::external_body]
fn write_guest(memory: &GuestMemoryMmap<()>, addr: u64, data: &[u8]) -> (r: Result<usize, String>)
    ensures
        r is Ok <==> data@.len() == 0 || is_mapped(*memory, addr),
        r matches Ok(n) ==> n <= data@.len(),
        r matches Ok(n) ==> (in_one_region(*memory, addr, data@.len()) ==> n == data@.len()),
{
    memory.write(data, GuestAddress(addr)).map_err(|e| e.to_string())
}

/// Whether reading `len` bytes of guest memory at an address may give `r`: how many
/// bytes were copied, with a buffer that starts with them.
pub closed spec fn fetched(
    memory: GuestMemoryMmap<()>,
    addr: u64,
    len: usize,
    r: Result<(usize, Vec<u8>), String>,
) -> bool {
    call_ensures(read_guest, (&memory, addr, len), r)
}

/// Whether writing `data` to guest memory at an address may give `r`: how many bytes
/// were copied.
pub closed spec fn stored(
    memory: GuestMemoryMmap<()>,
    addr: u64,
    data: &[u8],
    r: Result<usize, String>,
) -> bool {
    call_ensures(write_guest, (&memory, addr, data), r)
}

/// Runtime shared range requested by a device protocol.
#[derive(Debug, Clone, Copy, PartialEq, Eq, Structural)]
pub struct SharedRange {
    pub gpa: u64,
    pub size: u64,
    pub access: SharedAccess,
}

/// Error from shared-memory access.
#[derive(Debug)]
pub enum SharedMemoryError {
    /// The range is outside the capability limits.
    OutOfLimits,
    /// The range is not currently shared.
    NotShared,
    /// The capability does not permit the access.
    AccessDenied,
    /// The access is outside the claimed range.
    OutOfRange,
    /// The backing memory failed.
    Backing(String),
    /// Shared-memory access is not supported.
    Unsupported,
}

/// A claimed range of guest memory.
#[derive(Debug)]
pub struct SharedRegion {
    memory: GuestMemoryMmap<()>,
    gpa: u64,
    size: u64,
    access: SharedAccess,
}

/// Where an access of `len` bytes at `offset` of a claimed range goes, if it
/// stays inside.
pub open spec fn access_at(gpa: u64, size: u64, offset: u64, len: nat) -> Option<u64> {
    if offset + len <= size && gpa + offset <= u64::MAX {
        Some((gpa + offset) as u64)
    } else {
        None
    }
}

/// Replaces the first `n` bytes of a buffer.
fn fill_front(data: &mut [u8], bytes: &Vec<u8>, n: usize)
    requires
        n <= old(data)@.len(),
        n <= bytes@.len(),
    ensures
        final(data)@ == bytes@.take(n as int) + old(data)@.skip(n as int),
{
    let mut i: usize = 0;
    while i < n
        invariant
            i <= n <= bytes@.len(),
            n <= old(data)@.len(),
            data@ == bytes@.take(i as int) + old(data)@.skip(i as int),
        decreases n - i,
    {
        data[i] = bytes[i];
        i = i + 1;
        assert(data@ =~= bytes@.take(i as int) + old(data)@.skip(i as int));
    }
}

impl SharedRegion {
    pub closed spec fn claimed(&self) -> SharedRange {
        SharedRange { gpa: self.gpa, size: self.size, access: self.access }
    }

    pub closed spec fn backing(&self) -> GuestMemoryMmap<()> {
        self.memory
    }

    /// Where an access goes, if it stays inside the claimed range.
    fn checked_access(&self, offset: u64, len: usize) -> (r: Option<u64>)
        ensures
            r == access_at(self.claimed().gpa, self.claimed().size, offset, len as nat),
    {
        match offset.checked_add(len as u64) {
            Some(end) => {
                if end > self.size {
                    None
                } else {
                    self.gpa.checked_add(offset)
                }
            },
            None => None,
        }
    }

    /// Reads the claimed range at `offset`.
    pub fn read(&self, offset: u64, data: &mut [u8]) -> (r: Result<(), SharedMemoryError>)
        ensures
            final(data)@.len() == old(data)@.len(),
            !self.claimed().access.reads() ==> {
                &&& r matches Err(SharedMemoryError::AccessDenied)
                &&& final(data)@ == old(data)@
            },
            self.claimed().access.reads() ==> match access_at(
                self.claimed().gpa,
                self.claimed().size,
                offset,
                old(data)@.len(),
            ) {
                None => {
                    &&& r matches Err(SharedMemoryError::OutOfRange)
                    &&& final(data)@ == old(data)@
                },
                Some(addr) => {
                    &&& r is Ok <==> old(data)@.len() == 0 || is_mapped(self.backing(), addr)
                    &&& exists|res: Result<(usize, Vec<u8>), String>|
                        #[trigger] fetched(
                            self.backing(),
                            addr,
                            old(data)@.len() as usize,
                            res,
                        ) && match res {
                            Ok(x) => {
                                &&& r is Ok
                                &&& x.0 <= old(data)@.len()
                                &&& in_one_region(self.backing(), addr, old(data)@.len()) ==> x.0
                                    == old(data)@.len()
                                &&& final(data)@ == x.1@.take(x.0 as int) + old(data)@.skip(
                                    x.0 as int,
                                )
                            },
                            Err(e) => r == Err::<(), _>(SharedMemoryError::Backing(e)),
                        }
                },
            },
            r is Err ==> final(data)@ == old(data)@,
    {
        if !self.access.permits_read() {
            return Err(SharedMemoryError::AccessDenied);
        }
        match self.checked_access(offset, data.len()) {
            Some(addr) => {
                let res = read_guest(&self.memory, addr, data.len());
                assert(fetched(self.backing(), addr, old(data)@.len() as usize, res));
                match res {
                    Ok((n, bytes)) => {
                        fill_front(data, &bytes, n);
                        Ok(())
                    },
                    Err(e) => Err(SharedMemoryError::Backing(e)),
                }
            },
            None => Err(SharedMemoryError::OutOfRange),
        }
    }

    /// Writes the claimed range at `offset`.
    pub fn write(&self, offset: u64, data: &[u8]) -> (r: Result<(), SharedMemoryError>)
        ensures
            !self.claimed().access.writes() ==> r matches Err(SharedMemoryError::AccessDenied),
            self.claimed().access.writes() ==> match access_at(
                self.claimed().gpa,
                self.claimed().size,
                offset,
                data@.len(),
            ) {
                None => r matches Err(SharedMemoryError::OutOfRange),
                Some(addr) => {
                    &&& r is Ok <==> data@.len() == 0 || is_mapped(self.backing(), addr)
                    &&& exists|res: Result<usize, String>|
                        #[trigger] stored(self.backing(), addr, data, res) && match res {
                            Ok(n) => {
                                &&& r is Ok
                                &&& n <= data@.len()
                                &&& in_one_region(self.backing(), addr, data@.len()) ==> n
                                    == data@.len()
                            },
                            Err(e) => r == Err::<(), _>(SharedMemoryError::Backing(e)),
                        }
                },
            },
    {
        if !self.access.permits_write() {
            return Err(SharedMemoryError::AccessDenied);
        }
        match self.checked_access(offset, data.len()) {
            Some(addr) => {
                let res = write_guest(&self.memory, addr, data);
                assert(stored(self.backing(), addr, data, res));
                match res {
                    Ok(_) => Ok(()),
                    Err(e) => Err(SharedMemoryError::Backing(e)),
                }
            },
            None => Err(SharedMemoryError::OutOfRange),
        }
    }
}

/// Which parts of guest memory are shared rather than private.
#[derive(Debug)]
pub struct SharedMemoryState {
    shared: Vec<AddressRange>,
}

/// Whether one of the ranges covers `[base, base + size)`.
pub open spec fn any_covers(ranges: Seq<AddressRange>, base: u64, size: u64) -> bool {
    exists|i: int| 0 <= i < ranges.len() && (#[trigger] ranges[i]).covers(base, size)
}

/// Whether one of the ranges covers `[base, base + size)`.
fn any_contains(ranges: &Vec<AddressRange>, base: u64, size: u64) -> (r: bool)
    ensures
        r == any_covers(ranges@, base, size),
{
    let mut i: usize = 0;
    while i < ranges.len()
        invariant
            i <= ranges@.len(),
            forall|k: int| 0 <= k < i ==> !(#[trigger] ranges@[k]).covers(base, size),
        decreases ranges@.len() - i,
    {
        if ranges[i].contains(base, size) {
            return true;
        }
        i = i + 1;
    }
    false
}

/// The first `n` ranges without `removed`, in order.
pub open spec fn all_minus(ranges: Seq<AddressRange>, removed: AddressRange, n: int) -> Seq<
    AddressRange,
>
    decreases n,
{
    if n <= 0 {
        Seq::empty()
    } else {
        all_minus(ranges, removed, n - 1) + ranges[n - 1].minus(removed)
    }
}

impl Default for SharedMemoryState {
    fn default() -> (r: SharedMemoryState)
        ensures
            r.ranges() == Seq::<AddressRange>::empty(),
    {
        SharedMemoryState::new(Vec::new())
    }
}

impl SharedMemoryState {
    /// The shared ranges.
    pub closed spec fn ranges(&self) -> Seq<AddressRange> {
        self.shared@
    }

    pub fn new(shared: Vec<AddressRange>) -> (r: SharedMemoryState)
        ensures
            r.ranges() == shared@,
    {
        SharedMemoryState { shared }
    }

    /// Replaces the shared ranges.
    pub fn set_shared_ranges(&mut self, shared: Vec<AddressRange>)
        ensures
            final(self).ranges() == shared@,
    {
        self.shared = shared;
    }

    /// Adds a shared range.
    pub fn mark_shared(&mut self, range: AddressRange)
        ensures
            final(self).ranges() == old(self).ranges().push(range),
    {
        self.shared.push(range);
    }

    /// Takes a range out of every shared range.
    pub fn mark_private(&mut self, range: AddressRange)
        ensures
            final(self).ranges() == all_minus(
                old(self).ranges(),
                range,
                old(self).ranges().len() as int,
            ),
    {
        let mut kept: Vec<AddressRange> = Vec::new();
        let mut i: usize = 0;
        while i < self.shared.len()
            invariant
                i <= self.shared@.len(),
                self.shared@ == old(self).shared@,
                kept@ == all_minus(self.shared@, range, i as int),
            decreases self.shared@.len() - i,
        {
            let mut parts = self.shared[i].subtract(range);
            kept.append(&mut parts);
            i = i + 1;
        }
        self.shared = kept;
    }

    /// Whether `[base, base + size)` lies in one shared range.
    pub fn contains(&self, base: u64, size: u64) -> (r: bool)
        ensures
            r == any_covers(self.ranges(), base, size),
    {
        any_contains(&self.shared, base, size)
    }

    /// The same shared ranges again.
    fn copy_of(ranges: &Vec<AddressRange>) -> (r: Vec<AddressRange>)
        ensures
            r@ == ranges@,
    {
        let mut out: Vec<AddressRange> = Vec::new();
        let mut i: usize = 0;
        while i < ranges.len()
            invariant
                i <= ranges@.len(),
                out@ == ranges@.take(i as int),
            decreases ranges@.len() - i,
        {
            out.push(ranges[i]);
            assert(ranges@.take(i + 1) =~= ranges@.take(i as int).push(ranges@[i as int]));
            i = i + 1;
        }
        assert(ranges@.take(i as int) =~= ranges@);
        out
    }
}

proof fn lemma_all_minus(ranges: Seq<AddressRange>, removed: AddressRange, n: int, x: u64)
    requires
        0 <= n <= ranges.len(),
        removed.bounded(),
        forall|i: int| 0 <= i < ranges.len() ==> (#[trigger] ranges[i]).bounded(),
    ensures
        any_has(all_minus(ranges, removed, n), x) <==> any_has(ranges.take(n), x) && !removed.has(
            x,
        ),
        forall|i: int|
            0 <= i < all_minus(ranges, removed, n).len() ==> (#[trigger] all_minus(
                ranges,
                removed,
                n,
            )[i]).bounded(),
    decreases n,
{
    if n > 0 {
        lemma_all_minus(ranges, removed, n - 1, x);
        crate::mmio::law_subtract_removes_the_addresses(ranges[n - 1], removed, x);
        let a = all_minus(ranges, removed, n - 1);
        let b = ranges[n - 1].minus(removed);
        let now = all_minus(ranges, removed, n);
        assert(now == a + b);
        if any_has(a, x) {
            let i = choose|i: int| 0 <= i < a.len() && (#[trigger] a[i]).has(x);
            assert(now[i].has(x));
        }
        if any_has(b, x) {
            let i = choose|i: int| 0 <= i < b.len() && (#[trigger] b[i]).has(x);
            assert(now[a.len() + i].has(x));
        }
        if any_has(now, x) {
            let i = choose|i: int| 0 <= i < now.len() && (#[trigger] now[i]).has(x);
            if i < a.len() {
                assert(a[i].has(x));
            } else {
                assert(b[i - a.len()].has(x));
            }
        }
        let before = ranges.take(n - 1);
        let after = ranges.take(n);
        if any_has(before, x) {
            let i = choose|i: int| 0 <= i < before.len() && (#[trigger] before[i]).has(x);
            assert(after[i].has(x));
        }
        if ranges[n - 1].has(x) {
            assert(after[n - 1].has(x));
        }
        if any_has(after, x) {
            let i = choose|i: int| 0 <= i < after.len() && (#[trigger] after[i]).has(x);
            if i < n - 1 {
                assert(before[i].has(x));
            }
        }
        assert forall|i: int| 0 <= i < now.len() implies (#[trigger] now[i]).bounded() by {
            if i < a.len() {
                assert(now[i] == a[i]);
            } else {
                assert(now[i] == b[i - a.len()]);
            }
        }
    }
}

/// Making a range private takes away exactly its addresses.
pub proof fn law_mark_private_removes_the_addresses(
    ranges: Seq<AddressRange>,
    removed: AddressRange,
    x: u64,
)
    requires
        removed.bounded(),
        forall|i: int| 0 <= i < ranges.len() ==> (#[trigger] ranges[i]).bounded(),
    ensures
        any_has(all_minus(ranges, removed, ranges.len() as int), x) <==> any_has(ranges, x)
            && !removed.has(x),
{
    lemma_all_minus(ranges, removed, ranges.len() as int, x);
    assert(ranges.take(ranges.len() as int) =~= ranges);
}

/// After a range is made private, no claim that touches it is granted until a
/// part of it is shared again.
pub proof fn law_private_range_is_not_granted(
    ranges: Seq<AddressRange>,
    removed: AddressRange,
    base: u64,
    size: u64,
    x: u64,
)
    requires
        removed.bounded(),
        forall|i: int| 0 <= i < ranges.len() ==> (#[trigger] ranges[i]).bounded(),
        base <= x < base + size,
        removed.has(x),
    ensures
        !any_covers(all_minus(ranges, removed, ranges.len() as int), base, size),
{
    law_mark_private_removes_the_addresses(ranges, removed, x);
    let left = all_minus(ranges, removed, ranges.len() as int);
    if any_covers(left, base, size) {
        let i = choose|i: int| 0 <= i < left.len() && (#[trigger] left[i]).covers(base, size);
        assert(left[i].has(x));
    }
}

/// Shared-memory capability over mapped guest RAM.
#[derive(Debug)]
pub struct MappedSharedMemory {
    memory: GuestMemoryMmap<()>,
    limits: Vec<AddressRange>,
    access: SharedAccess,
    shared: SharedMemoryState,
}

/// What a claim is answered: first the access, then the limits, then the shared
/// ranges are checked.
pub open spec fn claim_error(
    limits: Seq<AddressRange>,
    access: SharedAccess,
    shared: Seq<AddressRange>,
    range: SharedRange,
) -> Option<SharedMemoryError> {
    if !access.allows(range.access) {
        Some(SharedMemoryError::AccessDenied)
    } else if !any_covers(limits, range.gpa, range.size) {
        Some(SharedMemoryError::OutOfLimits)
    } else if !any_covers(shared, range.gpa, range.size) {
        Some(SharedMemoryError::NotShared)
    } else {
        None
    }
}

/// The non-empty regions among the first `n`, as ranges.
pub open spec fn ram_ranges(regions: Seq<(u64, u64)>, n: int) -> Seq<AddressRange>
    decreases n,
{
    if n <= 0 {
        Seq::empty()
    } else if regions[n - 1].1 > 0 {
        ram_ranges(regions, n - 1).push(
            AddressRange { base: regions[n - 1].0, size: regions[n - 1].1 },
        )
    } else {
        ram_ranges(regions, n - 1)
    }
}

impl MappedSharedMemory {
    /// The guest memory behind the capability.
    pub closed spec fn backing(&self) -> GuestMemoryMmap<()> {
        self.memory
    }

    /// The ranges that may be claimed at all.
    pub closed spec fn limit_ranges(&self) -> Seq<AddressRange> {
        self.limits@
    }

    /// The access that may be claimed.
    pub closed spec fn permitted(&self) -> SharedAccess {
        self.access
    }

    /// What is shared now.
    pub closed spec fn state(&self) -> SharedMemoryState {
        self.shared
    }

    /// What is shared now, to be changed while the machine runs. The next claim sees
    /// the change.
    pub fn shared_mut(&mut self) -> (r: &mut SharedMemoryState)
        ensures
            *r == old(self).state(),
            final(self).state() == *final(r),
            final(self).backing() == old(self).backing(),
            final(self).limit_ranges() == old(self).limit_ranges(),
            final(self).permitted() == old(self).permitted(),
    {
        &mut self.shared
    }

    /// A capability for one fixed range, all of it shared.
    pub fn new(memory: GuestMemoryMmap<()>, requirement: SharedMemoryRequirement) -> (r:
        MappedSharedMemory)
        ensures
            r.limit_ranges() == seq![requirement.range],
            r.permitted() == requirement.access,
            r.state().ranges() == seq![requirement.range],
            r.backing() == memory,
    {
        MappedSharedMemory::with_shared_state(
            memory,
            requirement,
            SharedMemoryState::new(vec![requirement.range]),
        )
    }

    /// A capability for all of the guest's RAM, all of it shared.
    pub fn for_guest_memory(memory: GuestMemoryMmap<()>, access: SharedAccess) -> (r:
        MappedSharedMemory)
        ensures
            r.limit_ranges() == ram_ranges(
                mapped_regions(memory),
                mapped_regions(memory).len() as int,
            ),
            r.state().ranges() == r.limit_ranges(),
            r.permitted() == access,
            r.backing() == memory,
    {
        let limits: Vec<AddressRange> = MappedSharedMemory::guest_memory_ranges(&memory);
        let shared: Vec<AddressRange> = SharedMemoryState::copy_of(&limits);
        MappedSharedMemory { memory, limits, access, shared: SharedMemoryState::new(shared) }
    }

    /// A capability for one fixed range of which the given parts are shared.
    pub fn with_shared_ranges(
        memory: GuestMemoryMmap<()>,
        requirement: SharedMemoryRequirement,
        shared: Vec<AddressRange>,
    ) -> (r: MappedSharedMemory)
        ensures
            r.limit_ranges() == seq![requirement.range],
            r.permitted() == requirement.access,
            r.state().ranges() == shared@,
            r.backing() == memory,
    {
        MappedSharedMemory::with_shared_state(
            memory,
            requirement,
            SharedMemoryState::new(shared),
        )
    }

    /// A capability for one fixed range with the given shared state.
    pub fn with_shared_state(
        memory: GuestMemoryMmap<()>,
        requirement: SharedMemoryRequirement,
        shared: SharedMemoryState,
    ) -> (r: MappedSharedMemory)
        ensures
            r.limit_ranges() == seq![requirement.range],
            r.permitted() == requirement.access,
            r.state() == shared,
            r.backing() == memory,
    {
        let limits: Vec<AddressRange> = vec![requirement.range];
        assert(limits@ =~= seq![requirement.range]);
        MappedSharedMemory { memory, limits, access: requirement.access, shared }
    }

    /// The non-empty regions of a guest memory.
    fn guest_memory_ranges(memory: &GuestMemoryMmap<()>) -> (r: Vec<AddressRange>)
        ensures
            r@ == ram_ranges(mapped_regions(*memory), mapped_regions(*memory).len() as int),
    {
        let regions = regions_of(memory);
        let mut out: Vec<AddressRange> = Vec::new();
        let mut i: usize = 0;
        while i < regions.len()
            invariant
                i <= regions@.len(),
                out@ == ram_ranges(regions@, i as int),
            decreases regions@.len() - i,
        {
            if regions[i].1 > 0 {
                out.push(AddressRange { base: regions[i].0, size: regions[i].1 });
            }
            i = i + 1;
        }
        out
    }

    /// Claims a range.
    pub fn region(&self, range: SharedRange) -> (r: Result<SharedRegion, SharedMemoryError>)
        ensures
            match claim_error(
                self.limit_ranges(),
                self.permitted(),
                self.state().ranges(),
                range,
            ) {
                Some(e) => r == Err::<SharedRegion, _>(e),
                None => r matches Ok(region) && region.claimed() == range && region.backing()
                    == self.backing(),
            },
    {
        if !self.access.includes(range.access) {
            return Err(SharedMemoryError::AccessDenied);
        }
        if !any_contains(&self.limits, range.gpa, range.size) {
            return Err(SharedMemoryError::OutOfLimits);
        }
        if !self.shared.contains(range.gpa, range.size) {
            return Err(SharedMemoryError::NotShared);
        }
        Ok(
            SharedRegion {
                memory: share(&self.memory),
                gpa: range.gpa,
                size: range.size,
                access: range.access,
            },
        )
    }
}

/// New shared ranges replace the old ones: from then on a claim that the access and
/// the limits allow is granted exactly if one of the new ranges covers it.
pub proof fn law_new_ranges_decide_claims(
    limits: Seq<AddressRange>,
    access: SharedAccess,
    before: Seq<AddressRange>,
    after: Seq<AddressRange>,
    range: SharedRange,
)
    requires
        claim_error(limits, access, before, range) is None,
    ensures
        claim_error(limits, access, after, range) is None <==> any_covers(
            after,
            range.gpa,
            range.size,
        ),
        !any_covers(after, range.gpa, range.size) ==> claim_error(limits, access, after, range)
            == Some(SharedMemoryError::NotShared),
{
}

/// A granted region never lets a device reach outside its capability: whatever
/// it accesses lies in one limit range and in one shared range.
pub proof fn law_granted_access_stays_inside(
    limits: Seq<AddressRange>,
    access: SharedAccess,
    shared: Seq<AddressRange>,
    range: SharedRange,
    offset: u64,
    len: nat,
)
    requires
        claim_error(limits, access, shared, range) is None,
        access_at(range.gpa, range.size, offset, len) is Some,
    ensures
        range.access.reads() ==> access.reads(),
        range.access.writes() ==> access.writes(),
        any_covers(limits, access_at(range.gpa, range.size, offset, len)->0, len as u64),
        any_covers(shared, access_at(range.gpa, range.size, offset, len)->0, len as u64),
{
    let addr = access_at(range.gpa, range.size, offset, len)->0;
    let i = choose|i: int|
        0 <= i < limits.len() && (#[trigger] limits[i]).covers(range.gpa, range.size);
    assert(limits[i].covers(addr, len as u64));
    let j = choose|j: int|
        0 <= j < shared.len() && (#[trigger] shared[j]).covers(range.gpa, range.size);
    assert(shared[j].covers(addr, len as u64));
}

/// The limits of a capability for all of the guest's RAM are the regions that are
/// not empty, in their order.
pub proof fn law_ram_limits_are_the_regions(regions: Seq<(u64, u64)>, n: int)
    requires
        0 <= n <= regions.len(),
    ensures
        ram_ranges(regions, n) == regions.take(n).filter(|r: (u64, u64)| r.1 != 0).map_values(
            |r: (u64, u64)| AddressRange { base: r.0, size: r.1 },
        ),
    decreases n,
{
    reveal(Seq::filter);
    if n > 0 {
        law_ram_limits_are_the_regions(regions, n - 1);
        assert(regions.take(n).drop_last() =~= regions.take(n - 1));
    }
    assert(ram_ranges(regions, n) =~= regions.take(n).filter(
        |r: (u64, u64)| r.1 != 0,
    ).map_values(|r: (u64, u64)| AddressRange { base: r.0, size: r.1 }));
}

/// An access of a claimed range goes as far behind its start as the offset says, and
/// exactly those accesses go anywhere that end within the range.
pub proof fn law_access_keeps_its_offset(gpa: u64, size: u64, offset: u64, len: nat)
    requires
        gpa + size <= u64::MAX,
    ensures
        access_at(gpa, size, offset, len) is Some <==> offset + len <= size,
        access_at(gpa, size, offset, len) matches Some(addr) ==> addr - gpa == offset && addr + len
            <= gpa + size,
{
}

/// A range that is marked as shared adds what it covers and nothing else.
pub proof fn law_marked_range_is_added(
    ranges: Seq<AddressRange>,
    range: AddressRange,
    base: u64,
    size: u64,
)
    ensures
        any_covers(ranges.push(range), base, size) <==> any_covers(ranges, base, size)
            || range.covers(base, size),
{
    let now = ranges.push(range);
    if any_covers(ranges, base, size) {
        let i = choose|i: int| 0 <= i < ranges.len() && (#[trigger] ranges[i]).covers(base, size);
        assert(now[i].covers(base, size));
    }
    if range.covers(base, size) {
        assert(now[ranges.len() as int].covers(base, size));
    }
    if any_covers(now, base, size) {
        let i = choose|i: int| 0 <= i < now.len() && (#[trigger] now[i]).covers(base, size);
        if i < ranges.len() {
            assert(ranges[i].covers(base, size));
        }
    }
}

/// A claim is granted exactly where the capability allows its access, one limit
/// covers it and one shared range covers it. A claim that more than one of these
/// refuses is answered in that order.
pub proof fn law_claims_are_answered_in_order(
    limits: Seq<AddressRange>,
    access: SharedAccess,
    shared: Seq<AddressRange>,
    range: SharedRange,
)
    ensures
        claim_error(limits, access, shared, range) is None <==> access.allows(range.access) && (
        exists|i: int|
            0 <= i < limits.len() && (#[trigger] limits[i]).covers(range.gpa, range.size)) && (
        exists|i: int|
            0 <= i < shared.len() && (#[trigger] shared[i]).covers(range.gpa, range.size)),
        claim_error(limits, access, shared, range) is Some && access.allows(range.access)
            ==> claim_error(limits, access, shared, range) == Some(
            if any_covers(limits, range.gpa, range.size) {
                SharedMemoryError::NotShared
            } else {
                SharedMemoryError::OutOfLimits
            },
        ),
        !access.allows(range.access) ==> claim_error(limits, access, shared, range) == Some(
            SharedMemoryError::AccessDenied,
        ),
{
}

/// After a range is marked as private, no shared range has an address of it, and every
/// other shared address stays shared; after one is marked as shared, what it covers may
/// be claimed, and what could be claimed before still may.
pub proof fn law_marking_changes_what_is_shared(
    s: &mut SharedMemoryState,
    t: &mut SharedMemoryState,
    range: AddressRange,
    x: u64,
    base: u64,
    size: u64,
)
    requires
        range.bounded(),
        forall|i: int| 0 <= i < old(s).ranges().len() ==> (#[trigger] old(s).ranges()[i]).bounded(),
        call_ensures(SharedMemoryState::mark_private, (s, range), ()),
        call_ensures(SharedMemoryState::mark_shared, (t, range), ()),
    ensures
        any_has(final(s).ranges(), x) <==> any_has(old(s).ranges(), x) && !range.has(x),
        any_covers(final(t).ranges(), base, size) <==> any_covers(old(t).ranges(), base, size)
            || range.covers(base, size),
{
    law_mark_private_removes_the_addresses(old(s).ranges(), range, x);
    law_marked_range_is_added(old(t).ranges(), range, base, size);
}

} // verus!

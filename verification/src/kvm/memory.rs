//! Guest-physical to host addresses.
use vstd::prelude::*;

verus! {

/// A mapped range of guest memory.
#[derive(Debug, Clone, Copy, PartialEq, Eq, Structural)]
pub struct MappedRegion {
    pub gpa: u64,
    pub host_addr: u64,
    pub size: u64,
}

impl MappedRegion {
    pub fn gpa(&self) -> (r: u64)
        ensures
            r == self.gpa,
    {
        self.gpa
    }

    pub fn host_addr(&self) -> (r: u64)
        ensures
            r == self.host_addr,
    {
        self.host_addr
    }

    pub fn size(&self) -> (r: u64)
        ensures
            r == self.size,
    {
        self.size
    }

    /// Whether the range holds a guest address.
    pub open spec fn holds(self, gpa: u64) -> bool {
        self.gpa <= gpa < self.gpa + self.size
    }

    /// Whether neither end of the range overflows.
    pub fn in_bounds(&self) -> (r: bool)
        ensures
            r == self.fits(),
    {
        self.gpa <= u64::MAX - self.size && self.host_addr <= u64::MAX - self.size
    }

    /// Whether neither end of the range overflows.
    pub open spec fn fits(self) -> bool {
        self.gpa + self.size <= u64::MAX && self.host_addr + self.size <= u64::MAX
    }

    /// The host address of a guest address in the range.
    pub open spec fn host(self, gpa: u64) -> u64 {
        (self.host_addr + (gpa - self.gpa)) as u64
    }
}

/// Why guest memory cannot be written.
#[derive(Debug, Clone, Copy, PartialEq, Eq, Structural)]
pub enum WriteError {
    /// The bytes reach over the end of a range.
    SpansRegion { gpa: u64, len: usize, region: u64, size: u64 },
    /// No range holds the address.
    NoRegion { gpa: u64 },
}

/// The ranges of guest memory.
#[derive(Debug)]
pub struct GpaMap {
    regions: Vec<MappedRegion>,
}

impl View for GpaMap {
    type V = Seq<MappedRegion>;

    closed spec fn view(&self) -> Seq<MappedRegion> {
        self.regions@
    }
}

/// The first range from `i` on that holds a guest address.
pub open spec fn region_of(regions: Seq<MappedRegion>, gpa: u64, i: int) -> Option<MappedRegion>
    decreases regions.len() - i,
{
    if i < 0 || i >= regions.len() {
        None
    } else if regions[i].holds(gpa) {
        Some(regions[i])
    } else {
        region_of(regions, gpa, i + 1)
    }
}

/// No range overflows.
pub open spec fn all_fit(regions: Seq<MappedRegion>) -> bool {
    forall|i: int| 0 <= i < regions.len() ==> (#[trigger] regions[i]).fits()
}

impl Default for GpaMap {
    fn default() -> (r: GpaMap)
        ensures
            r@ == Seq::<MappedRegion>::empty(),
    {
        GpaMap { regions: Vec::new() }
    }
}

impl GpaMap {
    pub fn new() -> (r: GpaMap)
        ensures
            r@ == Seq::<MappedRegion>::empty(),
    {
        GpaMap { regions: Vec::new() }
    }

    pub fn add(&mut self, gpa: u64, host_addr: u64, size: u64)
        ensures
            final(self)@ == old(self)@.push(MappedRegion { gpa, host_addr, size }),
    {
        self.regions.push(MappedRegion { gpa, host_addr, size });
    }

    /// The range that holds a guest address.
    fn find(&self, gpa: u64) -> (r: Option<MappedRegion>)
        requires
            all_fit(self@),
        ensures
            r == region_of(self@, gpa, 0),
            r matches Some(region) ==> region.holds(gpa) && region.fits(),
    {
        let mut i: usize = 0;
        while i < self.regions.len()
            invariant
                i <= self.regions@.len(),
                all_fit(self.regions@),
                region_of(self.regions@, gpa, 0) == region_of(self.regions@, gpa, i as int),
            decreases self.regions@.len() - i,
        {
            let region = self.regions[i];
            assert(self.regions@[i as int].fits());
            if gpa >= region.gpa && gpa < region.gpa + region.size {
                return Some(region);
            }
            i = i + 1;
        }
        None
    }

    /// The host address of a guest address.
    pub fn lookup(&self, gpa: u64) -> (r: Option<u64>)
        requires
            all_fit(self@),
        ensures
            r == match region_of(self@, gpa, 0) {
                Some(region) => Some(region.host(gpa)),
                None => None,
            },
    {
        match self.find(gpa) {
            Some(region) => Some(region.host_addr + (gpa - region.gpa)),
            None => None,
        }
    }

    /// Where `len` bytes for guest address `gpa` go in host memory. They have to
    /// lie in one range.
    pub fn write_target(&self, gpa: u64, len: usize) -> (r: Result<u64, WriteError>)
        requires
            all_fit(self@),
        ensures
            r == match region_of(self@, gpa, 0) {
                Some(region) => if gpa - region.gpa + len > region.size {
                    Err(
                        WriteError::SpansRegion {
                            gpa,
                            len,
                            region: region.gpa,
                            size: region.size,
                        },
                    )
                } else {
                    Ok(region.host(gpa))
                },
                None => Err(WriteError::NoRegion { gpa }),
            },
    {
        match self.find(gpa) {
            Some(region) => {
                let off: u64 = gpa - region.gpa;
                if len as u64 > region.size - off {
                    return Err(
                        WriteError::SpansRegion {
                            gpa,
                            len,
                            region: region.gpa,
                            size: region.size,
                        },
                    );
                }
                Ok(region.host_addr + off)
            },
            None => Err(WriteError::NoRegion { gpa }),
        }
    }
}

/// The size of the first `n` of some ranges together.
pub open spec fn total_size(requested: Seq<(u64, u64)>, n: int) -> int
    decreases n,
{
    if n <= 0 || n > requested.len() {
        0
    } else {
        total_size(requested, n - 1) + requested[n - 1].1
    }
}

proof fn lemma_total_size(requested: Seq<(u64, u64)>, i: int, n: int)
    requires
        0 <= i <= n <= requested.len(),
    ensures
        total_size(requested, i) <= total_size(requested, n),
    decreases n - i,
{
    if i < n {
        lemma_total_size(requested, i, n - 1);
    }
}

/// Where in one file the ranges of guest memory are backed: one behind the other.
pub fn backing_offsets(requested: &[(u64, u64)]) -> (r: (Vec<u64>, u64))
    requires
        total_size(requested@, requested@.len() as int) <= u64::MAX,
    ensures
        r.0@.len() == requested@.len(),
        forall|i: int|
            0 <= i < requested@.len() ==> #[trigger] r.0@[i] == total_size(requested@, i),
        r.1 == total_size(requested@, requested@.len() as int),
{
    let mut offsets: Vec<u64> = Vec::new();
    let mut total: u64 = 0;
    let mut i: usize = 0;
    while i < requested.len()
        invariant
            i <= requested@.len(),
            total_size(requested@, requested@.len() as int) <= u64::MAX,
            total == total_size(requested@, i as int),
            offsets@.len() == i,
            forall|k: int| 0 <= k < i ==> #[trigger] offsets@[k] == total_size(requested@, k),
        decreases requested@.len() - i,
    {
        proof {
            lemma_total_size(requested@, i + 1, requested@.len() as int);
        }
        offsets.push(total);
        total = total + requested[i].1;
        i = i + 1;
    }
    (offsets, total)
}

/// Bytes that may be written stay in the range that holds their address.
pub proof fn law_written_bytes_stay_in_their_region(
    regions: Seq<MappedRegion>,
    gpa: u64,
    len: int,
    k: int,
)
    requires
        all_fit(regions),
        region_of(regions, gpa, 0) matches Some(region) && gpa - region.gpa + len <= region.size,
        0 <= k < len,
    ensures
        ({
            let region = region_of(regions, gpa, 0)->0;
            &&& region.holds((gpa + k) as u64)
            &&& region.host((gpa + k) as u64) == region.host(gpa) + k
        }),
{
    lemma_region_of(regions, gpa, 0);
}

proof fn lemma_region_of(regions: Seq<MappedRegion>, gpa: u64, i: int)
    requires
        0 <= i <= regions.len(),
        all_fit(regions),
    ensures
        region_of(regions, gpa, i) matches Some(region) ==> region.holds(gpa) && region.fits(),
    decreases regions.len() - i,
{
    if i < regions.len() && !regions[i].holds(gpa) {
        lemma_region_of(regions, gpa, i + 1);
    }
}

/// A guest address is looked up in the first range that holds it, and lies as far
/// behind the start of the range in host memory as it does in guest memory; an address
/// that no range holds is not found.
pub proof fn law_lookup_keeps_the_distance(regions: Seq<MappedRegion>, gpa: u64, i: int)
    requires
        0 <= i <= regions.len(),
        all_fit(regions),
    ensures
        match region_of(regions, gpa, i) {
            Some(region) => {
                &&& region.gpa <= gpa && gpa < region.gpa + region.size
                &&& region.host(gpa) - region.host_addr == gpa - region.gpa
                &&& exists|k: int|
                    i <= k < regions.len() && #[trigger] regions[k] == region && forall|j: int|
                        i <= j < k ==> gpa < (#[trigger] regions[j]).gpa || gpa >= regions[j].gpa
                            + regions[j].size
            },
            None => forall|j: int|
                i <= j < regions.len() ==> gpa < (#[trigger] regions[j]).gpa || gpa
                    >= regions[j].gpa + regions[j].size,
        },
    decreases regions.len() - i,
{
    lemma_region_of(regions, gpa, i);
    if i < regions.len() {
        law_lookup_keeps_the_distance(regions, gpa, i + 1);
        if !regions[i].holds(gpa) {
            if let Some(region) = region_of(regions, gpa, i + 1) {
                let k = choose|k: int|
                    i + 1 <= k < regions.len() && #[trigger] regions[k] == region && forall|j: int|
                        i + 1 <= j < k ==> gpa < (#[trigger] regions[j]).gpa || gpa
                            >= regions[j].gpa + regions[j].size;
                assert(regions[k] == region);
            }
        } else {
            assert(regions[i] == region_of(regions, gpa, i)->0);
        }
    }
}

/// The ranges of one file lie one behind the other: each starts where the one before it
/// ends, the first at the start of the file, and no two share a byte.
pub proof fn law_backing_is_contiguous(requested: Seq<(u64, u64)>, i: int, j: int)
    requires
        0 <= i < j <= requested.len(),
    ensures
        total_size(requested, 0) == 0,
        total_size(requested, i + 1) - total_size(requested, i) == requested[i].1,
        total_size(requested, i) + requested[i].1 <= total_size(requested, j),
{
    lemma_total_size(requested, i + 1, j);
}

/// Bytes are written as far behind the start of a range in host memory as they are in
/// guest memory, and only where the range holds all of them; an added range is searched
/// behind the others.
pub proof fn law_write_keeps_the_distance(
    map: &GpaMap,
    gpa: u64,
    len: usize,
    w: Result<u64, WriteError>,
    l: Option<u64>,
    grown: &mut GpaMap,
    host_addr: u64,
    size: u64,
)
    requires
        all_fit(map@),
        call_ensures(GpaMap::write_target, (map, gpa, len), w),
        call_ensures(GpaMap::lookup, (map, gpa), l),
        call_ensures(GpaMap::add, (grown, gpa, host_addr, size), ()),
    ensures
        w matches Ok(host) ==> exists|k: int|
            0 <= k < map@.len() && (#[trigger] map@[k]).gpa <= gpa && gpa + len <= map@[k].gpa
                + map@[k].size && host - map@[k].host_addr == gpa - map@[k].gpa,
        w matches Ok(host) ==> l == Some(host),
        w matches Err(WriteError::NoRegion { .. }) <==> l is None,
        w is Err && l is Some ==> exists|k: int|
            0 <= k < map@.len() && (#[trigger] map@[k]).gpa <= gpa && gpa < map@[k].gpa
                + map@[k].size && gpa + len > map@[k].gpa + map@[k].size,
        final(grown)@.len() == old(grown)@.len() + 1,
        final(grown)@.last().gpa == gpa && final(grown)@.last().host_addr == host_addr && final(
            grown)@.last().size == size,
        final(grown)@.take(old(grown)@.len() as int) == old(grown)@,
{
    law_lookup_keeps_the_distance(map@, gpa, 0);
    assert(final(grown)@.take(old(grown)@.len() as int) =~= old(grown)@);
    if let Some(region) = region_of(map@, gpa, 0) {
        let k = choose|k: int|
            0 <= k < map@.len() && #[trigger] map@[k] == region && forall|j: int|
                0 <= j < k ==> gpa < (#[trigger] map@[j]).gpa || gpa >= map@[j].gpa + map@[j].size;
        assert(map@[k].gpa <= gpa);
    }
}

} // verus!

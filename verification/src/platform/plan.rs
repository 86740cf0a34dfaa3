//! The regions of guest-physical space that a tree declares.
use vstd::arithmetic::power2::pow2;
use vstd::prelude::*;

use crate::devtree::Property;
use crate::platform::error::{SurveyError, SurveyErrorView};

verus! {

/// What a declared region is.
#[derive(Debug, Clone, Copy, PartialEq, Eq, Structural)]
pub enum RegionKind {
    /// Guest RAM.
    Ram,
    /// A device register block.
    Mmio,
    /// The interrupt-controller substrate.
    SubstrateMmio,
    /// A PCIe configuration window.
    EcamWindow,
    /// A PCIe BAR window.
    BarWindow,
}

/// The property that a region was read from.
#[derive(Debug, Clone)]
pub struct Origin {
    pub node: String,
    pub prop: String,
}

impl Origin {
    /// The origin as `node:property`.
    pub fn to_text(&self) -> (r: String)
        ensures
            r@ == origin_text(self.node@, self.prop@),
    {
        let mut s: String = self.node.clone();
        s.append(":");
        s.append(self.prop.as_str());
        s
    }
}

/// `node:property`.
pub open spec fn origin_text(node: Seq<char>, prop: Seq<char>) -> Seq<char> {
    node + ":"@ + prop
}

/// One guest-physical region with its kind and the property it came from.
#[derive(Debug, Clone)]
pub struct DeclaredRegion {
    pub gpa: u64,
    pub size: u64,
    pub kind: RegionKind,
    pub origin: Origin,
}

/// A [`DeclaredRegion`] with its strings as character sequences.
pub struct RegionView {
    pub gpa: u64,
    pub size: u64,
    pub kind: RegionKind,
    pub node: Seq<char>,
    pub prop: Seq<char>,
}

impl View for DeclaredRegion {
    type V = RegionView;

    open spec fn view(&self) -> RegionView {
        RegionView {
            gpa: self.gpa,
            size: self.size,
            kind: self.kind,
            node: self.origin.node@,
            prop: self.origin.prop@,
        }
    }
}

/// The end of a range, cut off at the end of the 64-bit space.
pub open spec fn range_end(base: u64, size: u64) -> u64 {
    if base + size > u64::MAX {
        u64::MAX
    } else {
        (base + size) as u64
    }
}

/// Whether two ranges share an address.
pub open spec fn ranges_overlap(a: u64, a_size: u64, b: u64, b_size: u64) -> bool {
    a_size != 0 && b_size != 0 && a < range_end(b, b_size) && b < range_end(a, a_size)
}

/// Whether two ranges share an address.
pub fn overlaps(a: u64, a_size: u64, b: u64, b_size: u64) -> (r: bool)
    ensures
        r == ranges_overlap(a, a_size, b, b_size),
{
    let a_end: u64 = a.saturating_add(a_size);
    let b_end: u64 = b.saturating_add(b_size);
    a_size != 0 && b_size != 0 && a < b_end && b < a_end
}

/// Whether an address lies in a range.
pub open spec fn in_range(x: u64, base: u64, size: u64) -> bool {
    base <= x < base + size
}

/// Two ranges that end within the 64-bit space overlap exactly when some
/// address lies in both.
pub proof fn law_overlap_is_a_shared_address(a: u64, a_size: u64, b: u64, b_size: u64)
    requires
        a + a_size <= u64::MAX,
        b + b_size <= u64::MAX,
    ensures
        ranges_overlap(a, a_size, b, b_size) <==> exists|x: u64|
            #[trigger] in_range(x, a, a_size) && in_range(x, b, b_size),
        ranges_overlap(a, a_size, b, b_size) == ranges_overlap(b, b_size, a, a_size),
{
    if ranges_overlap(a, a_size, b, b_size) {
        let x = if a < b {
            b
        } else {
            a
        };
        assert(in_range(x, a, a_size) && in_range(x, b, b_size));
    }
}

/// The list of declared regions, in the order of their declaration.
#[derive(Debug, Clone)]
pub struct ResourcePlan {
    regions: Vec<DeclaredRegion>,
}

/// Whether regions `i` and `j` overlap.
pub open spec fn regions_clash(regions: Seq<RegionView>, i: int, j: int) -> bool {
    ranges_overlap(regions[i].gpa, regions[i].size, regions[j].gpa, regions[j].size)
}

/// Whether no two regions overlap.
pub open spec fn disjoint(regions: Seq<RegionView>) -> bool {
    forall|i: int, j: int| 0 <= i < j < regions.len() ==> !#[trigger] regions_clash(regions, i, j)
}

/// Whether the pair `(i, j)` comes before the pair `(k, l)` in the order in
/// which pairs are compared.
pub open spec fn pair_before(i: int, j: int, k: int, l: int) -> bool {
    i < k || (i == k && j < l)
}

/// `(i, j)` is the first pair of regions that overlap.
pub open spec fn first_clash(regions: Seq<RegionView>, i: int, j: int) -> bool {
    &&& 0 <= i < j < regions.len()
    &&& regions_clash(regions, i, j)
    &&& forall|k: int, l: int|
        0 <= k < l < regions.len() && pair_before(k, l, i, j) ==> !#[trigger] regions_clash(
            regions,
            k,
            l,
        )
}

/// The error owed for regions `i` and `j`.
pub open spec fn overlap_error(regions: Seq<RegionView>, i: int, j: int) -> SurveyErrorView {
    SurveyErrorView::Overlap {
        a: origin_text(regions[i].node, regions[i].prop),
        b: origin_text(regions[j].node, regions[j].prop),
    }
}

/// What checking that no regions overlap comes to.
pub open spec fn disjoint_check(regions: Seq<RegionView>, r: Result<(), SurveyErrorView>) -> bool {
    match r {
        Ok(_) => disjoint(regions),
        Err(e) => exists|i: int, j: int|
            #[trigger] first_clash(regions, i, j) && e == overlap_error(regions, i, j),
    }
}

/// A section loaded into guest memory: its name, address and size.
pub open spec fn section_fits(size: u64, gpa: u64, pa_bits: u32) -> bool {
    gpa + size <= u64::MAX && gpa + size <= pow2(pa_bits as nat)
}

/// Whether a region is closed to loaded sections and overlaps one.
pub open spec fn blocks_load(region: RegionView, gpa: u64, size: u64) -> bool {
    region.kind != RegionKind::Ram && ranges_overlap(gpa, size, region.gpa, region.size)
}

/// The first region from `i` on that a section overlaps.
pub open spec fn first_block(regions: Seq<RegionView>, gpa: u64, size: u64, i: int) -> Option<int>
    decreases regions.len() - i,
{
    if i < 0 || i >= regions.len() {
        None
    } else if blocks_load(regions[i], gpa, size) {
        Some(i)
    } else {
        first_block(regions, gpa, size, i + 1)
    }
}

/// What is wrong with a loaded section, if anything. An empty section is fine
/// anywhere; the others must lie in the guest address space and clear of every
/// region that is not RAM.
pub open spec fn load_error(
    regions: Seq<RegionView>,
    section: Seq<char>,
    gpa: u64,
    size: u64,
    pa_bits: u32,
) -> Option<SurveyErrorView> {
    if size == 0 {
        None
    } else if !section_fits(size, gpa, pa_bits) {
        Some(
            SurveyErrorView::LoadAddressOverflow {
                section,
                start: gpa,
                end: range_end(gpa, size),
            },
        )
    } else {
        match first_block(regions, gpa, size, 0) {
            Some(i) => Some(
                SurveyErrorView::LoadOverlapsRegion {
                    section,
                    start: gpa,
                    end: (gpa + size) as u64,
                    region: origin_text(regions[i].node, regions[i].prop),
                    region_start: regions[i].gpa,
                    region_end: range_end(regions[i].gpa, regions[i].size),
                },
            ),
            None => None,
        }
    }
}

impl View for ResourcePlan {
    type V = Seq<RegionView>;

    closed spec fn view(&self) -> Seq<RegionView> {
        self.regions@.map_values(|r: DeclaredRegion| r@)
    }
}

impl Default for ResourcePlan {
    fn default() -> (r: ResourcePlan)
        ensures
            r@ == Seq::<RegionView>::empty(),
    {
        ResourcePlan::new()
    }
}

impl ResourcePlan {
    /// A plan without regions.
    pub fn new() -> (r: ResourcePlan)
        ensures
            r@ == Seq::<RegionView>::empty(),
    {
        let r = ResourcePlan { regions: Vec::new() };
        assert(r@ =~= Seq::<RegionView>::empty());
        r
    }

    /// Declares a region that was read from a claimed property.
    pub fn declare_from(
        &mut self,
        prop: &Property,
        node: &str,
        gpa: u64,
        size: u64,
        kind: RegionKind,
    )
        ensures
            final(self)@ == old(self)@.push(
                RegionView { gpa, size, kind, node: node@, prop: prop.name@ },
            ),
    {
        self.regions.push(
            DeclaredRegion {
                gpa,
                size,
                kind,
                origin: Origin { node: node.to_owned(), prop: prop.name.clone() },
            },
        );
        assert(self@ =~= old(self)@.push(
            RegionView { gpa, size, kind, node: node@, prop: prop.name@ },
        ));
    }

    /// The declared regions.
    pub fn regions(&self) -> (r: &[DeclaredRegion])
        ensures
            r@.map_values(|d: DeclaredRegion| d@) == self@,
    {
        self.regions.as_slice()
    }

    /// Fails on the first pair of declared regions that overlap.
    pub fn check_disjoint(&self) -> (r: Result<(), SurveyError>)
        ensures
            match r {
                Ok(_) => disjoint_check(self@, Ok(())),
                Err(e) => disjoint_check(self@, Err(e@)),
            },
    {
        let n: usize = self.regions.len();
        let mut i: usize = 0;
        while i < n
            invariant
                n == self.regions@.len(),
                i <= n,
                self@.len() == n,
                forall|k: int, l: int|
                    0 <= k < l < n && k < i ==> !#[trigger] regions_clash(self@, k, l),
            decreases n - i,
        {
            let a = &self.regions[i];
            assert(self@[i as int] == a@);
            let mut j: usize = i + 1;
            while j < n
                invariant
                    n == self.regions@.len(),
                    i < j <= n,
                    self@.len() == n,
                    *a == self.regions@[i as int],
                    self@[i as int] == a@,
                    forall|k: int, l: int|
                        0 <= k < l < n && pair_before(k, l, i as int, j as int)
                            ==> !#[trigger] regions_clash(self@, k, l),
                decreases n - j,
            {
                let b = &self.regions[j];
                assert(self@[j as int] == b@);
                if overlaps(a.gpa, a.size, b.gpa, b.size) {
                    assert(first_clash(self@, i as int, j as int));
                    return Err(
                        SurveyError::Overlap { a: a.origin.to_text(), b: b.origin.to_text() },
                    );
                }
                assert(!regions_clash(self@, i as int, j as int));
                j = j + 1;
            }
            i = i + 1;
        }
        Ok(())
    }

    /// Fails on the first loaded section that leaves the guest address space of
    /// `pa_bits` bits or overlaps a declared region other than RAM.
    pub fn cross_validate_loads(&self, loaded: &[(String, u64, u64)], pa_bits: u32) -> (r: Result<
        (),
        SurveyError,
    >)
        requires
            pa_bits < 128,
        ensures
            match r {
                Ok(_) => forall|i: int|
                    0 <= i < loaded@.len() ==> load_error(
                        self@,
                        (#[trigger] loaded@[i]).0@,
                        loaded@[i].1,
                        loaded@[i].2,
                        pa_bits,
                    ) is None,
                Err(e) => exists|i: int|
                    {
                        &&& 0 <= i < loaded@.len()
                        &&& load_error(
                            self@,
                            (#[trigger] loaded@[i]).0@,
                            loaded@[i].1,
                            loaded@[i].2,
                            pa_bits,
                        ) == Some(e@)
                        &&& forall|j: int|
                            0 <= j < i ==> load_error(
                                self@,
                                (#[trigger] loaded@[j]).0@,
                                loaded@[j].1,
                                loaded@[j].2,
                                pa_bits,
                            ) is None
                    },
            },
    {
        let mut i: usize = 0;
        while i < loaded.len()
            invariant
                i <= loaded@.len(),
                pa_bits < 128,
                forall|j: int|
                    0 <= j < i ==> load_error(
                        self@,
                        (#[trigger] loaded@[j]).0@,
                        loaded@[j].1,
                        loaded@[j].2,
                        pa_bits,
                    ) is None,
            decreases loaded@.len() - i,
        {
            let section = &loaded[i];
            match self.check_load(section.0.as_str(), section.1, section.2, pa_bits) {
                Ok(_) => {},
                Err(e) => {
                    assert(load_error(
                        self@,
                        loaded@[i as int].0@,
                        loaded@[i as int].1,
                        loaded@[i as int].2,
                        pa_bits,
                    ) == Some(e@));
                    return Err(e);
                },
            }
            i = i + 1;
        }
        Ok(())
    }

    /// Checks one loaded section.
    fn check_load(&self, section: &str, gpa: u64, size: u64, pa_bits: u32) -> (r: Result<
        (),
        SurveyError,
    >)
        requires
            pa_bits < 128,
        ensures
            match r {
                Ok(_) => load_error(self@, section@, gpa, size, pa_bits) is None,
                Err(e) => load_error(self@, section@, gpa, size, pa_bits) == Some(e@),
            },
    {
        if size == 0 {
            return Ok(());
        }
        if !section_in_space(gpa, size, pa_bits) {
            return Err(
                SurveyError::LoadAddressOverflow {
                    section: section.to_owned(),
                    start: gpa,
                    end: gpa.saturating_add(size),
                },
            );
        }
        let end: u64 = gpa + size;
        let mut i: usize = 0;
        while i < self.regions.len()
            invariant
                i <= self.regions@.len(),
                self@.len() == self.regions@.len(),
                size != 0,
                section_fits(size, gpa, pa_bits),
                end == gpa + size,
                first_block(self@, gpa, size, 0) == first_block(self@, gpa, size, i as int),
            decreases self.regions@.len() - i,
        {
            let region = &self.regions[i];
            assert(self@[i as int] == region@);
            if region.kind != RegionKind::Ram && overlaps(gpa, size, region.gpa, region.size) {
                return Err(
                    SurveyError::LoadOverlapsRegion {
                        section: section.to_owned(),
                        start: gpa,
                        end,
                        region: region.origin.to_text(),
                        region_start: region.gpa,
                        region_end: region.gpa.saturating_add(region.size),
                    },
                );
            }
            i = i + 1;
        }
        Ok(())
    }
}

/// Whether a section ends within a guest address space of `pa_bits` bits.
fn section_in_space(gpa: u64, size: u64, pa_bits: u32) -> (r: bool)
    ensures
        r == section_fits(size, gpa, pa_bits),
{
    if gpa > u64::MAX - size {
        return false;
    }
    let end: u64 = gpa + size;
    if pa_bits >= 64 {
        proof {
            vstd::arithmetic::power2::lemma2_to64();
            if pa_bits > 64 {
                vstd::arithmetic::power2::lemma_pow2_strictly_increases(64, pa_bits as nat);
            }
        }
        return true;
    }
    proof {
        vstd::arithmetic::power2::lemma2_to64();
        vstd::arithmetic::power2::lemma_pow2_strictly_increases(pa_bits as nat, 64);
        vstd::bits::lemma_u64_shl_is_mul(1, pa_bits as u64);
    }
    let limit: u64 = 1u64 << pa_bits;
    end <= limit
}

proof fn lemma_first_block(regions: Seq<RegionView>, gpa: u64, size: u64, i: int)
    requires
        0 <= i,
    ensures
        match first_block(regions, gpa, size, i) {
            Some(k) => i <= k < regions.len() && blocks_load(regions[k], gpa, size) && forall|j: int|
                i <= j < k ==> !blocks_load(#[trigger] regions[j], gpa, size),
            None => forall|j: int|
                i <= j < regions.len() ==> !blocks_load(#[trigger] regions[j], gpa, size),
        },
    decreases regions.len() - i,
{
    if i < regions.len() && !blocks_load(regions[i], gpa, size) {
        lemma_first_block(regions, gpa, size, i + 1);
    }
}

/// In a plan without overlaps no address lies in two regions.
pub proof fn law_disjoint_regions_share_no_address(regions: Seq<RegionView>, i: int, j: int, x: u64)
    requires
        disjoint(regions),
        0 <= i < regions.len(),
        0 <= j < regions.len(),
        i != j,
        regions[i].gpa + regions[i].size <= u64::MAX,
        regions[j].gpa + regions[j].size <= u64::MAX,
        regions[i].gpa <= x < regions[i].gpa + regions[i].size,
    ensures
        !(regions[j].gpa <= x < regions[j].gpa + regions[j].size),
{
    let (a, b) = if i < j {
        (i, j)
    } else {
        (j, i)
    };
    assert(!regions_clash(regions, a, b));
}

/// A section that may be loaded lies in the guest address space, and no byte of it
/// lies in a region that is not RAM.
pub proof fn law_loaded_section_stays_clear(
    regions: Seq<RegionView>,
    section: Seq<char>,
    gpa: u64,
    size: u64,
    pa_bits: u32,
    i: int,
    x: u64,
)
    requires
        load_error(regions, section, gpa, size, pa_bits) is None,
        gpa <= x < gpa + size,
        0 <= i < regions.len(),
        regions[i].kind != RegionKind::Ram,
        regions[i].gpa + regions[i].size <= u64::MAX,
    ensures
        gpa + size <= pow2(pa_bits as nat),
        !(regions[i].gpa <= x < regions[i].gpa + regions[i].size),
{
    lemma_first_block(regions, gpa, size, 0);
    assert(!blocks_load(regions[i], gpa, size));
}

/// A section is refused for a reason: it ends beyond the guest address space, or a
/// byte of it lies in a region that is not RAM, the first such region in the plan.
pub proof fn law_refused_section_is_in_the_way(
    regions: Seq<RegionView>,
    section: Seq<char>,
    gpa: u64,
    size: u64,
    pa_bits: u32,
)
    requires
        forall|i: int|
            0 <= i < regions.len() ==> (#[trigger] regions[i]).gpa + regions[i].size <= u64::MAX,
    ensures
        size == 0 ==> load_error(regions, section, gpa, size, pa_bits) is None,
        load_error(regions, section, gpa, size, pa_bits) matches Some(e) ==> match e {
            SurveyErrorView::LoadAddressOverflow { section: named, start, end } => {
                &&& named == section
                &&& start == gpa
                &&& end == gpa + size || (end == u64::MAX && gpa + size > u64::MAX)
                &&& gpa + size > pow2(pa_bits as nat) || gpa + size > u64::MAX
            },
            SurveyErrorView::LoadOverlapsRegion {
                section: named,
                start,
                end,
                region,
                region_start,
                region_end,
            } => {
                &&& named == section
                &&& start == gpa && end == gpa + size
                &&& exists|i: int|
                    0 <= i < regions.len() && (#[trigger] regions[i]).kind != RegionKind::Ram
                        && region_start == regions[i].gpa && region_end == regions[i].gpa
                        + regions[i].size && region == regions[i].node + seq![':']
                        + regions[i].prop && start < region_end && region_start < end && (forall|
                        j: int,
                        x: u64,
                    |
                        0 <= j < i && regions[j].kind != RegionKind::Ram && gpa <= x < gpa + size
                            ==> !#[trigger] in_range(x, regions[j].gpa, regions[j].size))
            },
            _ => false,
        },
{
    lemma_first_block(regions, gpa, size, 0);
    match first_block(regions, gpa, size, 0) {
        Some(i) => {
            reveal_strlit(":");
            assert(":"@ =~= seq![':']);
            assert(blocks_load(regions[i], gpa, size));
            assert(regions[i].kind != RegionKind::Ram);
            assert forall|j: int, x: u64|
                0 <= j < i && regions[j].kind != RegionKind::Ram && gpa <= x < gpa
                    + size implies !#[trigger] in_range(x, regions[j].gpa, regions[j].size) by {
                assert(!blocks_load(regions[j], gpa, size));
            }
        },
        None => {},
    }
}

/// Where a region came from is written as the node, a colon and the property.
pub proof fn law_origins_are_written_with_a_colon(node: Seq<char>, prop: Seq<char>)
    ensures
        origin_text(node, prop).len() == node.len() + 1 + prop.len(),
        origin_text(node, prop)[node.len() as int] == ':',
        origin_text(node, prop).take(node.len() as int) == node,
        origin_text(node, prop).skip((node.len() + 1) as int) == prop,
{
    reveal_strlit(":");
    assert(":"@.len() == 1);
    assert(origin_text(node, prop).take(node.len() as int) =~= node);
    assert(origin_text(node, prop).skip((node.len() + 1) as int) =~= prop);
}

/// A declared region comes behind the others, with the address, the size and the kind
/// that were given, and names the node and the property.
pub proof fn law_declared_region_is_kept(
    plan: &mut ResourcePlan,
    prop: &Property,
    node: &str,
    gpa: u64,
    size: u64,
    kind: RegionKind,
    i: int,
)
    requires
        call_ensures(ResourcePlan::declare_from, (plan, prop, node, gpa, size, kind), ()),
    ensures
        final(plan)@.len() == old(plan)@.len() + 1,
        final(plan)@.last().gpa == gpa && final(plan)@.last().size == size && final(plan)@.last().kind == kind,
        final(plan)@.last().node == node@ && final(plan)@.last().prop == prop.name@,
        0 <= i < old(plan)@.len() ==> final(plan)@[i] == old(plan)@[i],
{
}

/// Sections are accepted exactly where each of them is.
pub proof fn law_sections_are_accepted_one_by_one(
    plan: &ResourcePlan,
    loaded: &[(String, u64, u64)],
    pa_bits: u32,
    r: Result<(), SurveyError>,
    i: int,
)
    requires
        pa_bits < 128,
        call_ensures(ResourcePlan::cross_validate_loads, (plan, loaded, pa_bits), r),
        0 <= i < loaded@.len(),
    ensures
        r is Ok ==> load_error(plan@, loaded@[i].0@, loaded@[i].1, loaded@[i].2, pa_bits) is None,
        r is Err ==> exists|k: int|
            0 <= k < loaded@.len() && load_error(
                plan@,
                (#[trigger] loaded@[k]).0@,
                loaded@[k].1,
                loaded@[k].2,
                pa_bits,
            ) is Some,
{
}

/// A plan with an overlap is refused with the first pair that overlaps: no region before
/// the named one overlaps a later one.
pub proof fn law_first_overlap_is_named(plan: &ResourcePlan, r: Result<(), SurveyError>)
    requires
        call_ensures(ResourcePlan::check_disjoint, (plan,), r),
    ensures
        r is Ok <==> disjoint(plan@),
        r matches Err(e) ==> exists|i: int, j: int|
            0 <= i < j < plan@.len() && #[trigger] regions_clash(plan@, i, j) && e@
                == (SurveyErrorView::Overlap {
                a: plan@[i].node + seq![':'] + plan@[i].prop,
                b: plan@[j].node + seq![':'] + plan@[j].prop,
            }) && forall|k: int, l: int|
                0 <= k < i && k < l < plan@.len() ==> !#[trigger] regions_clash(plan@, k, l),
{
    reveal_strlit(":");
    assert(":"@ =~= seq![':']);
    if let Err(e) = r {
        let (i, j) = choose|i: int, j: int|
            #[trigger] first_clash(plan@, i, j) && e@ == overlap_error(plan@, i, j);
        assert(regions_clash(plan@, i, j));
        assert forall|k: int, l: int| 0 <= k < i && k < l < plan@.len() implies !#[trigger] regions_clash(
            plan@,
            k,
            l,
        ) by {
            assert(pair_before(k, l, i, j));
        }
    }
}

} // verus!

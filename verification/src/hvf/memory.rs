//! The guest memory of the machine.
use vstd::prelude::*;

verus! {

/// A mapped range: its guest address and its size.
#[derive(Debug, Clone, Copy, PartialEq, Eq, Structural)]
pub struct Region {
    pub base: u64,
    pub size: u64,
}

/// Where the first range stands, from `i` on, that holds `len` bytes at `gpa`.
pub open spec fn region_holding(regions: Seq<Region>, gpa: u64, len: int, i: int) -> Option<int>
    decreases regions.len() - i,
{
    if i < 0 || i >= regions.len() {
        None
    } else if regions[i].base <= gpa && gpa + len <= regions[i].base + regions[i].size {
        Some(i)
    } else {
        region_holding(regions, gpa, len, i + 1)
    }
}

/// Where the first range stands that holds `len` bytes at `gpa`.
pub fn find_region(regions: &[Region], gpa: u64, len: usize) -> (r: Option<usize>)
    requires
        gpa + len <= u64::MAX,
        forall|i: int|
            0 <= i < regions@.len() ==> (#[trigger] regions@[i]).base + regions@[i].size
                <= u64::MAX,
    ensures
        match region_holding(regions@, gpa, len as int, 0) {
            Some(i) => r == Some(i as usize) && 0 <= i < regions@.len(),
            None => r is None,
        },
{
    let mut i: usize = 0;
    while i < regions.len()
        invariant
            i <= regions@.len(),
            gpa + len <= u64::MAX,
            forall|i: int|
                0 <= i < regions@.len() ==> (#[trigger] regions@[i]).base + regions@[i].size
                    <= u64::MAX,
            region_holding(regions@, gpa, len as int, 0) == region_holding(
                regions@,
                gpa,
                len as int,
                i as int,
            ),
        decreases regions@.len() - i,
    {
        let region = regions[i];
        assert(regions@[i as int].base + regions@[i as int].size <= u64::MAX);
        if gpa >= region.base && gpa + len as u64 <= region.base + region.size {
            return Some(i);
        }
        i = i + 1;
    }
    None
}

/// Whether a host whose guests can address `max_ipa` bits can run an image that
/// needs `min_addr_space_bits`.
pub fn addresses_enough(max_ipa: u32, min_addr_space_bits: u32) -> (r: bool)
    ensures
        r == (max_ipa >= min_addr_space_bits),
{
    max_ipa >= min_addr_space_bits
}

/// The range that is found holds the bytes and is the first that does; none is found
/// exactly if none holds them.
pub proof fn law_found_range_holds_the_bytes(regions: Seq<Region>, gpa: u64, len: int, i: int)
    requires
        0 <= i <= regions.len(),
    ensures
        match region_holding(regions, gpa, len, i) {
            Some(k) => {
                &&& i <= k < regions.len()
                &&& regions[k].base <= gpa && gpa + len <= regions[k].base + regions[k].size
                &&& forall|j: int|
                    i <= j < k ==> gpa < (#[trigger] regions[j]).base || gpa + len
                        > regions[j].base + regions[j].size
            },
            None => forall|j: int|
                i <= j < regions.len() ==> gpa < (#[trigger] regions[j]).base || gpa + len
                    > regions[j].base + regions[j].size,
        },
    decreases regions.len() - i,
{
    if i < regions.len() {
        law_found_range_holds_the_bytes(regions, gpa, len, i + 1);
    }
}

} // verus!

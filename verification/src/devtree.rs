//! Device-tree nodes and properties.
//!
//! A property is a name and a byte string; the accessors read the byte string
//! as big-endian cells or as zero-terminated text. Consumers take what they
//! model out of a node, so that what is left over is what nobody models.
use vstd::prelude::*;
use vstd::slice::slice_subrange;
use vstd::utf8::{decode_utf8, encode_utf8, valid_utf8};

use crate::hexstr::big_endian;
use crate::text;

verus! {

/// One property of a node.
#[derive(Debug, Clone)]
pub struct Property {
    pub name: String,
    pub value: Vec<u8>,
}

/// A node with its properties and child nodes.
#[derive(Debug)]
pub struct Node {
    pub name: String,
    pub properties: Vec<Property>,
    pub children: Vec<Node>,
}

/// The 32-bit big-endian number at byte `at`.
pub open spec fn cell_at(bytes: Seq<u8>, at: int) -> u32 {
    (bytes[at] * 0x100_0000 + bytes[at + 1] * 0x1_0000 + bytes[at + 2] * 0x100 + bytes[at
        + 3]) as u32
}

/// A byte string read as 32-bit big-endian cells; only a whole number of cells
/// can be.
pub open spec fn cells_of(bytes: Seq<u8>) -> Option<Seq<u32>> {
    if bytes.len() % 4 == 0 {
        Some(Seq::new(bytes.len() / 4, |i: int| cell_at(bytes, 4 * i)))
    } else {
        None
    }
}

/// A byte string read as exactly one cell.
pub open spec fn u32_of(bytes: Seq<u8>) -> Option<u32> {
    if bytes.len() == 4 {
        Some(cell_at(bytes, 0))
    } else {
        None
    }
}

/// Whether a byte string is text closed by its only zero byte.
pub open spec fn is_text(bytes: Seq<u8>) -> bool {
    &&& bytes.len() > 0
    &&& bytes.last() == 0
    &&& forall|i: int| 0 <= i < bytes.len() - 1 ==> #[trigger] bytes[i] != 0
    &&& valid_utf8(bytes.drop_last())
}

/// A byte string read as one zero-terminated string.
pub open spec fn str_of(bytes: Seq<u8>) -> Option<Seq<char>> {
    if is_text(bytes) {
        Some(decode_utf8(bytes.drop_last()))
    } else {
        None
    }
}

/// Whether a byte string is a list of zero-terminated strings.
pub open spec fn is_text_list(bytes: Seq<u8>) -> bool {
    bytes.len() > 0 && bytes.last() == 0 && valid_utf8(bytes)
}

/// Whether a string of the list starts at byte `i`.
pub open spec fn string_starts(bytes: Seq<u8>, i: int) -> bool {
    0 <= i < bytes.len() && (i == 0 || bytes[i - 1] == 0)
}

/// Whether `bytes` holds `part` at byte `i`.
pub open spec fn bytes_at(bytes: Seq<u8>, i: int, part: Seq<u8>) -> bool {
    i + part.len() <= bytes.len() && bytes.subrange(i, i + part.len()) == part
}

/// Whether a string of the list starts with `prefix`.
pub open spec fn list_has_prefixed(bytes: Seq<u8>, prefix: Seq<u8>) -> bool {
    is_text_list(bytes) && exists|i: int| #[trigger]
        string_starts(bytes, i) && bytes_at(bytes, i, prefix)
}

/// A 64-bit number from its high and low halves.
pub open spec fn join(hi: u32, lo: u32) -> u64 {
    (hi * 0x1_0000_0000 + lo) as u64
}

/// The pair of 64-bit numbers in the four cells at cell `at`.
pub open spec fn pair_at(cells: Seq<u32>, at: int) -> (u64, u64) {
    (join(cells[at], cells[at + 1]), join(cells[at + 2], cells[at + 3]))
}

/// The `idx`-th address and size pair of a `reg` value, two cells each.
pub open spec fn reg_pair_of(bytes: Seq<u8>, idx: int) -> Option<(u64, u64)> {
    match cells_of(bytes) {
        Some(cells) => if 4 * idx + 4 <= cells.len() {
            Some(pair_at(cells, 4 * idx))
        } else {
            None
        },
        None => None,
    }
}

pub(crate) fn join_u32(hi: u32, lo: u32) -> (r: u64)
    ensures
        r == join(hi, lo),
{
    (hi as u64) * 0x1_0000_0000 + (lo as u64)
}

/// Where the first property called `name` stands, looking from `i` on.
pub open spec fn find_property(props: Seq<Property>, name: Seq<char>, i: int) -> Option<int>
    decreases props.len() - i,
{
    if i < 0 || i >= props.len() {
        None
    } else if props[i].name@ == name {
        Some(i)
    } else {
        find_property(props, name, i + 1)
    }
}

/// The first property called `name`.
pub open spec fn property_of(props: Seq<Property>, name: Seq<char>) -> Option<Property> {
    match find_property(props, name, 0) {
        Some(i) => Some(props[i]),
        None => None,
    }
}

/// Properties without the first one called `name`.
pub open spec fn without_property(props: Seq<Property>, name: Seq<char>) -> Seq<Property> {
    match find_property(props, name, 0) {
        Some(i) => props.remove(i),
        None => props,
    }
}

/// Where the first child called `name` stands, looking from `i` on.
pub open spec fn find_child(children: Seq<Node>, name: Seq<char>, i: int) -> Option<int>
    decreases children.len() - i,
{
    if i < 0 || i >= children.len() {
        None
    } else if children[i].name@ == name {
        Some(i)
    } else {
        find_child(children, name, i + 1)
    }
}

/// Where the first child whose name starts with `prefix` stands, looking from
/// `i` on.
pub open spec fn find_prefixed(children: Seq<Node>, prefix: Seq<char>, i: int) -> Option<int>
    decreases children.len() - i,
{
    if i < 0 || i >= children.len() {
        None
    } else if text::has_prefix(children[i].name@, prefix) {
        Some(i)
    } else {
        find_prefixed(children, prefix, i + 1)
    }
}

pub proof fn lemma_find_property(props: Seq<Property>, name: Seq<char>, i: int)
    requires
        0 <= i,
    ensures
        find_property(props, name, i) matches Some(k) ==> i <= k < props.len() && props[k].name@
            == name,
    decreases props.len() - i,
{
    if i < props.len() && props[i].name@ != name {
        lemma_find_property(props, name, i + 1);
    }
}

pub proof fn lemma_find_child(children: Seq<Node>, name: Seq<char>, i: int)
    requires
        0 <= i,
    ensures
        match find_child(children, name, i) {
            Some(k) => i <= k < children.len() && children[k].name@ == name,
            None => forall|k: int| i <= k < children.len() ==> (#[trigger] children[k]).name@ != name,
        },
    decreases children.len() - i,
{
    if i < children.len() && children[i].name@ != name {
        lemma_find_child(children, name, i + 1);
    }
}

pub proof fn lemma_find_prefixed(children: Seq<Node>, prefix: Seq<char>, i: int)
    requires
        0 <= i,
    ensures
        find_prefixed(children, prefix, i) matches Some(k) ==> i <= k < children.len()
            && text::has_prefix(children[k].name@, prefix),
    decreases children.len() - i,
{
    if i < children.len() && !text::has_prefix(children[i].name@, prefix) {
        lemma_find_prefixed(children, prefix, i + 1);
    }
}

impl Property {
    /// A property without a value.
    pub fn new(name: &str) -> (r: Property)
        ensures
            r.name@ == name@,
            r.value@ == Seq::<u8>::empty(),
    {
        Property { name: name.to_owned(), value: Vec::new() }
    }

    /// The value as cells.
    pub fn as_u32s(&self) -> (r: Option<Vec<u32>>)
        ensures
            match r {
                Some(cells) => cells_of(self.value@) == Some(cells@),
                None => cells_of(self.value@) is None,
            },
    {
        let n: usize = self.value.len();
        if n % 4 != 0 {
            return None;
        }
        let mut cells: Vec<u32> = Vec::new();
        let mut i: usize = 0;
        while i < n / 4
            invariant
                n == self.value@.len(),
                i <= n / 4,
                cells@.len() == i,
                forall|k: int| 0 <= k < i ==> #[trigger] cells@[k] == cell_at(self.value@, 4 * k),
            decreases n / 4 - i,
        {
            let at: usize = 4 * i;
            let cell: u32 = (self.value[at] as u32) * 0x100_0000 + (self.value[at + 1] as u32)
                * 0x1_0000 + (self.value[at + 2] as u32) * 0x100 + (self.value[at + 3] as u32);
            cells.push(cell);
            i = i + 1;
        }
        assert(cells@ =~= Seq::new((n / 4) as nat, |k: int| cell_at(self.value@, 4 * k)));
        Some(cells)
    }

    /// The value as exactly one cell.
    pub fn as_u32(&self) -> (r: Option<u32>)
        ensures
            r == u32_of(self.value@),
    {
        if self.value.len() != 4 {
            return None;
        }
        Some(
            (self.value[0] as u32) * 0x100_0000 + (self.value[1] as u32) * 0x1_0000
                + (self.value[2] as u32) * 0x100 + (self.value[3] as u32),
        )
    }

    /// The value as one string.
    pub fn as_str(&self) -> (r: Option<String>)
        ensures
            match r {
                Some(s) => str_of(self.value@) == Some(s@),
                None => str_of(self.value@) is None,
            },
    {
        let n: usize = self.value.len();
        if n == 0 || self.value[n - 1] != 0 {
            return None;
        }
        let mut i: usize = 0;
        while i < n - 1
            invariant
                n == self.value@.len(),
                0 < n,
                i <= n - 1,
                forall|k: int| 0 <= k < i ==> #[trigger] self.value@[k] != 0,
            decreases n - i,
        {
            if self.value[i] == 0 {
                return None;
            }
            i = i + 1;
        }
        let body: &[u8] = slice_subrange(self.value.as_slice(), 0, n - 1);
        assert(body@ =~= self.value@.drop_last());
        text::decode(body)
    }

    /// Whether the value is a list of strings one of which starts with `prefix`.
    pub fn has_string_prefixed(&self, prefix: &str) -> (r: bool)
        ensures
            r == list_has_prefixed(self.value@, encode_utf8(prefix@)),
    {
        let n: usize = self.value.len();
        if n == 0 || self.value[n - 1] != 0 || text::decode(self.value.as_slice()).is_none() {
            return false;
        }
        let part: &[u8] = prefix.as_bytes();
        let mut i: usize = 0;
        while i < n
            invariant
                n == self.value@.len(),
                i <= n,
                is_text_list(self.value@),
                part@ == encode_utf8(prefix@),
                forall|k: int|
                    0 <= k < i && #[trigger] string_starts(self.value@, k) ==> !bytes_at(
                        self.value@,
                        k,
                        part@,
                    ),
            decreases n - i,
        {
            if (i == 0 || self.value[i - 1] == 0) && part.len() <= n - i {
                let here: &[u8] = slice_subrange(self.value.as_slice(), i, i + part.len());
                if text::same_bytes(here, part) {
                    assert(string_starts(self.value@, i as int));
                    return true;
                }
            }
            i = i + 1;
        }
        false
    }

    /// The `idx`-th address and size pair of the value.
    pub fn reg_pair(&self, idx: usize) -> (r: Option<(u64, u64)>)
        requires
            4 * idx + 4 <= usize::MAX,
        ensures
            r == reg_pair_of(self.value@, idx as int),
    {
        match self.as_u32s() {
            Some(cells) => {
                let i: usize = idx * 4;
                if cells.len() < i + 4 {
                    return None;
                }
                Some((join_u32(cells[i], cells[i + 1]), join_u32(cells[i + 2], cells[i + 3])))
            },
            None => None,
        }
    }
}

impl Node {
    /// A node without properties or children.
    pub fn new(name: &str) -> (r: Node)
        ensures
            r.name@ == name@,
            r.properties@ == Seq::<Property>::empty(),
            r.children@ == Seq::<Node>::empty(),
    {
        Node { name: name.to_owned(), properties: Vec::new(), children: Vec::new() }
    }

    /// Where the property called `name` stands.
    pub fn property_index(&self, name: &str) -> (r: Option<usize>)
        ensures
            match r {
                Some(i) => find_property(self.properties@, name@, 0) == Some(i as int)
                    && i < self.properties@.len(),
                None => find_property(self.properties@, name@, 0) is None,
            },
    {
        let mut i: usize = 0;
        while i < self.properties.len()
            invariant
                i <= self.properties@.len(),
                find_property(self.properties@, name@, 0) == find_property(
                    self.properties@,
                    name@,
                    i as int,
                ),
            decreases self.properties@.len() - i,
        {
            if text::same(self.properties[i].name.as_str(), name) {
                return Some(i);
            }
            i = i + 1;
        }
        None
    }

    /// Takes the property called `name` out of the node.
    pub fn remove_property(&mut self, name: &str) -> (r: Option<Property>)
        ensures
            r == property_of(old(self).properties@, name@),
            final(self).properties@ == without_property(old(self).properties@, name@),
            final(self).name == old(self).name,
            final(self).children == old(self).children,
    {
        match self.property_index(name) {
            Some(i) => Some(self.properties.remove(i)),
            None => None,
        }
    }

    /// Where the child called `name` stands.
    pub fn child_index(&self, name: &str) -> (r: Option<usize>)
        ensures
            match r {
                Some(i) => find_child(self.children@, name@, 0) == Some(i as int) && i
                    < self.children@.len(),
                None => find_child(self.children@, name@, 0) is None,
            },
    {
        let mut i: usize = 0;
        while i < self.children.len()
            invariant
                i <= self.children@.len(),
                find_child(self.children@, name@, 0) == find_child(
                    self.children@,
                    name@,
                    i as int,
                ),
            decreases self.children@.len() - i,
        {
            if text::same(self.children[i].name.as_str(), name) {
                return Some(i);
            }
            i = i + 1;
        }
        None
    }

    /// Where the first child whose name starts with `prefix` stands.
    pub fn prefixed_index(&self, prefix: &str) -> (r: Option<usize>)
        ensures
            match r {
                Some(i) => find_prefixed(self.children@, prefix@, 0) == Some(i as int) && i
                    < self.children@.len(),
                None => find_prefixed(self.children@, prefix@, 0) is None,
            },
    {
        let mut i: usize = 0;
        while i < self.children.len()
            invariant
                i <= self.children@.len(),
                find_prefixed(self.children@, prefix@, 0) == find_prefixed(
                    self.children@,
                    prefix@,
                    i as int,
                ),
            decreases self.children@.len() - i,
        {
            if text::starts_with(self.children[i].name.as_str(), prefix) {
                return Some(i);
            }
            i = i + 1;
        }
        None
    }
}

proof fn lemma_four_bytes(b: Seq<u8>)
    requires
        b.len() == 4,
    ensures
        big_endian(b) == b[0] * 0x100_0000 + b[1] * 0x1_0000 + b[2] * 0x100 + b[3],
{
    let c = b.drop_last();
    let d = c.drop_last();
    let e = d.drop_last();
    assert(c.last() == b[2] && d.last() == b[1] && e.last() == b[0]);
    assert(e.drop_last().len() == 0);
    reveal_with_fuel(big_endian, 5);
    assert(big_endian(e) == b[0]);
    assert(big_endian(d) == b[0] * 256 + b[1]);
    assert(big_endian(c) == (b[0] * 256 + b[1]) * 256 + b[2]);
}

proof fn lemma_eight_bytes(b: Seq<u8>)
    requires
        b.len() == 8,
    ensures
        big_endian(b) == big_endian(b.take(4)) * 0x1_0000_0000 + big_endian(b.skip(4)),
{
    let c = b.drop_last();
    let d = c.drop_last();
    let e = d.drop_last();
    assert(c.last() == b[6] && d.last() == b[5] && e.last() == b[4]);
    assert(e.drop_last() =~= b.take(4));
    lemma_four_bytes(b.skip(4));
    let high = big_endian(b.take(4));
    assert(big_endian(e) == high * 256 + b[4]);
    assert(big_endian(d) == (high * 256 + b[4]) * 256 + b[5]);
    assert(big_endian(c) == ((high * 256 + b[4]) * 256 + b[5]) * 256 + b[6]);
    assert(big_endian(b) == (((high * 256 + b[4]) * 256 + b[5]) * 256 + b[6]) * 256 + b[7]);
}

/// The cells of a value are its groups of four bytes, each read with the highest
/// byte first, and a value with bytes to spare has no cells.
pub proof fn law_cells_are_big_endian(bytes: Seq<u8>, i: int)
    ensures
        cells_of(bytes) is Some <==> bytes.len() % 4 == 0,
        cells_of(bytes) matches Some(cells) ==> 4 * cells.len() == bytes.len(),
        cells_of(bytes) matches Some(cells) ==> 0 <= i < cells.len() ==> cells[i] == big_endian(
            bytes.subrange(4 * i, 4 * i + 4),
        ),
        u32_of(bytes) is Some <==> bytes.len() == 4,
        u32_of(bytes) matches Some(v) ==> v == big_endian(bytes),
{
    if bytes.len() % 4 == 0 && 0 <= i < bytes.len() / 4 {
        lemma_four_bytes(bytes.subrange(4 * i, 4 * i + 4));
    }
    if bytes.len() == 4 {
        lemma_four_bytes(bytes);
    }
}

/// An address and size pair takes sixteen bytes of a value: the address in the
/// first eight and the size in the others, each with the highest byte first.
pub proof fn law_pairs_are_big_endian(bytes: Seq<u8>, i: int)
    requires
        0 <= i,
    ensures
        reg_pair_of(bytes, i) is Some <==> bytes.len() % 4 == 0 && 16 * i + 16 <= bytes.len(),
        reg_pair_of(bytes, i) matches Some(pair) ==> {
            &&& pair.0 == big_endian(bytes.subrange(16 * i, 16 * i + 8))
            &&& pair.1 == big_endian(bytes.subrange(16 * i + 8, 16 * i + 16))
        },
{
    if reg_pair_of(bytes, i) is Some {
        lemma_cells_join(bytes, 4 * i);
        lemma_cells_join(bytes, 4 * i + 2);
    }
}

/// Two neighbouring cells make up the number in their eight bytes.
pub proof fn lemma_cells_join(bytes: Seq<u8>, at: int)
    requires
        cells_of(bytes) is Some,
        0 <= at,
        4 * at + 8 <= bytes.len(),
    ensures
        join(cells_of(bytes)->0[at], cells_of(bytes)->0[at + 1]) == big_endian(
            bytes.subrange(4 * at, 4 * at + 8),
        ),
{
    let eight = bytes.subrange(4 * at, 4 * at + 8);
    lemma_eight_bytes(eight);
    law_cells_are_big_endian(bytes, at);
    law_cells_are_big_endian(bytes, at + 1);
    assert(eight.take(4) =~= bytes.subrange(4 * at, 4 * at + 4));
    assert(eight.skip(4) =~= bytes.subrange(4 * (at + 1), 4 * (at + 1) + 4));
}

/// The property that a name stands for is the first one called so. Taking it out
/// keeps all others in their order, and a name that no property has takes nothing.
pub proof fn law_name_stands_for_its_first_property(props: Seq<Property>, name: Seq<char>, k: int)
    requires
        0 <= k <= props.len(),
        forall|j: int| 0 <= j < k ==> (#[trigger] props[j]).name@ != name,
        k < props.len() ==> props[k].name@ == name,
    ensures
        k < props.len() ==> property_of(props, name) == Some(props[k]) && without_property(
            props,
            name,
        ) == props.take(k) + props.skip(k + 1),
        k == props.len() ==> property_of(props, name) is None && without_property(props, name)
            == props,
{
    lemma_first_property(props, name, k, 0);
    if k < props.len() {
        assert(props.remove(k) =~= props.take(k) + props.skip(k + 1));
    }
}

proof fn lemma_first_property(props: Seq<Property>, name: Seq<char>, k: int, i: int)
    requires
        0 <= i <= k <= props.len(),
        forall|j: int| 0 <= j < k ==> (#[trigger] props[j]).name@ != name,
        k < props.len() ==> props[k].name@ == name,
    ensures
        find_property(props, name, i) == if k < props.len() {
            Some(k)
        } else {
            None
        },
    decreases k - i,
{
    if i < k {
        lemma_first_property(props, name, k, i + 1);
    }
}

/// Taking one property out leaves the ones with other names to be found.
pub proof fn law_other_properties_stay(props: Seq<Property>, taken: Seq<char>, name: Seq<char>)
    requires
        taken != name,
    ensures
        property_of(without_property(props, taken), name) == property_of(props, name),
{
    lemma_find_property(props, taken, 0);
    lemma_find_property(props, name, 0);
    match find_property(props, taken, 0) {
        Some(t) => {
            let rest = props.remove(t);
            lemma_none_before(props, name, 0);
            match find_property(props, name, 0) {
                Some(k) => {
                    let at = if k < t {
                        k
                    } else {
                        k - 1
                    };
                    lemma_first_property(rest, name, at, 0);
                },
                None => {
                    lemma_first_property(rest, name, rest.len() as int, 0);
                },
            }
        },
        None => {},
    }
}

proof fn lemma_none_before(props: Seq<Property>, name: Seq<char>, i: int)
    requires
        0 <= i,
    ensures
        match find_property(props, name, i) {
            Some(k) => forall|j: int| i <= j < k ==> (#[trigger] props[j]).name@ != name,
            None => forall|j: int| i <= j < props.len() ==> (#[trigger] props[j]).name@ != name,
        },
    decreases props.len() - i,
{
    if i < props.len() && props[i].name@ != name {
        lemma_none_before(props, name, i + 1);
    }
}

/// The child that a name or a prefix stands for is the first one called so.
pub proof fn law_name_stands_for_its_first_child(children: Seq<Node>, text: Seq<char>, k: int)
    requires
        0 <= k < children.len(),
    ensures
        children[k].name@ == text && (forall|j: int|
            0 <= j < k ==> (#[trigger] children[j]).name@ != text) ==> find_child(children, text, 0)
            == Some(k),
        children[k].name@.len() >= text.len() && children[k].name@.take(text.len() as int) == text
            && (forall|j: int|
            0 <= j < k ==> !text::has_prefix((#[trigger] children[j]).name@, text))
            ==> find_prefixed(children, text, 0) == Some(k),
{
    if forall|j: int| 0 <= j < k ==> (#[trigger] children[j]).name@ != text {
        lemma_first_child(children, text, k, 0);
    }
    if forall|j: int| 0 <= j < k ==> !text::has_prefix((#[trigger] children[j]).name@, text) {
        lemma_first_prefixed(children, text, k, 0);
    }
}

proof fn lemma_first_child(children: Seq<Node>, name: Seq<char>, k: int, i: int)
    requires
        0 <= i <= k < children.len(),
        forall|j: int| 0 <= j < k ==> (#[trigger] children[j]).name@ != name,
    ensures
        find_child(children, name, i) == find_child(children, name, k),
    decreases k - i,
{
    if i < k {
        lemma_first_child(children, name, k, i + 1);
    }
}

proof fn lemma_first_prefixed(children: Seq<Node>, prefix: Seq<char>, k: int, i: int)
    requires
        0 <= i <= k < children.len(),
        forall|j: int| 0 <= j < k ==> !text::has_prefix((#[trigger] children[j]).name@, prefix),
    ensures
        find_prefixed(children, prefix, i) == find_prefixed(children, prefix, k),
    decreases k - i,
{
    if i < k {
        lemma_first_prefixed(children, prefix, k, i + 1);
    }
}

/// A value that is one string holds the bytes of its text and a zero byte.
pub proof fn law_string_values_end_with_zero(bytes: Seq<u8>)
    ensures
        str_of(bytes) matches Some(text) ==> bytes == encode_utf8(text).push(0) && !encode_utf8(
            text,
        ).contains(0),
{
    if is_text(bytes) {
        vstd::utf8::decode_utf8_encode_utf8(bytes.drop_last());
        assert(bytes =~= bytes.drop_last().push(0));
        assert forall|i: int| 0 <= i < bytes.len() - 1 implies #[trigger] bytes.drop_last()[i]
            != 0 by {
            assert(bytes[i] != 0);
        }
    }
}

/// A string of a list starts with a prefix exactly where the list falls into a part that
/// is empty or ends with a zero byte, the prefix, and the rest.
pub proof fn law_list_has_strings_with_a_prefix(
    front: Seq<u8>,
    prefix: Seq<u8>,
    back: Seq<u8>,
    bytes: Seq<u8>,
)
    requires
        prefix.len() > 0,
    ensures
        is_text_list(front + prefix + back) && (front.len() == 0 || front.last() == 0)
            ==> list_has_prefixed(front + prefix + back, prefix),
        list_has_prefixed(bytes, prefix) ==> exists|f: Seq<u8>, b: Seq<u8>|
            bytes == #[trigger] (f + prefix + b) && (f.len() == 0 || f.last() == 0),
{
    let all = front + prefix + back;
    if is_text_list(all) && (front.len() == 0 || front.last() == 0) {
        let i = front.len() as int;
        assert(all.subrange(i, i + prefix.len()) =~= prefix);
        assert(string_starts(all, i));
        assert(bytes_at(all, i, prefix));
    }
    if list_has_prefixed(bytes, prefix) {
        let i = choose|i: int| #[trigger] string_starts(bytes, i) && bytes_at(bytes, i, prefix);
        let f = bytes.take(i);
        let b = bytes.skip(i + prefix.len());
        assert(bytes =~= f + prefix + b);
    }
}

} // verus!

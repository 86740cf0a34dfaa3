//! CPU profiles: which CPUID bits a host must have to launch a guest.
use vstd::prelude::*;

use crate::text::same;

verus! {

/// A microarchitecture level.
#[derive(Debug, Clone, Copy, PartialEq, Eq, Structural)]
pub enum X86Level {
    V1,
    V2,
    V3,
    V4,
}

/// A register that CPUID fills.
#[derive(Debug, Clone, Copy, PartialEq, Eq, Structural)]
pub enum Reg {
    Eax,
    Ebx,
    Ecx,
    Edx,
}

/// One mandatory feature by its place in CPUID.
#[derive(Debug, Clone, Copy)]
pub struct CpuidFeature {
    pub function: u32,
    pub index: u32,
    pub reg: Reg,
    pub bit: u8,
    pub name: &'static str,
}

/// What CPUID gives for a function and an index.
#[derive(Debug, Clone, Copy, PartialEq, Eq, Structural)]
pub struct CpuidEntry {
    pub function: u32,
    pub index: u32,
    pub eax: u32,
    pub ebx: u32,
    pub ecx: u32,
    pub edx: u32,
}

/// A feature with index 0.
pub open spec fn feature(
    function: u32,
    reg: Reg,
    bit: u8,
    name: &'static str,
) -> CpuidFeature {
    CpuidFeature { function, index: 0, reg, bit, name }
}

fn bit(function: u32, reg: Reg, at: u8, name: &'static str) -> (r: CpuidFeature)
    ensures
        r == feature(function, reg, at, name),
{
    CpuidFeature { function, index: 0, reg, bit: at, name }
}

/// What the first level demands.
pub open spec fn v1_features() -> Seq<CpuidFeature> {
    seq![
        feature(1, Reg::Edx, 0, "fpu"),
        feature(1, Reg::Edx, 8, "cx8"),
        feature(1, Reg::Edx, 15, "cmov"),
        feature(1, Reg::Edx, 23, "mmx"),
        feature(1, Reg::Edx, 24, "fxsr"),
        feature(1, Reg::Edx, 25, "sse"),
        feature(1, Reg::Edx, 26, "sse2"),
    ]
}

/// What the second level adds.
pub open spec fn v2_additions() -> Seq<CpuidFeature> {
    seq![
        feature(1, Reg::Ecx, 13, "cmpxchg16b"),
        feature(0x8000_0001, Reg::Ecx, 0, "lahf-lm"),
        feature(1, Reg::Ecx, 23, "popcnt"),
        feature(1, Reg::Ecx, 0, "sse3"),
        feature(1, Reg::Ecx, 9, "ssse3"),
        feature(1, Reg::Ecx, 19, "sse4.1"),
        feature(1, Reg::Ecx, 20, "sse4.2"),
    ]
}

/// What the third level adds.
pub open spec fn v3_additions() -> Seq<CpuidFeature> {
    seq![
        feature(1, Reg::Ecx, 28, "avx"),
        feature(7, Reg::Ebx, 5, "avx2"),
        feature(7, Reg::Ebx, 3, "bmi1"),
        feature(7, Reg::Ebx, 8, "bmi2"),
        feature(1, Reg::Ecx, 29, "f16c"),
        feature(1, Reg::Ecx, 12, "fma"),
        feature(0x8000_0001, Reg::Ecx, 5, "lzcnt"),
        feature(1, Reg::Ecx, 22, "movbe"),
        feature(1, Reg::Ecx, 26, "xsave"),
    ]
}

/// What the fourth level adds.
pub open spec fn v4_additions() -> Seq<CpuidFeature> {
    seq![
        feature(7, Reg::Ebx, 16, "avx512f"),
        feature(7, Reg::Ebx, 30, "avx512bw"),
        feature(7, Reg::Ebx, 28, "avx512cd"),
        feature(7, Reg::Ebx, 17, "avx512dq"),
        feature(7, Reg::Ebx, 31, "avx512vl"),
    ]
}

/// The level that a profile names.
pub open spec fn level_named(s: Seq<char>) -> Option<X86Level> {
    if s == "x86-64-v1"@ {
        Some(X86Level::V1)
    } else if s == "x86-64-v2"@ {
        Some(X86Level::V2)
    } else if s == "x86-64-v3"@ {
        Some(X86Level::V3)
    } else if s == "x86-64-v4"@ {
        Some(X86Level::V4)
    } else {
        None
    }
}

impl X86Level {
    /// The name of the level.
    pub open spec fn name(self) -> &'static str {
        match self {
            X86Level::V1 => "x86-64-v1",
            X86Level::V2 => "x86-64-v2",
            X86Level::V3 => "x86-64-v3",
            X86Level::V4 => "x86-64-v4",
        }
    }

    /// What the level demands, with all that the levels below demand.
    pub open spec fn features(self) -> Seq<CpuidFeature> {
        match self {
            X86Level::V1 => v1_features(),
            X86Level::V2 => v1_features() + v2_additions(),
            X86Level::V3 => v1_features() + v2_additions() + v3_additions(),
            X86Level::V4 => v1_features() + v2_additions() + v3_additions() + v4_additions(),
        }
    }

    pub fn parse(s: &str) -> (r: Option<X86Level>)
        ensures
            r == level_named(s@),
    {
        if same(s, "x86-64-v1") {
            Some(X86Level::V1)
        } else if same(s, "x86-64-v2") {
            Some(X86Level::V2)
        } else if same(s, "x86-64-v3") {
            Some(X86Level::V3)
        } else if same(s, "x86-64-v4") {
            Some(X86Level::V4)
        } else {
            None
        }
    }

    pub fn as_str(self) -> (r: &'static str)
        ensures
            r == self.name(),
    {
        match self {
            X86Level::V1 => "x86-64-v1",
            X86Level::V2 => "x86-64-v2",
            X86Level::V3 => "x86-64-v3",
            X86Level::V4 => "x86-64-v4",
        }
    }

    /// What the level demands, with all that the levels below demand.
    pub fn cumulative_features(self) -> (r: Vec<CpuidFeature>)
        ensures
            r@ == self.features(),
    {
        let mut out: Vec<CpuidFeature> = vec![
            bit(1, Reg::Edx, 0, "fpu"),
            bit(1, Reg::Edx, 8, "cx8"),
            bit(1, Reg::Edx, 15, "cmov"),
            bit(1, Reg::Edx, 23, "mmx"),
            bit(1, Reg::Edx, 24, "fxsr"),
            bit(1, Reg::Edx, 25, "sse"),
            bit(1, Reg::Edx, 26, "sse2"),
        ];
        assert(out@ =~= v1_features());
        if matches!(self, X86Level::V1) {
            return out;
        }
        let mut v2: Vec<CpuidFeature> = vec![
            bit(1, Reg::Ecx, 13, "cmpxchg16b"),
            bit(0x8000_0001, Reg::Ecx, 0, "lahf-lm"),
            bit(1, Reg::Ecx, 23, "popcnt"),
            bit(1, Reg::Ecx, 0, "sse3"),
            bit(1, Reg::Ecx, 9, "ssse3"),
            bit(1, Reg::Ecx, 19, "sse4.1"),
            bit(1, Reg::Ecx, 20, "sse4.2"),
        ];
        assert(v2@ =~= v2_additions());
        out.append(&mut v2);
        if matches!(self, X86Level::V2) {
            return out;
        }
        let mut v3: Vec<CpuidFeature> = vec![
            bit(1, Reg::Ecx, 28, "avx"),
            bit(7, Reg::Ebx, 5, "avx2"),
            bit(7, Reg::Ebx, 3, "bmi1"),
            bit(7, Reg::Ebx, 8, "bmi2"),
            bit(1, Reg::Ecx, 29, "f16c"),
            bit(1, Reg::Ecx, 12, "fma"),
            bit(0x8000_0001, Reg::Ecx, 5, "lzcnt"),
            bit(1, Reg::Ecx, 22, "movbe"),
            bit(1, Reg::Ecx, 26, "xsave"),
        ];
        assert(v3@ =~= v3_additions());
        out.append(&mut v3);
        if matches!(self, X86Level::V3) {
            return out;
        }
        let mut v4: Vec<CpuidFeature> = vec![
            bit(7, Reg::Ebx, 16, "avx512f"),
            bit(7, Reg::Ebx, 30, "avx512bw"),
            bit(7, Reg::Ebx, 28, "avx512cd"),
            bit(7, Reg::Ebx, 17, "avx512dq"),
            bit(7, Reg::Ebx, 31, "avx512vl"),
        ];
        assert(v4@ =~= v4_additions());
        out.append(&mut v4);
        out
    }
}

impl Reg {
    /// What the register holds.
    pub open spec fn value(self, entry: CpuidEntry) -> u32 {
        match self {
            Reg::Eax => entry.eax,
            Reg::Ebx => entry.ebx,
            Reg::Ecx => entry.ecx,
            Reg::Edx => entry.edx,
        }
    }

    /// What the register holds.
    fn extract(self, entry: &CpuidEntry) -> (r: u32)
        ensures
            r == self.value(*entry),
    {
        match self {
            Reg::Eax => entry.eax,
            Reg::Ebx => entry.ebx,
            Reg::Ecx => entry.ecx,
            Reg::Edx => entry.edx,
        }
    }
}

/// Whether the first entry from `i` on for the feature's function and index has
/// the feature's bit; without such an entry the host lacks the feature.
pub open spec fn has_feature(entries: Seq<CpuidEntry>, feat: CpuidFeature, i: int) -> bool
    decreases entries.len() - i,
{
    if i < 0 || i >= entries.len() {
        false
    } else if entries[i].function == feat.function && entries[i].index == feat.index {
        (feat.reg.value(entries[i]) >> feat.bit) & 1 == 1
    } else {
        has_feature(entries, feat, i + 1)
    }
}

/// The name of the first feature from `i` on that the host lacks.
pub open spec fn missing_from(
    entries: Seq<CpuidEntry>,
    feats: Seq<CpuidFeature>,
    i: int,
) -> Option<&'static str>
    decreases feats.len() - i,
{
    if i < 0 || i >= feats.len() {
        None
    } else if !has_feature(entries, feats[i], 0) {
        Some(feats[i].name)
    } else {
        missing_from(entries, feats, i + 1)
    }
}

/// The first feature of a level that the host lacks.
pub fn first_missing(level: X86Level, supported: &[CpuidEntry]) -> (r: Option<&'static str>)
    ensures
        r == missing_from(supported@, level.features(), 0),
{
    let feats = level.cumulative_features();
    proof {
        lemma_bits_fit(level);
    }
    let mut i: usize = 0;
    while i < feats.len()
        invariant
            i <= feats@.len(),
            feats@ == level.features(),
            forall|k: int| 0 <= k < feats@.len() ==> (#[trigger] feats@[k]).bit < 32,
            missing_from(supported@, feats@, 0) == missing_from(supported@, feats@, i as int),
        decreases feats@.len() - i,
    {
        if !host_has_feature(supported, &feats[i]) {
            return Some(feats[i].name);
        }
        i = i + 1;
    }
    None
}

fn host_has_feature(supported: &[CpuidEntry], feat: &CpuidFeature) -> (r: bool)
    requires
        feat.bit < 32,
    ensures
        r == has_feature(supported@, *feat, 0),
{
    let mut i: usize = 0;
    while i < supported.len()
        invariant
            i <= supported@.len(),
            feat.bit < 32,
            has_feature(supported@, *feat, 0) == has_feature(supported@, *feat, i as int),
        decreases supported@.len() - i,
    {
        if supported[i].function == feat.function && supported[i].index == feat.index {
            return (feat.reg.extract(&supported[i]) >> feat.bit) & 1 == 1;
        }
        i = i + 1;
    }
    false
}

proof fn lemma_bits_fit(level: X86Level)
    ensures
        forall|k: int|
            0 <= k < level.features().len() ==> (#[trigger] level.features()[k]).bit < 32,
{
}

/// Executes the CPUID instruction: [`core::arch::x86_64::__cpuid_count`]. The entry
/// says which function and index were asked for; what the registers hold depends on
/// the processor, and nothing is claimed of it.
#[verifier::external_body]
pub(crate) fn cpuid(function: u32, index: u32) -> (r: CpuidEntry)
    ensures
        r.function == function,
        r.index == index,
{
    let c = core::arch::x86_64::__cpuid_count(function, index);
    CpuidEntry { function, index, eax: c.eax, ebx: c.ebx, ecx: c.ecx, edx: c.edx }
}

/// The entries of a processor that say which features it has, by its highest basic
/// and its highest extended function: one of a function above the highest of its
/// kind does not count.
pub open spec fn native_entries(
    basic_max: u32,
    extended_max: u32,
    one: CpuidEntry,
    seven: CpuidEntry,
    extended: CpuidEntry,
) -> Seq<CpuidEntry> {
    (if 1 <= basic_max {
        seq![one]
    } else {
        Seq::empty()
    }) + (if 7 <= basic_max {
        seq![seven]
    } else {
        Seq::empty()
    }) + (if 0x8000_0001 <= extended_max {
        seq![extended]
    } else {
        Seq::empty()
    })
}

/// Whether these entries are what `read` gives: the highest functions, and the
/// functions with features as far as there are these.
pub open spec fn entries_read<F: Fn(u32) -> CpuidEntry>(
    read: F,
    basic: CpuidEntry,
    ext: CpuidEntry,
    one: CpuidEntry,
    seven: CpuidEntry,
    extended: CpuidEntry,
) -> bool {
    &&& call_ensures(read, (0u32,), basic)
    &&& call_ensures(read, (0x8000_0000u32,), ext)
    &&& 1 <= basic.eax ==> call_ensures(read, (1u32,), one)
    &&& 7 <= basic.eax ==> call_ensures(read, (7u32,), seven)
    &&& 0x8000_0001 <= ext.eax ==> call_ensures(read, (0x8000_0001u32,), extended)
}

/// The first feature of a level that a processor lacks, where `read` reads what the
/// processor says of a function at index 0.
pub fn first_missing_read<F: Fn(u32) -> CpuidEntry>(level: X86Level, read: F) -> (r: Option<
    &'static str,
>)
    requires
        forall|function: u32| #[trigger] call_requires(read, (function,)),
    ensures
        exists|
            basic: CpuidEntry,
            ext: CpuidEntry,
            one: CpuidEntry,
            seven: CpuidEntry,
            extended: CpuidEntry,
        |
            #[trigger] entries_read(read, basic, ext, one, seven, extended) && r == missing_from(
                native_entries(basic.eax, ext.eax, one, seven, extended),
                level.features(),
                0,
            ),
{
    let basic = read(0);
    let ext = read(0x8000_0000);
    let mut entries: Vec<CpuidEntry> = Vec::new();
    let ghost mut one = basic;
    let ghost mut seven = basic;
    let ghost mut extended = basic;
    if 1 <= basic.eax {
        let entry = read(1);
        proof {
            one = entry;
        }
        entries.push(entry);
    }
    if 7 <= basic.eax {
        let entry = read(7);
        proof {
            seven = entry;
        }
        entries.push(entry);
    }
    if 0x8000_0001 <= ext.eax {
        let entry = read(0x8000_0001);
        proof {
            extended = entry;
        }
        entries.push(entry);
    }
    assert(entries@ =~= native_entries(basic.eax, ext.eax, one, seven, extended));
    assert(entries_read(read, basic, ext, one, seven, extended));
    first_missing(level, entries.as_slice())
}

/// Whether an entry names a function at index 0.
pub open spec fn asked(entry: CpuidEntry, function: u32) -> bool {
    entry.function == function && entry.index == 0
}

/// Whether an entry is one that executing the CPUID instruction may give for a
/// function at index 0.
pub closed spec fn told(entry: CpuidEntry, function: u32) -> bool {
    call_ensures(cpuid, (function, 0u32), entry)
}

/// What this processor says of a function at index 0.
pub fn native_entry(function: u32) -> (r: CpuidEntry)
    ensures
        asked(r, function),
        told(r, function),
{
    cpuid(function, 0)
}

/// Whether `r` is the first feature of a level that this processor lacks, by what it
/// says of the functions 0, 1, 7, 0x8000_0000 and 0x8000_0001 at index 0.
pub open spec fn missing_natively(level: X86Level, r: Option<&'static str>) -> bool {
    exists|
        basic: CpuidEntry,
        ext: CpuidEntry,
        one: CpuidEntry,
        seven: CpuidEntry,
        extended: CpuidEntry,
    |
        #[trigger] entries_read(native_entry, basic, ext, one, seven, extended) && r
            == missing_from(
            native_entries(basic.eax, ext.eax, one, seven, extended),
            level.features(),
            0,
        )
}

/// The first feature of a level that this processor lacks.
pub fn first_missing_native(level: X86Level) -> (r: Option<&'static str>)
    ensures
        missing_natively(level, r),
{
    first_missing_read(level, native_entry)
}

/// Every level demands all that the level below demands.
pub proof fn law_levels_are_supersets()
    ensures
        X86Level::V1.features().is_prefix_of(X86Level::V2.features()),
        X86Level::V2.features().is_prefix_of(X86Level::V3.features()),
        X86Level::V3.features().is_prefix_of(X86Level::V4.features()),
{
    assert(X86Level::V1.features() =~= X86Level::V2.features().subrange(0, 7));
    assert(X86Level::V2.features() =~= X86Level::V3.features().subrange(0, 14));
    assert(X86Level::V3.features() =~= X86Level::V4.features().subrange(0, 23));
}

/// A host that can launch a guest of some level can launch one of each level
/// below.
pub proof fn law_higher_level_implies_lower(
    entries: Seq<CpuidEntry>,
    feats: Seq<CpuidFeature>,
    more: Seq<CpuidFeature>,
    i: int,
)
    requires
        feats.is_prefix_of(more),
        0 <= i <= feats.len(),
        missing_from(entries, more, i) is None,
    ensures
        missing_from(entries, feats, i) is None,
    decreases feats.len() - i,
{
    if i < feats.len() {
        assert(feats[i] == more[i]);
        law_higher_level_implies_lower(entries, feats, more, i + 1);
    }
}

/// The name of a level names it.
pub proof fn law_level_name_round_trip(level: X86Level)
    ensures
        level_named(level.name()@) == Some(level),
{
    reveal_strlit("x86-64-v1");
    reveal_strlit("x86-64-v2");
    reveal_strlit("x86-64-v3");
    reveal_strlit("x86-64-v4");
    assert("x86-64-v1"@[8] != "x86-64-v2"@[8]);
    assert("x86-64-v1"@[8] != "x86-64-v3"@[8]);
    assert("x86-64-v1"@[8] != "x86-64-v4"@[8]);
    assert("x86-64-v2"@[8] != "x86-64-v3"@[8]);
    assert("x86-64-v2"@[8] != "x86-64-v4"@[8]);
    assert("x86-64-v3"@[8] != "x86-64-v4"@[8]);
}

/// The feature that is reported is the first that is lacking, and none is reported exactly
/// if all are there.
pub proof fn law_first_lacking_feature_is_reported(
    entries: Seq<CpuidEntry>,
    feats: Seq<CpuidFeature>,
    i: int,
)
    requires
        0 <= i <= feats.len(),
    ensures
        match missing_from(entries, feats, i) {
            Some(name) => exists|k: int|
                i <= k < feats.len() && name == (#[trigger] feats[k]).name && !has_feature(
                    entries,
                    feats[k],
                    0,
                ) && forall|j: int|
                    i <= j < k ==> has_feature(entries, #[trigger] feats[j], 0),
            None => forall|k: int|
                i <= k < feats.len() ==> has_feature(entries, #[trigger] feats[k], 0),
        },
    decreases feats.len() - i,
{
    if i < feats.len() {
        law_first_lacking_feature_is_reported(entries, feats, i + 1);
        if has_feature(entries, feats[i], 0) {
            if missing_from(entries, feats, i + 1) is Some {
                let name = missing_from(entries, feats, i + 1)->0;
                let k = choose|k: int|
                    i + 1 <= k < feats.len() && name == (#[trigger] feats[k]).name && !has_feature(
                        entries,
                        feats[k],
                        0,
                    ) && forall|j: int|
                        i + 1 <= j < k ==> has_feature(entries, #[trigger] feats[j], 0);
                assert(feats[k].name == name);
            }
        } else {
            assert(feats[i].name == missing_from(entries, feats, i)->0);
        }
    }
}

/// A feature is looked up in the first entry of its function and index.
pub proof fn law_first_entry_of_a_function_counts(
    entries: Seq<CpuidEntry>,
    feat: CpuidFeature,
    i: int,
    k: int,
)
    requires
        0 <= i <= k < entries.len(),
        entries[k].function == feat.function && entries[k].index == feat.index,
        forall|j: int|
            i <= j < k ==> (#[trigger] entries[j]).function != feat.function || entries[j].index
                != feat.index,
    ensures
        has_feature(entries, feat, i) <==> (feat.reg.value(entries[k]) >> feat.bit) & 1 == 1,
    decreases k - i,
{
    if i < k {
        law_first_entry_of_a_function_counts(entries, feat, i + 1, k);
    }
}

proof fn lemma_bit_of(
    one: CpuidEntry,
    seven: CpuidEntry,
    extended: CpuidEntry,
    feat: CpuidFeature,
)
    requires
        asked(one, 1) && asked(seven, 7) && asked(extended, 0x8000_0001),
        feat.index == 0,
        feat.function == 1 || feat.function == 7 || feat.function == 0x8000_0001,
    ensures
        has_feature(seq![one, seven, extended], feat, 0) <==> (feat.reg.value(
            if feat.function == 1 {
                one
            } else if feat.function == 7 {
                seven
            } else {
                extended
            },
        ) >> feat.bit) & 1 == 1,
{
    let entries = seq![one, seven, extended];
    let k: int = if feat.function == 1 {
        0
    } else if feat.function == 7 {
        1
    } else {
        2
    };
    law_first_entry_of_a_function_counts(entries, feat, 0, k);
}

/// What a level demands, as bits of the registers: of functions 1, 7 and 0x8000_0001 the
/// host has all bits of the level and of those below.
pub open spec fn has_level_bits(
    level: X86Level,
    one: CpuidEntry,
    seven: CpuidEntry,
    extended: CpuidEntry,
) -> bool {
    match level {
        X86Level::V1 => one.edx & 0x0780_8101 == 0x0780_8101,
        X86Level::V2 => one.edx & 0x0780_8101 == 0x0780_8101 && one.ecx & 0x0098_2201
            == 0x0098_2201 && extended.ecx & 1 == 1,
        X86Level::V3 => one.edx & 0x0780_8101 == 0x0780_8101 && one.ecx & 0x34d8_3201
            == 0x34d8_3201 && extended.ecx & 0x21 == 0x21 && seven.ebx & 0x128 == 0x128,
        X86Level::V4 => one.edx & 0x0780_8101 == 0x0780_8101 && one.ecx & 0x34d8_3201
            == 0x34d8_3201 && extended.ecx & 0x21 == 0x21 && seven.ebx & 0xd003_0128
            == 0xd003_0128,
    }
}

/// A host has all features of a level exactly if its registers have all bits that the
/// levels are defined by.
#[verifier::rlimit(60)]
pub proof fn law_levels_by_their_bits(
    level: X86Level,
    one: CpuidEntry,
    seven: CpuidEntry,
    extended: CpuidEntry,
)
    requires
        asked(one, 1) && asked(seven, 7) && asked(extended, 0x8000_0001),
    ensures
        missing_from(seq![one, seven, extended], level.features(), 0) is None <==> has_level_bits(
            level,
            one,
            seven,
            extended,
        ),
{
    let entries = seq![one, seven, extended];
    let feats = level.features();
    law_first_lacking_feature_is_reported(entries, feats, 0);
    assert forall|k: int| 0 <= k < feats.len() implies has_feature(entries, #[trigger] feats[k], 0)
        <==> (feats[k].reg.value(
        if feats[k].function == 1 {
            one
        } else if feats[k].function == 7 {
            seven
        } else {
            extended
        },
    ) >> feats[k].bit) & 1 == 1 by {
        lemma_bit_of(one, seven, extended, feats[k]);
    }
    let (d, c, b, x) = (one.edx, one.ecx, seven.ebx, extended.ecx);
    assert((((d >> 0u8) & 1 == 1 && (d >> 8u8) & 1 == 1 && (d >> 15u8) & 1 == 1 && (d >> 23u8) & 1
        == 1 && (d >> 24u8) & 1 == 1 && (d >> 25u8) & 1 == 1 && (d >> 26u8) & 1 == 1) == (d
        & 0x0780_8101 == 0x0780_8101)) && (((c >> 13u8) & 1 == 1 && (c >> 23u8) & 1 == 1 && (c
        >> 0u8) & 1 == 1 && (c >> 9u8) & 1 == 1 && (c >> 19u8) & 1 == 1 && (c >> 20u8) & 1 == 1)
        == (c & 0x0098_2201 == 0x0098_2201)) && ((c & 0x0098_2201 == 0x0098_2201 && (c >> 28u8) & 1
        == 1 && (c >> 29u8) & 1 == 1 && (c >> 12u8) & 1 == 1 && (c >> 22u8) & 1 == 1 && (c >> 26u8)
        & 1 == 1) == (c & 0x34d8_3201 == 0x34d8_3201)) && (((x >> 0u8) & 1 == 1) == (x & 1 == 1))
        && (((x >> 0u8) & 1 == 1 && (x >> 5u8) & 1 == 1) == (x & 0x21 == 0x21)) && (((b >> 5u8) & 1
        == 1 && (b >> 3u8) & 1 == 1 && (b >> 8u8) & 1 == 1) == (b & 0x128 == 0x128)) && ((b & 0x128
        == 0x128 && (b >> 16u8) & 1 == 1 && (b >> 30u8) & 1 == 1 && (b >> 28u8) & 1 == 1 && (b
        >> 17u8) & 1 == 1 && (b >> 31u8) & 1 == 1) == (b & 0xd003_0128 == 0xd003_0128)))
        by (bit_vector);
    let n = feats.len() as int;
    if missing_from(entries, feats, 0) is None {
        lemma_each(entries, feats);
    } else if has_level_bits(level, one, seven, extended) {
        assert forall|k: int| 0 <= k < n implies has_feature(entries, #[trigger] feats[k], 0) by {}
    }
}

proof fn lemma_each(entries: Seq<CpuidEntry>, feats: Seq<CpuidFeature>)
    requires
        forall|k: int| 0 <= k < feats.len() ==> has_feature(entries, #[trigger] feats[k], 0),
    ensures
        feats.len() >= 7 ==> has_feature(entries, feats[0], 0) && has_feature(entries, feats[1], 0)
            && has_feature(entries, feats[2], 0) && has_feature(entries, feats[3], 0)
            && has_feature(entries, feats[4], 0) && has_feature(entries, feats[5], 0)
            && has_feature(entries, feats[6], 0),
        feats.len() >= 14 ==> has_feature(entries, feats[7], 0) && has_feature(entries, feats[8], 0)
            && has_feature(entries, feats[9], 0) && has_feature(entries, feats[10], 0)
            && has_feature(entries, feats[11], 0) && has_feature(entries, feats[12], 0)
            && has_feature(entries, feats[13], 0),
        feats.len() >= 23 ==> has_feature(entries, feats[14], 0) && has_feature(
            entries,
            feats[15],
            0,
        ) && has_feature(entries, feats[16], 0) && has_feature(entries, feats[17], 0)
            && has_feature(entries, feats[18], 0) && has_feature(entries, feats[19], 0)
            && has_feature(entries, feats[20], 0) && has_feature(entries, feats[21], 0)
            && has_feature(entries, feats[22], 0),
        feats.len() >= 28 ==> has_feature(entries, feats[23], 0) && has_feature(
            entries,
            feats[24],
            0,
        ) && has_feature(entries, feats[25], 0) && has_feature(entries, feats[26], 0)
            && has_feature(entries, feats[27], 0),
{
}

} // verus!

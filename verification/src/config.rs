//! Device layout: the console, block and partitioned-disk devices of a guest,
//! and their resolution into validated facts.
//!
//! [`resolve`] checks a [`Layout`], parses its identifiers and derives those
//! that are left out; [`crate::slots::allocate`] then gives every device a bus
//! and a slot.
use vstd::prelude::*;
use vstd::slice::slice_subrange;
use vstd::utf8::encode_utf8;

use crate::hexstr::{self, HexError};
use crate::slots::{Bus, Placement};

verus! {

broadcast use {vstd::array::group_array_axioms, vstd::slice::group_slice_axioms};

/// Full device layout. `bus` is the default for devices that name none.
#[derive(Debug, Clone)]
pub struct Layout {
    pub bus: Option<Bus>,
    pub console: Option<ConsoleSpec>,
    pub devices: Vec<Device>,
}

/// One device entry.
#[derive(Debug, Clone)]
pub enum Device {
    Blk(BlkSpec),
    Gpt(GptSpec),
}

/// Console placement and endpoint.
#[derive(Debug, Clone)]
pub struct ConsoleSpec {
    pub endpoint: String,
    pub bus: Option<Bus>,
    pub slot: Option<u32>,
}

/// Single-file virtio-blk device.
#[derive(Debug, Clone)]
pub struct BlkSpec {
    pub path: String,
    pub readonly: bool,
    pub bus: Option<Bus>,
    pub slot: Option<u32>,
}

/// Virtualized-GPT device: a synthesized GPT over partition backing files.
/// The identifiers are derived from the partition ids when left out.
#[derive(Debug, Clone)]
pub struct GptSpec {
    pub device_id: Option<String>,
    pub disk_guid: Option<String>,
    pub partitions: Vec<PartSpec>,
    pub bus: Option<Bus>,
    pub slot: Option<u32>,
}

/// One GPT partition. The two ids are the bytes of a UUID, first byte first.
#[derive(Debug, Clone)]
pub struct PartSpec {
    pub path: String,
    pub partuuid: [u8; 16],
    pub typeguid: [u8; 16],
    pub label: String,
    /// 64-bit attributes as 16 hexadecimal characters; zero when left out.
    pub attrs: Option<String>,
}

/// Validated, placement-ready layout.
#[derive(Debug, Clone)]
pub struct Resolved {
    pub default_bus: Option<Bus>,
    pub console: ResolvedConsole,
    pub devices: Vec<ResolvedDevice>,
}

/// The console's place; its endpoint is the standard streams.
#[derive(Debug, Clone, Copy, PartialEq, Eq, Structural)]
pub struct ResolvedConsole {
    pub placement: Placement,
}

/// A device with its facts checked.
#[derive(Debug, Clone)]
pub enum ResolvedDevice {
    Blk { path: String, readonly: bool, placement: Placement },
    Gpt {
        device_id: [u8; 20],
        disk_guid: [u8; 16],
        partitions: Vec<ResolvedPart>,
        placement: Placement,
    },
}

/// A partition with its attributes parsed.
#[derive(Debug, Clone)]
pub struct ResolvedPart {
    pub path: String,
    pub partuuid: [u8; 16],
    pub typeguid: [u8; 16],
    pub label: String,
    pub attrs: u64,
}

/// Maximum number of GPT partitions.
pub const MAX_PARTITIONS: usize = 128;

/// Longest partition label, in UTF-16 code units.
pub const MAX_LABEL_UTF16: usize = 36;

/// Why a `device-id` text is refused.
#[derive(Debug, Clone, Copy, PartialEq, Eq, Structural)]
pub enum DeviceIdError {
    /// The `0x` form does not have forty digits.
    HexLength { len: usize },
    /// The `0x` form holds something other than digits.
    NotHex(HexError),
    /// The ASCII form is longer than twenty bytes.
    AsciiLength { len: usize },
    /// The ASCII form holds a byte that is not printable.
    NotPrintable,
}

/// Why a `disk-guid` text is refused.
#[derive(Debug, Clone, Copy, PartialEq, Eq, Structural)]
pub enum DiskGuidError {
    /// The text does not have thirty-two digits.
    Length { len: usize },
    /// The text holds something other than digits.
    NotHex(HexError),
}

/// Why an `attrs` text is refused.
#[derive(Debug, Clone, Copy, PartialEq, Eq, Structural)]
pub enum AttrsError {
    /// The text does not have sixteen characters.
    Length { len: usize },
    /// The text is not a hexadecimal number.
    NotHex,
}

/// Why a device is refused.
#[derive(Debug, Clone, Copy, PartialEq, Eq, Structural)]
pub enum DeviceError {
    /// A partitioned disk without partitions.
    NoPartitions,
    /// More partitions than a GPT holds.
    TooManyPartitions { count: usize },
    /// The label of a partition is too long.
    LabelTooLong { partition: usize },
    /// The attributes of a partition are malformed.
    Attrs { partition: usize, error: AttrsError },
    /// The device id is malformed.
    DeviceId(DeviceIdError),
    /// The disk GUID is malformed.
    DiskGuid(DiskGuidError),
}

/// Why a layout is refused.
#[derive(Debug, Clone, Copy, PartialEq, Eq, Structural)]
pub enum ResolveError {
    /// The console endpoint is not `stdio`.
    UnsupportedEndpoint,
    /// A device is refused.
    Device { index: usize, error: DeviceError },
}

/// Number of UTF-16 code units that `chars` takes.
pub open spec fn utf16_units(chars: Seq<char>) -> nat
    decreases chars.len(),
{
    if chars.len() == 0 {
        0
    } else {
        utf16_units(chars.drop_last()) + if chars.last() as u32 >= 0x1_0000 {
            2nat
        } else {
            1nat
        }
    }
}

/// Whether a text starts with `0x`.
pub open spec fn has_0x(text: Seq<u8>) -> bool {
    text.len() >= 2 && text[0] == 0x30 && text[1] == 0x78
}

/// A text without its `0x`, if it has one.
pub open spec fn without_0x(text: Seq<u8>) -> Seq<u8> {
    if has_0x(text) {
        text.skip(2)
    } else {
        text
    }
}

/// `e` is what is wrong with `digits`, an even number of would-be hex digits.
pub open spec fn hex_fault(digits: Seq<u8>, e: HexError) -> bool {
    e matches HexError::InvalidCharacter { c, index } && {
        &&& index < digits.len()
        &&& hexstr::all_hex(digits.take(index as int))
        &&& hexstr::hex_digit(digits[index as int]) is None
        &&& c == digits[index as int] as char
    }
}

/// `text` padded with zero bytes to a length of `n`.
pub open spec fn zero_padded(text: Seq<u8>, n: nat) -> Seq<u8> {
    Seq::new(
        n,
        |i: int|
            if i < text.len() {
                text[i]
            } else {
                0u8
            },
    )
}

/// Whether every byte is printable ASCII.
pub open spec fn printable(text: Seq<u8>) -> bool {
    forall|i: int| 0 <= i < text.len() ==> 0x20 <= #[trigger] text[i] <= 0x7e
}

/// What a `device-id` text stands for: `0x` and forty digits give twenty bytes;
/// otherwise at most twenty printable ASCII bytes are padded with zeros.
pub open spec fn device_id_of(text: Seq<u8>, r: Result<[u8; 20], DeviceIdError>) -> bool {
    if has_0x(text) {
        let digits = text.skip(2);
        if digits.len() != 40 {
            r == Err::<[u8; 20], _>(DeviceIdError::HexLength { len: digits.len() as usize })
        } else if hexstr::all_hex(digits) {
            r matches Ok(id) && id@ == hexstr::hex_bytes(digits)
        } else {
            r matches Err(DeviceIdError::NotHex(e)) && hex_fault(digits, e)
        }
    } else if text.len() > 20 {
        r == Err::<[u8; 20], _>(DeviceIdError::AsciiLength { len: text.len() as usize })
    } else if printable(text) {
        r matches Ok(id) && id@ == zero_padded(text, 20)
    } else {
        r == Err::<[u8; 20], _>(DeviceIdError::NotPrintable)
    }
}

/// What a `disk-guid` text stands for: thirty-two digits, behind `0x` or not,
/// give sixteen bytes.
pub open spec fn disk_guid_of(text: Seq<u8>, r: Result<[u8; 16], DiskGuidError>) -> bool {
    let digits = without_0x(text);
    if digits.len() != 32 {
        r == Err::<[u8; 16], _>(DiskGuidError::Length { len: digits.len() as usize })
    } else if hexstr::all_hex(digits) {
        r matches Ok(guid) && guid@ == hexstr::hex_bytes(digits)
    } else {
        r matches Err(DiskGuidError::NotHex(e)) && hex_fault(digits, e)
    }
}

/// What an `attrs` text stands for: sixteen digits, behind `0x` or not, give a
/// number.
pub open spec fn attrs_of(text: Seq<u8>) -> Result<u64, AttrsError> {
    let digits = without_0x(text);
    if digits.len() != 16 {
        Err(AttrsError::Length { len: digits.len() as usize })
    } else if hexstr::all_hex(digits) {
        Ok(hexstr::hex_number(digits) as u64)
    } else {
        Err(AttrsError::NotHex)
    }
}

/// The attributes of a partition, zero where none are given.
pub open spec fn part_attrs(p: PartSpec) -> Result<u64, AttrsError> {
    match p.attrs {
        Some(text) => attrs_of(encode_utf8(text@)),
        None => Ok(0),
    }
}

/// What is wrong with partition `i`, if anything.
pub open spec fn part_error(p: PartSpec, i: int) -> Option<DeviceError> {
    if utf16_units(p.label@) > MAX_LABEL_UTF16 {
        Some(DeviceError::LabelTooLong { partition: i as usize })
    } else {
        match part_attrs(p) {
            Ok(_) => None,
            Err(error) => Some(DeviceError::Attrs { partition: i as usize, error }),
        }
    }
}

/// Whether `r` is partition `p` with its attributes parsed.
pub open spec fn part_resolved(p: PartSpec, r: ResolvedPart) -> bool {
    &&& r.path@ == p.path@
    &&& r.partuuid == p.partuuid
    &&& r.typeguid == p.typeguid
    &&& r.label@ == p.label@
    &&& part_attrs(p) == Ok::<u64, AttrsError>(r.attrs)
}

/// The ids of the first `n` partitions, one after the other.
pub open spec fn partuuid_bytes(parts: Seq<ResolvedPart>, n: int) -> Seq<u8>
    decreases n,
{
    if n <= 0 {
        Seq::empty()
    } else {
        partuuid_bytes(parts, n - 1) + parts[n - 1].partuuid@
    }
}

/// The SHA-256 digest of a message.
pub uninterp spec fn sha256_digest(message: Seq<u8>) -> Seq<u8>;

/// Hashes `message` with `sha2::Sha256::digest`, which depends on the message
/// alone and gives thirty-two bytes.
#[verifier::external_body]
fn sha256(message: &[u8]) -> (r: [u8; 32])
    ensures
        r@ == sha256_digest(message@),
{
    let digest: [u8; 32] = <sha2::Sha256 as sha2::Digest>::digest(message).into();
    digest
}

/// Splits the two derived identifiers off a digest: its first twenty bytes and
/// its first sixteen.
pub fn ids_from_digest(digest: &[u8; 32]) -> (r: ([u8; 20], [u8; 16]))
    ensures
        r.0@ == digest@.take(20),
        r.1@ == digest@.take(16),
{
    let mut device_id: [u8; 20] = [0u8;20];
    let mut disk_guid: [u8; 16] = [0u8;16];
    let mut i: usize = 0;
    while i < 20
        invariant
            i <= 20,
            forall|k: int| 0 <= k < i ==> #[trigger] device_id@[k] == digest@[k],
            forall|k: int| 0 <= k < i && k < 16 ==> #[trigger] disk_guid@[k] == digest@[k],
        decreases 20 - i,
    {
        device_id[i] = digest[i];
        if i < 16 {
            disk_guid[i] = digest[i];
        }
        i = i + 1;
    }
    assert(device_id@ =~= digest@.take(20));
    assert(disk_guid@ =~= digest@.take(16));
    (device_id, disk_guid)
}

/// Derives a device id and a disk GUID from the SHA-256 digest of the partition
/// ids, in order.
pub fn derive_ids(partitions: &[ResolvedPart]) -> (r: ([u8; 20], [u8; 16]))
    ensures
        r.0@ == sha256_digest(partuuid_bytes(partitions@, partitions@.len() as int)).take(20),
        r.1@ == sha256_digest(partuuid_bytes(partitions@, partitions@.len() as int)).take(16),
        r.1@ == r.0@.take(16),
{
    let mut message: Vec<u8> = Vec::new();
    let mut i: usize = 0;
    while i < partitions.len()
        invariant
            i <= partitions@.len(),
            message@ == partuuid_bytes(partitions@, i as int),
        decreases partitions@.len() - i,
    {
        let mut k: usize = 0;
        while k < 16
            invariant
                i < partitions@.len(),
                k <= 16,
                message@ == partuuid_bytes(partitions@, i as int)
                    + partitions@[i as int].partuuid@.take(k as int),
            decreases 16 - k,
        {
            let ghost id = partitions@[i as int].partuuid@;
            message.push(partitions[i].partuuid[k]);
            assert(id.take(k + 1) =~= id.take(k as int).push(id[k as int]));
            k = k + 1;
        }
        assert(partitions@[i as int].partuuid@.take(16) =~= partitions@[i as int].partuuid@);
        i = i + 1;
    }
    ids_from_digest(&sha256(message.as_slice()))
}

/// Whether `text` starts with `0x`.
fn starts_with_0x(text: &[u8]) -> (r: bool)
    ensures
        r == has_0x(text@),
{
    text.len() >= 2 && text[0] == 0x30 && text[1] == 0x78
}

/// Parses `device-id`: `0x` and forty hexadecimal digits, or at most twenty
/// bytes of printable ASCII, padded with zeros.
pub fn parse_device_id(s: &str) -> (r: Result<[u8; 20], DeviceIdError>)
    ensures
        device_id_of(encode_utf8(s@), r),
{
    let text: &[u8] = s.as_bytes();
    if starts_with_0x(text) {
        let digits: &[u8] = slice_subrange(text, 2, text.len());
        assert(digits@ =~= text@.skip(2));
        if digits.len() != 40 {
            return Err(DeviceIdError::HexLength { len: digits.len() });
        }
        match hexstr::decode(digits) {
            Ok(bytes) => {
                let mut id: [u8; 20] = [0u8;20];
                let mut i: usize = 0;
                while i < 20
                    invariant
                        i <= 20,
                        bytes@.len() == 20,
                        forall|k: int| 0 <= k < i ==> #[trigger] id@[k] == bytes@[k],
                    decreases 20 - i,
                {
                    id[i] = bytes[i];
                    i = i + 1;
                }
                assert(id@ =~= bytes@);
                Ok(id)
            },
            Err(e) => Err(DeviceIdError::NotHex(e)),
        }
    } else {
        if text.len() > 20 {
            return Err(DeviceIdError::AsciiLength { len: text.len() });
        }
        let mut id: [u8; 20] = [0u8;20];
        let mut i: usize = 0;
        while i < text.len()
            invariant
                i <= text@.len() <= 20,
                text@ == encode_utf8(s@),
                !has_0x(text@),
                printable(text@.take(i as int)),
                forall|k: int| 0 <= k < i ==> #[trigger] id@[k] == text@[k],
                forall|k: int| i <= k < 20 ==> #[trigger] id@[k] == 0,
            decreases text@.len() - i,
        {
            if text[i] < 0x20 || text[i] > 0x7e {
                assert(!printable(text@));
                return Err(DeviceIdError::NotPrintable);
            }
            id[i] = text[i];
            assert(text@.take(i + 1) =~= text@.take(i as int).push(text@[i as int]));
            i = i + 1;
        }
        assert(text@.take(i as int) =~= text@);
        assert(id@ =~= zero_padded(text@, 20));
        Ok(id)
    }
}

/// Parses `disk-guid`: thirty-two hexadecimal digits, behind `0x` or not.
pub fn parse_disk_guid(s: &str) -> (r: Result<[u8; 16], DiskGuidError>)
    ensures
        disk_guid_of(encode_utf8(s@), r),
{
    let text: &[u8] = s.as_bytes();
    let start: usize = if starts_with_0x(text) {
        2
    } else {
        0
    };
    let digits: &[u8] = slice_subrange(text, start, text.len());
    assert(digits@ =~= without_0x(text@));
    if digits.len() != 32 {
        return Err(DiskGuidError::Length { len: digits.len() });
    }
    match hexstr::decode(digits) {
        Ok(bytes) => {
            let mut guid: [u8; 16] = [0u8;16];
            let mut i: usize = 0;
            while i < 16
                invariant
                    i <= 16,
                    bytes@.len() == 16,
                    forall|k: int| 0 <= k < i ==> #[trigger] guid@[k] == bytes@[k],
                decreases 16 - i,
            {
                guid[i] = bytes[i];
                i = i + 1;
            }
            assert(guid@ =~= bytes@);
            Ok(guid)
        },
        Err(e) => Err(DiskGuidError::NotHex(e)),
    }
}

/// Parses `attrs`: sixteen hexadecimal digits, behind `0x` or not.
pub fn parse_attrs(s: &str) -> (r: Result<u64, AttrsError>)
    ensures
        r == attrs_of(encode_utf8(s@)),
{
    let text: &[u8] = s.as_bytes();
    let start: usize = if starts_with_0x(text) {
        2
    } else {
        0
    };
    let digits: &[u8] = slice_subrange(text, start, text.len());
    assert(digits@ =~= without_0x(text@));
    if digits.len() != 16 {
        return Err(AttrsError::Length { len: digits.len() });
    }
    match hexstr::parse_u64(digits) {
        Some(v) => Ok(v),
        None => Err(AttrsError::NotHex),
    }
}

/// Whether a label takes at most [`MAX_LABEL_UTF16`] UTF-16 code units.
fn label_fits(label: &str) -> (r: bool)
    ensures
        r == (utf16_units(label@) <= MAX_LABEL_UTF16),
{
    let n: usize = label.unicode_len();
    let mut units: usize = 0;
    let mut i: usize = 0;
    while i < n
        invariant
            n == label@.len(),
            i <= n,
            units == utf16_units(label@.take(i as int)),
            units <= MAX_LABEL_UTF16,
        decreases n - i,
    {
        let c: char = label.get_char(i);
        assert(label@.take(i + 1).drop_last() =~= label@.take(i as int));
        units = units + if (c as u32) >= 0x1_0000 {
            2
        } else {
            1
        };
        i = i + 1;
        if units > MAX_LABEL_UTF16 {
            proof {
                lemma_units_grow(label@, i as int);
            }
            return false;
        }
    }
    assert(label@.take(n as int) =~= label@);
    true
}

proof fn lemma_units_grow(chars: Seq<char>, i: int)
    requires
        0 <= i <= chars.len(),
    ensures
        utf16_units(chars.take(i)) <= utf16_units(chars),
    decreases chars.len() - i,
{
    if i < chars.len() {
        lemma_units_grow(chars, i + 1);
        assert(chars.take(i + 1).drop_last() =~= chars.take(i));
    } else {
        assert(chars.take(i) =~= chars);
    }
}

/// Checks one partition.
fn resolve_part(p: &PartSpec, partition: usize) -> (r: Result<ResolvedPart, DeviceError>)
    ensures
        match r {
            Ok(part) => part_error(*p, partition as int) is None && part_resolved(*p, part),
            Err(e) => part_error(*p, partition as int) == Some(e),
        },
{
    if !label_fits(p.label.as_str()) {
        return Err(DeviceError::LabelTooLong { partition });
    }
    let attrs: u64 = match &p.attrs {
        Some(text) => match parse_attrs(text.as_str()) {
            Ok(v) => v,
            Err(error) => {
                return Err(DeviceError::Attrs { partition, error });
            },
        },
        None => 0,
    };
    Ok(
        ResolvedPart {
            path: p.path.clone(),
            partuuid: p.partuuid,
            typeguid: p.typeguid,
            label: p.label.clone(),
            attrs,
        },
    )
}

impl ResolvedDevice {
    /// Where the device asks to be placed.
    pub fn placement(&self) -> (r: &Placement)
        ensures
            *r == self.asks_for(),
    {
        match self {
            ResolvedDevice::Blk { placement, .. } => placement,
            ResolvedDevice::Gpt { placement, .. } => placement,
        }
    }

    /// Where the device asks to be placed.
    pub open spec fn asks_for(self) -> Placement {
        match self {
            ResolvedDevice::Blk { placement, .. } => placement,
            ResolvedDevice::Gpt { placement, .. } => placement,
        }
    }
}

/// Whether `parts` are the partitions of `specs`, each with its attributes
/// parsed.
pub open spec fn parts_resolved(specs: Seq<PartSpec>, parts: Seq<ResolvedPart>) -> bool {
    &&& parts.len() == specs.len()
    &&& forall|i: int|
        0 <= i < specs.len() ==> part_resolved(#[trigger] specs[i], parts[i])
}

/// `e` is what is wrong with the first partition that is refused.
pub open spec fn first_part_error(specs: Seq<PartSpec>, e: DeviceError) -> bool {
    exists|i: int|
        0 <= i < specs.len() && #[trigger] part_error(specs[i], i) == Some(e) && (forall|j: int|
            0 <= j < i ==> #[trigger] part_error(specs[j], j) is None)
}

/// No partition is refused.
pub open spec fn parts_accepted(specs: Seq<PartSpec>) -> bool {
    forall|i: int| 0 <= i < specs.len() ==> #[trigger] part_error(specs[i], i) is None
}

/// Whether `id` is the device id of a disk: the one its layout gives, else the
/// one that its partitions imply.
pub open spec fn gpt_device_id(g: GptSpec, parts: Seq<ResolvedPart>, id: [u8; 20]) -> bool {
    match g.device_id {
        Some(text) => device_id_of(encode_utf8(text@), Ok(id)),
        None => id@ == sha256_digest(partuuid_bytes(parts, parts.len() as int)).take(20),
    }
}

/// Whether `guid` is the GUID of a disk: the one its layout gives, else the one
/// that its partitions imply.
pub open spec fn gpt_disk_guid(g: GptSpec, parts: Seq<ResolvedPart>, guid: [u8; 16]) -> bool {
    match g.disk_guid {
        Some(text) => disk_guid_of(encode_utf8(text@), Ok(guid)),
        None => guid@ == sha256_digest(partuuid_bytes(parts, parts.len() as int)).take(16),
    }
}

/// Whether the device id that a layout gives is refused with `e`.
pub open spec fn device_id_refused(g: GptSpec, e: DeviceIdError) -> bool {
    g.device_id matches Some(text) && device_id_of(encode_utf8(text@), Err(e))
}

/// Whether the disk GUID that a layout gives is refused with `e`.
pub open spec fn disk_guid_refused(g: GptSpec, e: DiskGuidError) -> bool {
    g.disk_guid matches Some(text) && disk_guid_of(encode_utf8(text@), Err(e))
}

/// What resolving one device comes to.
pub open spec fn device_resolved(d: Device, r: Result<ResolvedDevice, DeviceError>) -> bool {
    match d {
        Device::Blk(b) => r matches Ok(ResolvedDevice::Blk { path, readonly, placement }) && {
            &&& path@ == b.path@
            &&& readonly == b.readonly
            &&& placement == Placement { bus: b.bus, slot: b.slot }
        },
        Device::Gpt(g) => {
            let specs = g.partitions@;
            if specs.len() == 0 {
                r == Err::<ResolvedDevice, _>(DeviceError::NoPartitions)
            } else if specs.len() > MAX_PARTITIONS {
                r == Err::<ResolvedDevice, _>(
                    DeviceError::TooManyPartitions { count: specs.len() as usize },
                )
            } else {
                match r {
                    Ok(ResolvedDevice::Gpt { device_id, disk_guid, partitions, placement }) => {
                        &&& parts_accepted(specs)
                        &&& parts_resolved(specs, partitions@)
                        &&& gpt_device_id(g, partitions@, device_id)
                        &&& gpt_disk_guid(g, partitions@, disk_guid)
                        &&& placement == Placement { bus: g.bus, slot: g.slot }
                    },
                    Ok(_) => false,
                    Err(DeviceError::DeviceId(e)) => {
                        &&& parts_accepted(specs)
                        &&& device_id_refused(g, e)
                    },
                    Err(DeviceError::DiskGuid(e)) => {
                        &&& parts_accepted(specs)
                        &&& forall|e: DeviceIdError| !device_id_refused(g, e)
                        &&& disk_guid_refused(g, e)
                    },
                    Err(e) => first_part_error(specs, e),
                }
            }
        },
    }
}

/// Whether a device resolves.
pub open spec fn device_accepted(d: Device) -> bool {
    exists|r: ResolvedDevice| device_resolved(d, Ok(r))
}

/// Checks one device and fills in the identifiers that its layout leaves out.
pub fn resolve_device(device: &Device) -> (r: Result<ResolvedDevice, DeviceError>)
    ensures
        device_resolved(*device, r),
{
    match device {
        Device::Blk(b) => Ok(
            ResolvedDevice::Blk {
                path: b.path.clone(),
                readonly: b.readonly,
                placement: Placement { bus: b.bus, slot: b.slot },
            },
        ),
        Device::Gpt(g) => {
            let n: usize = g.partitions.len();
            if n == 0 {
                return Err(DeviceError::NoPartitions);
            }
            if n > MAX_PARTITIONS {
                return Err(DeviceError::TooManyPartitions { count: n });
            }
            let mut partitions: Vec<ResolvedPart> = Vec::new();
            let mut i: usize = 0;
            while i < n
                invariant
                    n == g.partitions@.len(),
                    0 < n <= MAX_PARTITIONS,
                    *device == Device::Gpt(*g),
                    i <= n,
                    partitions@.len() == i,
                    forall|k: int|
                        0 <= k < i ==> part_resolved(#[trigger] g.partitions@[k], partitions@[k]),
                    forall|k: int|
                        0 <= k < i ==> #[trigger] part_error(g.partitions@[k], k) is None,
                decreases n - i,
            {
                match resolve_part(&g.partitions[i], i) {
                    Ok(part) => {
                        partitions.push(part);
                    },
                    Err(e) => {
                        assert(part_error(g.partitions@[i as int], i as int) == Some(e));
                        assert(first_part_error(g.partitions@, e));
                        return Err(e);
                    },
                }
                i = i + 1;
            }
            let (derived_id, derived_guid) = derive_ids(partitions.as_slice());
            let device_id: [u8; 20] = match &g.device_id {
                Some(text) => match parse_device_id(text.as_str()) {
                    Ok(id) => id,
                    Err(e) => {
                        return Err(DeviceError::DeviceId(e));
                    },
                },
                None => derived_id,
            };
            let disk_guid: [u8; 16] = match &g.disk_guid {
                Some(text) => match parse_disk_guid(text.as_str()) {
                    Ok(guid) => guid,
                    Err(e) => {
                        return Err(DeviceError::DiskGuid(e));
                    },
                },
                None => derived_guid,
            };
            Ok(
                ResolvedDevice::Gpt {
                    device_id,
                    disk_guid,
                    partitions,
                    placement: Placement { bus: g.bus, slot: g.slot },
                },
            )
        },
    }
}

/// Whether the console of a layout is supported: it has none, or one on the
/// standard streams.
pub open spec fn console_supported(layout: Layout) -> bool {
    layout.console matches Some(c) ==> c.endpoint@ == "stdio"@
}

/// The console's place.
pub open spec fn console_placement(layout: Layout) -> Placement {
    match layout.console {
        Some(c) => Placement { bus: c.bus, slot: c.slot },
        None => Placement { bus: None, slot: None },
    }
}

/// Resolves a layout into validated facts.
pub fn resolve(layout: Layout) -> (r: Result<Resolved, ResolveError>)
    ensures
        match r {
            Ok(resolved) => {
                &&& console_supported(layout)
                &&& resolved.default_bus == layout.bus
                &&& resolved.console.placement == console_placement(layout)
                &&& resolved.devices@.len() == layout.devices@.len()
                &&& forall|i: int|
                    0 <= i < layout.devices@.len() ==> device_resolved(
                        #[trigger] layout.devices@[i],
                        Ok(resolved.devices@[i]),
                    )
            },
            Err(ResolveError::UnsupportedEndpoint) => !console_supported(layout),
            Err(ResolveError::Device { index, error }) => {
                &&& console_supported(layout)
                &&& index < layout.devices@.len()
                &&& device_resolved(layout.devices@[index as int], Err(error))
                &&& forall|i: int|
                    0 <= i < index ==> device_accepted(#[trigger] layout.devices@[i])
            },
        },
{
    let placement = match &layout.console {
        Some(c) => {
            let stdio: String = "stdio".to_owned();
            if c.endpoint != stdio {
                return Err(ResolveError::UnsupportedEndpoint);
            }
            Placement { bus: c.bus, slot: c.slot }
        },
        None => Placement { bus: None, slot: None },
    };
    let mut devices: Vec<ResolvedDevice> = Vec::new();
    let mut i: usize = 0;
    while i < layout.devices.len()
        invariant
            i <= layout.devices@.len(),
            devices@.len() == i,
            console_supported(layout),
            forall|k: int|
                0 <= k < i ==> device_resolved(#[trigger] layout.devices@[k], Ok(devices@[k])),
        decreases layout.devices@.len() - i,
    {
        match resolve_device(&layout.devices[i]) {
            Ok(d) => {
                devices.push(d);
            },
            Err(error) => {
                assert forall|k: int| 0 <= k < i implies device_accepted(
                    #[trigger] layout.devices@[k],
                ) by {
                    assert(device_resolved(layout.devices@[k], Ok(devices@[k])));
                }
                return Err(ResolveError::Device { index: i, error });
            },
        }
        i = i + 1;
    }
    Ok(Resolved { default_bus: layout.bus, console: ResolvedConsole { placement }, devices })
}

/// The endpoint of a console that names none.
pub fn default_console_endpoint() -> (r: String)
    ensures
        r@ == "stdio"@,
{
    "stdio".to_owned()
}

/// Whether a text holds an equals sign.
pub open spec fn has_equals(text: Seq<char>) -> bool {
    exists|i: int| 0 <= i < text.len() && #[trigger] text[i] == '='
}

impl ConsoleSpec {
    /// Completes a console argument: a bare value without `=` names the
    /// endpoint.
    pub fn normalize_arg(value: &str) -> (r: String)
        ensures
            r@ == if has_equals(value@) {
                value@
            } else {
                "endpoint="@ + value@
            },
    {
        let n: usize = value.unicode_len();
        let mut i: usize = 0;
        while i < n
            invariant
                n == value@.len(),
                i <= n,
                forall|k: int| 0 <= k < i ==> #[trigger] value@[k] != '=',
            decreases n - i,
        {
            if value.get_char(i) == '=' {
                return value.to_owned();
            }
            i = i + 1;
        }
        "endpoint=".to_owned().concat(value)
    }
}

impl Bus {
    /// Reads a bus name.
    pub fn from_arg_value(value: &str) -> (r: Result<Bus, String>)
        ensures
            match r {
                Ok(Bus::Pci) => value@ == "pci"@,
                Ok(Bus::Mmio) => value@ == "mmio"@,
                Err(message) => {
                    &&& value@ != "pci"@
                    &&& value@ != "mmio"@
                    &&& message@ == "unknown bus `"@ + value@ + "` (expected `pci` or `mmio`)"@
                },
            },
    {
        let name: String = value.to_owned();
        if name == "pci".to_owned() {
            return Ok(Bus::Pci);
        }
        if name == "mmio".to_owned() {
            return Ok(Bus::Mmio);
        }
        let mut message: String = "unknown bus `".to_owned();
        message.append(value);
        message.append("` (expected `pci` or `mmio`)");
        Err(message)
    }
}

/// Two disks whose partitions carry the same ids in the same order derive the
/// same identifiers, whatever else differs between them.
pub proof fn law_derived_ids_depend_on_partuuids(a: Seq<ResolvedPart>, b: Seq<ResolvedPart>)
    requires
        a.len() == b.len(),
        forall|i: int| 0 <= i < a.len() ==> (#[trigger] a[i]).partuuid == b[i].partuuid,
    ensures
        sha256_digest(partuuid_bytes(a, a.len() as int)) == sha256_digest(
            partuuid_bytes(b, b.len() as int),
        ),
{
    lemma_same_partuuid_bytes(a, b, a.len() as int);
}

proof fn lemma_same_partuuid_bytes(a: Seq<ResolvedPart>, b: Seq<ResolvedPart>, n: int)
    requires
        0 <= n <= a.len(),
        a.len() == b.len(),
        forall|i: int| 0 <= i < a.len() ==> (#[trigger] a[i]).partuuid == b[i].partuuid,
    ensures
        partuuid_bytes(a, n) == partuuid_bytes(b, n),
    decreases n,
{
    if n > 0 {
        lemma_same_partuuid_bytes(a, b, n - 1);
        assert(a[n - 1].partuuid == b[n - 1].partuuid);
    }
}

/// Disks with different lists of partition ids hash different messages.
pub proof fn law_distinct_partuuids_hash_distinct_messages(
    a: Seq<ResolvedPart>,
    b: Seq<ResolvedPart>,
)
    requires
        partuuid_bytes(a, a.len() as int) == partuuid_bytes(b, b.len() as int),
    ensures
        a.len() == b.len(),
        forall|i: int| 0 <= i < a.len() ==> (#[trigger] a[i]).partuuid@ == b[i].partuuid@,
{
    lemma_partuuid_bytes_at(a, a.len() as int);
    lemma_partuuid_bytes_at(b, b.len() as int);
    assert forall|i: int| 0 <= i < a.len() implies (#[trigger] a[i]).partuuid@
        == b[i].partuuid@ by {
        let bytes = partuuid_bytes(a, a.len() as int);
        assert(bytes.subrange(16 * i, 16 * i + 16) == a[i].partuuid@);
        assert(bytes.subrange(16 * i, 16 * i + 16) == b[i].partuuid@);
    }
}

proof fn lemma_partuuid_bytes_at(parts: Seq<ResolvedPart>, n: int)
    requires
        0 <= n <= parts.len(),
    ensures
        partuuid_bytes(parts, n).len() == 16 * n,
        forall|i: int|
            0 <= i < n ==> partuuid_bytes(parts, n).subrange(16 * i, 16 * i + 16)
                == (#[trigger] parts[i]).partuuid@,
    decreases n,
{
    if n > 0 {
        lemma_partuuid_bytes_at(parts, n - 1);
        let before = partuuid_bytes(parts, n - 1);
        let after = partuuid_bytes(parts, n);
        assert forall|i: int| 0 <= i < n implies after.subrange(16 * i, 16 * i + 16) == (
        #[trigger] parts[i]).partuuid@ by {
            if i < n - 1 {
                assert(after.subrange(16 * i, 16 * i + 16) =~= before.subrange(
                    16 * i,
                    16 * i + 16,
                ));
            } else {
                assert(after.subrange(16 * i, 16 * i + 16) =~= parts[i].partuuid@);
            }
        }
    }
}

/// The bytes `0x`.
pub open spec fn mark_0x() -> Seq<u8> {
    seq![48u8, 120u8]
}

proof fn lemma_marked(digits: Seq<u8>)
    ensures
        has_0x(mark_0x() + digits),
        (mark_0x() + digits).skip(2) == digits,
        without_0x(mark_0x() + digits) == digits,
        hexstr::all_hex(digits) ==> without_0x(digits) == digits,
{
    assert((mark_0x() + digits).skip(2) =~= digits);
    if has_0x(digits) {
        assert(hexstr::hex_digit(digits[1]) is None);
    }
}

/// A device id that is spelled out behind `0x` stands for its twenty bytes, and one of at
/// most twenty printable characters for these with zeros behind them; nothing else is a
/// device id.
pub proof fn law_device_id_texts(
    bytes: Seq<u8>,
    text: Seq<u8>,
    id: [u8; 20],
    r: Result<[u8; 20], DeviceIdError>,
)
    requires
        bytes.len() == 20,
    ensures
        device_id_of(mark_0x() + hexstr::spelled(bytes), Ok(id)) <==> id@ == bytes,
        !has_0x(text) && text.len() <= 20 && printable(text) && device_id_of(text, r) ==> {
            &&& r is Ok
            &&& (r->Ok_0)@.take(text.len() as int) == text
            &&& forall|i: int| text.len() <= i < 20 ==> #[trigger] (r->Ok_0)@[i] == 0
        },
        !has_0x(text) && device_id_of(text, Ok(id)) ==> text.len() <= 20 && printable(text),
        has_0x(text) && device_id_of(text, Ok(id)) ==> text.len() == 42 && hexstr::all_hex(
            text.skip(2),
        ),
{
    hexstr::law_spelled_bytes_are_read_back(bytes);
    lemma_marked(hexstr::spelled(bytes));
    if !has_0x(text) && text.len() <= 20 && printable(text) && device_id_of(text, r) {
        assert((r->Ok_0)@.take(text.len() as int) =~= text);
    }
}

/// A disk GUID that is spelled out stands for its sixteen bytes, behind `0x` or not; texts
/// of another length or with another character are refused.
pub proof fn law_disk_guid_texts(bytes: Seq<u8>, text: Seq<u8>, guid: [u8; 16])
    requires
        bytes.len() == 16,
    ensures
        disk_guid_of(hexstr::spelled(bytes), Ok(guid)) <==> guid@ == bytes,
        disk_guid_of(mark_0x() + hexstr::spelled(bytes), Ok(guid)) <==> guid@ == bytes,
        disk_guid_of(text, Ok(guid)) ==> (text.len() == 32 && hexstr::all_hex(text)) || (text.len()
            == 34 && has_0x(text) && hexstr::all_hex(text.skip(2))),
{
    hexstr::law_spelled_bytes_are_read_back(bytes);
    lemma_marked(hexstr::spelled(bytes));
}

/// Attributes are the number that their sixteen digits spell, behind `0x` or not, and zero
/// where none are given.
pub proof fn law_attributes(bytes: Seq<u8>, text: Seq<u8>, p: PartSpec)
    requires
        bytes.len() == 8,
    ensures
        attrs_of(hexstr::spelled(bytes)) == Ok::<u64, AttrsError>(
            hexstr::big_endian(bytes) as u64,
        ),
        attrs_of(mark_0x() + hexstr::spelled(bytes)) == Ok::<u64, AttrsError>(
            hexstr::big_endian(bytes) as u64,
        ),
        attrs_of(text) is Ok <==> (text.len() == 16 && hexstr::all_hex(text)) || (text.len() == 18
            && has_0x(text) && hexstr::all_hex(text.skip(2))),
        p.attrs is None ==> part_attrs(p) == Ok::<u64, AttrsError>(0),
{
    hexstr::law_spelled_bytes_are_read_back(bytes);
    lemma_marked(hexstr::spelled(bytes));
    if text.len() == 16 && hexstr::all_hex(text) {
        lemma_marked(text);
    }
}

/// A label counts one unit for each character, and one more for each of the characters
/// that take two; up to 36 units it is accepted.
pub proof fn law_label_units(chars: Seq<char>, p: PartSpec, i: int)
    ensures
        utf16_units(chars) == chars.len() + chars.filter(
            |c: char| c as u32 >= 0x1_0000,
        ).len(),
        utf16_units(p.label@) <= 36 && part_attrs(p) is Ok <==> part_error(p, i) is None,
        utf16_units(p.label@) > 36 <==> part_error(p, i) matches Some(
            DeviceError::LabelTooLong { .. },
        ),
    decreases chars.len(),
{
    reveal(Seq::filter);
    if chars.len() > 0 {
        law_label_units(chars.drop_last(), p, i);
    }
}

/// A resolved device keeps the path, the access and the place that its layout gives it,
/// and every partition its path, its two ids and its label. A disk has the ids that its
/// layout gives, each by itself, and else those that its partitions imply.
pub proof fn law_resolved_device_keeps_its_facts(d: Device, r: ResolvedDevice, i: int)
    requires
        device_resolved(d, Ok(r)),
    ensures
        match (d, r) {
            (Device::Blk(b), ResolvedDevice::Blk { path, readonly, placement }) => {
                &&& path@ == b.path@
                &&& readonly == b.readonly
                &&& placement.bus == b.bus && placement.slot == b.slot
            },
            (
                Device::Gpt(g),
                ResolvedDevice::Gpt { device_id, disk_guid, partitions, placement },
            ) => {
                &&& placement.bus == g.bus && placement.slot == g.slot
                &&& 1 <= partitions@.len() <= 128
                &&& partitions@.len() == g.partitions@.len()
                &&& 0 <= i < partitions@.len() ==> {
                    &&& partitions@[i].path@ == g.partitions@[i].path@
                    &&& partitions@[i].partuuid == g.partitions@[i].partuuid
                    &&& partitions@[i].typeguid == g.partitions@[i].typeguid
                    &&& partitions@[i].label@ == g.partitions@[i].label@
                    &&& part_attrs(g.partitions@[i]) == Ok::<u64, AttrsError>(
                        partitions@[i].attrs,
                    )
                }
                &&& g.device_id matches Some(text) ==> device_id_of(
                    encode_utf8(text@),
                    Ok(device_id),
                )
                &&& g.device_id is None ==> device_id@ == sha256_digest(
                    partuuid_bytes(partitions@, partitions@.len() as int),
                ).take(20)
                &&& g.disk_guid matches Some(text) ==> disk_guid_of(
                    encode_utf8(text@),
                    Ok(disk_guid),
                )
                &&& g.disk_guid is None ==> disk_guid@ == sha256_digest(
                    partuuid_bytes(partitions@, partitions@.len() as int),
                ).take(16)
                &&& g.device_id is None && g.disk_guid is None && sha256_digest(
                    partuuid_bytes(partitions@, partitions@.len() as int),
                ).len() == 32 ==> disk_guid@ == device_id@.take(16)
            },
            _ => false,
        },
{
    match (d, r) {
        (Device::Gpt(g), ResolvedDevice::Gpt { device_id, disk_guid, partitions, .. }) => {
            if 0 <= i < partitions@.len() {
                assert(part_resolved(g.partitions@[i], partitions@[i]));
            }
            if g.device_id is None && g.disk_guid is None {
                let digest = sha256_digest(
                    partuuid_bytes(partitions@, partitions@.len() as int),
                );
                if digest.len() == 32 {
                    assert(digest.take(20).take(16) =~= disk_guid@);
                }
            }
        },
        _ => {},
    }
}

/// The console goes where its layout says, and one on anything but the standard streams
/// is not supported.
pub proof fn law_console(layout: Layout)
    ensures
        match layout.console {
            Some(c) => {
                &&& console_placement(layout).bus == c.bus
                &&& console_placement(layout).slot == c.slot
                &&& console_supported(layout) <==> c.endpoint@ == seq!['s', 't', 'd', 'i', 'o']
            },
            None => console_supported(layout) && console_placement(layout).bus is None
                && console_placement(layout).slot is None,
        },
{
    reveal_strlit("stdio");
    assert("stdio"@ =~= seq!['s', 't', 'd', 'i', 'o']);
}

/// The ids of the partitions are hashed one behind the other, in the order of the
/// partitions, sixteen bytes each.
pub proof fn law_partuuids_are_hashed_in_order(parts: Seq<ResolvedPart>, i: int, k: int)
    requires
        0 <= i < parts.len(),
        0 <= k < 16,
    ensures
        partuuid_bytes(parts, parts.len() as int).len() == 16 * parts.len(),
        partuuid_bytes(parts, parts.len() as int)[16 * i + k] == parts[i].partuuid@[k],
{
    lemma_partuuid_bytes_at(parts, parts.len() as int);
    let bytes = partuuid_bytes(parts, parts.len() as int);
    assert(bytes.subrange(16 * i, 16 * i + 16) == parts[i].partuuid@);
    assert(bytes.subrange(16 * i, 16 * i + 16)[k] == bytes[16 * i + k]);
}

/// A resolved layout has its devices in the order of the layout, each where the layout
/// puts it, and the layout's own bus as the default one.
pub proof fn law_resolved_layout_keeps_its_devices(layout: Layout, resolved: Resolved, i: int)
    requires
        call_ensures(resolve, (layout,), Ok(resolved)),
        0 <= i < layout.devices@.len(),
    ensures
        resolved.default_bus == layout.bus,
        resolved.devices@.len() == layout.devices@.len(),
        match layout.devices@[i] {
            Device::Blk(b) => resolved.devices@[i].asks_for() == (Placement {
                bus: b.bus,
                slot: b.slot,
            }),
            Device::Gpt(g) => resolved.devices@[i].asks_for() == (Placement {
                bus: g.bus,
                slot: g.slot,
            }),
        },
{
    assert(device_resolved(layout.devices@[i], Ok(resolved.devices@[i])));
}

} // verus!

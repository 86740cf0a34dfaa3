//! MSI-X: capability, vector table, pending bits and notifications.
use vstd::prelude::*;

use crate::bytes::{byte_of, fill, from_le_bytes, le_byte, le_u32, lemma_le_bytes_of};

verus! {

/// The MSI-X capability as it stands in configuration space.
#[derive(Debug, Clone, Copy, PartialEq, Eq, Structural)]
pub struct MsixCap {
    /// Message control: table size less one (bits 10:0), function mask (bit 14),
    /// enable (bit 15).
    pub msg_ctl: u16,
    /// Table offset (bits 31:3) and BAR (bits 2:0).
    pub table_offset_bir: u32,
    /// Pending-bit offset (bits 31:3) and BAR (bits 2:0).
    pub pba_offset_bir: u32,
}

/// One entry of the vector table.
#[derive(Debug, Clone, Copy, PartialEq, Eq, Structural)]
pub struct MsixTableEntry {
    pub msg_addr_lo: u32,
    pub msg_addr_hi: u32,
    pub msg_data: u32,
    /// Bit 0 masks the vector.
    pub vector_ctl: u32,
}

/// An offset with the BAR that it is in.
pub open spec fn offset_bir(offset: u32, bir: u8) -> u32 {
    (offset & !0x7u32) | (bir as u32 & 0x7)
}

impl MsixCap {
    /// A capability for a table of `table_size` entries.
    pub fn new(
        table_size: u16,
        table_bir: u8,
        table_offset: u32,
        pba_bir: u8,
        pba_offset: u32,
    ) -> (r: MsixCap)
        requires
            table_size > 0,
        ensures
            r.msg_ctl == ((table_size - 1) as u16) & 0x07ff,
            r.table_offset_bir == offset_bir(table_offset, table_bir),
            r.pba_offset_bir == offset_bir(pba_offset, pba_bir),
            table_size <= 0x800 ==> r.size() == table_size,
            !r.is_enabled(),
            !r.is_function_masked(),
    {
        let last: u16 = table_size - 1;
        proof {
            assert((last < 0x800 ==> last & 0x07ff == last) && (last & 0x07ff) & 0x07ff == last
                & 0x07ff && (last & 0x07ff) & 0x8000 == 0 && (last & 0x07ff) & 0x4000 == 0)
                by (bit_vector);
        }
        MsixCap {
            msg_ctl: last & 0x07ff,
            table_offset_bir: (table_offset & !0x7u32) | (table_bir as u32 & 0x7),
            pba_offset_bir: (pba_offset & !0x7u32) | (pba_bir as u32 & 0x7),
        }
    }

    /// How many entries the table has.
    pub open spec fn size(self) -> int {
        (self.msg_ctl & 0x07ff) + 1
    }

    pub open spec fn is_enabled(self) -> bool {
        self.msg_ctl & 0x8000 != 0
    }

    pub open spec fn is_function_masked(self) -> bool {
        self.msg_ctl & 0x4000 != 0
    }

    pub fn table_size(&self) -> (r: u16)
        ensures
            r == self.size(),
    {
        let ctl: u16 = self.msg_ctl;
        proof {
            lemma_control_bits(ctl);
        }
        (ctl & 0x07ff) + 1
    }

    pub fn enabled(&self) -> (r: bool)
        ensures
            r == self.is_enabled(),
    {
        self.msg_ctl & 0x8000 != 0
    }

    /// Sets or clears the enable bit and nothing else.
    pub fn set_enabled(&mut self, enable: bool)
        ensures
            final(self).is_enabled() == enable,
            final(self).size() == old(self).size(),
            final(self).is_function_masked() == old(self).is_function_masked(),
            final(self).msg_ctl & 0x7fff == old(self).msg_ctl & 0x7fff,
            final(self).table_offset_bir == old(self).table_offset_bir,
            final(self).pba_offset_bir == old(self).pba_offset_bir,
    {
        let ctl: u16 = self.msg_ctl;
        proof {
            assert((ctl | 0x8000) & 0x8000 != 0 && (ctl & 0x7fff) & 0x8000 == 0 && (ctl | 0x8000)
                & 0x07ff == ctl & 0x07ff && (ctl & 0x7fff) & 0x07ff == ctl & 0x07ff && (ctl
                | 0x8000) & 0x4000 == ctl & 0x4000 && (ctl & 0x7fff) & 0x4000 == ctl & 0x4000 && (
            ctl | 0x8000) & 0x7fff == ctl & 0x7fff && (ctl & 0x7fff) & 0x7fff == ctl & 0x7fff)
                by (bit_vector);
        }
        if enable {
            self.msg_ctl = ctl | 0x8000;
        } else {
            self.msg_ctl = ctl & 0x7fff;
        }
    }

    pub fn function_masked(&self) -> (r: bool)
        ensures
            r == self.is_function_masked(),
    {
        self.msg_ctl & 0x4000 != 0
    }
}

impl Default for MsixTableEntry {
    fn default() -> (r: MsixTableEntry)
        ensures
            r == (MsixTableEntry { msg_addr_lo: 0, msg_addr_hi: 0, msg_data: 0, vector_ctl: 0 }),
    {
        MsixTableEntry { msg_addr_lo: 0, msg_addr_hi: 0, msg_data: 0, vector_ctl: 0 }
    }
}

impl MsixTableEntry {
    /// Whether bit 0 of the vector control is set.
    pub open spec fn masked(self) -> bool {
        self.vector_ctl % 2 == 1
    }

    /// The entry with its mask bit set or cleared.
    pub open spec fn with_mask(self, masked: bool) -> MsixTableEntry {
        MsixTableEntry {
            vector_ctl: (self.vector_ctl - self.vector_ctl % 2 + if masked {
                1int
            } else {
                0int
            }) as u32,
            ..self
        }
    }

    pub fn is_masked(&self) -> (r: bool)
        ensures
            r == self.masked(),
    {
        let v: u32 = self.vector_ctl;
        assert((v & 1 != 0) == (v % 2 == 1)) by (bit_vector);
        v & 1 != 0
    }

    /// Sets or clears the mask bit and nothing else.
    pub fn set_masked(&mut self, masked: bool)
        ensures
            *final(self) == old(self).with_mask(masked),
            final(self).masked() == masked,
    {
        let v: u32 = self.vector_ctl;
        assert((v | 1) == v - v % 2 + 1 && (v & !1u32) == v - v % 2) by (bit_vector);
        if masked {
            self.vector_ctl = v | 1;
        } else {
            self.vector_ctl = v & !1u32;
        }
    }

    /// The field at a byte offset of the entry; only the start of a field names
    /// one.
    pub open spec fn field(self, at: int) -> Option<u32> {
        if at == 0 {
            Some(self.msg_addr_lo)
        } else if at == 4 {
            Some(self.msg_addr_hi)
        } else if at == 8 {
            Some(self.msg_data)
        } else if at == 12 {
            Some(self.vector_ctl)
        } else {
            None
        }
    }

    /// The entry with one field replaced.
    pub open spec fn with_field(self, at: int, value: u32) -> MsixTableEntry {
        if at == 0 {
            MsixTableEntry { msg_addr_lo: value, ..self }
        } else if at == 4 {
            MsixTableEntry { msg_addr_hi: value, ..self }
        } else if at == 8 {
            MsixTableEntry { msg_data: value, ..self }
        } else if at == 12 {
            MsixTableEntry { vector_ctl: value, ..self }
        } else {
            self
        }
    }

    /// The field at a byte offset of the entry.
    fn get_field(&self, at: u64) -> (r: Option<u32>)
        ensures
            r == self.field(at as int),
    {
        if at == 0 {
            Some(self.msg_addr_lo)
        } else if at == 4 {
            Some(self.msg_addr_hi)
        } else if at == 8 {
            Some(self.msg_data)
        } else if at == 12 {
            Some(self.vector_ctl)
        } else {
            None
        }
    }
}

/// What a machine backend is told when the guest changes MSI-X state.
///
/// An implementation says by its step functions how a notice may turn it; one that
/// it leaves out allows anything.
pub trait MsixNotifier: Sized {
    /// Whether telling of a changed vector may take the notifier from `before`
    /// to `after`.
    open spec fn vector_step(before: Self, vector: u16, entry: MsixTableEntry, after: Self) -> bool {
        true
    }

    /// Whether telling of the effective enable state may take the notifier from
    /// `before` to `after`.
    open spec fn enable_step(before: Self, enabled: bool, after: Self) -> bool {
        true
    }

    /// The guest changed the address, data or mask of a vector.
    fn vector_updated(&mut self, vector: u16, entry: &MsixTableEntry)
        ensures
            Self::vector_step(*old(self), vector, *entry, *final(self)),
    ;

    /// The effective enable state changed: enabled and not masked as a whole.
    fn msix_enabled(&mut self, enabled: bool)
        ensures
            Self::enable_step(*old(self), enabled, *final(self)),
    ;
}

/// A notifier that tells nobody.
#[derive(Debug)]
pub struct NoopNotifier;

impl MsixNotifier for NoopNotifier {
    open spec fn vector_step(
        before: NoopNotifier,
        vector: u16,
        entry: MsixTableEntry,
        after: NoopNotifier,
    ) -> bool {
        after == before
    }

    open spec fn enable_step(before: NoopNotifier, enabled: bool, after: NoopNotifier) -> bool {
        after == before
    }

    fn vector_updated(&mut self, vector: u16, entry: &MsixTableEntry) {
    }

    fn msix_enabled(&mut self, enabled: bool) {
    }
}

/// Whether telling of a run of enable states may take a notifier from `before`
/// to `after`.
pub open spec fn enable_run<N: MsixNotifier>(before: N, calls: Seq<bool>, after: N) -> bool
    decreases calls.len(),
{
    if calls.len() == 0 {
        before == after
    } else {
        exists|mid: N|
            enable_run(before, calls.drop_last(), mid) && #[trigger] N::enable_step(
                mid,
                calls.last(),
                after,
            )
    }
}

proof fn lemma_enable_push<N: MsixNotifier>(
    before: N,
    calls: Seq<bool>,
    mid: N,
    enabled: bool,
    after: N,
)
    requires
        enable_run(before, calls, mid),
        N::enable_step(mid, enabled, after),
    ensures
        enable_run(before, calls.push(enabled), after),
{
    assert(calls.push(enabled).drop_last() =~= calls);
    assert(N::enable_step(mid, calls.push(enabled).last(), after));
}

/// The MSI-X state of one function: its vector table and its pending bits.
#[derive(Debug)]
pub struct MsixTable {
    entries: Vec<MsixTableEntry>,
    /// One bit for each vector, lowest first.
    pba: Vec<u64>,
    function_masked: bool,
    enabled: bool,
    table_bir: u8,
    table_offset: u32,
    pba_bir: u8,
    pba_offset: u32,
}

/// An [`MsixTable`] with its parts as sequences.
pub struct MsixView {
    pub entries: Seq<MsixTableEntry>,
    pub pba: Seq<u64>,
    pub function_masked: bool,
    pub enabled: bool,
    pub table_bir: u8,
    pub table_offset: u32,
    pub pba_bir: u8,
    pub pba_offset: u32,
}

impl View for MsixTable {
    type V = MsixView;

    closed spec fn view(&self) -> MsixView {
        MsixView {
            entries: self.entries@,
            pba: self.pba@,
            function_masked: self.function_masked,
            enabled: self.enabled,
            table_bir: self.table_bir,
            table_offset: self.table_offset,
            pba_bir: self.pba_bir,
            pba_offset: self.pba_offset,
        }
    }
}

/// Where a BAR access goes.
pub enum MsixRegion {
    /// Into the vector table, at an offset of it.
    Table(u64),
    /// Into the pending bits, at an offset of them.
    Pba(u64),
}

/// The entry that every vector starts with.
pub open spec fn masked_entry() -> MsixTableEntry {
    MsixTableEntry { msg_addr_lo: 0, msg_addr_hi: 0, msg_data: 0, vector_ctl: 1 }
}

impl MsixView {
    /// What every table keeps: at most 65535 vectors and a pending bit for each.
    pub open spec fn wf(self) -> bool {
        self.entries.len() <= u16::MAX && self.pba.len() == (self.entries.len() + 63) / 64
    }

    /// Where a BAR access goes. The table and the pending bits may share a BAR, in
    /// either order: what the pending bits fill is theirs, and of the rest the table
    /// takes what is at or above its offset.
    pub open spec fn region(self, bar_idx: u8, offset: u64) -> Option<MsixRegion> {
        let in_table = bar_idx == self.table_bir && offset >= self.table_offset;
        let above_pba = bar_idx == self.pba_bir && offset >= self.pba_offset;
        let in_pba = above_pba && offset < self.pba_offset + 8 * self.pba.len();
        if above_pba && (in_pba || !in_table) {
            Some(MsixRegion::Pba((offset - self.pba_offset) as u64))
        } else if in_table {
            Some(MsixRegion::Table((offset - self.table_offset) as u64))
        } else {
            None
        }
    }

    /// What reading the vector table gives at byte `i` of an access at `offset`:
    /// the field that starts there, lowest byte first, and zeros behind it.
    pub open spec fn table_byte(self, offset: u64, i: int) -> u8 {
        if offset / 16 < self.entries.len() && i < 4 {
            match self.entries[(offset / 16) as int].field((offset % 16) as int) {
                Some(v) => le_byte(v, i),
                None => 0,
            }
        } else {
            0
        }
    }

    /// What reading the pending bits gives at byte `i` of an access at `offset`.
    pub open spec fn pba_byte(self, offset: u64, i: int) -> u8 {
        if offset / 8 < self.pba.len() && offset % 8 + i < 8 {
            le_byte64(self.pba[(offset / 8) as int], offset % 8 + i)
        } else {
            0
        }
    }

    /// What a BAR read gives.
    pub open spec fn read(self, bar_idx: u8, offset: u64, len: nat) -> Option<Seq<u8>> {
        match self.region(bar_idx, offset) {
            Some(MsixRegion::Table(at)) => Some(Seq::new(len, |i: int| self.table_byte(at, i))),
            Some(MsixRegion::Pba(at)) => Some(Seq::new(len, |i: int| self.pba_byte(at, i))),
            None => None,
        }
    }

    /// Whether a vector waits to be delivered.
    pub open spec fn pending(self, vector: int) -> bool {
        0 <= vector < 64 * self.pba.len() && bit64(self.pba[vector / 64], vector % 64)
    }

    /// The state with the pending bit of a vector set.
    pub open spec fn with_pending(self, vector: u16) -> MsixView {
        let word = (vector / 64) as int;
        if word < self.pba.len() {
            MsixView {
                pba: self.pba.update(word, self.pba[word] | (1u64 << ((vector % 64) as u64))),
                ..self
            }
        } else {
            self
        }
    }

    /// The state with the pending bit of a vector cleared.
    pub open spec fn without_pending(self, vector: u16) -> MsixView {
        let word = (vector / 64) as int;
        if word < self.pba.len() {
            MsixView {
                pba: self.pba.update(word, self.pba[word] & !(1u64 << ((vector % 64) as u64))),
                ..self
            }
        } else {
            self
        }
    }

    /// The vector whose field starts at an offset of the table.
    pub open spec fn written_vector(self, offset: u64) -> Option<u16> {
        if offset / 16 < self.entries.len() && self.entries[(offset / 16) as int].field(
            (offset % 16) as int,
        ) is Some {
            Some((offset / 16) as u16)
        } else {
            None
        }
    }

    /// The entry after a write to one of its fields.
    pub open spec fn written_entry(self, offset: u64, data: Seq<u8>) -> MsixTableEntry {
        let e = self.entries[(offset / 16) as int];
        let at = (offset % 16) as int;
        e.with_field(at, patched(e.field(at)->0, data))
    }

    /// The state after a write to the vector table. Clearing the mask of a vector
    /// clears its pending bit.
    pub open spec fn table_written(self, offset: u64, data: Seq<u8>) -> MsixView {
        match self.written_vector(offset) {
            None => self,
            Some(vector) => {
                let before = self.entries[vector as int];
                let after = self.written_entry(offset, data);
                let next = MsixView { entries: self.entries.update(vector as int, after), ..self };
                if before.masked() && !after.masked() {
                    next.without_pending(vector)
                } else {
                    next
                }
            },
        }
    }

    /// The state after a BAR write. The pending bits cannot be written.
    pub open spec fn written(self, bar_idx: u8, offset: u64, data: Seq<u8>) -> MsixView {
        match self.region(bar_idx, offset) {
            Some(MsixRegion::Table(at)) => self.table_written(at, data),
            _ => self,
        }
    }

    /// The vector and entry that a BAR write changes, if it changes one.
    pub open spec fn write_notice(self, bar_idx: u8, offset: u64, data: Seq<u8>) -> Option<
        (u16, MsixTableEntry),
    > {
        match self.region(bar_idx, offset) {
            Some(MsixRegion::Table(at)) => match self.written_vector(at) {
                Some(vector) => Some((vector, self.written_entry(at, data))),
                None => None,
            },
            _ => None,
        }
    }

    /// Whether a vector cannot be delivered: MSI-X is off, the function or the
    /// vector is masked, or there is no such vector.
    pub open spec fn vector_masked(self, vector: u16) -> bool {
        !self.enabled || self.function_masked || vector >= self.entries.len()
            || self.entries[vector as int].masked()
    }

    /// The state after a write to message control.
    pub open spec fn ctl_written(self, msg_ctl: u16) -> MsixView {
        MsixView {
            enabled: msg_ctl & 0x8000 != 0,
            function_masked: msg_ctl & 0x4000 != 0,
            ..self
        }
    }

    /// The effective enable states that a write to message control tells of: one
    /// for a changed enable bit, then one for a changed function mask.
    pub open spec fn ctl_notices(self, msg_ctl: u16) -> Seq<bool> {
        let enabled = msg_ctl & 0x8000 != 0;
        let masked = msg_ctl & 0x4000 != 0;
        let first: Seq<bool> = if enabled != self.enabled {
            seq![enabled && !self.function_masked]
        } else {
            seq![]
        };
        if masked != self.function_masked {
            first.push(enabled && !masked)
        } else {
            first
        }
    }
}

/// Bit `i` of a 64-bit word.
pub open spec fn bit64(word: u64, i: int) -> bool {
    (word >> (i as u64)) & 1 == 1
}

/// Byte `i` of a 64-bit word, lowest first.
pub open spec fn le_byte64(word: u64, i: int) -> u8 {
    ((word >> ((8 * i) as u64)) & 0xff) as u8
}

/// A number with its low bytes overwritten by `data`.
pub open spec fn patched(value: u32, data: Seq<u8>) -> u32 {
    le_u32(
        Seq::new(
            4,
            |i: int|
                if i < data.len() {
                    data[i]
                } else {
                    le_byte(value, i)
                },
        ),
    )
}

/// A number with its low bytes overwritten by `data`.
pub(crate) fn patch(value: u32, data: &[u8]) -> (r: u32)
    ensures
        r == patched(value, data@),
{
    let n: usize = data.len();
    let b0: u8 = if n > 0 {
        data[0]
    } else {
        byte_of(value, 0)
    };
    let b1: u8 = if n > 1 {
        data[1]
    } else {
        byte_of(value, 1)
    };
    let b2: u8 = if n > 2 {
        data[2]
    } else {
        byte_of(value, 2)
    };
    let b3: u8 = if n > 3 {
        data[3]
    } else {
        byte_of(value, 3)
    };
    from_le_bytes(b0, b1, b2, b3)
}

impl MsixTable {
    /// A table of `num_vectors` masked vectors, with MSI-X off and nothing
    /// pending.
    pub fn new(
        num_vectors: u16,
        table_bir: u8,
        table_offset: u32,
        pba_bir: u8,
        pba_offset: u32,
    ) -> (r: MsixTable)
        ensures
            r@.wf(),
            r@.entries == Seq::new(num_vectors as nat, |i: int| masked_entry()),
            forall|v: int| !r@.pending(v),
            !r@.enabled,
            !r@.function_masked,
            r@.table_bir == table_bir,
            r@.table_offset == table_offset,
            r@.pba_bir == pba_bir,
            r@.pba_offset == pba_offset,
    {
        let mut entries: Vec<MsixTableEntry> = Vec::new();
        let mut i: u16 = 0;
        while i < num_vectors
            invariant
                i <= num_vectors,
                entries@.len() == i,
                forall|k: int| 0 <= k < i ==> #[trigger] entries@[k] == masked_entry(),
            decreases num_vectors - i,
        {
            let mut entry = MsixTableEntry::default();
            entry.set_masked(true);
            entries.push(entry);
            i = i + 1;
        }
        let words: usize = (num_vectors as usize + 63) / 64;
        let mut pba: Vec<u64> = Vec::new();
        let mut k: usize = 0;
        while k < words
            invariant
                k <= words,
                pba@.len() == k,
                forall|m: int| 0 <= m < k ==> #[trigger] pba@[m] == 0,
            decreases words - k,
        {
            pba.push(0);
            k = k + 1;
        }
        let r = MsixTable {
            entries,
            pba,
            function_masked: false,
            enabled: false,
            table_bir,
            table_offset,
            pba_bir,
            pba_offset,
        };
        proof {
            assert(r@.entries =~= Seq::new(num_vectors as nat, |i: int| masked_entry()));
            assert forall|v: int| !r@.pending(v) by {
                if 0 <= v < 64 * r@.pba.len() {
                    assert(r@.pba[v / 64] == 0);
                    lemma_bits((v % 64) as u64, 0);
                }
            }
        }
        r
    }

    pub fn num_vectors(&self) -> (r: u16)
        requires
            self@.wf(),
        ensures
            r == self@.entries.len(),
    {
        self.entries.len() as u16
    }

    pub fn enabled(&self) -> (r: bool)
        ensures
            r == self@.enabled,
    {
        self.enabled
    }

    /// The capability that describes the table.
    pub fn cap(&self) -> (r: MsixCap)
        requires
            self@.wf(),
            self@.entries.len() > 0,
        ensures
            r.msg_ctl == ((self@.entries.len() - 1) as u16) & 0x07ff,
            self@.entries.len() <= 0x800 ==> r.size() == self@.entries.len(),
            r.table_offset_bir == offset_bir(self@.table_offset, self@.table_bir),
            r.pba_offset_bir == offset_bir(self@.pba_offset, self@.pba_bir),
    {
        MsixCap::new(
            self.num_vectors(),
            self.table_bir,
            self.table_offset,
            self.pba_bir,
            self.pba_offset,
        )
    }

    /// Whether a vector cannot be delivered.
    pub fn is_vector_masked(&self, vector: u16) -> (r: bool)
        ensures
            r == self@.vector_masked(vector),
    {
        if !self.enabled || self.function_masked {
            return true;
        }
        let idx: usize = vector as usize;
        if idx >= self.entries.len() {
            return true;
        }
        self.entries[idx].is_masked()
    }

    /// Sets the pending bit of a vector.
    pub fn set_pending(&mut self, vector: u16)
        requires
            old(self)@.wf(),
        ensures
            final(self)@ == old(self)@.with_pending(vector),
            final(self)@.wf(),
    {
        let word: usize = (vector / 64) as usize;
        if word < self.pba.len() {
            let w: u64 = self.pba[word] | (1u64 << ((vector % 64) as u64));
            self.pba.set(word, w);
        }
    }

    /// Clears the pending bit of a vector.
    pub fn clear_pending(&mut self, vector: u16)
        requires
            old(self)@.wf(),
        ensures
            final(self)@ == old(self)@.without_pending(vector),
            final(self)@.wf(),
    {
        let word: usize = (vector / 64) as usize;
        if word < self.pba.len() {
            let w: u64 = self.pba[word] & !(1u64 << ((vector % 64) as u64));
            self.pba.set(word, w);
        }
    }

    /// Turns MSI-X on or off and tells of the effective state.
    pub fn set_enabled<N: MsixNotifier>(&mut self, enabled: bool, notifier: &mut N)
        ensures
            final(self)@ == (MsixView { enabled, ..old(self)@ }),
            N::enable_step(
                *old(notifier),
                enabled && !old(self)@.function_masked,
                *final(notifier),
            ),
    {
        self.enabled = enabled;
        notifier.msix_enabled(enabled && !self.function_masked);
    }

    /// Masks or unmasks the function and tells of the effective state.
    pub fn set_function_masked<N: MsixNotifier>(&mut self, masked: bool, notifier: &mut N)
        ensures
            final(self)@ == (MsixView { function_masked: masked, ..old(self)@ }),
            N::enable_step(*old(notifier), old(self)@.enabled && !masked, *final(notifier)),
    {
        self.function_masked = masked;
        notifier.msix_enabled(self.enabled && !masked);
    }

    /// Takes a guest write to message control: only the enable bit and the
    /// function mask count, and only changes are told of.
    pub fn write_msg_ctl<N: MsixNotifier>(&mut self, msg_ctl: u16, notifier: &mut N)
        ensures
            final(self)@ == old(self)@.ctl_written(msg_ctl),
            enable_run(*old(notifier), old(self)@.ctl_notices(msg_ctl), *final(notifier)),
    {
        let new_enabled: bool = msg_ctl & 0x8000 != 0;
        let new_function_masked: bool = msg_ctl & 0x4000 != 0;
        let ghost n0 = *notifier;
        let ghost mut told: Seq<bool> = seq![];
        assert(enable_run(n0, told, n0));
        if new_enabled != self.enabled {
            self.set_enabled(new_enabled, notifier);
            proof {
                let e = new_enabled && !self@.function_masked;
                lemma_enable_push(n0, told, n0, e, *notifier);
                told = told.push(e);
            }
        }
        let ghost n1 = *notifier;
        if new_function_masked != self.function_masked {
            self.set_function_masked(new_function_masked, notifier);
            proof {
                let e = new_enabled && !new_function_masked;
                lemma_enable_push(n0, told, n1, e, *notifier);
                told = told.push(e);
            }
        }
        assert(told =~= old(self)@.ctl_notices(msg_ctl));
    }

    /// Takes a BAR read; reports whether it concerns the table or the pending
    /// bits.
    pub fn bar_read(&self, bar_idx: u8, offset: u64, data: &mut [u8]) -> (r: bool)
        ensures
            match self@.read(bar_idx, offset, old(data)@.len()) {
                Some(bytes) => r && final(data)@ == bytes,
                None => !r && final(data)@ == old(data)@,
            },
    {
        match self.locate(bar_idx, offset) {
            Some(MsixRegion::Pba(at)) => {
                self.read_pba(at, data);
                true
            },
            Some(MsixRegion::Table(at)) => {
                self.read_table(at, data);
                true
            },
            None => false,
        }
    }

    /// Takes a BAR write; reports whether it concerns the table or the pending
    /// bits.
    pub fn bar_write<N: MsixNotifier>(
        &mut self,
        bar_idx: u8,
        offset: u64,
        data: &[u8],
        notifier: &mut N,
    ) -> (r: bool)
        requires
            old(self)@.wf(),
        ensures
            final(self)@.wf(),
            r == old(self)@.region(bar_idx, offset) is Some,
            final(self)@ == old(self)@.written(bar_idx, offset, data@),
            match old(self)@.write_notice(bar_idx, offset, data@) {
                Some((vector, entry)) => N::vector_step(
                    *old(notifier),
                    vector,
                    entry,
                    *final(notifier),
                ),
                None => *final(notifier) == *old(notifier),
            },
    {
        match self.locate(bar_idx, offset) {
            Some(MsixRegion::Pba(_)) => true,
            Some(MsixRegion::Table(at)) => {
                self.write_table(at, data, notifier);
                true
            },
            None => false,
        }
    }

    /// Where a BAR access goes.
    fn locate(&self, bar_idx: u8, offset: u64) -> (r: Option<MsixRegion>)
        ensures
            r == self@.region(bar_idx, offset),
    {
        let in_table: bool = bar_idx == self.table_bir && offset >= self.table_offset as u64;
        if bar_idx == self.pba_bir && offset >= self.pba_offset as u64 {
            let at: u64 = offset - self.pba_offset as u64;
            if !in_table || at / 8 < self.pba.len() as u64 {
                return Some(MsixRegion::Pba(at));
            }
        }
        if in_table {
            return Some(MsixRegion::Table(offset - self.table_offset as u64));
        }
        None
    }

    /// Reads the vector table.
    fn read_table(&self, offset: u64, data: &mut [u8])
        ensures
            final(data)@ == Seq::new(old(data)@.len(), |i: int| self@.table_byte(offset, i)),
    {
        let n: usize = data.len();
        let field: Option<u32> = if offset / 16 >= self.entries.len() as u64 {
            None
        } else {
            self.entries[(offset / 16) as usize].get_field(offset % 16)
        };
        let mut i: usize = 0;
        while i < n
            invariant
                n == data@.len(),
                n == old(data)@.len(),
                i <= n,
                field == if offset / 16 < self@.entries.len() {
                    self@.entries[(offset / 16) as int].field((offset % 16) as int)
                } else {
                    None
                },
                forall|k: int| 0 <= k < i ==> #[trigger] data@[k] == self@.table_byte(offset, k),
            decreases n - i,
        {
            data[i] = match field {
                Some(v) => if i < 4 {
                    byte_of(v, i)
                } else {
                    0
                },
                None => 0,
            };
            i = i + 1;
        }
        assert(data@ =~= Seq::new(old(data)@.len(), |i: int| self@.table_byte(offset, i)));
    }

    /// Writes the vector table.
    fn write_table<N: MsixNotifier>(&mut self, offset: u64, data: &[u8], notifier: &mut N)
        requires
            old(self)@.wf(),
        ensures
            final(self)@.wf(),
            final(self)@ == old(self)@.table_written(offset, data@),
            match old(self)@.written_vector(offset) {
                Some(vector) => N::vector_step(
                    *old(notifier),
                    vector,
                    old(self)@.written_entry(offset, data@),
                    *final(notifier),
                ),
                None => *final(notifier) == *old(notifier),
            },
    {
        if offset / 16 >= self.entries.len() as u64 {
            return;
        }
        let idx: usize = (offset / 16) as usize;
        let at: u64 = offset % 16;
        let mut entry: MsixTableEntry = self.entries[idx];
        let was_masked: bool = entry.is_masked();
        let value: u32 = match entry.get_field(at) {
            Some(v) => patch(v, data),
            None => {
                return;
            },
        };
        if at == 0 {
            entry.msg_addr_lo = value;
        } else if at == 4 {
            entry.msg_addr_hi = value;
        } else if at == 8 {
            entry.msg_data = value;
        } else {
            entry.vector_ctl = value;
        }
        self.entries.set(idx, entry);
        if was_masked && !entry.is_masked() {
            self.clear_pending(idx as u16);
        }
        notifier.vector_updated(idx as u16, &entry);
    }

    /// Reads the pending bits.
    fn read_pba(&self, offset: u64, data: &mut [u8])
        ensures
            final(data)@ == Seq::new(old(data)@.len(), |i: int| self@.pba_byte(offset, i)),
    {
        let n: usize = data.len();
        if offset / 8 >= self.pba.len() as u64 {
            fill(data, 0);
            assert(data@ =~= Seq::new(old(data)@.len(), |i: int| self@.pba_byte(offset, i)));
            return;
        }
        let word: u64 = self.pba[(offset / 8) as usize];
        let at: usize = (offset % 8) as usize;
        let mut i: usize = 0;
        while i < n
            invariant
                n == data@.len(),
                n == old(data)@.len(),
                i <= n,
                at == offset % 8,
                offset / 8 < self@.pba.len(),
                word == self@.pba[(offset / 8) as int],
                forall|k: int| 0 <= k < i ==> #[trigger] data@[k] == self@.pba_byte(offset, k),
            decreases n - i,
        {
            data[i] = if i < 8 - at {
                ((word >> ((8 * (at + i)) as u64)) & 0xff) as u8
            } else {
                0
            };
            i = i + 1;
        }
        assert(data@ =~= Seq::new(old(data)@.len(), |i: int| self@.pba_byte(offset, i)));
    }
}

/// Setting, clearing and reading one bit of a word.
proof fn lemma_bits(i: u64, word: u64)
    requires
        i < 64,
    ensures
        (0u64 >> i) & 1 == 0,
        forall|j: u64|
            j < 64 ==> #[trigger] (((word | (1u64 << i)) >> j) & 1) == if j == i {
                1
            } else {
                (word >> j) & 1
            },
        forall|j: u64|
            j < 64 ==> #[trigger] (((word & !(1u64 << i)) >> j) & 1) == if j == i {
                0
            } else {
                (word >> j) & 1
            },
{
    assert forall|j: u64| j < 64 implies #[trigger] (((word | (1u64 << i)) >> j) & 1) == if j
        == i {
        1
    } else {
        (word >> j) & 1
    } by {
        lemma_bit_pair(i, j, word);
    }
    assert forall|j: u64| j < 64 implies #[trigger] (((word & !(1u64 << i)) >> j) & 1) == if j
        == i {
        0
    } else {
        (word >> j) & 1
    } by {
        lemma_bit_pair(i, j, word);
    }
    lemma_bit_pair(i, i, word);
}

proof fn lemma_bit_pair(i: u64, j: u64, word: u64)
    by (bit_vector)
    requires
        i < 64,
        j < 64,
    ensures
        (0u64 >> i) & 1 == 0,
        ((word | (1u64 << i)) >> j) & 1 == if j == i {
            1
        } else {
            (word >> j) & 1
        },
        ((word & !(1u64 << i)) >> j) & 1 == if j == i {
            0
        } else {
            (word >> j) & 1
        },
{
}

/// Marking a vector pending marks it and no other.
pub proof fn law_set_pending_marks_one_vector(t: MsixView, vector: u16, other: int)
    requires
        t.wf(),
        vector < t.entries.len(),
    ensures
        t.with_pending(vector).pending(other) == (other == vector || t.pending(other)),
        t.without_pending(vector).pending(other) == (other != vector && t.pending(other)),
{
    let word = (vector / 64) as int;
    lemma_bits((vector % 64) as u64, t.pba[word]);
    if 0 <= other < 64 * t.pba.len() && other / 64 == word {
        let j = (other % 64) as u64;
        assert((((t.pba[word] | (1u64 << ((vector % 64) as u64))) >> j) & 1) == if j == (vector
            % 64) as u64 {
            1
        } else {
            (t.pba[word] >> j) & 1
        });
        assert((((t.pba[word] & !(1u64 << ((vector % 64) as u64))) >> j) & 1) == if j == (vector
            % 64) as u64 {
            0
        } else {
            (t.pba[word] >> j) & 1
        });
    }
}

/// Clearing the mask of a vector through the table leaves it not pending.
pub proof fn law_unmask_clears_pending(t: MsixView, bar_idx: u8, offset: u64, data: Seq<u8>)
    requires
        t.wf(),
        t.write_notice(bar_idx, offset, data) matches Some((vector, entry)) && t.entries[
            vector as int
        ].masked() && !entry.masked(),
    ensures
        !t.written(bar_idx, offset, data).pending(
            (t.write_notice(bar_idx, offset, data)->0).0 as int,
        ),
{
    let vector = (t.write_notice(bar_idx, offset, data)->0).0;
    let entry = (t.write_notice(bar_idx, offset, data)->0).1;
    let next = MsixView { entries: t.entries.update(vector as int, entry), ..t };
    law_set_pending_marks_one_vector(next, vector, vector as int);
}

/// A write to a field of a vector is never lost: wherever the table lies, a write
/// outside the pending bits changes the entry and is told of.
pub proof fn law_table_write_is_told(t: MsixView, vector: u16, at: int, data: Seq<u8>)
    requires
        t.wf(),
        vector < t.entries.len(),
        at == 0 || at == 4 || at == 8 || at == 12,
        t.pba_bir != t.table_bir || t.table_offset + 16 * vector + at < t.pba_offset
            || t.table_offset + 16 * vector + at >= t.pba_offset + 8 * t.pba.len(),
    ensures
        ({
            let offset = (t.table_offset + 16 * vector + at) as u64;
            let entry = t.entries[vector as int];
            let next = entry.with_field(at, patched(entry.field(at)->0, data));
            &&& t.write_notice(t.table_bir, offset, data) == Some((vector, next))
            &&& t.written(t.table_bir, offset, data).entries == t.entries.update(
                vector as int,
                next,
            )
        }),
{
    let offset = (t.table_offset + 16 * vector + at) as u64;
    assert(t.region(t.table_bir, offset) == Some(
        MsixRegion::Table((16 * vector + at) as u64),
    ));
    assert((16 * vector + at) / 16 == vector && (16 * vector + at) % 16 == at);
}

/// A field written whole through the table reads back as written.
pub proof fn law_table_write_reads_back(t: MsixView, bar_idx: u8, offset: u64, data: Seq<u8>)
    requires
        t.wf(),
        data.len() == 4,
        t.write_notice(bar_idx, offset, data) is Some,
    ensures
        t.written(bar_idx, offset, data).read(bar_idx, offset, 4) == Some(data),
{
    let at = t.region(bar_idx, offset)->0->Table_0;
    let after = t.written(bar_idx, offset, data);
    let whole = Seq::new(
        4,
        |i: int|
            if i < data.len() {
                data[i]
            } else {
                le_byte(t.entries[(at / 16) as int].field((at % 16) as int)->0, i)
            },
    );
    assert(whole =~= data);
    let v = le_u32(data);
    lemma_le_bytes_of(data);
    assert forall|i: int| 0 <= i < 4 implies after.table_byte(at, i) == data[i] by {
        assert(after.table_byte(at, i) == le_byte(v, i));
    }
    assert(after.read(bar_idx, offset, 4)->0 =~= data);
}

/// No guest write changes the pending bits but to clear the bit of a vector that
/// it unmasks.
pub proof fn law_pending_bits_are_read_only(
    t: MsixView,
    bar_idx: u8,
    offset: u64,
    data: Seq<u8>,
    v: int,
)
    requires
        t.wf(),
        t.written(bar_idx, offset, data).pending(v) != t.pending(v),
    ensures
        t.write_notice(bar_idx, offset, data) matches Some((vector, entry)) && vector == v
            && t.entries[v].masked() && !entry.masked(),
{
    match t.write_notice(bar_idx, offset, data) {
        Some((vector, entry)) => {
            let next = MsixView { entries: t.entries.update(vector as int, entry), ..t };
            law_set_pending_marks_one_vector(next, vector, v);
            assert(next.pending(v) == t.pending(v));
        },
        None => {},
    }
}

/// A write to message control that changes whether MSI-X is in effect is told of, and
/// the last notice of a write says what is in effect after it: a backend that keeps
/// the last notice always agrees with the table.
pub proof fn law_last_notice_is_in_effect(t: MsixView, msg_ctl: u16)
    ensures
        ({
            let after = t.ctl_written(msg_ctl);
            let notices = t.ctl_notices(msg_ctl);
            let before_effect = t.enabled && !t.function_masked;
            let effect = after.enabled && !after.function_masked;
            &&& before_effect != effect ==> notices.len() > 0
            &&& notices.len() > 0 ==> notices.last() == effect
            &&& notices.len() == 0 <==> after.enabled == t.enabled && after.function_masked
                == t.function_masked
            &&& notices.len() <= 2
            &&& effect <==> 0x8000 <= msg_ctl && msg_ctl < 0xc000
            &&& after.enabled <==> msg_ctl >= 0x8000
            &&& after.function_masked <==> msg_ctl % 0x8000 >= 0x4000
            &&& after.entries == t.entries && after.pba == t.pba
        }),
{
    lemma_control_bits(msg_ctl);
}

/// The fields of message control: the number of entries less one in the low eleven bits,
/// the mask of the function in the second highest and the enable bit in the highest.
proof fn lemma_control_bits(ctl: u16)
    ensures
        (ctl & 0x8000 != 0) == (ctl >= 0x8000),
        (ctl & 0x4000 != 0) == (ctl % 0x8000 >= 0x4000),
        ctl & 0x07ff == ctl % 0x800,
{
    assert((ctl & 0x8000 != 0) == (ctl >= 0x8000) && (ctl & 0x4000 != 0) == (ctl % 0x8000
        >= 0x4000) && ctl & 0x07ff == ctl % 0x800) by (bit_vector);
}

/// What message control says: one more entry than its low eleven bits count, enabled by
/// the highest bit and masked as a whole by the next.
pub proof fn law_message_control_fields(cap: MsixCap)
    ensures
        cap.size() == cap.msg_ctl % 0x800 + 1,
        cap.is_enabled() <==> cap.msg_ctl >= 0x8000,
        cap.is_function_masked() <==> cap.msg_ctl / 0x4000 % 2 == 1,
{
    lemma_control_bits(cap.msg_ctl);
}

/// A backend that was told of a run of states was told of the last one last, and one
/// that was told of nothing is as it was.
pub proof fn law_last_of_a_run_is_told_last<N: MsixNotifier>(
    before: N,
    calls: Seq<bool>,
    after: N,
)
    requires
        enable_run(before, calls, after),
    ensures
        calls.len() == 0 ==> after == before,
        calls.len() > 0 ==> exists|mid: N|
            #[trigger] N::enable_step(mid, calls.last(), after) && enable_run(
                before,
                calls.drop_last(),
                mid,
            ),
        calls.len() == 1 ==> N::enable_step(before, calls[0], after),
{
    if calls.len() == 1 {
        let mid = choose|mid: N|
            enable_run(before, calls.drop_last(), mid) && #[trigger] N::enable_step(
                mid,
                calls.last(),
                after,
            );
        assert(calls.drop_last().len() == 0);
        assert(mid == before);
    }
}

/// Each of the four numbers of a vector lies at its own offset of the vector's sixteen
/// bytes, for reads and for writes.
pub proof fn law_table_layout(t: MsixView, vector: u16, data: Seq<u8>)
    requires
        t.wf(),
        vector < t.entries.len(),
        data.len() == 4,
    ensures
        ({
            let e = t.entries[vector as int];
            let at = 16 * vector;
            let value = le_u32(data);
            &&& forall|i: int|
                0 <= i < 4 ==> {
                    &&& #[trigger] t.table_byte(at as u64, i) == le_byte(e.msg_addr_lo, i)
                    &&& t.table_byte((at + 4) as u64, i) == le_byte(e.msg_addr_hi, i)
                    &&& t.table_byte((at + 8) as u64, i) == le_byte(e.msg_data, i)
                    &&& t.table_byte((at + 12) as u64, i) == le_byte(e.vector_ctl, i)
                }
            &&& t.table_written(at as u64, data).entries[vector as int] == (MsixTableEntry {
                msg_addr_lo: value,
                ..e
            })
            &&& t.table_written((at + 4) as u64, data).entries[vector as int] == (MsixTableEntry {
                msg_addr_hi: value,
                ..e
            })
            &&& t.table_written((at + 8) as u64, data).entries[vector as int] == (MsixTableEntry {
                msg_data: value,
                ..e
            })
            &&& t.table_written((at + 12) as u64, data).entries[vector as int] == (MsixTableEntry {
                vector_ctl: value,
                ..e
            })
        }),
{
    let e = t.entries[vector as int];
    let at = 16 * vector;
    assert(at / 16 == vector && at % 16 == 0);
    assert((at + 4) / 16 == vector && (at + 4) % 16 == 4);
    assert((at + 8) / 16 == vector && (at + 8) % 16 == 8);
    assert((at + 12) / 16 == vector && (at + 12) % 16 == 12);
    assert forall|old: u32| #[trigger] patched(old, data) == le_u32(data) by {
        assert(Seq::new(
            4,
            |i: int|
                if i < data.len() {
                    data[i]
                } else {
                    le_byte(old, i)
                },
        ) =~= data);
    }
}

/// A write to the table changes no other vector, and an offset that starts none of a
/// vector's numbers changes nothing.
pub proof fn law_table_write_changes_one_vector(
    t: MsixView,
    offset: u64,
    data: Seq<u8>,
    other: int,
)
    requires
        t.wf(),
        0 <= other < t.entries.len(),
    ensures
        other != offset / 16 || offset % 4 != 0 ==> t.table_written(offset, data).entries[other]
            == t.entries[other],
        t.table_written(offset, data).entries.len() == t.entries.len(),
        t.table_written(offset, data).enabled == t.enabled,
        t.table_written(offset, data).function_masked == t.function_masked,
{
}

/// A short write replaces as many of the low bytes of a number as it has.
pub proof fn law_short_write_keeps_the_high_bytes(value: u32, data: Seq<u8>, i: int)
    requires
        0 <= i < 4,
    ensures
        le_byte(patched(value, data), i) == if i < data.len() {
            data[i]
        } else {
            le_byte(value, i)
        },
{
    lemma_le_bytes_of(
        Seq::new(
            4,
            |i: int|
                if i < data.len() {
                    data[i]
                } else {
                    le_byte(value, i)
                },
        ),
    );
}

/// Bit `v % 8` of byte `v / 8` of the pending bits tells of vector `v`.
pub proof fn law_pending_bits_layout(t: MsixView, v: int)
    requires
        0 <= v < 64 * t.pba.len(),
        t.pba.len() < 0x1000,
    ensures
        (t.pba_byte((v / 8) as u64, 0) >> ((v % 8) as u8)) & 1 == 1 <==> t.pending(v),
        forall|i: int|
            0 <= i && v / 8 % 8 + i < 8 ==> #[trigger] t.pba_byte((v / 8) as u64, i) == t.pba_byte(
                (v / 8 + i) as u64,
                0,
            ),
{
    let at = v / 8;
    assert(at / 8 == v / 64 && 8 * (at % 8) + v % 8 == v % 64) by (nonlinear_arith)
        requires
            at == v / 8,
            0 <= v,
    ;
    assert(at / 8 < t.pba.len());
    let word = t.pba[v / 64];
    let (byte, bit, both) = ((8 * (at % 8)) as u64, (v % 8) as u64, (v % 64) as u64);
    let small = (v % 8) as u8;
    assert(((((word >> byte) & 0xff) as u8 >> small) & 1 == 1) == ((word >> both) & 1 == 1))
        by (bit_vector)
        requires
            byte < 64,
            bit < 8,
            byte % 8 == 0,
            both == byte + bit,
            small == bit,
    ;
    assert(t.pba_byte(at as u64, 0) == ((word >> byte) & 0xff) as u8);
    assert(t.pending(v) == ((word >> both) & 1 == 1));
    assert forall|i: int| 0 <= i && at % 8 + i < 8 implies #[trigger] t.pba_byte(at as u64, i)
        == t.pba_byte((at + i) as u64, 0) by {
        assert((at + i) / 8 == at / 8 && (at + i) % 8 == at % 8 + i);
    }
}

/// A vector is delivered exactly if MSI-X is on, the function is not masked, and the
/// table has the vector with its mask bit clear.
pub proof fn law_what_a_vector_needs(t: MsixView, vector: u16)
    ensures
        t.vector_masked(vector) ==> !t.enabled || t.function_masked || vector >= t.entries.len()
            || t.entries[vector as int].vector_ctl % 2 == 1,
        !t.vector_masked(vector) ==> t.enabled && !t.function_masked && vector < t.entries.len()
            && t.entries[vector as int].vector_ctl % 2 == 0,
{
}

/// A table and pending bits in BARs of their own take what is at or above their
/// offsets; other BARs are not concerned.
pub proof fn law_bars_are_told_apart(t: MsixView, bar_idx: u8, offset: u64)
    requires
        t.table_bir != t.pba_bir,
    ensures
        bar_idx == t.table_bir && offset >= t.table_offset ==> t.region(bar_idx, offset) == Some(
            MsixRegion::Table((offset - t.table_offset) as u64),
        ),
        bar_idx == t.pba_bir && offset >= t.pba_offset ==> t.region(bar_idx, offset) == Some(
            MsixRegion::Pba((offset - t.pba_offset) as u64),
        ),
        bar_idx != t.table_bir && bar_idx != t.pba_bir ==> t.region(bar_idx, offset) is None,
        bar_idx == t.table_bir && offset < t.table_offset ==> t.region(bar_idx, offset) is None,
        bar_idx == t.pba_bir && offset < t.pba_offset ==> t.region(bar_idx, offset) is None,
{
}

/// An aligned offset and a BAR number stand side by side in the capability, and a new
/// vector is masked and names no message.
pub proof fn law_capability_and_vector_encoding(offset: u32, bir: u8)
    requires
        offset % 8 == 0,
        bir < 8,
    ensures
        offset_bir(offset, bir) == offset + bir,
        masked_entry().masked(),
        masked_entry().msg_addr_lo == 0 && masked_entry().msg_addr_hi == 0
            && masked_entry().msg_data == 0,
{
    let b = bir as u32;
    assert(offset % 8 == 0 && b < 8 ==> (offset & !0x7u32) | (b & 0x7) == offset + b)
        by (bit_vector);
}

/// A table and pending bits in one BAR: below the pending bits an access goes to the
/// table, by its distance from the start of the table; on them to the pending bits, by
/// its distance from their start.
pub proof fn law_table_and_pending_bits_share_a_bar(t: MsixView, offset: u64)
    requires
        t.table_bir == t.pba_bir,
        t.table_offset <= t.pba_offset,
    ensures
        offset < t.table_offset ==> t.region(t.table_bir, offset) is None,
        t.table_offset <= offset < t.pba_offset ==> t.region(t.table_bir, offset) == Some(
            MsixRegion::Table((offset - t.table_offset) as u64),
        ),
        t.pba_offset <= offset < t.pba_offset + 8 * t.pba.len() ==> t.region(t.table_bir, offset)
            == Some(MsixRegion::Pba((offset - t.pba_offset) as u64)),
{
}

/// Whatever switches MSI-X tells the notifier the state that is then in effect: on where
/// it is enabled and not masked as a whole. The vectors keep their messages.
pub proof fn law_switches_tell_what_is_in_effect<N: MsixNotifier>(
    t: &mut MsixTable,
    on: bool,
    m: &mut N,
    u: &mut MsixTable,
    masked: bool,
    n: &mut N,
)
    requires
        call_ensures(MsixTable::set_enabled::<N>, (t, on, m), ()),
        call_ensures(MsixTable::set_function_masked::<N>, (u, masked, n), ()),
    ensures
        final(t)@.enabled == on && final(t)@.function_masked == old(t)@.function_masked,
        final(u)@.function_masked == masked && final(u)@.enabled == old(u)@.enabled,
        N::enable_step(
            *old(m),
            final(t)@.enabled && !final(t)@.function_masked,
            *final(m),
        ),
        N::enable_step(
            *old(n),
            final(u)@.enabled && !final(u)@.function_masked,
            *final(n),
        ),
        final(t)@.entries == old(t)@.entries && final(u)@.entries == old(u)@.entries,
        final(t)@.pba == old(t)@.pba && final(u)@.pba == old(u)@.pba,
{
}

/// A new table has as many vectors as asked, all masked and without a message, and is off.
pub proof fn law_new_table_is_off(
    count: u16,
    table_bir: u8,
    table_offset: u32,
    pba_bir: u8,
    pba_offset: u32,
    t: MsixTable,
    v: int,
)
    requires
        call_ensures(MsixTable::new, (count, table_bir, table_offset, pba_bir, pba_offset), t),
    ensures
        t@.entries.len() == count,
        0 <= v < count ==> t@.entries[v].vector_ctl % 2 == 1 && t@.entries[v].msg_addr_lo == 0
            && t@.entries[v].msg_addr_hi == 0 && t@.entries[v].msg_data == 0,
        !t@.enabled && !t@.function_masked,
        !t@.pending(v),
        t@.table_bir == table_bir && t@.table_offset == table_offset && t@.pba_bir == pba_bir
            && t@.pba_offset == pba_offset,
{
}

/// What a notifier hears of a write to message control: nothing where neither switch
/// changes, and last of all the effective state where one does.
pub proof fn law_notifier_hears_the_state_in_effect<N: MsixNotifier>(
    t: &mut MsixTable,
    msg_ctl: u16,
    n: &mut N,
)
    requires
        call_ensures(MsixTable::write_msg_ctl::<N>, (t, msg_ctl, n), ()),
    ensures
        ({
            let before = old(t)@;
            let after = final(t)@;
            let effect = 0x8000 <= msg_ctl && msg_ctl < 0xc000;
            &&& (after.enabled && !after.function_masked) == effect
            &&& after.enabled == before.enabled && after.function_masked
                == before.function_masked ==> *final(n) == *old(n)
            &&& effect && !(before.enabled && !before.function_masked) ==> exists|mid: N|
                #[trigger] N::enable_step(mid, true, *final(n))
            &&& !effect && before.enabled && !before.function_masked ==> exists|mid: N|
                #[trigger] N::enable_step(mid, false, *final(n))
            &&& after.entries == before.entries && after.pba == before.pba
        }),
{
    let before = old(t)@;
    law_last_notice_is_in_effect(before, msg_ctl);
    let notices = before.ctl_notices(msg_ctl);
    law_last_of_a_run_is_told_last(*old(n), notices, *final(n));
    let effect = 0x8000 <= msg_ctl && msg_ctl < 0xc000;
    if (before.enabled && !before.function_masked) != effect {
        assert(notices.last() == effect);
        let mid = choose|mid: N|
            #[trigger] N::enable_step(mid, notices.last(), *final(n)) && enable_run(
                *old(n),
                notices.drop_last(),
                mid,
            );
        if effect {
            assert(N::enable_step(mid, true, *final(n)));
        } else {
            assert(N::enable_step(mid, false, *final(n)));
        }
    }
}

} // verus!

use dillo::pci::msix::{MsixCap, MsixNotifier, MsixTable, MsixTableEntry, NoopNotifier};


#[test]
fn msix_cap_table_size() {
    let cap = MsixCap::new(4, 0, 0, 0, 0);
    assert_eq!(cap.table_size(), 4);
}

#[test]
fn msix_cap_enable() {
    let mut cap = MsixCap::new(1, 0, 0, 0, 0);
    assert!(!cap.enabled());
    cap.set_enabled(true);
    assert!(cap.enabled());
    cap.set_enabled(false);
    assert!(!cap.enabled());
}

#[test]
fn msix_cap_function_mask() {
    let cap = MsixCap::new(1, 0, 0, 0, 0);
    assert!(!cap.function_masked());
}

#[test]
fn msix_table_entry_mask() {
    let mut entry = MsixTableEntry::default();
    assert!(!entry.is_masked());
    entry.set_masked(true);
    assert!(entry.is_masked());
    entry.set_masked(false);
    assert!(!entry.is_masked());
}

#[test]
fn msix_cap_bir_and_offset() {
    let cap = MsixCap::new(8, 2, 0x1000, 3, 0x2000);
    assert_eq!(cap.table_offset_bir & 0x7, 2, "table BIR");
    assert_eq!(cap.table_offset_bir & !0x7, 0x1000, "table offset");
    assert_eq!(cap.pba_offset_bir & 0x7, 3, "PBA BIR");
    assert_eq!(cap.pba_offset_bir & !0x7, 0x2000, "PBA offset");
}

#[derive(Default)]
struct RecordingNotifier {
    vector_updates: Vec<(u16, MsixTableEntry)>,
    enable_calls: Vec<bool>,
}

impl MsixNotifier for RecordingNotifier {
    fn vector_updated(&mut self, vector: u16, entry: &MsixTableEntry) {
        self.vector_updates.push((vector, *entry));
    }

    fn msix_enabled(&mut self, enabled: bool) {
        self.enable_calls.push(enabled);
    }
}

#[test]
fn msix_table_new_creates_correct_capacity() {
    let table = MsixTable::new(4, 0, 0, 0, 0x1000);
    assert_eq!(table.num_vectors(), 4);
    assert!(!table.enabled());
}

#[test]
fn msix_table_entries_start_masked() {
    let table = MsixTable::new(2, 0, 0, 0, 0x1000);
    assert!(table.is_vector_masked(0));
    assert!(table.is_vector_masked(1));
}

#[test]
fn msix_table_bar_read_entry_addr_lo() {
    let mut table = MsixTable::new(1, 2, 0, 2, 0x1000);
    let mut notifier = NoopNotifier;
    // Write addr_lo via bar_write
    let val: u32 = 0xFEE0_0000;
    assert!(table.bar_write(2, 0, &val.to_le_bytes(), &mut notifier));
    // Read it back
    let mut buf = [0u8; 4];
    assert!(table.bar_read(2, 0, &mut buf));
    assert_eq!(u32::from_le_bytes(buf), 0xFEE0_0000);
}

#[test]
fn msix_table_bar_read_all_fields() {
    let mut table = MsixTable::new(1, 0, 0, 0, 0x1000);
    let mut notifier = NoopNotifier;
    // Write all four fields
    table.bar_write(0, 0, &0xFEE0_1000u32.to_le_bytes(), &mut notifier); // addr_lo
    table.bar_write(0, 4, &0x0000_0000u32.to_le_bytes(), &mut notifier); // addr_hi
    table.bar_write(0, 8, &0x0000_0041u32.to_le_bytes(), &mut notifier); // data
    table.bar_write(0, 12, &0x0000_0001u32.to_le_bytes(), &mut notifier); // vector_ctl (masked)

    let mut buf = [0u8; 4];
    table.bar_read(0, 0, &mut buf);
    assert_eq!(u32::from_le_bytes(buf), 0xFEE0_1000, "addr_lo");
    table.bar_read(0, 4, &mut buf);
    assert_eq!(u32::from_le_bytes(buf), 0x0000_0000, "addr_hi");
    table.bar_read(0, 8, &mut buf);
    assert_eq!(u32::from_le_bytes(buf), 0x0000_0041, "data");
    table.bar_read(0, 12, &mut buf);
    assert_eq!(u32::from_le_bytes(buf), 0x0000_0001, "vector_ctl");
}

#[test]
fn msix_table_bar_read_beyond_table_returns_zero() {
    let table = MsixTable::new(1, 0, 0, 0, 0x1000);
    let mut buf = [0xFFu8; 4];
    // Entry 0 is at offset 0..16. Offset 16 is beyond.
    assert!(table.bar_read(0, 16, &mut buf));
    assert_eq!(buf, [0, 0, 0, 0]);
}

#[test]
fn msix_table_bar_write_calls_notifier() {
    let mut table = MsixTable::new(1, 0, 0, 0, 0x1000);
    let mut notifier = RecordingNotifier::default();
    let val: u32 = 0xFEE0_0000;
    table.bar_write(0, 0, &val.to_le_bytes(), &mut notifier);
    let updates = &notifier.vector_updates;
    assert_eq!(updates.len(), 1);
    assert_eq!(updates[0].0, 0); // vector 0
    assert_eq!(updates[0].1.msg_addr_lo, 0xFEE0_0000);
}

#[test]
fn msix_table_bar_write_vector_ctl_sets_mask() {
    let mut table = MsixTable::new(1, 0, 0, 0, 0x1000);
    let mut notifier = NoopNotifier;
    // Initially masked (entries start masked)
    assert!(table.is_vector_masked(0));
    // Unmask
    table.bar_write(0, 12, &0u32.to_le_bytes(), &mut notifier);
    // Still masked because !enabled, but per-vector mask is off
    let mut buf = [0u8; 4];
    table.bar_read(0, 12, &mut buf);
    assert_eq!(u32::from_le_bytes(buf), 0);
}

#[test]
fn msix_table_pba_read() {
    let mut table = MsixTable::new(4, 0, 0, 0, 0x1000);
    // Set pending on vector 1
    table.set_pending(1);
    let mut buf = [0u8; 8];
    assert!(table.bar_read(0, 0x1000, &mut buf));
    let pba = u64::from_le_bytes(buf);
    assert_eq!(pba & (1 << 1), 2, "vector 1 pending bit should be set");
    assert_eq!(pba & (1 << 0), 0, "vector 0 pending bit should be clear");
}

#[test]
fn msix_table_pba_cleared_on_unmask() {
    let mut table = MsixTable::new(1, 0, 0, 0, 0x1000);
    let mut notifier = NoopNotifier;
    table.set_pending(0);
    // Unmask vector 0 via bar_write to vector_ctl
    table.bar_write(0, 12, &0u32.to_le_bytes(), &mut notifier);
    let mut buf = [0u8; 8];
    table.bar_read(0, 0x1000, &mut buf);
    let pba = u64::from_le_bytes(buf);
    assert_eq!(pba, 0, "PBA should be cleared after unmask");
}

#[test]
fn msix_table_bar_read_wrong_bar_returns_false() {
    let table = MsixTable::new(1, 0, 0, 0, 0x1000);
    let mut buf = [0u8; 4];
    assert!(!table.bar_read(3, 0, &mut buf));
}

#[test]
fn msix_table_bar_write_wrong_bar_returns_false() {
    let mut table = MsixTable::new(1, 0, 0, 0, 0x1000);
    let mut notifier = NoopNotifier;
    assert!(!table.bar_write(3, 0, &[0; 4], &mut notifier));
}

#[test]
fn msix_table_set_enabled_calls_notifier() {
    let mut table = MsixTable::new(1, 0, 0, 0, 0x1000);
    let mut notifier = RecordingNotifier::default();
    table.set_enabled(true, &mut notifier);
    assert!(table.enabled());
    let calls = &notifier.enable_calls;
    assert_eq!(calls.len(), 1);
    assert!(calls[0]);
}

#[test]
fn msix_table_set_function_masked_calls_notifier_disabled() {
    let mut table = MsixTable::new(1, 0, 0, 0, 0x1000);
    let mut notifier = RecordingNotifier::default();
    table.set_enabled(true, &mut notifier);
    table.set_function_masked(true, &mut notifier);
    let calls = &notifier.enable_calls;
    // set_enabled(true) -> msix_enabled(true)
    // set_function_masked(true) -> msix_enabled(false)
    assert_eq!(calls.len(), 2);
    assert!(calls[0]);
    assert!(!calls[1]);
}

#[test]
fn msix_table_cap_returns_correct_values() {
    let table = MsixTable::new(4, 2, 0x1000, 3, 0x2000);
    let cap = table.cap();
    assert_eq!(cap.table_size(), 4);
    assert_eq!(cap.table_offset_bir & 0x7, 2);
    assert_eq!(cap.table_offset_bir & !0x7, 0x1000);
    assert_eq!(cap.pba_offset_bir & 0x7, 3);
    assert_eq!(cap.pba_offset_bir & !0x7, 0x2000);
}

#[test]
fn msix_table_write_msg_ctl_enable() {
    let mut table = MsixTable::new(4, 0, 0, 0, 0x1000);
    let mut notifier = RecordingNotifier::default();
    // Set enable bit (bit 15) in msg_ctl
    table.write_msg_ctl(0x8003, &mut notifier); // 0x8000 = enable, 0x0003 = table_size field (ignored)
    assert!(table.enabled());
    let calls = &notifier.enable_calls;
    assert_eq!(calls.len(), 1);
    assert!(calls[0]);
}

#[test]
fn msix_table_write_msg_ctl_function_mask() {
    let mut table = MsixTable::new(4, 0, 0, 0, 0x1000);
    let mut notifier = RecordingNotifier::default();
    // Enable + function mask (bits 15 and 14)
    table.write_msg_ctl(0xC003, &mut notifier);
    assert!(table.enabled());
    let calls = &notifier.enable_calls;
    // Enable changed (false -> true) -> msix_enabled(true)
    // Then function_masked changed (false -> true) -> msix_enabled(false) (effectively disabled)
    assert_eq!(calls.len(), 2);
    assert!(calls[0]); // enabled
    assert!(!calls[1]); // function masked -> effectively disabled
}

#[test]
fn msix_table_is_vector_masked_considers_function_mask() {
    let mut table = MsixTable::new(1, 0, 0, 0, 0x1000);
    let mut notifier = NoopNotifier;
    table.set_enabled(true, &mut notifier);
    // Unmask per-vector
    table.bar_write(0, 12, &0u32.to_le_bytes(), &mut notifier);
    assert!(!table.is_vector_masked(0));
    // Set function mask
    table.set_function_masked(true, &mut notifier);
    assert!(table.is_vector_masked(0));
}

#[test]
fn msix_table_is_vector_masked_considers_enabled() {
    let mut table = MsixTable::new(1, 0, 0, 0, 0x1000);
    let mut notifier = NoopNotifier;
    // Unmask per-vector but don't enable MSI-X
    table.bar_write(0, 12, &0u32.to_le_bytes(), &mut notifier);
    assert!(
        table.is_vector_masked(0),
        "should be masked when MSI-X not enabled"
    );
}

#[test]
fn noop_notifier_compiles() {
    let mut notifier = NoopNotifier;
    let entry = MsixTableEntry::default();
    notifier.vector_updated(0, &entry);
    notifier.msix_enabled(true);
}

#[test]
fn msix_table_pba_write_ignored() {
    let mut table = MsixTable::new(1, 0, 0, 0, 0x1000);
    let mut notifier = NoopNotifier;
    table.set_pending(0);
    // Try to write PBA (should be ignored, PBA is read-only)
    assert!(table.bar_write(0, 0x1000, &0u64.to_le_bytes(), &mut notifier));
    // PBA bit should still be set
    let mut buf = [0u8; 8];
    table.bar_read(0, 0x1000, &mut buf);
    let pba = u64::from_le_bytes(buf);
    assert_eq!(pba & 1, 1, "PBA write should be ignored");
}

#[test]
fn msix_table_separate_table_pba_bars() {
    // Table on BAR 0, PBA on BAR 2
    let mut table = MsixTable::new(2, 0, 0, 2, 0);
    let mut notifier = NoopNotifier;
    // Write to table on BAR 0
    assert!(table.bar_write(0, 0, &0xFEE0_0000u32.to_le_bytes(), &mut notifier));
    // Read PBA from BAR 2
    table.set_pending(0);
    let mut buf = [0u8; 8];
    assert!(table.bar_read(2, 0, &mut buf));
    let pba = u64::from_le_bytes(buf);
    assert_eq!(pba & 1, 1);
    // BAR 1 should not match
    assert!(!table.bar_read(1, 0, &mut buf));
}

#[test]
fn clear_pending_clears_one_vector() {
    let mut table = MsixTable::new(70, 0, 0, 0, 0x1000);
    table.set_pending(3);
    table.set_pending(65);
    table.clear_pending(3);
    let mut buf = [0u8; 8];
    assert!(table.bar_read(0, 0x1000, &mut buf));
    assert_eq!(u64::from_le_bytes(buf), 0);
    assert!(table.bar_read(0, 0x1008, &mut buf));
    assert_eq!(u64::from_le_bytes(buf), 2);
}

#[test]
fn msix_cap_layout() {
    let mut cap = MsixCap::new(2048, 1, 0x8, 0, 0x800);
    assert_eq!(cap.msg_ctl, 0x7FF);
    cap.set_enabled(true);
    assert_eq!(cap.msg_ctl, 0x87FF);
    assert_eq!(cap.table_offset_bir, 0x9);
    assert_eq!(cap.pba_offset_bir, 0x800);
}

#[test]
fn table_above_the_pending_bits_of_one_bar() {
    let mut t = MsixTable::new(1, 0, 0x1000, 0, 0);
    let mut n = RecordingNotifier::default();
    assert!(t.bar_write(0, 0x1000, &0xFEE0_0000u32.to_le_bytes(), &mut n));
    assert_eq!(n.vector_updates.len(), 1);
    assert_eq!(n.vector_updates[0].0, 0);
    assert_eq!(n.vector_updates[0].1.msg_addr_lo, 0xFEE0_0000);
    let mut data = [0u8; 4];
    assert!(t.bar_read(0, 0x1000, &mut data));
    assert_eq!(data, 0xFEE0_0000u32.to_le_bytes());

    // The pending bits keep their own word, and nothing lies between.
    t.set_pending(0);
    let mut word = [0u8; 8];
    assert!(t.bar_read(0, 0, &mut word));
    assert_eq!(word, [1, 0, 0, 0, 0, 0, 0, 0]);
    assert!(t.bar_write(0, 0, &[0xff; 8], &mut n));
    assert!(t.bar_read(0, 0, &mut word));
    assert_eq!(word, [1, 0, 0, 0, 0, 0, 0, 0]);
    assert!(t.bar_read(0, 8, &mut word));
    assert_eq!(word, [0u8; 8]);
    assert_eq!(n.vector_updates.len(), 1);
}

use tezedge_node::monitor::{ApplicationMonitor, BlockApplied};

fn block(level: i32) -> BlockApplied {
    BlockApplied { hash: vec![0u8; 32], level, timestamp: 0 }
}

#[test]
fn monitor_starts_empty() {
    let m = ApplicationMonitor::new();
    assert_eq!(m.total_applied(), 0);
    assert_eq!(m.current_applied(), 0);
    assert_eq!(m.first_update(), m.last_update());
}

#[test]
fn monitor_counts_applied_blocks() {
    let mut m = ApplicationMonitor::new();
    m.block_was_applied(block(1));
    m.block_was_applied(block(2));
    assert_eq!(m.total_applied(), 2);
    assert_eq!(m.current_applied(), 2);
}

#[test]
fn snapshot_without_block() {
    let mut m = ApplicationMonitor::new();
    assert!(m.snapshot().is_none());
}

#[test]
fn snapshot_reports_last_block_and_resets_current() {
    let mut m = ApplicationMonitor::new();
    m.block_was_applied(block(1));
    m.block_was_applied(block(2));
    let info = m.snapshot().expect("a block was applied");
    assert_eq!(info.level, 2);
    assert_eq!(info.hash, "BKiHLREqU3JkXfzEDYAkmmfX48gBDtYhMrpA98s7Aq4SzbUAB6M");
    assert_eq!(m.current_applied(), 0);
    assert_eq!(m.total_applied(), 2);
    m.block_was_applied(block(3));
    assert_eq!(m.current_applied(), 1);
    assert_eq!(m.total_applied(), 3);
    assert!(m.current_applied() <= m.total_applied());
    assert_eq!(m.snapshot().expect("a block was applied").level, 3);
}

#[test]
fn snapshot_at_renews_window_from_given_instant() {
    let mut m = ApplicationMonitor::new();
    m.block_was_applied(block(5));
    let later = m.first_update() + std::time::Duration::from_secs(60);
    let info = m.snapshot_at(later).expect("a block was applied");
    assert_eq!(info.level, 5);
    assert_eq!(m.last_update(), later);
    assert_eq!(m.current_applied(), 0);
    assert_eq!(m.total_applied(), 1);
}

//! The saturating mixer arithmetic and the pattern store on their own.

use drum_machine::mix::sat_add;
use drum_machine::pattern::Pattern;

#[test]
fn sat_add_exact_in_range() {
    assert_eq!(sat_add(100, 200), 300);
    assert_eq!(sat_add(-100, 40), -60);
    assert_eq!(sat_add(16_384, 16_383), 32_767);
    assert_eq!(sat_add(-16_384, -16_384), -32_768);
    assert_eq!(sat_add(0, 0), 0);
}

#[test]
fn sat_add_clamps_never_wraps() {
    assert_eq!(sat_add(32_767, 1), 32_767);
    assert_eq!(sat_add(30_000, 30_000), 32_767);
    assert_eq!(sat_add(-32_768, -1), -32_768);
    assert_eq!(sat_add(-30_000, -30_000), -32_768);
    assert_eq!(sat_add(32_767, -32_768), -1);
}

#[test]
fn pattern_starts_cleared() {
    let p = Pattern::new(6, 32);
    assert_eq!(p.rows.len(), 6);
    for row in &p.rows {
        assert_eq!(row.len(), 32);
        assert!(row.iter().all(|&g| !g));
    }
}

#[test]
fn pattern_set_and_get_single_entry() {
    let mut p = Pattern::new(2, 8);
    p.set_gate(1, 3, true);
    assert!(p.get_gate(1, 3));
    assert!(!p.get_gate(1, 2));
    assert!(!p.get_gate(0, 3));
    p.set_gate(1, 3, false);
    assert!(!p.get_gate(1, 3));
}

/// Out-of-range messages are dropped: no panic, no change.
#[test]
fn pattern_out_of_range_is_dropped() {
    let mut p = Pattern::new(2, 8);
    p.set_gate(2, 0, true);
    p.set_gate(0, 8, true);
    p.set_gate(1000, 1000, true);
    for row in &p.rows {
        assert!(row.iter().all(|&g| !g));
    }
}

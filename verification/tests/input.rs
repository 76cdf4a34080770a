use modit::input::{saturating_u8, EdgeLatch};
use std::sync::Mutex;

#[test]
fn an_edge_is_counted() {
    let mut latch = EdgeLatch::new();
    assert!(latch.record(1_000, 50));
    assert_eq!(latch.pending(), 1);
    assert_eq!(latch.take(), 1);
    assert_eq!(latch.pending(), 0);
}

#[test]
fn the_very_first_edge_is_never_debounced() {
    let mut latch = EdgeLatch::new();
    assert!(latch.record(0, 50));
    assert_eq!(latch.pending(), 1);
}

#[test]
fn an_edge_inside_the_debounce_window_is_rejected() {
    let mut latch = EdgeLatch::new();
    assert!(latch.record(1_000, 50));
    assert!(!latch.record(1_001, 50));
    assert!(!latch.record(1_049, 50));
    assert_eq!(latch.pending(), 1);
}

#[test]
fn an_edge_outside_the_debounce_window_is_accepted() {
    let mut latch = EdgeLatch::new();
    assert!(latch.record(1_000, 50));
    assert!(latch.record(1_050, 50));
    assert_eq!(latch.pending(), 2);
}

#[test]
fn bounce_does_not_extend_the_debounce_window() {
    let mut latch = EdgeLatch::new();
    assert!(latch.record(1_000, 50));
    for t in 1_001..1_050 {
        assert!(!latch.record(t, 50));
    }
    assert!(latch.record(1_050, 50));
    assert_eq!(latch.pending(), 2);
}

#[test]
fn a_held_press_and_its_release_bounce_are_one_event() {
    let mut latch = EdgeLatch::new();
    assert!(latch.record(1_000, 50));
    assert!(!latch.record(1_001, 50));
    assert!(!latch.record(1_003, 50));
    assert!(latch.record_release(1_120, 50));
    assert!(!latch.record(1_120, 50));
    assert!(!latch.record(1_121, 50));
    assert!(!latch.record(1_124, 50));
    assert_eq!(
        latch.take(),
        1,
        "one press of the button must be one event, however long it is held"
    );
}

#[test]
fn a_release_does_not_block_the_next_real_press() {
    let mut latch = EdgeLatch::new();
    latch.record(1_000, 50);
    latch.record_release(1_120, 50);
    assert!(latch.record(1_300, 50));
    assert_eq!(latch.take(), 2);
}

#[test]
fn a_tap_shorter_than_the_window_does_not_deafen_the_input() {
    let mut latch = EdgeLatch::new();
    assert!(latch.record(1_000, 50));
    assert!(!latch.record_release(1_005, 50));
    assert!(latch.record(1_200, 50));
    assert_eq!(latch.take(), 2);
}

#[test]
fn a_release_before_any_press_is_not_an_event() {
    let mut latch = EdgeLatch::new();
    assert!(latch.record_release(500, 50));
    assert_eq!(latch.pending(), 0);
    assert!(latch.record(1_000, 50));
    assert_eq!(latch.take(), 1);
}

#[test]
fn a_release_survives_a_wrap() {
    let mut latch = EdgeLatch::new();
    let before = u32::MAX - 10;
    assert!(latch.record(before, 50));
    assert!(latch.record_release(before.wrapping_add(60), 50));
    assert!(!latch.record(before.wrapping_add(61), 50));
    assert_eq!(latch.take(), 1);
}

#[test]
fn take_leaves_an_edge_that_arrived_during_the_read() {
    // `take` is a read followed by a subtraction of what was read; an edge
    // recorded between the two halves must survive.
    let mut latch = EdgeLatch::new();
    latch.record(1_000, 8);

    let observed = latch.pending();
    assert_eq!(observed, 1);

    latch.record(1_010, 8);

    latch.consume(observed);

    assert_eq!(
        latch.pending(),
        1,
        "an edge arriving mid-take was lost; `take` must subtract what it \
         observed, never store zero"
    );
}

#[test]
fn take_one_yields_exactly_one_event_per_edge() {
    let mut latch = EdgeLatch::new();
    latch.record(1_000, 8);
    latch.record(1_100, 8);
    assert!(latch.take_one());
    assert_eq!(latch.pending(), 1);
    assert!(latch.take_one());
    assert!(!latch.take_one());
    assert_eq!(latch.pending(), 0);
}

#[test]
fn take_settled_waits_for_the_burst_to_end() {
    let mut latch = EdgeLatch::new();
    latch.record(1_000, 8);
    latch.record(1_100, 8);
    assert_eq!(latch.take_settled(1_200, 300), None);
    assert_eq!(latch.pending(), 2);
    assert_eq!(latch.take_settled(1_400, 300), Some(2));
    assert_eq!(latch.pending(), 0);
}

#[test]
fn take_settled_reports_nothing_when_nothing_happened() {
    let mut latch = EdgeLatch::new();
    assert_eq!(latch.take_settled(10_000, 300), None);
}

#[test]
fn two_bursts_are_two_events() {
    let mut latch = EdgeLatch::new();
    latch.record(1_000, 8);
    latch.record(1_050, 8);
    assert_eq!(latch.take_settled(1_400, 300), Some(2));
    latch.record(2_000, 8);
    assert_eq!(latch.take_settled(2_400, 300), Some(1));
}

#[test]
fn timestamps_wrap_without_going_deaf() {
    let mut latch = EdgeLatch::new();
    let before = u32::MAX - 10;
    assert!(latch.record(before, 50));
    let after = before.wrapping_add(60);
    assert!(latch.record(after, 50));
    assert_eq!(latch.pending(), 2);
    assert!(!latch.record(after.wrapping_add(1), 50));
}

#[test]
fn take_settled_survives_a_wrap() {
    let mut latch = EdgeLatch::new();
    let before = u32::MAX - 10;
    latch.record(before, 8);
    assert_eq!(latch.take_settled(before.wrapping_add(100), 300), None);
    assert_eq!(latch.take_settled(before.wrapping_add(400), 300), Some(1));
}

#[test]
fn discard_drops_everything() {
    let mut latch = EdgeLatch::new();
    latch.record(1_000, 8);
    latch.record(1_100, 8);
    assert_eq!(latch.discard(), 2);
    assert_eq!(latch.pending(), 0);
    assert!(!latch.record(1_101, 8));
}

#[test]
fn last_ms_is_none_until_an_edge_arrives() {
    let mut latch = EdgeLatch::new();
    assert_eq!(latch.last_ms(), None);
    latch.record(1_234, 8);
    assert_eq!(latch.last_ms(), Some(1_234));
}

#[test]
fn a_huge_burst_saturates_rather_than_wrapping() {
    assert_eq!(saturating_u8(0), 0);
    assert_eq!(saturating_u8(255), 255);
    assert_eq!(saturating_u8(256), 255);
    assert_eq!(saturating_u8(u32::MAX), 255);
}

#[test]
fn a_latch_is_usable_from_a_static() {
    // Shared between an interrupt-like writer and a loop-like reader through a
    // lock, since every method that changes the latch takes `&mut self`.
    static LATCH: Mutex<Option<EdgeLatch>> = Mutex::new(None);
    let mut guard = LATCH.lock().unwrap();
    let latch = guard.get_or_insert_with(EdgeLatch::new);
    latch.record(1_000, 8);
    assert_eq!(latch.take(), 1);
}

#[test]
fn a_default_latch_is_empty() {
    let latch = EdgeLatch::default();
    assert_eq!(latch.pending(), 0);
    assert_eq!(latch.last_ms(), None);
}

#[test]
fn take_one_on_an_empty_latch_changes_nothing() {
    let mut latch = EdgeLatch::new();
    assert!(!latch.take_one());
    assert_eq!(latch.pending(), 0);
    assert_eq!(latch.discard(), 0);
}

#[test]
fn take_settled_exactly_at_the_gap_is_settled() {
    let mut latch = EdgeLatch::new();
    latch.record(1_000, 8);
    assert_eq!(latch.take_settled(1_299, 300), None);
    assert_eq!(latch.take_settled(1_300, 300), Some(1));
}

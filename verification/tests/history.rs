use niri_dynamic_cursors::history::{MotionHistory, MAX_HISTORY};

fn history_of(stamps: &[u64]) -> MotionHistory<u32> {
    let mut h = MotionHistory::new();
    for (i, t) in stamps.iter().enumerate() {
        h.push(*t, i as u32);
    }
    h
}

#[test]
fn history_keeps_newest_hundred_in_order() {
    let mut h = MotionHistory::new();
    for i in 0..250u64 {
        h.push(i * 10, i);
        assert!(h.len() <= MAX_HISTORY);
        assert_eq!(h.get(h.len() - 1).value, i);
    }
    assert_eq!(h.len(), 100);
    assert_eq!(h.get(0).value, 150);
    assert_eq!(h.get(0).timestamp_ms, 1500);
    for k in 0..h.len() {
        assert_eq!(h.get(k).value, 150 + k as u64);
    }
}

#[test]
fn history_below_capacity_keeps_everything() {
    let h = history_of(&[5, 6, 7]);
    assert_eq!(h.len(), 3);
    assert_eq!(h.get(0).timestamp_ms, 5);
    assert_eq!(h.get(2).value, 2);
}

#[test]
fn window_start_walks_back_while_within_window() {
    let h = history_of(&[0, 50, 100, 150, 200, 250]);
    assert_eq!(h.window_start(100), 3);
    assert_eq!(h.window_start(99), 4);
    assert_eq!(h.window_start(0), 5);
    assert_eq!(h.window_start(1000), 0);
}

#[test]
fn window_start_stops_at_first_gap() {
    // 190 is within the window of 200, but the walk stops at the first sample
    // outside it met from the newest end.
    let h = history_of(&[190, 0, 150, 200]);
    assert_eq!(h.window_start(100), 2);
}

#[test]
fn oldest_within_is_the_first_sample_inside_the_window() {
    let h = history_of(&[0, 10, 20]);
    assert_eq!(h.oldest_within(200), Some(0));
    assert_eq!(h.oldest_within(15), Some(1));
    assert_eq!(h.oldest_within(0), Some(2));
    let h = history_of(&[0, 300, 450, 500]);
    assert_eq!(h.oldest_within(200), Some(1));
    // A sample newer than the newest one is not within the window.
    let h = history_of(&[900, 50, 100]);
    assert_eq!(h.oldest_within(200), Some(1));
    let empty: MotionHistory<u32> = MotionHistory::new();
    assert_eq!(empty.oldest_within(200), None);
}

#[test]
fn older_samples_do_not_move_the_window() {
    let recent = history_of(&[300, 350, 400]);
    let with_older = history_of(&[0, 50, 150, 300, 350, 400]);
    assert_eq!(recent.window_start(200), 0);
    assert_eq!(with_older.window_start(200), 3);
    assert_eq!(with_older.oldest_within(200), Some(3));
}

#[test]
fn velocity_span_needs_two_samples_and_elapsed_time() {
    assert_eq!(history_of(&[]).velocity_span(100), None);
    assert_eq!(history_of(&[40]).velocity_span(100), None);
    assert_eq!(history_of(&[40, 40]).velocity_span(100), None);
    assert_eq!(history_of(&[0, 40, 90]).velocity_span(100), Some((0, 90)));
    assert_eq!(history_of(&[0, 40, 150]).velocity_span(110), Some((1, 110)));
    assert_eq!(history_of(&[0, 40, 150]).velocity_span(100), None);
    assert_eq!(history_of(&[0, 40, 150]).velocity_span(50), None);
}

#[test]
fn walk_defined_detects_a_newer_sample_on_the_walk() {
    assert!(history_of(&[0, 10, 20]).walk_defined(100));
    assert!(!history_of(&[30, 10, 20]).walk_defined(100));
    // The newer sample lies beyond the stop of the walk.
    assert!(history_of(&[30, 0, 500]).walk_defined(100));
    assert!(history_of(&[]).walk_defined(100));
}

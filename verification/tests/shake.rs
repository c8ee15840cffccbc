use niri_dynamic_cursors::history::MotionHistory;
use niri_dynamic_cursors::shake::{ShakeDetector, ShakeStep, SHAKE_WINDOW_MS};

/// The shake intensity of a history of positions: the length of the trail
/// over the shake window divided by the straight distance from the oldest
/// sample within the window to the newest one.
fn intensity(history: &MotionHistory<(f64, f64)>) -> f64 {
    let n = history.len();
    if n < 3 {
        return 0.0;
    }
    let start = history.window_start(SHAKE_WINDOW_MS);
    let mut trail = 0.0;
    for i in (start..n - 1).rev() {
        let (x1, y1) = history.get(i + 1).value;
        let (x0, y0) = history.get(i).value;
        trail += ((x1 - x0) * (x1 - x0) + (y1 - y0) * (y1 - y0)).sqrt();
    }
    let (cx, cy) = history.get(n - 1).value;
    let (ox, oy) = history.get(history.oldest_within(SHAKE_WINDOW_MS).unwrap()).value;
    let diagonal = ((cx - ox) * (cx - ox) + (cy - oy) * (cy - oy)).sqrt();
    if diagonal < 1.0 {
        return 0.0;
    }
    trail / diagonal
}

#[test]
fn test_shake_detector_initialization() {
    let detector = ShakeDetector::new();
    assert!(!detector.is_active());
}

#[test]
fn test_no_shake_on_linear_movement() {
    let mut detector = ShakeDetector::new();
    let mut history = MotionHistory::new();

    // Simulate linear movement
    for i in 0..10u64 {
        history.push(i * 10, (i as f64 * 10.0, i as f64 * 10.0));
    }

    // The default shake configuration: threshold 6.0, timeout 2000 ms.
    let threshold = 6.0;
    let measured = intensity(&history);
    assert!((measured - 1.0).abs() < 1e-9);
    detector.update(&history, measured > threshold, measured < threshold / 2.0, 2000);

    // Should not detect shake on linear movement
    assert!(!detector.is_active());
}

#[test]
fn back_and_forth_movement_starts_a_shake() {
    let mut detector = ShakeDetector::new();
    let mut history = MotionHistory::new();
    let xs = [0.0, 50.0, 0.0, 50.0, 0.0, 50.0, 0.0, 50.0, 10.0];
    for (i, x) in xs.iter().enumerate() {
        history.push(i as u64 * 10, (*x, 0.0));
    }
    let measured = intensity(&history);
    assert!((measured - 39.0).abs() < 1e-9);
    let step = detector.update(&history, measured > 6.0, measured < 3.0, 2000);
    assert_eq!(step, ShakeStep::Magnify { elapsed_ms: 0 });
    assert!(detector.is_active());
}

fn history_at(stamps: &[u64]) -> MotionHistory<()> {
    let mut h = MotionHistory::new();
    for t in stamps {
        h.push(*t, ());
    }
    h
}

#[test]
fn too_few_samples_are_skipped() {
    let mut detector = ShakeDetector::new();
    assert_eq!(detector.update(&history_at(&[0, 10]), true, false, 2000), ShakeStep::Skipped);
    assert!(!detector.is_active());
}

#[test]
fn weak_motion_stays_idle() {
    let mut detector = ShakeDetector::new();
    assert_eq!(detector.update(&history_at(&[0, 10, 20]), false, true, 2000), ShakeStep::Idle);
    assert!(!detector.is_active());
}

#[test]
fn shake_starts_grows_and_ends_after_timeout() {
    let mut detector = ShakeDetector::new();
    let mut h = history_at(&[0, 10, 20]);
    assert_eq!(detector.update(&h, true, false, 2000), ShakeStep::Magnify { elapsed_ms: 0 });
    assert!(detector.is_active());
    h.push(520, ());
    assert_eq!(detector.update(&h, true, false, 2000), ShakeStep::Magnify { elapsed_ms: 500 });
    // Calm, but within the timeout since it was last strong (at 520).
    h.push(2520, ());
    assert_eq!(detector.update(&h, false, true, 2000), ShakeStep::Magnify { elapsed_ms: 2500 });
    assert!(detector.is_active());
    // Calm for more than the timeout: the shake ends.
    h.push(2521, ());
    assert_eq!(detector.update(&h, false, true, 2000), ShakeStep::Reset);
    assert!(!detector.is_active());
    // A new shake starts afresh.
    h.push(3000, ());
    assert_eq!(detector.update(&h, true, false, 2000), ShakeStep::Magnify { elapsed_ms: 0 });
}

#[test]
fn between_half_and_full_threshold_keeps_shaking() {
    let mut detector = ShakeDetector::new();
    let mut h = history_at(&[0, 10, 100]);
    assert_eq!(detector.update(&h, true, false, 50), ShakeStep::Magnify { elapsed_ms: 0 });
    h.push(1000, ());
    // Between half the threshold and the threshold: goes on and counts as strong.
    assert_eq!(detector.update(&h, false, false, 50), ShakeStep::Magnify { elapsed_ms: 900 });
    h.push(1040, ());
    assert_eq!(detector.update(&h, false, true, 50), ShakeStep::Magnify { elapsed_ms: 940 });
    h.push(1051, ());
    assert_eq!(detector.update(&h, false, true, 50), ShakeStep::Reset);
}

#[test]
fn calm_at_start_with_old_last_update_resets_immediately() {
    // A shake that starts while already calm ends at once when the last
    // strong moment (initially 0) is older than the timeout.
    let mut detector = ShakeDetector::new();
    let h = history_at(&[0, 10, 5000]);
    assert_eq!(detector.update(&h, true, true, 2000), ShakeStep::Reset);
    assert!(!detector.is_active());
}

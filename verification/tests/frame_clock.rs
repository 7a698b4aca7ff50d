use swarmframe::clock::FrameClock;

#[test]
fn below_threshold_reports_nothing() {
    let mut clock = FrameClock::new();
    assert!(clock.frame(10).is_none());
    assert!(clock.frame(20).is_none());
    assert!(clock.frame(30).is_none());
}

#[test]
fn reaching_threshold_reports_window_statistics() {
    let mut clock = FrameClock::new();
    assert!(clock.frame(10).is_none());
    assert!(clock.frame(20).is_none());
    assert!(clock.frame(30).is_none());
    let rep = clock.frame(940).expect("the window reached the threshold");
    assert_eq!(rep.frames, 4);
    assert_eq!(rep.min, 10);
    assert_eq!(rep.max, 940);
    assert_eq!(rep.total, 1000);
    assert_eq!(rep.total_sq, 100 + 400 + 900 + 940 * 940);
    assert_eq!(rep.mean_milli(), 250000);
}

#[test]
fn window_resets_without_leaking_samples() {
    let mut clock = FrameClock::new();
    clock.frame(10);
    clock.frame(20);
    clock.frame(30);
    clock.frame(940).unwrap();
    // The next window starts from nothing: the old minimum of 10 is gone.
    assert!(clock.frame(500).is_none());
    let rep = clock.frame(600).unwrap();
    assert_eq!(rep.frames, 2);
    assert_eq!(rep.min, 500);
    assert_eq!(rep.max, 600);
    assert_eq!(rep.total, 1100);
}

#[test]
fn single_long_frame_reports_alone() {
    let mut clock = FrameClock::new();
    let rep = clock.frame(5000).unwrap();
    assert_eq!(rep.frames, 1);
    assert_eq!(rep.min, 5000);
    assert_eq!(rep.max, 5000);
    assert_eq!(rep.total, 5000);
    assert_eq!(rep.mean_milli(), 5000000);
}

#[test]
fn exact_threshold_reports() {
    let mut clock = FrameClock::new();
    assert!(clock.frame(999).is_none());
    let rep = clock.frame(1).unwrap();
    assert_eq!(rep.frames, 2);
    assert_eq!(rep.min, 1);
    assert_eq!(rep.max, 999);
    assert_eq!(rep.total, 1000);
}

#[test]
fn zero_time_frames_accumulate_in_window() {
    let mut clock = FrameClock::new();
    assert!(clock.frame(0).is_none());
    assert!(clock.frame(0).is_none());
    let rep = clock.frame(1000).unwrap();
    assert_eq!(rep.frames, 3);
    assert_eq!(rep.min, 0);
    assert_eq!(rep.max, 1000);
    assert_eq!(rep.total, 1000);
}

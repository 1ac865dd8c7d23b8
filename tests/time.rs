use my_engine::time::TimeManager;

#[test]
fn tick_reports_delta_and_counts_one_frame() {
    let mut time = TimeManager::new();
    time.tick(16_000_000);
    assert_eq!(time.delta_nanos(), 16_000_000);
    assert_eq!(time.frame_count(), 1);
    time.tick(50_000_000);
    assert_eq!(time.delta_nanos(), 34_000_000);
    assert_eq!(time.frame_count(), 2);
}

#[test]
fn earlier_reading_counts_as_no_time() {
    let mut time = TimeManager::new();
    time.tick(100);
    time.tick(40);
    assert_eq!(time.delta_nanos(), 0);
    assert_eq!(time.frame_count(), 2);
}

#[test]
fn fps_window_closes_after_one_second() {
    let mut time = TimeManager::new();
    assert_eq!(time.fps_window(), (0, 0));
    for i in 1..=60u64 {
        time.tick(i * 16_000_000);
    }
    assert_eq!(time.fps_window(), (0, 0));
    for i in 61..=63u64 {
        time.tick(i * 16_000_000);
    }
    assert_eq!(time.fps_window(), (63, 1_008_000_000));
    time.tick(64 * 16_000_000);
    assert_eq!(time.fps_window(), (63, 1_008_000_000));
}

#[test]
fn update_measures_real_time() {
    let mut time = TimeManager::new();
    time.update();
    assert_eq!(time.frame_count(), 1);
    assert!(time.elapsed_nanos() >= time.delta_nanos());
}

#[test]
fn reset_starts_over() {
    let mut time = TimeManager::new();
    time.tick(5);
    time.tick(20);
    time.reset();
    assert_eq!(time.frame_count(), 0);
    assert_eq!(time.delta_nanos(), 0);
    time.tick(7);
    assert_eq!(time.delta_nanos(), 7);
}

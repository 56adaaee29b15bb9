use droppa::progress::{is_report_boundary, percent_of, ProgressTracker, REPORT_STEP};

#[test]
fn percent_of_rounds_down_and_caps() {
    assert_eq!(percent_of(0, 10), 0);
    assert_eq!(percent_of(1, 3), 33);
    assert_eq!(percent_of(2, 3), 66);
    assert_eq!(percent_of(3, 3), 100);
    assert_eq!(percent_of(7, 3), 100);
    assert_eq!(percent_of(65536, 1_048_576), 6);
    assert_eq!(percent_of(1_048_575, 1_048_576), 99);
}

#[test]
fn percent_of_zero_total_is_complete() {
    assert_eq!(percent_of(0, 0), 100);
    assert_eq!(percent_of(5, 0), 100);
}

#[test]
fn percent_of_does_not_overflow() {
    assert_eq!(percent_of(usize::MAX, usize::MAX), 100);
    assert_eq!(percent_of(usize::MAX / 2, usize::MAX), 49);
    assert_eq!(percent_of(usize::MAX - 1, usize::MAX), 99);
}

#[test]
fn percent_never_goes_down() {
    let total = 977;
    let mut last = 0;
    for written in 0..=1200usize {
        let now = percent_of(written, total);
        assert!(now >= last);
        assert!(now <= 100);
        assert_eq!(now == 100, written >= total);
        last = now;
    }
}

#[test]
fn boundaries_are_multiples_of_the_step() {
    assert_eq!(REPORT_STEP, 5);
    for p in 0..=100u8 {
        assert_eq!(is_report_boundary(p), p % 5 == 0);
    }
}

#[test]
fn tracker_reports_on_boundaries_only() {
    let mut tracker = ProgressTracker::new(16);
    assert_eq!(tracker.progress(), 0);
    assert_eq!(tracker.record(1), None);
    assert_eq!(tracker.progress(), 6);
    assert_eq!(tracker.bytes_written(), 1);
    assert_eq!(tracker.bytes_expected(), 16);
    assert_eq!(tracker.record(3), Some(25));
    assert_eq!(tracker.record(0), Some(25));
    assert_eq!(tracker.record(12), Some(100));
    assert_eq!(tracker.record(1), Some(100));
    assert_eq!(tracker.progress(), 100);
}

#[test]
fn tracker_count_saturates() {
    let mut tracker = ProgressTracker::new(usize::MAX);
    assert_eq!(tracker.record(usize::MAX - 1), None);
    assert_eq!(tracker.record(10), Some(100));
    assert_eq!(tracker.bytes_written(), usize::MAX);
}

#[test]
fn tracker_of_nothing_is_complete() {
    let mut tracker = ProgressTracker::new(0);
    assert_eq!(tracker.progress(), 100);
    assert_eq!(tracker.record(0), Some(100));
}

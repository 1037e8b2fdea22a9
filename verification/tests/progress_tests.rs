use ray_tracing_the_next_week::progress_tracker::{
    Accumulate, MovingAverage, ProgressTracker, UpdateRecord,
};
use ray_tracing_the_next_week::ray_tracer::ProgressTrackerWrapper;

#[test]
fn moving_average_follows_the_window() {
    let mut avg: MovingAverage<UpdateRecord, 4> = MovingAverage::new();
    assert_eq!(avg.average(), UpdateRecord { time: 0, diff: 0 });

    // while filling, the divisor counts one slot past the latest write
    let a = avg.update(UpdateRecord { time: 100, diff: 10 });
    assert_eq!(a, UpdateRecord { time: 50, diff: 5 });

    let b = avg.update(UpdateRecord { time: 300, diff: 30 });
    assert_eq!(b, UpdateRecord { time: 133, diff: 13 });

    let c = avg.update(UpdateRecord { time: 500, diff: 50 });
    assert_eq!(c, UpdateRecord { time: 225, diff: 22 });

    // the fourth write fills the window; from now on all four slots count
    let d = avg.update(UpdateRecord { time: 700, diff: 70 });
    assert_eq!(d, UpdateRecord { time: 400, diff: 40 });

    // and the oldest entry falls out
    let e = avg.update(UpdateRecord { time: 900, diff: 90 });
    assert_eq!(e, UpdateRecord { time: 600, diff: 60 });
}

#[test]
fn update_records_saturate_instead_of_overflowing() {
    let a = UpdateRecord { time: u64::MAX - 5, diff: 1 };
    let b = UpdateRecord { time: 100, diff: 2 };
    let sum = a.acc(b);
    assert_eq!(sum.time, u64::MAX);
    assert_eq!(sum.diff, 3);
}

#[test]
fn progress_tracker_reports_its_range() {
    let mut tracker = ProgressTracker::new(0, 1000);
    assert_eq!(tracker.max(), 1000);
    assert_eq!(tracker.current(), 0);

    tracker.update(250);
    assert_eq!(tracker.current(), 250);
    assert_eq!(tracker.max(), 1000);

    // moving backwards counts as no forward progress and must not panic
    tracker.update(100);
    assert_eq!(tracker.current(), 100);

    let _elapsed = tracker.get_elapsed();
    let _eta = tracker.get_eta();
}

#[test]
fn progress_wrapper_reports_at_the_interval_and_at_the_end() {
    // width 512 makes every full row a reporting point
    let mut wrapper = ProgressTrackerWrapper::new(512, 4);

    let quiet = wrapper.update(0, 100);
    assert!(quiet.is_none());

    let spoken = wrapper.update(0, 512).expect("a full row is due");
    assert_eq!(spoken.current, 512);
    assert_eq!(spoken.max, 4 * 512);
    assert!(!spoken.finished);

    let done = wrapper.update(3, 512).expect("the last pixel is due");
    assert_eq!(done.current, 4 * 512);
    assert!(done.finished);
}

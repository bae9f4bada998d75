//! The events of a test and their order.

use rperf3::client::{one_way_sent, ProgressEvent};
use rperf3::measurements::{MeasurementsCollector, OneWaySendStats};
use rperf3::progress::{Notice, Progress, Stage};
use rperf3::session::Phase;
use rperf3::time::Duration;
use rperf3::transfer::{IntervalReport, TransferLoop};

fn report(bytes: u64) -> IntervalReport {
    let mut c = MeasurementsCollector::new();
    let second = Duration::from_secs(1);
    let mut l = TransferLoop::new(second, second);
    l.tcp_sent(&mut c, 5, bytes);
    l.close_tcp_interval(&mut c, 5, second, second, None, true)
}

fn completed() -> ProgressEvent {
    one_way_sent(&OneWaySendStats::default())
}

/// The events of some notices, each by a letter.
fn letters(notices: Vec<Notice>) -> String {
    let mut progress = Progress::new();
    notices
        .into_iter()
        .filter_map(|notice| progress.tell(notice))
        .map(|event| match event {
            ProgressEvent::TestStarted => 'S',
            ProgressEvent::IntervalUpdate { .. } => 'I',
            ProgressEvent::TestCompleted { .. } => 'C',
            ProgressEvent::Error(_) => 'E',
        })
        .collect()
}

#[test]
fn a_whole_test_is_told_in_order() {
    let notices = vec![
        Notice::Entered(Phase::AwaitStart),
        Notice::Entered(Phase::Transfer),
        Notice::Interval(report(1)),
        Notice::Entered(Phase::Transfer),
        Notice::Interval(report(2)),
        Notice::Entered(Phase::AwaitResult),
        Notice::Completed(completed()),
    ];
    assert_eq!(letters(notices), "SIIC");
}

#[test]
fn a_test_ends_once() {
    let notices = vec![
        Notice::Entered(Phase::Transfer),
        Notice::Completed(completed()),
        Notice::Failed("late".to_string()),
        Notice::Interval(report(1)),
        Notice::Completed(completed()),
        Notice::Entered(Phase::Transfer),
    ];
    assert_eq!(letters(notices), "SC");
    let notices = vec![
        Notice::Entered(Phase::Transfer),
        Notice::Interval(report(1)),
        Notice::Failed("broken".to_string()),
        Notice::Completed(completed()),
    ];
    assert_eq!(letters(notices), "SIE");
}

#[test]
fn only_a_failure_is_told_of_a_test_that_does_not_start() {
    let notices = vec![
        Notice::Interval(report(1)),
        Notice::Completed(completed()),
        Notice::Failed("refused".to_string()),
        Notice::Entered(Phase::Transfer),
    ];
    assert_eq!(letters(notices), "E");
    let mut progress = Progress::new();
    match progress.tell(Notice::Failed("why".to_string())) {
        Some(ProgressEvent::Error(reason)) => assert_eq!(reason, "why"),
        _ => panic!("Expected an error event"),
    }
    assert_eq!(progress.stage, Stage::Over);
}

#[test]
fn intervals_are_told_as_they_were_reported() {
    let mut progress = Progress::new();
    assert!(matches!(
        progress.tell(Notice::Entered(Phase::Transfer)),
        Some(ProgressEvent::TestStarted)
    ));
    match progress.tell(Notice::Interval(report(640))) {
        Some(ProgressEvent::IntervalUpdate { bytes, interval_end, .. }) => {
            assert_eq!((bytes, interval_end), (640, Duration::from_secs(1)));
        }
        _ => panic!("Expected an update"),
    }
    // Nothing but the end of a test completes it
    assert!(progress.tell(Notice::Completed(ProgressEvent::TestStarted)).is_none());
    assert_eq!(progress.stage, Stage::Started);
}

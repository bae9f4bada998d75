//! What a client tells of the progress of a test, and in which order.

use crate::client::ProgressEvent;
use crate::session::Phase;
use crate::transfer::IntervalReport;
use vstd::prelude::*;

verus! {

/// How far the telling of a test has come.
#[derive(Debug, Clone, Copy, PartialEq, Eq, Structural)]
pub enum Stage {
    /// Nothing was told yet
    Silent,
    /// The test was told to have started
    Started,
    /// The end of the test was told, or its failure
    Over,
}

/// What a client may have to tell.
#[derive(Debug)]
pub enum Notice {
    /// The session came to a phase
    Entered(Phase),
    /// An interval was closed
    Interval(IntervalReport),
    /// The test came to its end, with this event
    Completed(ProgressEvent),
    /// The test failed, for this reason
    Failed(String),
}

/// The telling of a test.
#[derive(Debug, Clone, Copy, PartialEq, Eq, Structural)]
pub struct Progress {
    /// How far it has come
    pub stage: Stage,
}

/// The event for a report of an interval.
pub open spec fn update_of(report: IntervalReport) -> ProgressEvent {
    ProgressEvent::IntervalUpdate {
        interval_start: report.interval_start,
        interval_end: report.interval_end,
        bytes: report.bytes,
        bits_per_second: report.bits_per_second,
        packets: report.packets,
        jitter_ms: report.jitter_ms,
        lost_packets: report.lost_packets,
        lost_percent: report.lost_percent,
        retransmits: report.retransmits,
    }
}

/// How far the telling comes with a notice, and the event that is told, if any. A test is told to
/// start when data is transferred for the first time; intervals and the end are told of a test
/// that has started, a failure of any test that is not over.
pub open spec fn told(stage: Stage, notice: Notice) -> (Stage, Option<ProgressEvent>) {
    match (stage, notice) {
        (Stage::Silent, Notice::Entered(phase)) => if phase == Phase::Transfer {
            (Stage::Started, Some(ProgressEvent::TestStarted))
        } else {
            (stage, None)
        },
        (Stage::Started, Notice::Interval(report)) => (stage, Some(update_of(report))),
        (Stage::Started, Notice::Completed(event)) => if event is TestCompleted {
            (Stage::Over, Some(event))
        } else {
            (stage, None)
        },
        (Stage::Silent, Notice::Failed(reason)) => (
            Stage::Over,
            Some(ProgressEvent::Error(reason)),
        ),
        (Stage::Started, Notice::Failed(reason)) => (
            Stage::Over,
            Some(ProgressEvent::Error(reason)),
        ),
        _ => (stage, None),
    }
}

impl Progress {
    /// The telling of a test of which nothing was told yet.
    pub fn new() -> (r: Self)
        ensures
            r == (Progress { stage: Stage::Silent }),
    {
        Progress { stage: Stage::Silent }
    }

    /// Takes a notice. Returns the event to tell, if there is one.
    pub fn tell(&mut self, notice: Notice) -> (r: Option<ProgressEvent>)
        ensures
            told(old(self).stage, notice) == (final(self).stage, r),
    {
        match (self.stage, notice) {
            (Stage::Silent, Notice::Entered(phase)) => if phase == Phase::Transfer {
                self.stage = Stage::Started;
                Some(ProgressEvent::TestStarted)
            } else {
                None
            },
            (Stage::Started, Notice::Interval(report)) => Some(report.to_event()),
            (Stage::Started, Notice::Completed(event)) => match event {
                ProgressEvent::TestCompleted { .. } => {
                    self.stage = Stage::Over;
                    Some(event)
                },
                _ => None,
            },
            (Stage::Silent, Notice::Failed(reason)) => {
                self.stage = Stage::Over;
                Some(ProgressEvent::Error(reason))
            },
            (Stage::Started, Notice::Failed(reason)) => {
                self.stage = Stage::Over;
                Some(ProgressEvent::Error(reason))
            },
            _ => None,
        }
    }
}

/// How far the telling has come after some notices, and the events that were told.
pub open spec fn told_all(notices: Seq<Notice>) -> (Stage, Seq<ProgressEvent>)
    decreases notices.len(),
{
    if notices.len() == 0 {
        (Stage::Silent, Seq::empty())
    } else {
        let (before, events) = told_all(notices.drop_last());
        let (stage, event) = told(before, notices.last());
        (
            stage,
            match event {
                Some(e) => events.push(e),
                None => events,
            },
        )
    }
}

/// True for an event that ends a test.
pub open spec fn ends(event: ProgressEvent) -> bool {
    event is TestCompleted || event is Error
}

/// Law: whatever a client has to tell, its events come in order. A test starts at most once, before
/// anything else is told of it. It completes or fails at most once, and nothing is told after
/// that. Only a failure is told of a test that has not started.
pub proof fn law_events_in_order(notices: Seq<Notice>)
    ensures
        ({
            let (stage, events) = told_all(notices);
            &&& stage == Stage::Silent <==> events.len() == 0
            &&& events.len() > 0 ==> events[0] is TestStarted || events[0] is Error
            &&& forall|i: int| 0 < i < events.len() ==> !((#[trigger] events[i]) is TestStarted)
            &&& forall|i: int|
                0 <= i < events.len() ==> (ends(#[trigger] events[i]) <==> stage == Stage::Over
                    && i == events.len() - 1)
        }),
    decreases notices.len(),
{
    if notices.len() > 0 {
        law_events_in_order(notices.drop_last());
    }
}

/// Law: a test that fails ends with an error event that tells why, unless its end was told before,
/// and whatever was told before stays told.
pub proof fn law_failure_is_told(notices: Seq<Notice>, reason: String)
    requires
        told_all(notices).0 != Stage::Over,
    ensures
        told_all(notices.push(Notice::Failed(reason))) == (
            Stage::Over,
            told_all(notices).1.push(ProgressEvent::Error(reason)),
        ),
{
    assert(notices.push(Notice::Failed(reason)).drop_last() =~= notices);
}

/// The notices of some reports.
pub open spec fn notices_of(reports: Seq<IntervalReport>) -> Seq<Notice> {
    Seq::new(reports.len(), |i: int| Notice::Interval(reports[i]))
}

/// The events of some reports.
pub open spec fn updates_of(reports: Seq<IntervalReport>) -> Seq<ProgressEvent> {
    Seq::new(reports.len(), |i: int| update_of(reports[i]))
}

proof fn lemma_reports_told(reports: Seq<IntervalReport>)
    ensures
        told_all(seq![Notice::Entered(Phase::Transfer)] + notices_of(reports)) == (
            Stage::Started,
            seq![ProgressEvent::TestStarted] + updates_of(reports),
        ),
    decreases reports.len(),
{
    let first = seq![Notice::Entered(Phase::Transfer)];
    let all = first + notices_of(reports);
    let started = seq![ProgressEvent::TestStarted];
    if reports.len() == 0 {
        assert(all =~= first);
        assert(first.drop_last().len() == 0);
        reveal_with_fuel(told_all, 2);
        assert(Seq::<ProgressEvent>::empty().push(ProgressEvent::TestStarted) =~= started);
        assert(started + updates_of(reports) =~= started);
    } else {
        let rest = reports.drop_last();
        lemma_reports_told(rest);
        assert(all.drop_last() =~= first + notices_of(rest));
        assert(all.last() == Notice::Interval(reports.last()));
        assert((started + updates_of(rest)).push(update_of(reports.last())) =~= started
            + updates_of(reports));
    }
}

/// Law: of a test that runs to its end a client tells that it starts, then every interval in its
/// order, and last how it completed.
pub proof fn law_whole_test_is_told(reports: Seq<IntervalReport>, event: ProgressEvent)
    requires
        event is TestCompleted,
    ensures
        told_all(
            seq![Notice::Entered(Phase::Transfer)] + notices_of(reports) + seq![
                Notice::Completed(event),
            ],
        ) == (
            Stage::Over,
            seq![ProgressEvent::TestStarted] + updates_of(reports) + seq![event],
        ),
{
    let before = seq![Notice::Entered(Phase::Transfer)] + notices_of(reports);
    let all = before + seq![Notice::Completed(event)];
    let events = seq![ProgressEvent::TestStarted] + updates_of(reports);
    lemma_reports_told(reports);
    assert(all.drop_last() =~= before);
    assert(all.last() == Notice::Completed(event));
    assert(events.push(event) =~= events + seq![event]);
}

/// Law: what is told of an interval is what was reported of it.
pub proof fn law_update_tells_the_report(report: IntervalReport)
    ensures
        update_of(report) matches ProgressEvent::IntervalUpdate {
            interval_start,
            interval_end,
            bytes,
            bits_per_second,
            packets,
            jitter_ms,
            lost_packets,
            lost_percent,
            retransmits,
        } && {
            &&& interval_start == report.interval_start && interval_end == report.interval_end
            &&& bytes == report.bytes && bits_per_second == report.bits_per_second
            &&& packets == report.packets && jitter_ms == report.jitter_ms
            &&& lost_packets == report.lost_packets && lost_percent == report.lost_percent
            &&& retransmits == report.retransmits
        },
{
}

} // verus!

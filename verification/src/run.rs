//! The main loop of the indexer: save the intervals, then work on jobs as they come.
//!
//! The loop is a coroutine: resumed with the answer to the effect it asked for last, it gives the
//! next effect to carry out. A first answer of any kind starts it.
use vstd::prelude::*;

use crate::casts;
use crate::interval;
use crate::job::{IndexerJob, Job, OperationJob};
use crate::retry;

verus! {

/// Where the loop stands, by the answer that it waits for.
#[derive(Debug, Clone, Copy, PartialEq, Eq)]
pub enum Run {
    /// About to start.
    Ready,
    /// Waiting for the time of the start.
    Dating,
    /// Waiting for the intervals to be saved.
    Saving,
    /// Waiting for a job.
    Polling,
    /// Waiting for the operations of this interval to be fetched.
    Fetching(interval::Model),
    /// Waiting for the time of the failure to fetch the operations of this interval.
    Timing(interval::Model),
    /// Waiting for the retry to be written.
    Rescheduling,
    /// Waiting for an operation to be processed.
    Processing,
    /// Over.
    Finished,
}

/// The answer to an effect of the loop.
#[derive(Debug)]
pub enum RunReply {
    /// The effect was carried out.
    Done,
    /// The effect failed.
    Failed,
    /// The calendar says that it is this many seconds after the epoch.
    Date(i64),
    /// The clock says that it is this many seconds after the epoch.
    Time(u64),
    /// The streams gave this job, or ended.
    Job(Option<IndexerJob>),
}

/// What the loop asks for.
#[derive(Debug)]
pub enum RunEffect {
    /// Read the calendar.
    ReadDate,
    /// Save the intervals up to this instant.
    SaveIntervals(u64),
    /// Take the next job from the streams.
    NextJob,
    /// Fetch the operations of an interval.
    FetchOperations(Job),
    /// Process an operation.
    ProcessOperation(OperationJob),
    /// Read the clock.
    ReadClock,
    /// Write this change to the interval, outside any transaction.
    Update(interval::ActiveModel),
    /// Return: without an error once the streams ended, or with the error of saving the intervals.
    Return(Result<(), ()>),
    /// Nothing: the loop is over.
    Nothing,
}

impl Run {
    /// Whether the retry, if this answer leads to one, can be computed.
    pub open spec fn accepts(self, reply: RunReply) -> bool {
        match (self, reply) {
            (Run::Timing(row), RunReply::Time(now)) => retry::in_range(now, row.retry_count),
            _ => true,
        }
    }

    /// The next state and effect. An answer that does not fit the effect counts as a failure;
    /// calendar, clock and streams are asked until they answer.
    pub open spec fn next(self, reply: RunReply) -> (Run, RunEffect) {
        match self {
            Run::Ready => (Run::Dating, RunEffect::ReadDate),
            Run::Dating => match reply {
                RunReply::Date(now) => (
                    Run::Saving,
                    RunEffect::SaveIntervals(casts::unsigned_of(now)),
                ),
                _ => (Run::Dating, RunEffect::ReadDate),
            },
            Run::Saving => match reply {
                RunReply::Done => (Run::Polling, RunEffect::NextJob),
                _ => (Run::Finished, RunEffect::Return(Err(()))),
            },
            Run::Polling => match reply {
                RunReply::Job(Some(IndexerJob::Interval(job))) => (
                    Run::Fetching(job.interval),
                    RunEffect::FetchOperations(job),
                ),
                RunReply::Job(Some(IndexerJob::Operation(job))) => (
                    Run::Processing,
                    RunEffect::ProcessOperation(job),
                ),
                RunReply::Job(None) => (Run::Finished, RunEffect::Return(Ok(()))),
                _ => (Run::Polling, RunEffect::NextJob),
            },
            Run::Fetching(row) => match reply {
                RunReply::Done => (Run::Polling, RunEffect::NextJob),
                _ => (Run::Timing(row), RunEffect::ReadClock),
            },
            Run::Timing(row) => match reply {
                RunReply::Time(now) => (
                    Run::Rescheduling,
                    RunEffect::Update(row.rescheduled(now)),
                ),
                _ => (Run::Timing(row), RunEffect::ReadClock),
            },
            Run::Rescheduling => (Run::Polling, RunEffect::NextJob),
            Run::Processing => (Run::Polling, RunEffect::NextJob),
            Run::Finished => (Run::Finished, RunEffect::Nothing),
        }
    }

    /// Goes on after the answer to the effect asked for last.
    pub fn resume(self, reply: RunReply) -> (r: (Run, RunEffect))
        requires
            self.accepts(reply),
        ensures
            r == self.next(reply),
    {
        match self {
            Run::Ready => (Run::Dating, RunEffect::ReadDate),
            Run::Dating => match reply {
                RunReply::Date(now) => {
                    let now: u64 = casts::to_unsigned(now);
                    (Run::Saving, RunEffect::SaveIntervals(now))
                },
                _ => (Run::Dating, RunEffect::ReadDate),
            },
            Run::Saving => match reply {
                RunReply::Done => (Run::Polling, RunEffect::NextJob),
                _ => (Run::Finished, RunEffect::Return(Err(()))),
            },
            Run::Polling => match reply {
                RunReply::Job(Some(IndexerJob::Interval(job))) => (
                    Run::Fetching(job.interval),
                    RunEffect::FetchOperations(job),
                ),
                RunReply::Job(Some(IndexerJob::Operation(job))) => (
                    Run::Processing,
                    RunEffect::ProcessOperation(job),
                ),
                RunReply::Job(None) => (Run::Finished, RunEffect::Return(Ok(()))),
                _ => (Run::Polling, RunEffect::NextJob),
            },
            Run::Fetching(row) => match reply {
                RunReply::Done => (Run::Polling, RunEffect::NextJob),
                _ => (Run::Timing(row), RunEffect::ReadClock),
            },
            Run::Timing(row) => match reply {
                RunReply::Time(now) => (Run::Rescheduling, RunEffect::Update(row.reschedule(now))),
                _ => (Run::Timing(row), RunEffect::ReadClock),
            },
            Run::Rescheduling => (Run::Polling, RunEffect::NextJob),
            Run::Processing => (Run::Polling, RunEffect::NextJob),
            Run::Finished => (Run::Finished, RunEffect::Nothing),
        }
    }
}

/// The loop after it was resumed with these answers, one after the other.
pub open spec fn state_after(replies: Seq<RunReply>) -> Run
    decreases replies.len(),
{
    if replies.len() == 0 {
        Run::Ready
    } else {
        state_after(replies.drop_last()).next(replies.last()).0
    }
}

/// The effect that the loop asks for when it gets answer number `i`; answer number `i + 1` is the
/// one to this effect.
pub open spec fn effect_at(replies: Seq<RunReply>, i: int) -> RunEffect {
    state_after(replies.take(i)).next(replies[i]).1
}

/// One step back in a run of the loop.
proof fn lemma_steps_back(replies: Seq<RunReply>, i: int)
    requires
        0 <= i <= replies.len(),
    ensures
        i == 0 ==> state_after(replies.take(i)) == Run::Ready,
        i > 0 ==> state_after(replies.take(i)) == state_after(replies.take(i - 1)).next(
            replies[i - 1],
        ).0,
{
    if i > 0 {
        assert(replies.take(i).drop_last() =~= replies.take(i - 1));
    }
}

/// Whether the intervals were saved by answer number `i`.
pub open spec fn saved_at(replies: Seq<RunReply>, i: int) -> bool {
    effect_at(replies, i - 1) is SaveIntervals && replies[i] is Done
}

proof fn lemma_saved_before_work(replies: Seq<RunReply>, n: int)
    requires
        0 <= n <= replies.len(),
    ensures
        match state_after(replies.take(n)) {
            Run::Ready => n == 0,
            Run::Dating => true,
            Run::Saving => n > 0 && effect_at(replies, n - 1) is SaveIntervals,
            Run::Finished => true,
            _ => exists|i: int| 1 <= i < n && #[trigger] saved_at(replies, i),
        },
    decreases n,
{
    if n > 0 {
        lemma_saved_before_work(replies, n - 1);
        lemma_steps_back(replies, n);
        let before = state_after(replies.take(n - 1));
        if before is Saving && replies[n - 1] is Done {
            assert(saved_at(replies, n - 1));
        }
    }
}

/// No job is taken before the intervals were saved.
pub proof fn law_intervals_are_saved_before_any_job(replies: Seq<RunReply>, n: int)
    requires
        0 <= n < replies.len(),
        effect_at(replies, n) is NextJob || effect_at(replies, n) is FetchOperations || effect_at(
            replies,
            n,
        ) is ProcessOperation || effect_at(replies, n) is Update,
    ensures
        exists|i: int| 1 <= i <= n && #[trigger] saved_at(replies, i),
{
    lemma_saved_before_work(replies, n);
    if state_after(replies.take(n)) is Saving {
        assert(saved_at(replies, n));
    }
}

/// An interval is rescheduled only where fetching its operations failed: the change is the one for
/// the interval of the job fetched last.
pub proof fn law_only_failed_intervals_are_rescheduled(
    replies: Seq<RunReply>,
    n: int,
    change: interval::ActiveModel,
)
    requires
        0 <= n < replies.len(),
        effect_at(replies, n) == RunEffect::Update(change),
    ensures
        replies[n] is Time,
        exists|i: int, job: Job|
            0 <= i < n - 1 && #[trigger] effect_at(replies, i) == RunEffect::FetchOperations(job)
                && !(replies[i + 1] is Done) && change == #[trigger] job.interval.rescheduled(
                replies[n]->Time_0,
            ),
{
    lemma_timing(replies, n);
    let row = state_after(replies.take(n))->Timing_0;
    let i = choose|i: int|
        0 <= i < n - 1 && #[trigger] effect_at(replies, i) == RunEffect::FetchOperations(
            Job { interval: row },
        ) && !(replies[i + 1] is Done);
    let job = Job { interval: row };
    assert(effect_at(replies, i) == RunEffect::FetchOperations(job));
    assert(change == job.interval.rescheduled(replies[n]->Time_0));
}

proof fn lemma_timing(replies: Seq<RunReply>, n: int)
    requires
        0 <= n <= replies.len(),
    ensures
        match state_after(replies.take(n)) {
            Run::Fetching(row) => n > 0 && effect_at(replies, n - 1)
                == RunEffect::FetchOperations(Job { interval: row }),
            Run::Timing(row) => exists|i: int|
                0 <= i < n - 1 && #[trigger] effect_at(replies, i) == RunEffect::FetchOperations(
                    Job { interval: row },
                ) && !(replies[i + 1] is Done),
            _ => true,
        },
    decreases n,
{
    if n > 0 {
        lemma_timing(replies, n - 1);
        lemma_steps_back(replies, n);
    }
}

/// No failed job ends the loop: it returns only where saving the intervals failed, with an error,
/// or where the streams ended, without one.
pub proof fn law_failed_jobs_do_not_end_the_loop(
    replies: Seq<RunReply>,
    n: int,
    result: Result<(), ()>,
)
    requires
        0 <= n < replies.len(),
        effect_at(replies, n) == RunEffect::Return(result),
    ensures
        n > 0,
        match result {
            Ok(()) => effect_at(replies, n - 1) is NextJob && replies[n] == RunReply::Job(None),
            Err(()) => effect_at(replies, n - 1) is SaveIntervals && !(replies[n] is Done),
        },
{
    lemma_steps_back(replies, n);
}

/// What the loop does, answer by answer. It saves the intervals up to the date that the calendar
/// gave; then every job that the streams give is worked on, an interval by fetching its operations
/// and an operation by processing it, whatever stands in its row, until the streams end.
pub proof fn law_each_answer_leads_on(replies: Seq<RunReply>, i: int)
    requires
        0 <= i < replies.len(),
    ensures
        ({
            let effect = effect_at(replies, i);
            if i == 0 {
                effect is ReadDate
            } else {
                match effect_at(replies, i - 1) {
                    RunEffect::ReadDate => match replies[i] {
                        RunReply::Date(now) => effect == RunEffect::SaveIntervals(
                            casts::unsigned_of(now),
                        ),
                        _ => effect is ReadDate,
                    },
                    RunEffect::SaveIntervals(_) => if replies[i] is Done {
                        effect is NextJob
                    } else {
                        effect == RunEffect::Return(Err(()))
                    },
                    RunEffect::NextJob => match replies[i] {
                        RunReply::Job(Some(IndexerJob::Interval(job))) => effect
                            == RunEffect::FetchOperations(job),
                        RunReply::Job(Some(IndexerJob::Operation(job))) => effect
                            == RunEffect::ProcessOperation(job),
                        RunReply::Job(None) => effect == RunEffect::Return(Ok(())),
                        _ => effect is NextJob,
                    },
                    RunEffect::FetchOperations(_) => if replies[i] is Done {
                        effect is NextJob
                    } else {
                        effect is ReadClock
                    },
                    RunEffect::ProcessOperation(_) => effect is NextJob,
                    RunEffect::ReadClock => if replies[i] is Time {
                        effect is Update
                    } else {
                        effect is ReadClock
                    },
                    RunEffect::Update(_) => effect is NextJob,
                    RunEffect::Return(_) => effect is Nothing,
                    RunEffect::Nothing => effect is Nothing,
                }
            }
        }),
{
    lemma_steps_back(replies, i);
    if i > 0 {
        lemma_steps_back(replies, i - 1);
    }
}

/// Where the loop has an interval in hand, it is the one that it asked to fetch last, and since
/// then it has only read the clock.
proof fn lemma_interval_in_hand(replies: Seq<RunReply>, j: int, job: Job, n: int)
    requires
        0 <= j < n <= replies.len(),
        effect_at(replies, j) == RunEffect::FetchOperations(job),
        j + 1 < n ==> !(replies[j + 1] is Done),
        forall|m: int| j + 1 < m < n ==> !(#[trigger] replies[m] is Time),
    ensures
        n == j + 1 ==> state_after(replies.take(n)) == Run::Fetching(job.interval),
        n > j + 1 ==> state_after(replies.take(n)) == Run::Timing(job.interval),
        forall|m: int| j < m < n ==> #[trigger] effect_at(replies, m) is ReadClock,
    decreases n,
{
    lemma_steps_back(replies, n);
    if n > j + 1 {
        lemma_interval_in_hand(replies, j, job, n - 1);
    }
}

/// Failed intervals are not dropped: where fetching the operations of an interval fails, the loop
/// reads the clock until that gives the time, asks to reschedule that very interval from there, and
/// takes no job in between.
pub proof fn law_failed_interval_is_rescheduled(replies: Seq<RunReply>, j: int, job: Job, n: int)
    requires
        0 <= j < n - 1 < replies.len() - 1,
        effect_at(replies, j) == RunEffect::FetchOperations(job),
        !(replies[j + 1] is Done),
        replies[n] is Time,
        forall|m: int| j + 1 < m < n ==> !(#[trigger] replies[m] is Time),
    ensures
        forall|m: int| j < m < n ==> #[trigger] effect_at(replies, m) is ReadClock,
        effect_at(replies, n) == RunEffect::Update(
            job.interval.rescheduled(replies[n]->Time_0),
        ),
        n + 1 < replies.len() ==> effect_at(replies, n + 1) is NextJob,
{
    lemma_interval_in_hand(replies, j, job, n);
    if n + 1 < replies.len() {
        law_each_answer_leads_on(replies, n + 1);
    }
}

/// The loop takes every answer, but for a time from which the retry of the interval in hand
/// overflows.
pub proof fn law_every_answer_is_accepted(run: Run, reply: RunReply)
    ensures
        run.accepts(reply) <==> (run is Timing && reply is Time ==> retry::in_range(
            reply->Time_0,
            run->Timing_0.retry_count,
        )),
{
}

} // verus!

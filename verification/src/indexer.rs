//! The indexer: its settings, its watermark and the work it starts.
use vstd::prelude::*;

use crate::casts;
use crate::fetch::{FetchOperations, FetchState};
use crate::interval;
use crate::job::{Job, OperationJob, OrderDirection};
use crate::plan;
use crate::process::{ProcessOperation, ProcessState};
use crate::run::Run;
use crate::save::{SaveIntervals, SaveState};
use crate::stream::{ClaimStep, IntervalStream, OperationStream};
use crate::watermark;

verus! {

/// The settings of the indexer.
#[derive(Debug, Clone, Copy, PartialEq, Eq)]
pub struct IndexerSettings {
    /// The instant from which operations are indexed.
    pub start_timestamp: u64,
    /// The width of an interval, in seconds.
    pub catchup_interval: u64,
}

/// The indexer.
#[derive(Debug)]
pub struct Indexer {
    pub settings: IndexerSettings,
    /// The instant up to which intervals have been saved. It moves before a batch is committed, so
    /// after a failed commit it lies ahead of what was saved, by that one batch; the one in the
    /// database does not.
    pub watermark: u64,
}

impl Indexer {
    /// The watermark never lies before the instant from which operations are indexed.
    pub open spec fn wf(self) -> bool {
        self.watermark >= self.settings.start_timestamp
    }

    /// Where an indexer starts: at the stored watermark or at the instant from which operations are
    /// indexed, whichever is later.
    pub open spec fn initial_watermark(
        settings: IndexerSettings,
        stored: Option<watermark::Model>,
    ) -> u64 {
        match stored {
            Some(row) if casts::unsigned_of(row.timestamp) > settings.start_timestamp =>
                casts::unsigned_of(row.timestamp),
            _ => settings.start_timestamp,
        }
    }

    /// Whether the intervals up to `now` can be saved: see [`plan::fits`].
    pub open spec fn can_save_until(self, now: u64) -> bool {
        plan::fits(self.watermark, now, self.settings.catchup_interval)
    }

    /// The intervals that cover the time from the watermark to `now`.
    pub open spec fn unsaved(self, now: u64) -> Seq<interval::ActiveModel> {
        plan::planned(self.watermark, now, self.settings.catchup_interval)
    }

    /// Whether an interval starts beyond the watermark.
    pub open spec fn is_inconsistent(self, row: interval::Model) -> bool {
        row.start > casts::signed_of(self.watermark)
    }

    /// An indexer that goes on from the stored watermark, but never before the instant from which
    /// operations are indexed.
    pub fn new(settings: IndexerSettings, stored: Option<watermark::Model>) -> (indexer: Indexer)
        ensures
            indexer.wf(),
            indexer.settings == settings,
            indexer.watermark == Indexer::initial_watermark(settings, stored),
    {
        let watermark: u64 = match stored {
            Some(row) => {
                let timestamp: u64 = casts::to_unsigned(row.timestamp);
                if timestamp > settings.start_timestamp {
                    timestamp
                } else {
                    settings.start_timestamp
                }
            },
            None => settings.start_timestamp,
        };
        Indexer { settings, watermark }
    }

    /// The instant up to which intervals have been saved.
    pub fn watermark(&self) -> (watermark: u64)
        ensures
            watermark == self.watermark,
    {
        self.watermark
    }

    /// The largest start that an interval may have: rows beyond it are inconsistent.
    pub fn inconsistency_bound(&self) -> (bound: i64)
        ensures
            forall|row: interval::Model| #[trigger]
                self.is_inconsistent(row) <==> row.start > bound,
    {
        casts::to_signed(self.watermark)
    }

    /// The ids of the intervals that start beyond the watermark, in the order of the rows.
    pub fn find_inconsistent_intervals(&self, rows: &Vec<interval::Model>) -> (ids: Vec<i32>)
        ensures
            ids@ == rows@.filter(|row: interval::Model| self.is_inconsistent(row)).map_values(
                |row: interval::Model| row.id,
            ),
    {
        let bound: i64 = casts::to_signed(self.watermark);
        let ghost keep = |row: interval::Model| self.is_inconsistent(row);
        let ghost id_of = |row: interval::Model| row.id;
        let mut ids: Vec<i32> = Vec::new();
        let mut i: usize = 0;
        assert(ids@ =~= rows@.take(0).filter(keep).map_values(id_of));
        while i < rows.len()
            invariant
                i <= rows@.len(),
                bound == casts::signed_of(self.watermark),
                keep == (|row: interval::Model| self.is_inconsistent(row)),
                id_of == (|row: interval::Model| row.id),
                ids@ == rows@.take(i as int).filter(keep).map_values(id_of),
            decreases rows@.len() - i,
        {
            proof {
                let upto = rows@.take(i + 1);
                assert(upto.drop_last() =~= rows@.take(i as int));
                assert(upto.last() == rows@[i as int]);
                reveal(Seq::filter);
            }
            if rows[i].start > bound {
                ids.push(rows[i].id);
            }
            i = i + 1;
            assert(ids@ =~= rows@.take(i as int).filter(keep).map_values(id_of));
        }
        assert(rows@.take(i as int) =~= rows@);
        ids
    }

    /// Tells whether the intervals up to `now` can be saved.
    pub fn can_save(&self, now: u64) -> (r: bool)
        ensures
            r == self.can_save_until(now),
    {
        plan::can_plan(self.watermark, now, self.settings.catchup_interval)
    }

    /// Starts a run that saves the intervals between the watermark and `now`.
    pub fn save_intervals(&self, now: u64) -> (run: SaveIntervals)
        requires
            self.can_save_until(now),
        ensures
            run@ == SaveState::start(self.unsaved(now)),
    {
        let intervals = plan::plan(self.watermark, now, self.settings.catchup_interval);
        SaveIntervals::new(intervals)
    }

    /// Starts a run that fetches the operations of the interval of a job.
    pub fn fetch_operations(&self, job: &Job) -> (run: FetchOperations)
        ensures
            run@ == FetchState::start(job.interval),
    {
        FetchOperations::new(job.interval)
    }

    /// The stream of pending intervals, taken in the given order.
    pub fn operations_stream(&self, direction: OrderDirection) -> (stream: IntervalStream)
        ensures
            stream == (IntervalStream { direction, step: ClaimStep::Ready }),
    {
        IntervalStream { direction, step: ClaimStep::Ready }
    }

    /// The stream of pending operations.
    pub fn operation_stages_stream(&self) -> (stream: OperationStream)
        ensures
            stream == (OperationStream { step: ClaimStep::Ready }),
    {
        OperationStream { step: ClaimStep::Ready }
    }

    /// Starts a run that asks for the stages of the operation of a job.
    pub fn process_operation_with_retries(&self, job: &OperationJob) -> (run: ProcessOperation)
        ensures
            run@ == ProcessState::Ready(job.operation@),
    {
        ProcessOperation::Ready(job.operation.clone())
    }

    /// Starts the main loop.
    pub fn start(&self) -> (run: Run)
        ensures
            run == Run::Ready,
    {
        Run::Ready
    }

    /// The streams that the main loop takes its jobs from, the one to be preferred first:
    /// operations before intervals, and new intervals before old ones.
    pub fn job_streams(&self) -> (streams: (OperationStream, IntervalStream, IntervalStream))
        ensures
            streams.0 == (OperationStream { step: ClaimStep::Ready }),
            streams.1 == (IntervalStream {
                direction: OrderDirection::Descending,
                step: ClaimStep::Ready,
            }),
            streams.2 == (IntervalStream {
                direction: OrderDirection::Ascending,
                step: ClaimStep::Ready,
            }),
    {
        let high_priority = self.operations_stream(OrderDirection::Descending);
        let low_priority = self.operations_stream(OrderDirection::Ascending);
        let operations = self.operation_stages_stream();
        (operations, high_priority, low_priority)
    }
}

/// An indexer that starts anew goes on where the stored watermark was moved to, whatever row the
/// change was written over.
pub proof fn law_restart_goes_on_at_the_stored_watermark(
    settings: IndexerSettings,
    existing: Option<watermark::Model>,
    before: watermark::Model,
    now: u64,
)
    requires
        now >= settings.start_timestamp,
    ensures
        Indexer::initial_watermark(
            settings,
            Some(watermark::moved_to(existing, now).applied(before)),
        ) == now,
{
    casts::law_stored_instant_reads_back(now);
}

/// An interval that was saved is not inconsistent once the watermark has reached its end.
pub proof fn law_saved_intervals_are_consistent(
    before: Indexer,
    after: Indexer,
    now: u64,
    k: int,
    row: interval::Model,
)
    requires
        before.can_save_until(now),
        0 <= k < before.unsaved(now).len(),
        before.unsaved(now)[k].end_instant() <= after.watermark <= i64::MAX,
    ensures
        !after.is_inconsistent(before.unsaved(now)[k].applied(row)),
{
    let width = before.settings.catchup_interval;
    plan::lemma_row_end(before.watermark, now, width, k);
    plan::law_intervals_tile_the_time(before.watermark, now, width, k);
}

/// An indexer starts at one of two instants, the one from which operations are indexed and the
/// stored watermark, and at neither of them too early.
pub proof fn law_indexer_starts_at_the_later_instant(
    settings: IndexerSettings,
    stored: Option<watermark::Model>,
)
    ensures
        ({
            let initial = Indexer::initial_watermark(settings, stored);
            &&& initial >= settings.start_timestamp
            &&& stored matches Some(row) ==> initial >= casts::unsigned_of(row.timestamp)
            &&& initial == settings.start_timestamp || (stored is Some && initial
                == casts::unsigned_of(stored->0.timestamp))
        }),
{
}

/// Saving cuts the time between the watermark and `now` by the width in the settings, and is
/// possible exactly if that time can be cut.
pub proof fn law_saving_cuts_the_time_since_the_watermark(indexer: Indexer, now: u64, k: int)
    requires
        indexer.can_save_until(now),
        0 <= k < indexer.unsaved(now).len(),
    ensures
        ({
            let rows = indexer.unsaved(now);
            let start = casts::unsigned_of(rows[k].start->Write_0);
            let end = casts::unsigned_of(rows[k].end->Write_0);
            &&& rows[k].start is Write && rows[k].end is Write
            &&& k == 0 ==> start == indexer.watermark
            &&& k > 0 ==> start == casts::unsigned_of(rows[k - 1].end->Write_0)
            &&& k + 1 < rows.len() ==> end == start + indexer.settings.catchup_interval
            &&& k + 1 == rows.len() ==> end == now && start < now <= start
                + indexer.settings.catchup_interval
        }),
{
    plan::law_planned_rows_cut_the_time(
        indexer.watermark,
        now,
        indexer.settings.catchup_interval,
        k,
    );
}

/// Intervals are left to save exactly if the watermark lies before `now`, and they can be saved
/// exactly if the width is not zero and nothing overflows.
pub proof fn law_saving_is_possible_without_overflow(indexer: Indexer, now: u64)
    ensures
        ({
            let from = indexer.watermark;
            let width = indexer.settings.catchup_interval;
            indexer.can_save_until(now) <==> width > 0 && (from >= now || from + (now - from - 1) / (
            width as int) * width + width <= u64::MAX)
        }),
        indexer.can_save_until(now) ==> (indexer.unsaved(now).len() > 0 <==> indexer.watermark < now),
{
    let width = indexer.settings.catchup_interval;
    plan::law_plan_fits_exactly_without_overflow(indexer.watermark, now, width);
    if indexer.can_save_until(now) {
        plan::law_planned_rows_cut_the_time(indexer.watermark, now, width, 0);
    }
}

/// Whether an interval is inconsistent rests on its start alone: it is exactly if that lies beyond
/// the watermark.
pub proof fn law_inconsistent_intervals_start_beyond_the_watermark(
    indexer: Indexer,
    row: interval::Model,
)
    ensures
        indexer.is_inconsistent(row) <==> row.start > casts::signed_of(indexer.watermark),
        indexer.watermark <= i64::MAX ==> (indexer.is_inconsistent(row) <==> row.start
            > indexer.watermark),
{
}

} // verus!

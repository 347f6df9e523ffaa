//! Saving the intervals between the watermark and now, batch by batch.
//!
//! The run is a coroutine: resumed with the answer to the effect it asked for last, it gives the
//! next effect to carry out. A first answer of any kind starts it.
use vstd::prelude::*;

use crate::active_value::ActiveValue;
use crate::casts;
use crate::indexer::Indexer;
use crate::interval;
use crate::plan;
use crate::reply::Reply;
use crate::watermark;

verus! {

/// How many intervals are saved in one transaction at most.
pub const BATCH_SIZE: usize = 1000;

/// Where the run stands, by the answer that it waits for.
#[derive(Debug, Clone, Copy, PartialEq, Eq)]
pub enum SaveStep {
    /// About to save the next batch.
    Ready,
    /// Waiting for a transaction to begin.
    Beginning,
    /// Waiting for the batch to be inserted.
    Inserting,
    /// Waiting for the stored watermark.
    Finding,
    /// Waiting for the watermark to be stored.
    Storing,
    /// Waiting for the batch to be committed.
    Committing,
    /// Waiting for the transaction of a failed batch to be rolled back.
    RollingBack,
    /// Over.
    Finished,
}

/// The failure that ended a run.
#[derive(Debug, Clone, Copy, PartialEq, Eq)]
pub enum SaveError {
    Begin,
    Insert,
    Rollback,
    FindWatermark,
    SaveWatermark,
    Commit,
}

/// What the run asks for.
#[derive(Debug)]
pub enum SaveEffect {
    /// Begin a transaction.
    Begin,
    /// Insert these intervals.
    Insert(Vec<interval::ActiveModel>),
    /// Find the stored watermark and answer with its row, if any.
    FindWatermark,
    /// Store the watermark.
    SaveWatermark(watermark::ActiveModel),
    /// Commit the transaction.
    Commit,
    /// Roll the transaction back.
    Rollback,
    /// Return the number of intervals, or the error of the effect that failed.
    Return(Result<usize, SaveError>),
    /// Nothing: the run is over.
    Nothing,
}

/// A run over intervals, of which the first `saved` are committed.
#[derive(Debug)]
pub struct SaveIntervals {
    intervals: Vec<interval::ActiveModel>,
    saved: usize,
    step: SaveStep,
}

/// What a run holds.
pub ghost struct SaveState {
    pub intervals: Seq<interval::ActiveModel>,
    pub saved: int,
    pub step: SaveStep,
}

/// What an effect of a run says.
pub ghost enum SaveEffectView {
    Begin,
    Insert(Seq<interval::ActiveModel>),
    FindWatermark,
    SaveWatermark(watermark::ActiveModel),
    Commit,
    Rollback,
    Return(Result<int, SaveError>),
    Nothing,
}

impl View for SaveIntervals {
    type V = SaveState;

    closed spec fn view(&self) -> SaveState {
        SaveState { intervals: self.intervals@, saved: self.saved as int, step: self.step }
    }
}

impl View for SaveEffect {
    type V = SaveEffectView;

    open spec fn view(&self) -> SaveEffectView {
        match self {
            SaveEffect::Begin => SaveEffectView::Begin,
            SaveEffect::Insert(rows) => SaveEffectView::Insert(rows@),
            SaveEffect::FindWatermark => SaveEffectView::FindWatermark,
            SaveEffect::SaveWatermark(row) => SaveEffectView::SaveWatermark(*row),
            SaveEffect::Commit => SaveEffectView::Commit,
            SaveEffect::Rollback => SaveEffectView::Rollback,
            SaveEffect::Return(Ok(n)) => SaveEffectView::Return(Ok(*n as int)),
            SaveEffect::Return(Err(e)) => SaveEffectView::Return(Err(*e)),
            SaveEffect::Nothing => SaveEffectView::Nothing,
        }
    }
}

impl SaveState {
    /// The run at its start.
    pub open spec fn start(intervals: Seq<interval::ActiveModel>) -> SaveState {
        SaveState { intervals, saved: 0, step: SaveStep::Ready }
    }

    /// Where the batch ends that starts after the saved intervals.
    pub open spec fn batch_end(self) -> int {
        plan::earlier(self.saved + BATCH_SIZE, self.intervals.len() as int)
    }

    /// The batch that starts after the saved intervals.
    pub open spec fn batch(self) -> Seq<interval::ActiveModel> {
        self.intervals.subrange(self.saved, self.batch_end())
    }

    /// The end of the last interval of the batch: the instant up to which intervals are saved once
    /// the batch is.
    pub open spec fn batch_watermark(self) -> u64 {
        self.batch().last().end_instant()
    }

    /// The run at another step.
    pub open spec fn at(self, step: SaveStep) -> SaveState {
        SaveState { step, ..self }
    }

    /// The run goes on with the next batch, or returns once all intervals are saved.
    pub open spec fn next_batch(self) -> (SaveState, SaveEffectView) {
        if self.saved < self.intervals.len() {
            (self.at(SaveStep::Beginning), SaveEffectView::Begin)
        } else {
            (
                self.at(SaveStep::Finished),
                SaveEffectView::Return(Ok(self.intervals.len() as int)),
            )
        }
    }

    /// The run ends with an error.
    pub open spec fn fail(self, error: SaveError) -> (SaveState, SaveEffectView) {
        (self.at(SaveStep::Finished), SaveEffectView::Return(Err(error)))
    }

    /// The next state and effect. An answer that does not fit the effect counts as a failure.
    pub open spec fn next(self, reply: Reply<watermark::Model>) -> (SaveState, SaveEffectView) {
        match self.step {
            SaveStep::Ready => self.next_batch(),
            SaveStep::Beginning => match reply {
                Reply::Done => (
                    self.at(SaveStep::Inserting),
                    SaveEffectView::Insert(self.batch()),
                ),
                _ => self.fail(SaveError::Begin),
            },
            SaveStep::Inserting => match reply {
                Reply::Done => (self.at(SaveStep::Finding), SaveEffectView::FindWatermark),
                _ => (self.at(SaveStep::RollingBack), SaveEffectView::Rollback),
            },
            SaveStep::Finding => match reply {
                Reply::Row(existing) => (
                    self.at(SaveStep::Storing),
                    SaveEffectView::SaveWatermark(
                        watermark::moved_to(existing, self.batch_watermark()),
                    ),
                ),
                _ => self.fail(SaveError::FindWatermark),
            },
            SaveStep::Storing => match reply {
                Reply::Done => (self.at(SaveStep::Committing), SaveEffectView::Commit),
                _ => self.fail(SaveError::SaveWatermark),
            },
            SaveStep::Committing => match reply {
                Reply::Done => (SaveState { saved: self.batch_end(), ..self }).next_batch(),
                _ => self.fail(SaveError::Commit),
            },
            SaveStep::RollingBack => match reply {
                Reply::Done => self.fail(SaveError::Insert),
                _ => self.fail(SaveError::Rollback),
            },
            SaveStep::Finished => (self, SaveEffectView::Nothing),
        }
    }

    /// The watermark in memory after the answer: it moves to the end of the batch as soon as that
    /// was stored, before the commit.
    pub open spec fn next_watermark(self, reply: Reply<watermark::Model>, watermark: u64) -> u64 {
        if self.step is Storing && reply is Done {
            self.batch_watermark()
        } else {
            watermark
        }
    }

    /// No more intervals are saved than there are, and a batch in hand is never empty.
    pub open spec fn wf(self) -> bool {
        &&& 0 <= self.saved <= self.intervals.len()
        &&& (match self.step {
            SaveStep::Ready => true,
            SaveStep::Finished => true,
            _ => self.saved < self.intervals.len(),
        })
    }
}

impl SaveIntervals {
    #[verifier::type_invariant]
    spec fn inv(self) -> bool {
        self@.wf()
    }

    /// A run over these intervals, none of them saved yet.
    pub fn new(intervals: Vec<interval::ActiveModel>) -> (run: SaveIntervals)
        ensures
            run@ == SaveState::start(intervals@),
    {
        SaveIntervals { intervals, saved: 0, step: SaveStep::Ready }
    }

    /// How many intervals the run is over.
    pub fn total(&self) -> (n: usize)
        ensures
            n == self@.intervals.len(),
    {
        self.intervals.len()
    }

    fn at(self, step: SaveStep) -> (run: SaveIntervals)
        requires
            self@.at(step).wf(),
        ensures
            run@ == self@.at(step),
    {
        SaveIntervals { intervals: self.intervals, saved: self.saved, step }
    }

    fn fail(self, error: SaveError) -> (r: (SaveIntervals, SaveEffect))
        ensures
            (r.0@, r.1@) == self@.fail(error),
    {
        proof {
            use_type_invariant(&self);
        }
        (self.at(SaveStep::Finished), SaveEffect::Return(Err(error)))
    }

    fn next_batch(self) -> (r: (SaveIntervals, SaveEffect))
        ensures
            (r.0@, r.1@) == self@.next_batch(),
    {
        proof {
            use_type_invariant(&self);
        }
        let total: usize = self.intervals.len();
        if self.saved < total {
            (self.at(SaveStep::Beginning), SaveEffect::Begin)
        } else {
            (self.at(SaveStep::Finished), SaveEffect::Return(Ok(total)))
        }
    }

    fn batch_end(&self) -> (end: usize)
        ensures
            end == self@.batch_end(),
            self.saved <= end <= self.intervals@.len(),
    {
        proof {
            use_type_invariant(self);
        }
        let total: usize = self.intervals.len();
        if total - self.saved <= BATCH_SIZE {
            total
        } else {
            self.saved + BATCH_SIZE
        }
    }

    fn batch(&self) -> (rows: Vec<interval::ActiveModel>)
        ensures
            rows@ == self@.batch(),
    {
        let end: usize = self.batch_end();
        let mut rows: Vec<interval::ActiveModel> = Vec::new();
        let mut i: usize = self.saved;
        while i < end
            invariant
                self.saved <= i <= end <= self.intervals@.len(),
                rows@ == self.intervals@.subrange(self.saved as int, i as int),
            decreases end - i,
        {
            rows.push(self.intervals[i]);
            i = i + 1;
            assert(rows@ =~= self.intervals@.subrange(self.saved as int, i as int));
        }
        rows
    }

    fn batch_watermark(&self) -> (watermark: u64)
        requires
            self.saved < self.intervals@.len(),
        ensures
            watermark == self@.batch_watermark(),
    {
        let end: usize = self.batch_end();
        assert(self@.batch().last() == self.intervals@[end - 1]);
        self.intervals[end - 1].written_end()
    }

    /// Goes on after the answer to the effect asked for last. The watermark of the indexer moves
    /// once the stored one did.
    pub fn resume(self, indexer: &mut Indexer, reply: Reply<watermark::Model>) -> (r: (
        SaveIntervals,
        SaveEffect,
    ))
        ensures
            (r.0@, r.1@) == self@.next(reply),
            final(indexer).watermark == self@.next_watermark(reply, old(indexer).watermark),
            final(indexer).settings == old(indexer).settings,
    {
        proof {
            use_type_invariant(&self);
        }
        match self.step {
            SaveStep::Ready => self.next_batch(),
            SaveStep::Beginning => match reply {
                Reply::Done => {
                    let rows = self.batch();
                    (self.at(SaveStep::Inserting), SaveEffect::Insert(rows))
                },
                _ => self.fail(SaveError::Begin),
            },
            SaveStep::Inserting => match reply {
                Reply::Done => (self.at(SaveStep::Finding), SaveEffect::FindWatermark),
                _ => (self.at(SaveStep::RollingBack), SaveEffect::Rollback),
            },
            SaveStep::Finding => match reply {
                Reply::Row(existing) => {
                    let change = watermark::move_to(existing, self.batch_watermark());
                    (self.at(SaveStep::Storing), SaveEffect::SaveWatermark(change))
                },
                _ => self.fail(SaveError::FindWatermark),
            },
            SaveStep::Storing => match reply {
                Reply::Done => {
                    indexer.watermark = self.batch_watermark();
                    (self.at(SaveStep::Committing), SaveEffect::Commit)
                },
                _ => self.fail(SaveError::SaveWatermark),
            },
            SaveStep::Committing => match reply {
                Reply::Done => {
                    let saved: usize = self.batch_end();
                    let run = SaveIntervals {
                        intervals: self.intervals,
                        saved,
                        step: SaveStep::Ready,
                    };
                    run.next_batch()
                },
                _ => self.fail(SaveError::Commit),
            },
            SaveStep::RollingBack => match reply {
                Reply::Done => self.fail(SaveError::Insert),
                _ => self.fail(SaveError::Rollback),
            },
            SaveStep::Finished => (self, SaveEffect::Nothing),
        }
    }
}

/// The run after it was resumed with these answers, one after the other.
pub open spec fn state_after(start: SaveState, replies: Seq<Reply<watermark::Model>>) -> SaveState
    decreases replies.len(),
{
    if replies.len() == 0 {
        start
    } else {
        state_after(start, replies.drop_last()).next(replies.last()).0
    }
}

/// The watermark in memory after these answers.
pub open spec fn watermark_after(
    start: SaveState,
    watermark: u64,
    replies: Seq<Reply<watermark::Model>>,
) -> u64
    decreases replies.len(),
{
    if replies.len() == 0 {
        watermark
    } else {
        let before = replies.drop_last();
        state_after(start, before).next_watermark(
            replies.last(),
            watermark_after(start, watermark, before),
        )
    }
}

/// The effect that the run asks for when it gets answer number `i`; answer number `i + 1` is the
/// one to this effect.
pub open spec fn effect_at(
    start: SaveState,
    replies: Seq<Reply<watermark::Model>>,
    i: int,
) -> SaveEffectView {
    state_after(start, replies.take(i)).next(replies[i]).1
}

/// The rows that the run asked to insert, in the order in which it did.
pub open spec fn inserted(start: SaveState, replies: Seq<Reply<watermark::Model>>) -> Seq<
    interval::ActiveModel,
>
    decreases replies.len(),
{
    if replies.len() == 0 {
        Seq::empty()
    } else {
        let before = inserted(start, replies.drop_last());
        match effect_at(start, replies, replies.len() - 1) {
            SaveEffectView::Insert(rows) => before + rows,
            _ => before,
        }
    }
}

/// The rows that are committed: those asked for up to the last commit that succeeded.
pub open spec fn committed(start: SaveState, replies: Seq<Reply<watermark::Model>>) -> Seq<
    interval::ActiveModel,
>
    decreases replies.len(),
{
    if replies.len() <= 1 {
        Seq::empty()
    } else {
        let before = replies.drop_last();
        if effect_at(start, replies, replies.len() - 2) is Commit && replies.last() is Done {
            inserted(start, before)
        } else {
            committed(start, before)
        }
    }
}

/// The watermark that the run stored last, if it was `watermark` before, whether or not the
/// transaction that it was stored in has been committed.
pub open spec fn last_stored(
    start: SaveState,
    watermark: u64,
    replies: Seq<Reply<watermark::Model>>,
) -> u64
    decreases replies.len(),
{
    if replies.len() <= 1 {
        watermark
    } else {
        match effect_at(start, replies, replies.len() - 2) {
            SaveEffectView::SaveWatermark(change) if replies.last() is Done => casts::unsigned_of(
                change.timestamp.applied(0),
            ),
            _ => last_stored(start, watermark, replies.drop_last()),
        }
    }
}

/// The watermark in the database after these answers, if it was `watermark` before: the one that
/// was stored last when the last commit succeeded.
pub open spec fn stored_after(
    start: SaveState,
    watermark: u64,
    replies: Seq<Reply<watermark::Model>>,
) -> u64
    decreases replies.len(),
{
    if replies.len() <= 1 {
        watermark
    } else {
        let before = replies.drop_last();
        if effect_at(start, replies, replies.len() - 2) is Commit && replies.last() is Done {
            last_stored(start, watermark, before)
        } else {
            stored_after(start, watermark, before)
        }
    }
}

/// Whether every commit that was answered succeeded.
pub open spec fn commits_succeeded(start: SaveState, replies: Seq<Reply<watermark::Model>>) -> bool {
    forall|i: int|
        1 <= i < replies.len() && (#[trigger] effect_at(start, replies, i - 1)) is Commit
            ==> replies[i] is Done
}

/// The instant up to which the first `n` intervals reach, or `watermark` where there is none.
pub open spec fn reached(intervals: Seq<interval::ActiveModel>, watermark: u64, n: int) -> u64 {
    if n == 0 {
        watermark
    } else {
        intervals[n - 1].end_instant()
    }
}

/// One step of a run, seen from its last answer.
proof fn lemma_last_step(start: SaveState, replies: Seq<Reply<watermark::Model>>)
    requires
        replies.len() > 0,
    ensures
        ({
            let before = state_after(start, replies.drop_last());
            &&& state_after(start, replies) == before.next(replies.last()).0
            &&& effect_at(start, replies, replies.len() - 1) == before.next(replies.last()).1
        }),
{
    assert(replies.take(replies.len() - 1) =~= replies.drop_last());
}

/// An effect of a run does not depend on later answers.
proof fn lemma_effect_of_prefix(
    start: SaveState,
    replies: Seq<Reply<watermark::Model>>,
    m: int,
    i: int,
)
    requires
        0 <= i < m <= replies.len(),
    ensures
        effect_at(start, replies.take(m), i) == effect_at(start, replies, i),
{
    assert(replies.take(m).take(i) =~= replies.take(i));
}

/// How the step of a run follows from the effect it asked for last.
proof fn lemma_step_tells_effect(start: SaveState, replies: Seq<Reply<watermark::Model>>)
    requires
        start.step is Ready,
        replies.len() > 0,
    ensures
        ({
            let effect = effect_at(start, replies, replies.len() - 1);
            match state_after(start, replies).step {
                SaveStep::Ready => false,
                SaveStep::Beginning => effect is Begin,
                SaveStep::Inserting => effect is Insert,
                SaveStep::Finding => effect is FindWatermark,
                SaveStep::Storing => effect is SaveWatermark,
                SaveStep::Committing => effect is Commit,
                SaveStep::RollingBack => effect is Rollback,
                SaveStep::Finished => effect is Return || effect is Nothing,
            }
        }),
    decreases replies.len(),
{
    lemma_last_step(start, replies);
    if replies.len() > 1 {
        lemma_step_tells_effect(start, replies.drop_last());
    } else {
        assert(replies.drop_last().len() == 0);
    }
}

/// What holds of a run whatever the answers are.
proof fn lemma_run(start: SaveState, watermark: u64, replies: Seq<Reply<watermark::Model>>)
    requires
        start == SaveState::start(start.intervals),
    ensures
        ({
            let state = state_after(start, replies);
            let rows = inserted(start, replies);
            let after = watermark_after(start, watermark, replies);
            let kept = reached(start.intervals, watermark, state.saved);
            let ahead = reached(start.intervals, watermark, state.batch_end());
            &&& state.wf()
            &&& state.intervals == start.intervals
            &&& committed(start, replies) == start.intervals.take(state.saved)
            &&& state.step is Ready ==> state.saved == 0
            &&& match state.step {
                SaveStep::Ready => rows == start.intervals.take(state.saved) && after == kept,
                SaveStep::Beginning => rows == start.intervals.take(state.saved) && after == kept,
                SaveStep::Finished => {
                    &&& rows == start.intervals.take(state.saved) || rows == start.intervals.take(
                        state.batch_end(),
                    )
                    &&& after == kept || after == ahead
                },
                SaveStep::Committing => rows == start.intervals.take(state.batch_end()) && after
                    == ahead,
                _ => rows == start.intervals.take(state.batch_end()) && after == kept,
            }
        }),
    decreases replies.len(),
{
    if replies.len() == 0 {
        assert(start.intervals.take(0) =~= Seq::empty());
    } else {
        let before = replies.drop_last();
        lemma_run(start, watermark, before);
        lemma_last_step(start, replies);
        let state = state_after(start, before);
        if replies.len() > 1 {
            lemma_step_tells_effect(start, before);
            lemma_effect_of_prefix(start, replies, before.len() as int, before.len() - 1);
            assert(before =~= replies.take(before.len() as int));
        } else {
            assert(state == start);
            assert(start.intervals.take(0) =~= Seq::empty());
        }
        if state.step is Beginning {
            assert(start.intervals.take(state.saved) + state.batch() =~= start.intervals.take(
                state.batch_end(),
            ));
        }
        if state.step is Storing {
            assert(state.batch().last() == start.intervals[state.batch_end() - 1]);
        }
    }
}

/// Where every commit succeeded and none is awaited, the watermark is where the saved intervals
/// reach.
proof fn lemma_watermark_reached(
    start: SaveState,
    watermark: u64,
    replies: Seq<Reply<watermark::Model>>,
)
    requires
        start == SaveState::start(start.intervals),
        commits_succeeded(start, replies),
    ensures
        ({
            let state = state_after(start, replies);
            !(state.step is Committing) ==> watermark_after(start, watermark, replies) == reached(
                start.intervals,
                watermark,
                state.saved,
            )
        }),
    decreases replies.len(),
{
    lemma_run(start, watermark, replies);
    if replies.len() > 0 {
        let n = replies.len() as int;
        let before = replies.drop_last();
        assert(before =~= replies.take(n - 1));
        assert forall|i: int|
            1 <= i < before.len() && (#[trigger] effect_at(start, before, i - 1)) is Commit implies
            before[i] is Done by {
            lemma_effect_of_prefix(start, replies, n - 1, i - 1);
        }
        lemma_watermark_reached(start, watermark, before);
        lemma_run(start, watermark, before);
        lemma_last_step(start, replies);
        if n > 1 {
            lemma_step_tells_effect(start, before);
            lemma_effect_of_prefix(start, replies, n - 1, n - 2);
        }
    }
}

/// Whatever happens, intervals are inserted in the order of time and none twice: what the run asks
/// to insert is always a beginning of the planned rows, and so is what is committed.
pub proof fn law_rows_go_in_once_and_in_order(
    intervals: Seq<interval::ActiveModel>,
    replies: Seq<Reply<watermark::Model>>,
)
    ensures
        ({
            let start = SaveState::start(intervals);
            &&& inserted(start, replies).is_prefix_of(intervals)
            &&& committed(start, replies).is_prefix_of(inserted(start, replies))
            &&& committed(start, replies) == intervals.take(state_after(start, replies).saved)
        }),
{
    lemma_run(SaveState::start(intervals), 0, replies);
}

/// Each batch that the run asks to insert is what follows the rows inserted before: a thousand
/// rows, or all that is left where that is less, and never none.
pub proof fn law_batches_are_full(
    intervals: Seq<interval::ActiveModel>,
    replies: Seq<Reply<watermark::Model>>,
    rows: Seq<interval::ActiveModel>,
)
    requires
        replies.len() > 0,
        effect_at(SaveState::start(intervals), replies, replies.len() - 1)
            == SaveEffectView::Insert(rows),
    ensures
        ({
            let earlier = inserted(SaveState::start(intervals), replies.drop_last());
            &&& rows.len() == plan::earlier(BATCH_SIZE as int, intervals.len() - earlier.len())
            &&& rows.len() > 0
            &&& (earlier + rows).is_prefix_of(intervals)
        }),
{
    let start = SaveState::start(intervals);
    lemma_run(start, 0, replies.drop_last());
    lemma_run(start, 0, replies);
    lemma_last_step(start, replies);
}

/// The watermark in memory is always the one that was stored last, even where the transaction that
/// it was stored in is not committed.
pub proof fn law_watermark_follows_the_stored_one(
    intervals: Seq<interval::ActiveModel>,
    watermark: u64,
    replies: Seq<Reply<watermark::Model>>,
)
    ensures
        watermark_after(SaveState::start(intervals), watermark, replies) == last_stored(
            SaveState::start(intervals),
            watermark,
            replies,
        ),
    decreases replies.len(),
{
    let start = SaveState::start(intervals);
    if replies.len() > 0 {
        let before = replies.drop_last();
        let n = replies.len() as int;
        law_watermark_follows_the_stored_one(intervals, watermark, before);
        assert(before =~= replies.take(n - 1));
        if n > 1 {
            lemma_step_tells_effect(start, before);
            lemma_effect_of_prefix(start, replies, n - 1, n - 2);
            lemma_last_step(start, before);
            let earlier = state_after(start, before.drop_last());
            let state = state_after(start, before);
            if state.step is Storing {
                assert(state.batch_watermark() == earlier.batch_watermark());
                casts::law_stored_instant_reads_back(earlier.batch_watermark());
            }
        } else {
            assert(state_after(start, before) == start);
        }
    }
}

/// The watermark in the database is where the committed rows reach.
proof fn lemma_stored_reached(
    start: SaveState,
    watermark: u64,
    replies: Seq<Reply<watermark::Model>>,
)
    requires
        start == SaveState::start(start.intervals),
    ensures
        stored_after(start, watermark, replies) == reached(
            start.intervals,
            watermark,
            state_after(start, replies).saved,
        ),
    decreases replies.len(),
{
    if replies.len() > 0 {
        let n = replies.len() as int;
        let before = replies.drop_last();
        lemma_stored_reached(start, watermark, before);
        lemma_run(start, watermark, before);
        lemma_last_step(start, replies);
        if n > 1 {
            assert(before =~= replies.take(n - 1));
            lemma_step_tells_effect(start, before);
            lemma_effect_of_prefix(start, replies, n - 1, n - 2);
            law_watermark_follows_the_stored_one(start.intervals, watermark, before);
        } else {
            assert(state_after(start, before) == start);
        }
    }
}

/// Whatever the answers are, the watermark in the database is the end of the last interval
/// committed, or the old one where none is.
pub proof fn law_stored_watermark_is_where_the_committed_rows_end(
    intervals: Seq<interval::ActiveModel>,
    watermark: u64,
    replies: Seq<Reply<watermark::Model>>,
)
    ensures
        ({
            let start = SaveState::start(intervals);
            let rows = committed(start, replies);
            stored_after(start, watermark, replies) == (if rows.len() == 0 {
                watermark
            } else {
                rows.last().end_instant()
            })
        }),
{
    let start = SaveState::start(intervals);
    lemma_run(start, watermark, replies);
    lemma_stored_reached(start, watermark, replies);
}

/// The watermark in memory is the instant up to which intervals have been saved: between batches,
/// and after any failure but that of a commit, it is the one in the database, which is the end of
/// the last interval committed, or the old watermark where none is.
pub proof fn law_watermark_is_where_the_committed_rows_end(
    intervals: Seq<interval::ActiveModel>,
    watermark: u64,
    replies: Seq<Reply<watermark::Model>>,
)
    requires
        commits_succeeded(SaveState::start(intervals), replies),
        replies.len() > 0 ==> !(effect_at(
            SaveState::start(intervals),
            replies,
            replies.len() - 1,
        ) is Commit),
    ensures
        ({
            let start = SaveState::start(intervals);
            let rows = committed(start, replies);
            &&& watermark_after(start, watermark, replies) == (if rows.len() == 0 {
                watermark
            } else {
                rows.last().end_instant()
            })
            &&& watermark_after(start, watermark, replies) == stored_after(
                start,
                watermark,
                replies,
            )
        }),
{
    let start = SaveState::start(intervals);
    lemma_run(start, watermark, replies);
    lemma_watermark_reached(start, watermark, replies);
    lemma_stored_reached(start, watermark, replies);
    if replies.len() > 0 {
        lemma_step_tells_effect(start, replies);
    }
}

/// A run that returns without an error returns the number of planned intervals, has committed all
/// of them, and has moved the watermark, in memory and in the database, to `now` if there was any.
pub proof fn law_success_saves_everything(
    from: u64,
    now: u64,
    width: u64,
    replies: Seq<Reply<watermark::Model>>,
    n: int,
)
    requires
        plan::fits(from, now, width),
        replies.len() > 0,
        effect_at(
            SaveState::start(plan::planned(from, now, width)),
            replies,
            replies.len() - 1,
        ) == SaveEffectView::Return(Ok(n)),
    ensures
        ({
            let intervals = plan::planned(from, now, width);
            let start = SaveState::start(intervals);
            &&& n == intervals.len()
            &&& committed(start, replies) == intervals
            &&& watermark_after(start, from, replies) == (if n > 0 {
                now
            } else {
                from
            })
            &&& stored_after(start, from, replies) == watermark_after(start, from, replies)
        }),
{
    let intervals = plan::planned(from, now, width);
    let start = SaveState::start(intervals);
    let before = replies.drop_last();
    lemma_run(start, from, before);
    lemma_run(start, from, replies);
    lemma_stored_reached(start, from, replies);
    lemma_last_step(start, replies);
    assert(intervals.take(intervals.len() as int) =~= intervals);
    if n > 0 {
        plan::lemma_row_end(from, now, width, n - 1);
        assert(state_after(start, before).step is Committing);
    } else {
        assert(state_after(start, before).step is Ready);
    }
}

/// What a run left unsaved is what the next one plans: whatever the answers are, as long as no
/// commit failed or is awaited, the committed rows and the rows planned from the new watermark are
/// together the rows planned from the old one.
pub proof fn law_next_run_saves_the_rest(
    indexer: Indexer,
    now: u64,
    replies: Seq<Reply<watermark::Model>>,
)
    requires
        indexer.can_save_until(now),
        commits_succeeded(SaveState::start(indexer.unsaved(now)), replies),
        replies.len() > 0 ==> !(effect_at(
            SaveState::start(indexer.unsaved(now)),
            replies,
            replies.len() - 1,
        ) is Commit),
    ensures
        ({
            let start = SaveState::start(indexer.unsaved(now));
            let after = Indexer {
                watermark: watermark_after(start, indexer.watermark, replies),
                ..indexer
            };
            &&& after.can_save_until(now)
            &&& committed(start, replies) + after.unsaved(now) == indexer.unsaved(now)
        }),
{
    let intervals = indexer.unsaved(now);
    let start = SaveState::start(intervals);
    lemma_run(start, indexer.watermark, replies);
    lemma_watermark_reached(start, indexer.watermark, replies);
    if replies.len() > 0 {
        lemma_step_tells_effect(start, replies);
    }
    let saved = state_after(start, replies).saved;
    if saved > 0 {
        plan::lemma_row_end(indexer.watermark, now, indexer.settings.catchup_interval, saved - 1);
    }
    plan::law_plan_can_be_resumed(
        indexer.watermark,
        now,
        indexer.settings.catchup_interval,
        saved,
    );
}

/// What a run left unsaved is what an indexer that starts anew from the watermark in the database
/// plans: whatever the answers are, the committed rows and the rows planned from there are together
/// the rows planned from the old watermark.
pub proof fn law_restarted_run_saves_the_rest(
    indexer: Indexer,
    now: u64,
    replies: Seq<Reply<watermark::Model>>,
)
    requires
        indexer.can_save_until(now),
    ensures
        ({
            let start = SaveState::start(indexer.unsaved(now));
            let after = Indexer {
                watermark: stored_after(start, indexer.watermark, replies),
                ..indexer
            };
            &&& after.can_save_until(now)
            &&& committed(start, replies) + after.unsaved(now) == indexer.unsaved(now)
        }),
{
    let start = SaveState::start(indexer.unsaved(now));
    let width = indexer.settings.catchup_interval;
    lemma_run(start, indexer.watermark, replies);
    lemma_stored_reached(start, indexer.watermark, replies);
    let saved = state_after(start, replies).saved;
    if saved > 0 {
        plan::lemma_row_end(indexer.watermark, now, width, saved - 1);
    }
    plan::law_plan_can_be_resumed(indexer.watermark, now, width, saved);
}

/// Whatever the answers are, the watermark never moves back and never beyond `now`, so a
/// well-formed indexer stays well-formed.
pub proof fn law_watermark_never_moves_back(
    indexer: Indexer,
    now: u64,
    replies: Seq<Reply<watermark::Model>>,
    m: int,
)
    requires
        indexer.can_save_until(now),
        indexer.wf(),
        0 <= m <= replies.len(),
    ensures
        ({
            let start = SaveState::start(indexer.unsaved(now));
            let earlier = watermark_after(start, indexer.watermark, replies.take(m));
            let after = watermark_after(start, indexer.watermark, replies);
            &&& indexer.watermark <= earlier <= after
            &&& after <= now || after == indexer.watermark
            &&& (Indexer { watermark: after, ..indexer }).wf()
        }),
    decreases replies.len(),
{
    let from = indexer.watermark;
    let width = indexer.settings.catchup_interval;
    let start = SaveState::start(indexer.unsaved(now));
    lemma_run(start, from, replies);
    let state = state_after(start, replies);
    if state.saved > 0 {
        plan::lemma_row_end(from, now, width, state.saved - 1);
    }
    if state.batch_end() > 0 {
        plan::lemma_row_end(from, now, width, state.batch_end() - 1);
    }
    if m == replies.len() {
        assert(replies.take(m) =~= replies);
    } else {
        let before = replies.drop_last();
        assert(before.take(m) =~= replies.take(m));
        law_watermark_never_moves_back(indexer, now, before, m);
        lemma_run(start, from, before);
        let earlier = state_after(start, before);
        if earlier.saved > 0 {
            plan::lemma_row_end(from, now, width, earlier.saved - 1);
            if earlier.batch_end() > earlier.saved {
                plan::lemma_row_ends_ascend(
                    from,
                    now,
                    width,
                    earlier.saved - 1,
                    earlier.batch_end() - 1,
                );
            }
        }
        if earlier.batch_end() > 0 {
            plan::lemma_row_end(from, now, width, earlier.batch_end() - 1);
        }
        if earlier.step is Storing {
            assert(earlier.batch().last() == start.intervals[earlier.batch_end() - 1]);
        }
    }
}

/// A run that returns an error names the effect that failed: the one answered last, except that a
/// failed insertion is reported once its transaction was rolled back.
pub proof fn law_error_names_the_failed_effect(
    intervals: Seq<interval::ActiveModel>,
    replies: Seq<Reply<watermark::Model>>,
    error: SaveError,
)
    requires
        replies.len() > 0,
        effect_at(SaveState::start(intervals), replies, replies.len() - 1)
            == SaveEffectView::Return(Err(error)),
    ensures
        ({
            let start = SaveState::start(intervals);
            let n = replies.len() as int;
            let answered = effect_at(start, replies, n - 2);
            let reply = replies[n - 1];
            &&& n >= 2
            &&& match error {
                SaveError::Begin => answered is Begin && !(reply is Done),
                SaveError::FindWatermark => answered is FindWatermark && !(reply is Row),
                SaveError::SaveWatermark => answered is SaveWatermark && !(reply is Done),
                SaveError::Commit => answered is Commit && !(reply is Done),
                SaveError::Rollback => answered is Rollback && !(reply is Done),
                SaveError::Insert => {
                    &&& answered is Rollback && reply is Done
                    &&& n >= 3 && effect_at(start, replies, n - 3) is Insert
                    &&& !(replies[n - 2] is Done)
                },
            }
        }),
{
    let start = SaveState::start(intervals);
    let n = replies.len() as int;
    let before = replies.drop_last();
    lemma_last_step(start, replies);
    assert(before =~= replies.take(n - 1));
    if n == 1 {
        assert(state_after(start, before) == start);
    } else {
        lemma_step_tells_effect(start, before);
        lemma_effect_of_prefix(start, replies, n - 1, n - 2);
        lemma_last_step(start, before);
        if n > 2 {
            let earlier = before.drop_last();
            assert(earlier =~= replies.take(n - 2));
            lemma_step_tells_effect(start, earlier);
            lemma_effect_of_prefix(start, replies, n - 2, n - 3);
        } else {
            assert(state_after(start, before.drop_last()) == start);
        }
    }
}

/// What a run does, answer by answer. As long as intervals are left, it begins a transaction,
/// inserts the next thousand of them, or all where fewer are left, moves the stored watermark to
/// where the last of those ends, and commits. It returns the number of all intervals once none is
/// left. Anything that fails ends it with the error of its own, a failed insert only after the
/// transaction was rolled back.
pub proof fn law_each_answer_leads_on(
    intervals: Seq<interval::ActiveModel>,
    replies: Seq<Reply<watermark::Model>>,
    i: int,
)
    requires
        0 <= i < replies.len(),
    ensures
        ({
            let start = SaveState::start(intervals);
            let effect = effect_at(start, replies, i);
            let saved = committed(start, replies.take(i + 1)).len() as int;
            let left = intervals.len() - saved;
            let end = if left <= 1000 {
                intervals.len() as int
            } else {
                saved + 1000
            };
            let goes_on = if left > 0 {
                effect is Begin
            } else {
                effect == SaveEffectView::Return(Ok(intervals.len() as int))
            };
            if i == 0 {
                goes_on
            } else {
                match effect_at(start, replies, i - 1) {
                    SaveEffectView::Begin => if replies[i] is Done {
                        effect == SaveEffectView::Insert(intervals.subrange(saved, end))
                    } else {
                        effect == SaveEffectView::Return(Err(SaveError::Begin))
                    },
                    SaveEffectView::Insert(_) => if replies[i] is Done {
                        effect is FindWatermark
                    } else {
                        effect is Rollback
                    },
                    SaveEffectView::FindWatermark => match replies[i] {
                        Reply::Row(existing) => effect matches SaveEffectView::SaveWatermark(change)
                            && {
                            &&& change.timestamp == ActiveValue::Write(
                                intervals[end - 1].end.applied(0),
                            )
                            &&& existing matches Some(row) ==> change.id == ActiveValue::Unchanged(
                                row.id,
                            )
                            &&& existing is None ==> change.id is NotSet
                        },
                        _ => effect == SaveEffectView::Return(Err(SaveError::FindWatermark)),
                    },
                    SaveEffectView::SaveWatermark(_) => if replies[i] is Done {
                        effect is Commit
                    } else {
                        effect == SaveEffectView::Return(Err(SaveError::SaveWatermark))
                    },
                    SaveEffectView::Commit => if replies[i] is Done {
                        goes_on
                    } else {
                        effect == SaveEffectView::Return(Err(SaveError::Commit))
                    },
                    SaveEffectView::Rollback => if replies[i] is Done {
                        effect == SaveEffectView::Return(Err(SaveError::Insert))
                    } else {
                        effect == SaveEffectView::Return(Err(SaveError::Rollback))
                    },
                    SaveEffectView::Return(_) => effect is Nothing,
                    SaveEffectView::Nothing => effect is Nothing,
                }
            }
        }),
{
    let start = SaveState::start(intervals);
    let upto = replies.take(i + 1);
    let before = replies.take(i);
    assert(upto.drop_last() =~= before);
    assert(upto.last() == replies[i]);
    lemma_run(start, 0, before);
    lemma_run(start, 0, upto);
    lemma_last_step(start, upto);
    lemma_effect_of_prefix(start, replies, i + 1, i);
    let state = state_after(start, before);
    assert(committed(start, before).len() == state.saved);
    assert(committed(start, upto).len() == state_after(start, upto).saved);
    if i > 0 {
        assert(before.take(i - 1) =~= replies.take(i - 1));
        lemma_effect_of_prefix(start, replies, i, i - 1);
        lemma_step_tells_effect(start, before);
        let earlier = before.drop_last();
        lemma_run(start, 0, earlier);
        lemma_last_step(start, before);
        if state.step is Finding {
            let end = intervals[state.batch_end() - 1].end.applied(0);
            assert(state.batch().last() == intervals[state.batch_end() - 1]);
            casts::law_read_column_stores_back(end);
        }
    }
}

/// The watermark in memory moves only where a batch was stored, and then to where the last interval
/// of that batch ends; no other answer moves it.
pub proof fn law_watermark_moves_with_each_stored_batch(
    intervals: Seq<interval::ActiveModel>,
    watermark: u64,
    replies: Seq<Reply<watermark::Model>>,
    i: int,
)
    requires
        0 <= i < replies.len(),
    ensures
        ({
            let start = SaveState::start(intervals);
            let before = watermark_after(start, watermark, replies.take(i));
            let after = watermark_after(start, watermark, replies.take(i + 1));
            let rows = inserted(start, replies.take(i + 1));
            if i > 0 && effect_at(start, replies, i - 1) is SaveWatermark && replies[i] is Done {
                rows.len() > 0 && after == casts::unsigned_of(rows.last().end.applied(0))
            } else {
                after == before
            }
        }),
{
    let start = SaveState::start(intervals);
    let upto = replies.take(i + 1);
    let before = replies.take(i);
    assert(upto.drop_last() =~= before);
    assert(upto.last() == replies[i]);
    lemma_run(start, watermark, before);
    lemma_run(start, watermark, upto);
    lemma_last_step(start, upto);
    let state = state_after(start, before);
    if i > 0 {
        lemma_effect_of_prefix(start, replies, i, i - 1);
        lemma_step_tells_effect(start, before);
        if state.step is Storing {
            assert(state.batch().last() == intervals[state.batch_end() - 1]);
        }
    }
}

/// What an effect says is what it holds.
pub proof fn law_effects_are_read_as_they_are(
    rows: Vec<interval::ActiveModel>,
    change: watermark::ActiveModel,
    n: usize,
    error: SaveError,
)
    ensures
        SaveEffect::Begin@ is Begin,
        SaveEffect::Insert(rows)@ == SaveEffectView::Insert(rows@),
        SaveEffect::FindWatermark@ is FindWatermark,
        SaveEffect::SaveWatermark(change)@ == SaveEffectView::SaveWatermark(change),
        SaveEffect::Commit@ is Commit,
        SaveEffect::Rollback@ is Rollback,
        SaveEffect::Return(Ok(n))@ == SaveEffectView::Return(Ok(n as int)),
        SaveEffect::Return(Err(error))@ == SaveEffectView::Return(Err(error)),
        SaveEffect::Nothing@ is Nothing,
{
}

} // verus!

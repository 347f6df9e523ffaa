//! Endless streams of jobs, each claimed in the database before it is handed out.
//!
//! A stream is a coroutine: resumed with the answer to the effect it asked for last, it gives the
//! next effect to carry out. A first answer of any kind starts it.
use sea_orm::Statement;
use vstd::prelude::*;

use crate::interval;
use crate::job::{IndexerJob, Job, OperationJob, OrderDirection};
use crate::operation;
use crate::reply::Reply;
use crate::statement::{self, Backend, ParameterView};

verus! {

/// How long a stream waits after it found nothing or failed, in milliseconds.
pub const IDLE_PAUSE: u64 = 500;

/// How long a stream of intervals rests after it handed one out, in milliseconds.
pub const INTERVAL_REST: u64 = 100;

/// Where a stream stands, by the answer that it waits for.
#[derive(Debug)]
pub enum ClaimStep<R> {
    /// About to begin a transaction.
    Ready,
    /// Waiting for a transaction to begin.
    Beginning,
    /// Waiting for a pending row.
    Finding,
    /// Waiting for the row to be marked.
    Claiming,
    /// Waiting for the mark on this row to be committed.
    Committing(R),
    /// Waiting for a transaction that changed nothing to end.
    Closing,
    /// Handed a row out.
    Yielded,
}

/// What a stream asks for.
#[derive(Debug)]
pub enum ClaimEffect<R> {
    /// Begin a transaction.
    Begin,
    /// Find and lock a pending row.
    Find,
    /// Mark this row as in progress.
    Claim(R),
    /// Commit the transaction.
    Commit,
    /// Roll the transaction back.
    Rollback,
    /// Wait for this many milliseconds.
    Sleep(u64),
    /// Hand this row out.
    Yield(R),
}

/// The next step and effect of a stream that rests for `rest` milliseconds, if at all, after it
/// handed a row out. An answer that does not fit the effect counts as a failure.
pub open spec fn claim_next<R>(
    step: ClaimStep<R>,
    reply: Reply<R>,
    rest: Option<u64>,
) -> (ClaimStep<R>, ClaimEffect<R>) {
    match step {
        ClaimStep::Ready => (ClaimStep::Beginning, ClaimEffect::Begin),
        ClaimStep::Beginning => match reply {
            Reply::Done => (ClaimStep::Finding, ClaimEffect::Find),
            _ => (ClaimStep::Ready, ClaimEffect::Sleep(IDLE_PAUSE)),
        },
        ClaimStep::Finding => match reply {
            Reply::Row(Some(row)) => (ClaimStep::Claiming, ClaimEffect::Claim(row)),
            Reply::Row(None) => (ClaimStep::Closing, ClaimEffect::Commit),
            _ => (ClaimStep::Closing, ClaimEffect::Rollback),
        },
        ClaimStep::Claiming => match reply {
            Reply::Row(Some(row)) => (ClaimStep::Committing(row), ClaimEffect::Commit),
            _ => (ClaimStep::Closing, ClaimEffect::Rollback),
        },
        ClaimStep::Committing(row) => match reply {
            Reply::Done => (ClaimStep::Yielded, ClaimEffect::Yield(row)),
            _ => (ClaimStep::Beginning, ClaimEffect::Begin),
        },
        ClaimStep::Closing => (ClaimStep::Ready, ClaimEffect::Sleep(IDLE_PAUSE)),
        ClaimStep::Yielded => match rest {
            Some(pause) => (ClaimStep::Ready, ClaimEffect::Sleep(pause)),
            None => (ClaimStep::Beginning, ClaimEffect::Begin),
        },
    }
}

/// Computes the next step and effect of a stream.
pub fn advance<R>(step: ClaimStep<R>, reply: Reply<R>, rest: Option<u64>) -> (r: (
    ClaimStep<R>,
    ClaimEffect<R>,
))
    ensures
        r == claim_next(step, reply, rest),
{
    match step {
        ClaimStep::Ready => (ClaimStep::Beginning, ClaimEffect::Begin),
        ClaimStep::Beginning => match reply {
            Reply::Done => (ClaimStep::Finding, ClaimEffect::Find),
            _ => (ClaimStep::Ready, ClaimEffect::Sleep(IDLE_PAUSE)),
        },
        ClaimStep::Finding => match reply {
            Reply::Row(Some(row)) => (ClaimStep::Claiming, ClaimEffect::Claim(row)),
            Reply::Row(None) => (ClaimStep::Closing, ClaimEffect::Commit),
            _ => (ClaimStep::Closing, ClaimEffect::Rollback),
        },
        ClaimStep::Claiming => match reply {
            Reply::Row(Some(row)) => (ClaimStep::Committing(row), ClaimEffect::Commit),
            _ => (ClaimStep::Closing, ClaimEffect::Rollback),
        },
        ClaimStep::Committing(row) => match reply {
            Reply::Done => (ClaimStep::Yielded, ClaimEffect::Yield(row)),
            _ => (ClaimStep::Beginning, ClaimEffect::Begin),
        },
        ClaimStep::Closing => (ClaimStep::Ready, ClaimEffect::Sleep(IDLE_PAUSE)),
        ClaimStep::Yielded => match rest {
            Some(pause) => (ClaimStep::Ready, ClaimEffect::Sleep(pause)),
            None => (ClaimStep::Beginning, ClaimEffect::Begin),
        },
    }
}

/// What a stream asks of the outside world.
#[derive(Debug)]
pub enum StreamEffect {
    /// Begin a transaction.
    Begin,
    /// Run this statement in the transaction and answer with the row it gives, if any.
    Query(Statement),
    /// Commit the transaction.
    Commit,
    /// Roll the transaction back.
    Rollback,
    /// Wait for this many milliseconds.
    Sleep(u64),
    /// Hand this job out.
    Yield(IndexerJob),
}

/// The stream of pending intervals, taken in one order.
#[derive(Debug)]
pub struct IntervalStream {
    pub direction: OrderDirection,
    pub step: ClaimStep<interval::Model>,
}

/// The stream of pending operations, oldest first.
#[derive(Debug)]
pub struct OperationStream {
    pub step: ClaimStep<operation::Model>,
}

/// What an effect on intervals, taken in the given order, asks of the outside world.
pub open spec fn interval_effect(
    direction: OrderDirection,
    effect: ClaimEffect<interval::Model>,
) -> StreamEffect {
    match effect {
        ClaimEffect::Begin => StreamEffect::Begin,
        ClaimEffect::Find => StreamEffect::Query(statement::pending_interval_query(direction)),
        ClaimEffect::Claim(row) => StreamEffect::Query(statement::claim_interval_query(row.id)),
        ClaimEffect::Commit => StreamEffect::Commit,
        ClaimEffect::Rollback => StreamEffect::Rollback,
        ClaimEffect::Sleep(pause) => StreamEffect::Sleep(pause),
        ClaimEffect::Yield(row) => StreamEffect::Yield(IndexerJob::Interval(Job { interval: row })),
    }
}

/// What an effect on operations asks of the outside world.
pub open spec fn operation_effect(effect: ClaimEffect<operation::Model>) -> StreamEffect {
    match effect {
        ClaimEffect::Begin => StreamEffect::Begin,
        ClaimEffect::Find => StreamEffect::Query(statement::pending_operation_query()),
        ClaimEffect::Claim(row) => StreamEffect::Query(statement::claim_operation_query(row.id@)),
        ClaimEffect::Commit => StreamEffect::Commit,
        ClaimEffect::Rollback => StreamEffect::Rollback,
        ClaimEffect::Sleep(pause) => StreamEffect::Sleep(pause),
        ClaimEffect::Yield(row) => StreamEffect::Yield(
            IndexerJob::Operation(OperationJob { operation: row }),
        ),
    }
}

impl IntervalStream {
    /// Goes on after the answer to the effect asked for last.
    pub fn resume(self, reply: Reply<interval::Model>) -> (r: (IntervalStream, StreamEffect))
        ensures
            ({
                let (step, effect) = claim_next(self.step, reply, Some(INTERVAL_REST));
                &&& r.0.direction == self.direction
                &&& r.0.step == step
                &&& r.1 == interval_effect(self.direction, effect)
            }),
    {
        let direction = self.direction;
        let (step, effect) = advance(self.step, reply, Some(INTERVAL_REST));
        let asked = match effect {
            ClaimEffect::Begin => StreamEffect::Begin,
            ClaimEffect::Find => StreamEffect::Query(statement::pending_interval(direction)),
            ClaimEffect::Claim(row) => StreamEffect::Query(statement::claim_interval(row.id)),
            ClaimEffect::Commit => StreamEffect::Commit,
            ClaimEffect::Rollback => StreamEffect::Rollback,
            ClaimEffect::Sleep(pause) => StreamEffect::Sleep(pause),
            ClaimEffect::Yield(row) => StreamEffect::Yield(
                IndexerJob::Interval(Job { interval: row }),
            ),
        };
        (IntervalStream { direction, step }, asked)
    }
}

impl OperationStream {
    /// Goes on after the answer to the effect asked for last.
    pub fn resume(self, reply: Reply<operation::Model>) -> (r: (OperationStream, StreamEffect))
        ensures
            ({
                let (step, effect) = claim_next(self.step, reply, None);
                &&& r.0.step == step
                &&& r.1 == operation_effect(effect)
            }),
    {
        let (step, effect) = advance(self.step, reply, None);
        let asked = match effect {
            ClaimEffect::Begin => StreamEffect::Begin,
            ClaimEffect::Find => StreamEffect::Query(statement::pending_operation()),
            ClaimEffect::Claim(row) => StreamEffect::Query(statement::claim_operation(row.id)),
            ClaimEffect::Commit => StreamEffect::Commit,
            ClaimEffect::Rollback => StreamEffect::Rollback,
            ClaimEffect::Sleep(pause) => StreamEffect::Sleep(pause),
            ClaimEffect::Yield(row) => StreamEffect::Yield(
                IndexerJob::Operation(OperationJob { operation: row }),
            ),
        };
        (OperationStream { step }, asked)
    }
}

/// The step of a stream after it was resumed with these answers, one after the other.
pub open spec fn step_after<R>(rest: Option<u64>, replies: Seq<Reply<R>>) -> ClaimStep<R>
    decreases replies.len(),
{
    if replies.len() == 0 {
        ClaimStep::Ready
    } else {
        claim_next(step_after(rest, replies.drop_last()), replies.last(), rest).0
    }
}

/// The effect that a stream asks for when it gets answer number `i`; answer number `i + 1` is the
/// one to this effect.
pub open spec fn effect_at<R>(rest: Option<u64>, replies: Seq<Reply<R>>, i: int) -> ClaimEffect<R> {
    claim_next(step_after(rest, replies.take(i)), replies[i], rest).1
}

/// Whether a transaction is open once these answers are in: one opens where its beginning
/// succeeds, and ends where it is committed or rolled back, whether or not that succeeds.
pub open spec fn transaction_open<R>(rest: Option<u64>, replies: Seq<Reply<R>>) -> bool
    decreases replies.len(),
{
    if replies.len() <= 1 {
        false
    } else {
        match effect_at(rest, replies, replies.len() - 2) {
            ClaimEffect::Begin => replies.last() is Done,
            ClaimEffect::Commit => false,
            ClaimEffect::Rollback => false,
            _ => transaction_open(rest, replies.drop_last()),
        }
    }
}

/// How the step of a stream follows from the effect it asked for last.
proof fn lemma_step_tells_effect<R>(rest: Option<u64>, replies: Seq<Reply<R>>)
    requires
        replies.len() > 0,
    ensures
        ({
            let n = replies.len() as int;
            let effect = effect_at(rest, replies, n - 1);
            match step_after(rest, replies) {
                ClaimStep::Ready => effect is Sleep,
                ClaimStep::Beginning => effect is Begin,
                ClaimStep::Finding => effect is Find,
                ClaimStep::Claiming => effect is Claim,
                ClaimStep::Committing(_) => effect is Commit,
                ClaimStep::Closing => effect is Commit || effect is Rollback,
                ClaimStep::Yielded => effect is Yield,
            }
        }),
{
    let n = replies.len() as int;
    assert(replies.take(n - 1) =~= replies.drop_last());
}

proof fn lemma_open_by_step<R>(rest: Option<u64>, replies: Seq<Reply<R>>)
    ensures
        transaction_open(rest, replies) == (match step_after(rest, replies) {
            ClaimStep::Ready => false,
            ClaimStep::Beginning => false,
            ClaimStep::Yielded => false,
            _ => true,
        }),
    decreases replies.len(),
{
    if replies.len() == 1 {
        assert(replies.drop_last().len() == 0);
        assert(step_after(rest, replies.drop_last()) == ClaimStep::<R>::Ready);
    } else if replies.len() > 1 {
        let before = replies.drop_last();
        lemma_open_by_step(rest, before);
        lemma_step_tells_effect(rest, before);
        assert(before.take(before.len() - 1) =~= replies.take(replies.len() - 2));
        assert(before[before.len() - 1] == replies[replies.len() - 2]);
    }
}

/// A stream begins a transaction, waits or hands a job out only while no transaction is open, and
/// queries, commits or rolls back only while one is.
pub proof fn law_one_transaction_at_a_time<R>(rest: Option<u64>, replies: Seq<Reply<R>>)
    requires
        replies.len() > 0,
    ensures
        transaction_open(rest, replies) == (match effect_at(rest, replies, replies.len() - 1) {
            ClaimEffect::Begin => false,
            ClaimEffect::Sleep(_) => false,
            ClaimEffect::Yield(_) => false,
            _ => true,
        }),
{
    lemma_open_by_step(rest, replies);
    lemma_step_tells_effect(rest, replies);
}

/// A row is handed out only once it was found pending and marked as in progress, and the mark was
/// committed: what is handed out is the row as the marking statement gave it.
pub proof fn law_only_committed_claims_are_handed_out<R>(
    rest: Option<u64>,
    replies: Seq<Reply<R>>,
    row: R,
)
    requires
        replies.len() > 0,
        effect_at(rest, replies, replies.len() - 1) == ClaimEffect::Yield(row),
    ensures
        ({
            let n = replies.len() as int;
            &&& n >= 5
            &&& replies[n - 1] is Done
            &&& effect_at(rest, replies, n - 2) is Commit
            &&& replies[n - 2] == Reply::Row(Some(row))
            &&& effect_at(rest, replies, n - 3) matches ClaimEffect::Claim(found)
                && replies[n - 3] == Reply::Row(Some(found))
            &&& effect_at(rest, replies, n - 4) is Find
            &&& replies[n - 4] is Done
            &&& effect_at(rest, replies, n - 5) is Begin
        }),
{
    let n = replies.len() as int;
    assert(step_after(rest, replies.take(n - 1)) == ClaimStep::Committing(row));
    lemma_steps_back(rest, replies, n - 1);
    lemma_steps_back(rest, replies, n - 2);
    lemma_steps_back(rest, replies, n - 3);
    lemma_steps_back(rest, replies, n - 4);
}

/// One step back in a run.
proof fn lemma_steps_back<R>(rest: Option<u64>, replies: Seq<Reply<R>>, i: int)
    requires
        0 <= i <= replies.len(),
    ensures
        i == 0 ==> step_after(rest, replies.take(i)) == ClaimStep::<R>::Ready,
        i > 0 ==> step_after(rest, replies.take(i)) == claim_next(
            step_after(rest, replies.take(i - 1)),
            replies[i - 1],
            rest,
        ).0,
        i > 0 ==> effect_at(rest, replies, i - 1) == claim_next(
            step_after(rest, replies.take(i - 1)),
            replies[i - 1],
            rest,
        ).1,
{
    if i > 0 {
        assert(replies.take(i).drop_last() =~= replies.take(i - 1));
        assert(replies.take(i).last() == replies[i - 1]);
    }
}

/// A stream does not spin: between two transactions it waits, unless the first one handed a job
/// out with no rest to follow, or was lost on committing a claim.
pub proof fn law_streams_pause_between_transactions<R>(
    rest: Option<u64>,
    replies: Seq<Reply<R>>,
    i: int,
)
    requires
        0 < i < replies.len(),
        effect_at(rest, replies, i) is Begin,
    ensures
        match effect_at(rest, replies, i - 1) {
            ClaimEffect::Sleep(pause) => pause == IDLE_PAUSE || rest == Some(pause),
            ClaimEffect::Yield(_) => rest is None,
            ClaimEffect::Commit => !(replies[i] is Done) && replies[i - 1] matches Reply::Row(
                Some(_),
            ),
            _ => false,
        },
{
    lemma_steps_back(rest, replies, i);
    lemma_steps_back(rest, replies, i - 1);
}

/// What a stream does, answer by answer: it begins a transaction, finds a row, claims the very row
/// that was found and commits; where the commit of a claim succeeds, it hands out the very row that
/// the claim gave, whatever stands in it. A failure is rolled back, and it waits before it begins
/// anew where it found nothing or failed.
pub proof fn law_each_answer_leads_on<R>(rest: Option<u64>, replies: Seq<Reply<R>>, i: int)
    requires
        0 <= i < replies.len(),
    ensures
        ({
            let effect = effect_at(rest, replies, i);
            if i == 0 {
                effect is Begin
            } else {
                match effect_at(rest, replies, i - 1) {
                    ClaimEffect::Begin => if replies[i] is Done {
                        effect is Find
                    } else {
                        effect == ClaimEffect::<R>::Sleep(500)
                    },
                    ClaimEffect::Find => match replies[i] {
                        Reply::Row(Some(row)) => effect == ClaimEffect::Claim(row),
                        Reply::Row(None) => effect is Commit,
                        _ => effect is Rollback,
                    },
                    ClaimEffect::Claim(_) => match replies[i] {
                        Reply::Row(Some(_)) => effect is Commit,
                        _ => effect is Rollback,
                    },
                    ClaimEffect::Commit => match replies[i - 1] {
                        Reply::Row(Some(row)) => if replies[i] is Done {
                            effect == ClaimEffect::Yield(row)
                        } else {
                            effect is Begin
                        },
                        _ => effect == ClaimEffect::<R>::Sleep(500),
                    },
                    ClaimEffect::Rollback => effect == ClaimEffect::<R>::Sleep(500),
                    ClaimEffect::Sleep(_) => effect is Begin,
                    ClaimEffect::Yield(_) => match rest {
                        Some(pause) => effect == ClaimEffect::<R>::Sleep(pause),
                        None => effect is Begin,
                    },
                }
            }
        }),
{
    lemma_steps_back(rest, replies, i);
    if i > 0 {
        lemma_steps_back(rest, replies, i - 1);
    }
}

/// What a stream of intervals asks of the outside world: each query is the one for its order or for
/// the row in hand, and what is handed out is the job of exactly the row in hand, whatever stands
/// in it.
pub proof fn law_interval_effects_are_about_the_row(
    direction: OrderDirection,
    effect: ClaimEffect<interval::Model>,
)
    ensures
        ({
            let asked = interval_effect(direction, effect);
            match effect {
                ClaimEffect::Begin => asked is Begin,
                ClaimEffect::Find => asked == StreamEffect::Query(
                    statement::statement_of(
                        Backend::Postgres,
                        statement::PENDING_INTERVAL_HEAD@ + (if direction is Ascending {
                            "ASC"@
                        } else {
                            "DESC"@
                        }) + statement::PENDING_INTERVAL_TAIL@,
                        None,
                    ),
                ),
                ClaimEffect::Claim(row) => asked == StreamEffect::Query(
                    statement::statement_of(
                        Backend::Postgres,
                        statement::CLAIM_INTERVAL@,
                        Some(ParameterView::Int(row.id)),
                    ),
                ),
                ClaimEffect::Commit => asked is Commit,
                ClaimEffect::Rollback => asked is Rollback,
                ClaimEffect::Sleep(pause) => asked == StreamEffect::Sleep(pause),
                ClaimEffect::Yield(row) => asked matches StreamEffect::Yield(
                    IndexerJob::Interval(job),
                ) && job.interval == row,
            }
        }),
{
}

/// What a stream of operations asks of the outside world: the query for a pending one, the claim of
/// the row in hand, and what is handed out is the job of exactly the row in hand, whatever stands
/// in it.
pub proof fn law_operation_effects_are_about_the_row(effect: ClaimEffect<operation::Model>)
    ensures
        ({
            let asked = operation_effect(effect);
            match effect {
                ClaimEffect::Begin => asked is Begin,
                ClaimEffect::Find => asked == StreamEffect::Query(
                    statement::statement_of(Backend::Postgres, statement::PENDING_OPERATION@, None),
                ),
                ClaimEffect::Claim(row) => asked == StreamEffect::Query(
                    statement::statement_of(
                        Backend::Postgres,
                        statement::CLAIM_OPERATION@,
                        Some(ParameterView::Text(row.id@)),
                    ),
                ),
                ClaimEffect::Commit => asked is Commit,
                ClaimEffect::Rollback => asked is Rollback,
                ClaimEffect::Sleep(pause) => asked == StreamEffect::Sleep(pause),
                ClaimEffect::Yield(row) => asked matches StreamEffect::Yield(
                    IndexerJob::Operation(job),
                ) && job.operation == row,
            }
        }),
{
}

/// No claimed interval is lost: wherever the commit of a claim succeeds, the stream hands out the
/// job of the very row that the claim gave, and rests for a tenth of a second before it goes on.
pub proof fn law_claimed_interval_is_handed_out(
    direction: OrderDirection,
    replies: Seq<Reply<interval::Model>>,
    i: int,
    row: interval::Model,
)
    requires
        0 < i < replies.len(),
        effect_at(Some(INTERVAL_REST), replies, i - 1) is Commit,
        replies[i - 1] == Reply::Row(Some(row)),
        replies[i] is Done,
    ensures
        interval_effect(direction, effect_at(Some(INTERVAL_REST), replies, i))
            == StreamEffect::Yield(IndexerJob::Interval(Job { interval: row })),
        i + 1 < replies.len() ==> interval_effect(
            direction,
            effect_at(Some(INTERVAL_REST), replies, i + 1),
        ) == StreamEffect::Sleep(100),
{
    law_each_answer_leads_on(Some(INTERVAL_REST), replies, i);
    if i + 1 < replies.len() {
        law_each_answer_leads_on(Some(INTERVAL_REST), replies, i + 1);
    }
}

/// No claimed operation is lost: wherever the commit of a claim succeeds, the stream hands out the
/// job of the very row that the claim gave, and goes on at once.
pub proof fn law_claimed_operation_is_handed_out(
    replies: Seq<Reply<operation::Model>>,
    i: int,
    row: operation::Model,
)
    requires
        0 < i < replies.len(),
        effect_at(None, replies, i - 1) is Commit,
        replies[i - 1] == Reply::Row(Some(row)),
        replies[i] is Done,
    ensures
        operation_effect(effect_at(None, replies, i)) == StreamEffect::Yield(
            IndexerJob::Operation(OperationJob { operation: row }),
        ),
        i + 1 < replies.len() ==> operation_effect(effect_at(None, replies, i + 1)) is Begin,
{
    law_each_answer_leads_on(None, replies, i);
    if i + 1 < replies.len() {
        law_each_answer_leads_on(None, replies, i + 1);
    }
}

} // verus!

//! Asking for the stages of an operation, and trying again later where that fails.
//!
//! The run is a coroutine: resumed with the answer to the effect it asked for last, it gives the
//! next effect to carry out. A first answer of any kind starts it.
use vstd::prelude::*;

use crate::operation;
use crate::request::{self, StageProfilingRequest};
use crate::retry;

verus! {

/// Where the run stands, by the answer that it waits for.
#[derive(Debug)]
pub enum ProcessOperation {
    /// About to send the request for this operation.
    Ready(operation::Model),
    /// Waiting for the response to the request.
    Sending(operation::Model),
    /// Waiting for a transaction to begin.
    Beginning(operation::Model),
    /// Waiting for the operation to be marked finished.
    Updating,
    /// Waiting for the transaction to be committed.
    Committing,
    /// Waiting for the transaction to be rolled back.
    RollingBack,
    /// Waiting for the time of the failure.
    Timing(operation::Model),
    /// Waiting for the retry to be written.
    Rescheduling,
    /// Over.
    Finished,
}

/// The answer to an effect of a run.
#[derive(Debug, Clone, Copy, PartialEq, Eq)]
pub enum ProcessReply {
    /// The effect was carried out.
    Done,
    /// The effect failed.
    Failed,
    /// A response with this HTTP status came.
    Response(u16),
    /// It is this many seconds after the epoch.
    Time(u64),
}

/// What the run asks for.
#[derive(Debug)]
pub enum ProcessEffect {
    /// Post this request.
    Send(StageProfilingRequest),
    /// Begin a transaction.
    Begin,
    /// Write this change in the transaction.
    UpdateInTransaction(operation::ActiveModel),
    /// Commit the transaction.
    Commit,
    /// Roll the transaction back.
    Rollback,
    /// Read the clock.
    ReadClock,
    /// Write this change outside any transaction.
    Update(operation::ActiveModel),
    /// Return.
    Return,
    /// Nothing: the run is over.
    Nothing,
}

/// Where a run stands and what it holds.
pub ghost enum ProcessState {
    Ready(operation::Row),
    Sending(operation::Row),
    Beginning(operation::Row),
    Updating,
    Committing,
    RollingBack,
    Timing(operation::Row),
    Rescheduling,
    Finished,
}

/// What an effect of a run says.
pub ghost enum ProcessEffectView {
    Send(request::RequestView),
    Begin,
    UpdateInTransaction(operation::Change),
    Commit,
    Rollback,
    ReadClock,
    Update(operation::Change),
    Return,
    Nothing,
}

impl View for ProcessOperation {
    type V = ProcessState;

    open spec fn view(&self) -> ProcessState {
        match self {
            ProcessOperation::Ready(row) => ProcessState::Ready(row@),
            ProcessOperation::Sending(row) => ProcessState::Sending(row@),
            ProcessOperation::Beginning(row) => ProcessState::Beginning(row@),
            ProcessOperation::Updating => ProcessState::Updating,
            ProcessOperation::Committing => ProcessState::Committing,
            ProcessOperation::RollingBack => ProcessState::RollingBack,
            ProcessOperation::Timing(row) => ProcessState::Timing(row@),
            ProcessOperation::Rescheduling => ProcessState::Rescheduling,
            ProcessOperation::Finished => ProcessState::Finished,
        }
    }
}

impl View for ProcessEffect {
    type V = ProcessEffectView;

    open spec fn view(&self) -> ProcessEffectView {
        match self {
            ProcessEffect::Send(r) => ProcessEffectView::Send(r@),
            ProcessEffect::Begin => ProcessEffectView::Begin,
            ProcessEffect::UpdateInTransaction(c) => ProcessEffectView::UpdateInTransaction(c@),
            ProcessEffect::Commit => ProcessEffectView::Commit,
            ProcessEffect::Rollback => ProcessEffectView::Rollback,
            ProcessEffect::ReadClock => ProcessEffectView::ReadClock,
            ProcessEffect::Update(c) => ProcessEffectView::Update(c@),
            ProcessEffect::Return => ProcessEffectView::Return,
            ProcessEffect::Nothing => ProcessEffectView::Nothing,
        }
    }
}

impl ProcessState {
    /// Whether the retry, if this answer leads to one, can be computed.
    pub open spec fn accepts(self, reply: ProcessReply) -> bool {
        match (self, reply) {
            (ProcessState::Timing(row), ProcessReply::Time(now)) => retry::in_range(
                now,
                row.retry_count,
            ),
            _ => true,
        }
    }

    /// The next state and effect. An answer that does not fit the effect counts as a failure, and
    /// the clock is read until it answers.
    pub open spec fn next(self, reply: ProcessReply) -> (ProcessState, ProcessEffectView) {
        match self {
            ProcessState::Ready(row) => (
                ProcessState::Sending(row),
                ProcessEffectView::Send(request::RequestView::for_operation(row.id)),
            ),
            ProcessState::Sending(row) => match reply {
                ProcessReply::Response(status) if request::reports_success(status) => (
                    ProcessState::Beginning(row),
                    ProcessEffectView::Begin,
                ),
                _ => (ProcessState::Timing(row), ProcessEffectView::ReadClock),
            },
            ProcessState::Beginning(row) => match reply {
                ProcessReply::Done => (
                    ProcessState::Updating,
                    ProcessEffectView::UpdateInTransaction(row.finished()),
                ),
                _ => (ProcessState::Finished, ProcessEffectView::Return),
            },
            ProcessState::Updating => match reply {
                ProcessReply::Done => (ProcessState::Committing, ProcessEffectView::Commit),
                _ => (ProcessState::RollingBack, ProcessEffectView::Rollback),
            },
            ProcessState::Committing => (ProcessState::Finished, ProcessEffectView::Return),
            ProcessState::RollingBack => (ProcessState::Finished, ProcessEffectView::Return),
            ProcessState::Timing(row) => match reply {
                ProcessReply::Time(now) => (
                    ProcessState::Rescheduling,
                    ProcessEffectView::Update(row.rescheduled(now)),
                ),
                _ => (ProcessState::Timing(row), ProcessEffectView::ReadClock),
            },
            ProcessState::Rescheduling => (ProcessState::Finished, ProcessEffectView::Return),
            ProcessState::Finished => (ProcessState::Finished, ProcessEffectView::Nothing),
        }
    }
}

impl ProcessOperation {
    /// Goes on after the answer to the effect asked for last.
    pub fn resume(self, reply: ProcessReply) -> (r: (ProcessOperation, ProcessEffect))
        requires
            self@.accepts(reply),
        ensures
            (r.0@, r.1@) == self@.next(reply),
    {
        match self {
            ProcessOperation::Ready(row) => {
                let request = StageProfilingRequest::for_operation(row.id.as_str());
                (ProcessOperation::Sending(row), ProcessEffect::Send(request))
            },
            ProcessOperation::Sending(row) => {
                let success = match reply {
                    ProcessReply::Response(status) => request::is_success(status),
                    _ => false,
                };
                if success {
                    (ProcessOperation::Beginning(row), ProcessEffect::Begin)
                } else {
                    (ProcessOperation::Timing(row), ProcessEffect::ReadClock)
                }
            },
            ProcessOperation::Beginning(row) => match reply {
                ProcessReply::Done => (
                    ProcessOperation::Updating,
                    ProcessEffect::UpdateInTransaction(row.finish()),
                ),
                _ => (ProcessOperation::Finished, ProcessEffect::Return),
            },
            ProcessOperation::Updating => match reply {
                ProcessReply::Done => (ProcessOperation::Committing, ProcessEffect::Commit),
                _ => (ProcessOperation::RollingBack, ProcessEffect::Rollback),
            },
            ProcessOperation::Committing => (ProcessOperation::Finished, ProcessEffect::Return),
            ProcessOperation::RollingBack => (ProcessOperation::Finished, ProcessEffect::Return),
            ProcessOperation::Timing(row) => match reply {
                ProcessReply::Time(now) => (
                    ProcessOperation::Rescheduling,
                    ProcessEffect::Update(row.reschedule(now)),
                ),
                _ => (ProcessOperation::Timing(row), ProcessEffect::ReadClock),
            },
            ProcessOperation::Rescheduling => (ProcessOperation::Finished, ProcessEffect::Return),
            ProcessOperation::Finished => (ProcessOperation::Finished, ProcessEffect::Nothing),
        }
    }
}

/// The run on this operation after it was resumed with these answers, one after the other.
pub open spec fn state_after(row: operation::Row, replies: Seq<ProcessReply>) -> ProcessState
    decreases replies.len(),
{
    if replies.len() == 0 {
        ProcessState::Ready(row)
    } else {
        state_after(row, replies.drop_last()).next(replies.last()).0
    }
}

/// The effect that the run asks for when it gets the last of these answers.
pub open spec fn last_effect(row: operation::Row, replies: Seq<ProcessReply>) -> ProcessEffectView {
    state_after(row, replies.drop_last()).next(replies.last()).1
}

/// Whether the answer to the request, which is the second one, reports success.
pub open spec fn request_succeeded(replies: Seq<ProcessReply>) -> bool {
    replies[1] matches ProcessReply::Response(status) && request::reports_success(status)
}

proof fn lemma_run(row: operation::Row, replies: Seq<ProcessReply>)
    ensures
        ({
            let state = state_after(row, replies);
            if replies.len() == 0 {
                state == ProcessState::Ready(row)
            } else if replies.len() == 1 {
                state == ProcessState::Sending(row)
            } else if request_succeeded(replies) {
                match state {
                    ProcessState::Beginning(r) => r == row && replies.len() == 2,
                    ProcessState::Updating => true,
                    ProcessState::Committing => true,
                    ProcessState::RollingBack => true,
                    ProcessState::Finished => true,
                    _ => false,
                }
            } else {
                match state {
                    ProcessState::Timing(r) => r == row,
                    ProcessState::Rescheduling => true,
                    ProcessState::Finished => true,
                    _ => false,
                }
            }
        }),
    decreases replies.len(),
{
    if replies.len() > 0 {
        lemma_run(row, replies.drop_last());
    }
}

/// An operation is marked finished only if its request was answered with success, and rescheduled
/// only if it was not. Where it is rescheduled, the delay counts from the time that the clock gave.
pub proof fn law_outcome_follows_the_response(row: operation::Row, replies: Seq<ProcessReply>)
    requires
        replies.len() > 0,
    ensures
        match last_effect(row, replies) {
            ProcessEffectView::UpdateInTransaction(change) => {
                &&& replies.len() == 3
                &&& request_succeeded(replies)
                &&& change == row.finished()
            },
            ProcessEffectView::Commit => replies.len() >= 4 && request_succeeded(replies),
            ProcessEffectView::Update(change) => {
                &&& replies.len() >= 3
                &&& !request_succeeded(replies)
                &&& replies.last() matches ProcessReply::Time(now) && change == row.rescheduled(now)
            },
            _ => true,
        },
{
    let before = replies.drop_last();
    lemma_run(row, before);
    if before.len() > 0 {
        lemma_run(row, before.drop_last());
    }
}

/// The effect that the run asks for when it gets answer number `i`; answer number `i + 1` is the
/// one to this effect.
pub open spec fn effect_at(
    row: operation::Row,
    replies: Seq<ProcessReply>,
    i: int,
) -> ProcessEffectView {
    last_effect(row, replies.take(i + 1))
}

/// The state behind an effect of a run, seen from the one before it.
proof fn lemma_steps_back(row: operation::Row, replies: Seq<ProcessReply>, i: int)
    requires
        0 <= i < replies.len(),
    ensures
        i == 0 ==> state_after(row, replies.take(i)) == ProcessState::Ready(row),
        effect_at(row, replies, i) == state_after(row, replies.take(i)).next(replies[i]).1,
        state_after(row, replies.take(i + 1)) == state_after(row, replies.take(i)).next(
            replies[i],
        ).0,
{
    assert(replies.take(i + 1).drop_last() =~= replies.take(i));
    assert(replies.take(i + 1).last() == replies[i]);
}

/// What a run does, answer by answer. It posts the request that lists its operation. Where the
/// response has a status in the two hundreds, it marks the operation finished in a transaction; on
/// any other answer it reads the clock until that gives the time, and reschedules the operation.
/// Only then does it return.
pub proof fn law_each_answer_leads_on(row: operation::Row, replies: Seq<ProcessReply>, i: int)
    requires
        0 <= i < replies.len(),
    ensures
        ({
            let effect = effect_at(row, replies, i);
            if i == 0 {
                effect matches ProcessEffectView::Send(request) && {
                    &&& request.url == "https://data.turin.tac.build/stage-profiling"@
                    &&& request.accept == "application/json"@
                    &&& request.content_type == "application/json"@
                    &&& request.body == request::list_object_text("operationIds"@, row.id)
                }
            } else {
                match effect_at(row, replies, i - 1) {
                    ProcessEffectView::Send(_) => i == 1 && match replies[i] {
                        ProcessReply::Response(status) => if 200 <= status <= 299 {
                            effect is Begin
                        } else {
                            effect is ReadClock
                        },
                        _ => effect is ReadClock,
                    },
                    ProcessEffectView::Begin => if replies[i] is Done {
                        effect == ProcessEffectView::UpdateInTransaction(row.finished())
                    } else {
                        effect is Return
                    },
                    ProcessEffectView::UpdateInTransaction(_) => if replies[i] is Done {
                        effect is Commit
                    } else {
                        effect is Rollback
                    },
                    ProcessEffectView::Commit => effect is Return,
                    ProcessEffectView::Rollback => effect is Return,
                    ProcessEffectView::ReadClock => match replies[i] {
                        ProcessReply::Time(now) => effect == ProcessEffectView::Update(
                            row.rescheduled(now),
                        ),
                        _ => effect is ReadClock,
                    },
                    ProcessEffectView::Update(_) => effect is Return,
                    ProcessEffectView::Return => effect is Nothing,
                    ProcessEffectView::Nothing => effect is Nothing,
                }
            }
        }),
{
    lemma_steps_back(row, replies, i);
    lemma_run(row, replies.take(i));
    if i > 0 {
        lemma_steps_back(row, replies, i - 1);
        lemma_run(row, replies.take(i - 1));
    }
}

/// Where the run on an operation is over, or about to be, unless its request succeeded, its
/// rescheduling was asked for.
proof fn lemma_rescheduled(row: operation::Row, replies: Seq<ProcessReply>, n: int)
    requires
        1 < n <= replies.len(),
        !(replies[1] matches ProcessReply::Response(status) && 200 <= status <= 299),
    ensures
        ({
            let state = state_after(row, replies.take(n));
            state is Timing || exists|j: int|
                1 < j < n && replies[j] is Time && #[trigger] effect_at(row, replies, j)
                    == ProcessEffectView::Update(row.rescheduled(replies[j]->Time_0))
        }),
    decreases n,
{
    let before = replies.take(n - 1);
    lemma_steps_back(row, replies, n - 1);
    lemma_run(row, before);
    if n > 2 {
        assert(before[1] == replies[1]);
        lemma_rescheduled(row, replies, n - 1);
        if state_after(row, before) is Timing && replies[n - 1] is Time {
            assert(effect_at(row, replies, n - 1) == ProcessEffectView::Update(
                row.rescheduled(replies[n - 1]->Time_0),
            ));
        }
    }
}

/// No operation is dropped: a run whose request was not answered with a status in the two hundreds
/// does not return before it asked to reschedule its operation, from a time that the clock gave.
pub proof fn law_failed_operation_is_rescheduled(
    row: operation::Row,
    replies: Seq<ProcessReply>,
    n: int,
)
    requires
        0 <= n < replies.len(),
        effect_at(row, replies, n) is Return,
        n > 1 ==> !(replies[1] matches ProcessReply::Response(status) && 200 <= status <= 299),
    ensures
        n > 1,
        exists|j: int|
            1 < j < n && replies[j] is Time && #[trigger] effect_at(row, replies, j)
                == ProcessEffectView::Update(row.rescheduled(replies[j]->Time_0)),
{
    law_each_answer_leads_on(row, replies, n);
    if n > 1 {
        lemma_steps_back(row, replies, n);
        lemma_rescheduled(row, replies, n);
    } else if n == 1 {
        law_each_answer_leads_on(row, replies, 0);
    }
}

/// An operation whose request was answered with a status in the two hundreds is finished: where
/// nothing fails, the run writes that to its row and commits it before it returns.
pub proof fn law_successful_operation_is_finished(
    row: operation::Row,
    replies: Seq<ProcessReply>,
    status: u16,
)
    requires
        replies.len() >= 5,
        replies[1] == ProcessReply::Response(status),
        200 <= status <= 299,
        replies[2] is Done,
        replies[3] is Done,
    ensures
        effect_at(row, replies, 1) is Begin,
        effect_at(row, replies, 2) == ProcessEffectView::UpdateInTransaction(row.finished()),
        effect_at(row, replies, 3) is Commit,
        effect_at(row, replies, 4) is Return,
{
    law_each_answer_leads_on(row, replies, 0);
    law_each_answer_leads_on(row, replies, 1);
    law_each_answer_leads_on(row, replies, 2);
    law_each_answer_leads_on(row, replies, 3);
    law_each_answer_leads_on(row, replies, 4);
}

/// A run takes every answer, but for a time from which the retry of its operation overflows.
pub proof fn law_every_answer_is_accepted(state: ProcessState, reply: ProcessReply)
    ensures
        state.accepts(reply) <==> (state is Timing && reply is Time ==> retry::in_range(
            reply->Time_0,
            state->Timing_0.retry_count,
        )),
{
}

/// What a run and an effect say is what they hold.
pub proof fn law_runs_and_effects_are_read_as_they_are(
    model: operation::Model,
    request: StageProfilingRequest,
    change: operation::ActiveModel,
)
    ensures
        ProcessOperation::Ready(model)@ == ProcessState::Ready(model@),
        ProcessEffect::Send(request)@ == ProcessEffectView::Send(request@),
        ProcessEffect::Begin@ is Begin,
        ProcessEffect::UpdateInTransaction(change)@ == ProcessEffectView::UpdateInTransaction(
            change@,
        ),
        ProcessEffect::Commit@ is Commit,
        ProcessEffect::Rollback@ is Rollback,
        ProcessEffect::ReadClock@ is ReadClock,
        ProcessEffect::Update(change)@ == ProcessEffectView::Update(change@),
        ProcessEffect::Return@ is Return,
        ProcessEffect::Nothing@ is Nothing,
{
}

} // verus!

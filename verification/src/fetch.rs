//! Fetching the operations of an interval and saving them.
//!
//! The run is a coroutine: resumed with the answer to the effect it asked for last, it gives the
//! next effect to carry out. A first answer of any kind starts it.
use vstd::prelude::*;

use crate::casts;
use crate::interval;
use crate::operation;
use crate::status;

verus! {

/// Where the run stands, by the answer that it waits for.
#[derive(Debug, Clone, Copy, PartialEq, Eq)]
pub enum FetchStep {
    /// About to ask for the operations.
    Ready,
    /// Waiting for the operations.
    Fetching,
    /// Waiting for a transaction to begin.
    Beginning,
    /// Waiting for an operation to be inserted.
    Inserting,
    /// Waiting for the interval to be marked.
    Updating,
    /// Waiting for the transaction to be committed.
    Committing,
    /// Over.
    Finished,
}

/// The failure that ended a run.
#[derive(Debug, Clone, Copy, PartialEq, Eq)]
pub enum FetchError {
    Fetch,
    Begin,
    Update,
    Commit,
}

/// The answer to an effect of a run.
#[derive(Debug)]
pub enum FetchReply {
    /// The effect was carried out.
    Done,
    /// The effect failed.
    Failed,
    /// The client gave these operations.
    Operations(Vec<operation::Operation>),
}

/// What the run asks for.
#[derive(Debug)]
pub enum FetchEffect {
    /// Ask the client for the operations from `start` to `end`.
    Fetch { start: u64, end: u64 },
    /// Begin a transaction.
    Begin,
    /// Insert this operation, unless there is one with its id, which is no failure. A failure must
    /// leave the transaction usable: what follows runs in it.
    Insert(operation::ActiveModel),
    /// Write this change to the interval.
    Update(interval::ActiveModel),
    /// Commit the transaction.
    Commit,
    /// Return, with the error of the effect that failed if any did.
    Return(Result<(), FetchError>),
    /// Nothing: the run is over.
    Nothing,
}

/// A run over an interval, of whose operations the first `tried` were inserted or skipped.
#[derive(Debug)]
pub struct FetchOperations {
    interval: interval::Model,
    operations: Vec<operation::Operation>,
    tried: usize,
    step: FetchStep,
}

/// What an answer to an effect of a run says.
pub ghost enum FetchReplyView {
    Done,
    Failed,
    Operations(Seq<operation::Operation>),
}

/// What an effect of a run says.
pub ghost enum FetchEffectView {
    Fetch { start: u64, end: u64 },
    Begin,
    Insert(operation::Change),
    Update(interval::ActiveModel),
    Commit,
    Return(Result<(), FetchError>),
    Nothing,
}

/// What a run holds.
pub ghost struct FetchState {
    pub interval: interval::Model,
    pub operations: Seq<operation::Operation>,
    pub tried: int,
    pub step: FetchStep,
}

impl View for FetchReply {
    type V = FetchReplyView;

    open spec fn view(&self) -> FetchReplyView {
        match self {
            FetchReply::Done => FetchReplyView::Done,
            FetchReply::Failed => FetchReplyView::Failed,
            FetchReply::Operations(v) => FetchReplyView::Operations(v@),
        }
    }
}

impl View for FetchEffect {
    type V = FetchEffectView;

    open spec fn view(&self) -> FetchEffectView {
        match self {
            FetchEffect::Fetch { start, end } => FetchEffectView::Fetch {
                start: *start,
                end: *end,
            },
            FetchEffect::Begin => FetchEffectView::Begin,
            FetchEffect::Insert(row) => FetchEffectView::Insert(row@),
            FetchEffect::Update(change) => FetchEffectView::Update(*change),
            FetchEffect::Commit => FetchEffectView::Commit,
            FetchEffect::Return(r) => FetchEffectView::Return(*r),
            FetchEffect::Nothing => FetchEffectView::Nothing,
        }
    }
}

impl View for FetchOperations {
    type V = FetchState;

    closed spec fn view(&self) -> FetchState {
        FetchState {
            interval: self.interval,
            operations: self.operations@,
            tried: self.tried as int,
            step: self.step,
        }
    }
}

/// The new row of an operation.
pub open spec fn new_row(op: operation::Operation) -> operation::Change {
    operation::Change::pending(op.id@, op.timestamp)
}

impl FetchState {
    /// The run at its start.
    pub open spec fn start(interval: interval::Model) -> FetchState {
        FetchState { interval, operations: Seq::empty(), tried: 0, step: FetchStep::Ready }
    }

    /// No more operations were tried than there are.
    pub open spec fn wf(self) -> bool {
        0 <= self.tried <= self.operations.len() && (self.step is Inserting ==> self.tried
            < self.operations.len())
    }

    /// The run at another step.
    pub open spec fn at(self, step: FetchStep) -> FetchState {
        FetchState { step, ..self }
    }

    /// The run goes on with the next operation, or marks the interval once all were tried.
    pub open spec fn next_operation(self) -> (FetchState, FetchEffectView) {
        if self.tried < self.operations.len() {
            (
                self.at(FetchStep::Inserting),
                FetchEffectView::Insert(new_row(self.operations[self.tried])),
            )
        } else {
            (self.at(FetchStep::Updating), FetchEffectView::Update(self.interval.finished()))
        }
    }

    /// The run ends.
    pub open spec fn end(self, result: Result<(), FetchError>) -> (FetchState, FetchEffectView) {
        (self.at(FetchStep::Finished), FetchEffectView::Return(result))
    }

    /// The next state and effect. An answer that does not fit the effect counts as a failure; the
    /// failure to insert an operation does not stop the others.
    pub open spec fn next(self, reply: FetchReplyView) -> (FetchState, FetchEffectView) {
        match self.step {
            FetchStep::Ready => (
                self.at(FetchStep::Fetching),
                FetchEffectView::Fetch {
                    start: casts::unsigned_of(self.interval.start),
                    end: casts::unsigned_of(self.interval.end),
                },
            ),
            FetchStep::Fetching => match reply {
                FetchReplyView::Operations(operations) => (
                    FetchState { operations, tried: 0, step: FetchStep::Beginning, ..self },
                    FetchEffectView::Begin,
                ),
                _ => self.end(Err(FetchError::Fetch)),
            },
            FetchStep::Beginning => match reply {
                FetchReplyView::Done => self.next_operation(),
                _ => self.end(Err(FetchError::Begin)),
            },
            FetchStep::Inserting => (FetchState { tried: self.tried + 1, ..self }).next_operation(),
            FetchStep::Updating => match reply {
                FetchReplyView::Done => (self.at(FetchStep::Committing), FetchEffectView::Commit),
                _ => self.end(Err(FetchError::Update)),
            },
            FetchStep::Committing => match reply {
                FetchReplyView::Done => self.end(Ok(())),
                _ => self.end(Err(FetchError::Commit)),
            },
            FetchStep::Finished => (self, FetchEffectView::Nothing),
        }
    }
}

impl FetchOperations {
    #[verifier::type_invariant]
    spec fn inv(self) -> bool {
        self@.wf()
    }

    /// A run over this interval, its operations not fetched yet.
    pub fn new(interval: interval::Model) -> (run: FetchOperations)
        ensures
            run@ == FetchState::start(interval),
    {
        let run = FetchOperations {
            interval,
            operations: Vec::new(),
            tried: 0,
            step: FetchStep::Ready,
        };
        assert(run@.operations =~= Seq::empty());
        run
    }

    fn at(self, step: FetchStep) -> (run: FetchOperations)
        requires
            step is Inserting ==> self@.tried < self@.operations.len(),
        ensures
            run@ == self@.at(step),
    {
        proof {
            use_type_invariant(&self);
        }
        FetchOperations {
            interval: self.interval,
            operations: self.operations,
            tried: self.tried,
            step,
        }
    }

    fn end(self, result: Result<(), FetchError>) -> (r: (FetchOperations, FetchEffect))
        ensures
            (r.0@, r.1@) == self@.end(result),
    {
        (self.at(FetchStep::Finished), FetchEffect::Return(result))
    }

    fn next_operation(self) -> (r: (FetchOperations, FetchEffect))
        ensures
            (r.0@, r.1@) == self@.next_operation(),
    {
        if self.tried < self.operations.len() {
            let row = self.operations[self.tried].new_pending();
            (self.at(FetchStep::Inserting), FetchEffect::Insert(row))
        } else {
            let change = self.interval.finish();
            (self.at(FetchStep::Updating), FetchEffect::Update(change))
        }
    }

    /// Goes on after the answer to the effect asked for last.
    pub fn resume(self, reply: FetchReply) -> (r: (FetchOperations, FetchEffect))
        ensures
            (r.0@, r.1@) == self@.next(reply@),
    {
        proof {
            use_type_invariant(&self);
        }
        match self.step {
            FetchStep::Ready => {
                let start: u64 = casts::to_unsigned(self.interval.start);
                let end: u64 = casts::to_unsigned(self.interval.end);
                (self.at(FetchStep::Fetching), FetchEffect::Fetch { start, end })
            },
            FetchStep::Fetching => match reply {
                FetchReply::Operations(operations) => {
                    let run = FetchOperations {
                        interval: self.interval,
                        operations,
                        tried: 0,
                        step: FetchStep::Beginning,
                    };
                    (run, FetchEffect::Begin)
                },
                _ => self.end(Err(FetchError::Fetch)),
            },
            FetchStep::Beginning => match reply {
                FetchReply::Done => self.next_operation(),
                _ => self.end(Err(FetchError::Begin)),
            },
            FetchStep::Inserting => {
                assert(self.tried < self.operations.len());
                let run = FetchOperations {
                    interval: self.interval,
                    operations: self.operations,
                    tried: self.tried + 1,
                    step: FetchStep::Beginning,
                };
                run.next_operation()
            },
            FetchStep::Updating => match reply {
                FetchReply::Done => (self.at(FetchStep::Committing), FetchEffect::Commit),
                _ => self.end(Err(FetchError::Update)),
            },
            FetchStep::Committing => match reply {
                FetchReply::Done => self.end(Ok(())),
                _ => self.end(Err(FetchError::Commit)),
            },
            FetchStep::Finished => (self, FetchEffect::Nothing),
        }
    }
}

/// The run after it was resumed with these answers, one after the other.
pub open spec fn state_after(start: FetchState, replies: Seq<FetchReplyView>) -> FetchState
    decreases replies.len(),
{
    if replies.len() == 0 {
        start
    } else {
        state_after(start, replies.drop_last()).next(replies.last()).0
    }
}

/// The effect that the run asks for when it gets answer number `i`; answer number `i + 1` is the
/// one to this effect.
pub open spec fn effect_at(
    start: FetchState,
    replies: Seq<FetchReplyView>,
    i: int,
) -> FetchEffectView {
    state_after(start, replies.take(i)).next(replies[i]).1
}

/// The rows that the run asked to insert, in the order in which it did.
pub open spec fn inserted(start: FetchState, replies: Seq<FetchReplyView>) -> Seq<operation::Change>
    decreases replies.len(),
{
    if replies.len() == 0 {
        Seq::empty()
    } else {
        let before = inserted(start, replies.drop_last());
        match effect_at(start, replies, replies.len() - 1) {
            FetchEffectView::Insert(row) => before.push(row),
            _ => before,
        }
    }
}

/// What a run changes: the table of operations, by their ids, and the row of its interval.
pub ghost struct Tables {
    pub operations: Map<Seq<char>, operation::Row>,
    pub interval: interval::Model,
}

/// What the transaction of the run sees after these answers, if it was `tables` before: each row
/// that the run asked to insert was inserted where the answer says so, unless there was one with
/// its id, and the change to the interval was written where the answer says so.
pub open spec fn written(start: FetchState, replies: Seq<FetchReplyView>, tables: Tables) -> Tables
    decreases replies.len(),
{
    if replies.len() <= 1 {
        tables
    } else {
        let before = written(start, replies.drop_last(), tables);
        match effect_at(start, replies, replies.len() - 2) {
            FetchEffectView::Insert(row) if replies.last() is Done => Tables {
                operations: row.inserted_into(before.operations),
                ..before
            },
            FetchEffectView::Update(change) if replies.last() is Done => Tables {
                interval: change.applied(before.interval),
                ..before
            },
            _ => before,
        }
    }
}

/// What the database holds after these answers, if it held `tables` before: what the transaction
/// saw when its commit succeeded.
pub open spec fn committed(
    start: FetchState,
    replies: Seq<FetchReplyView>,
    tables: Tables,
) -> Tables
    decreases replies.len(),
{
    if replies.len() <= 1 {
        tables
    } else {
        let before = replies.drop_last();
        if effect_at(start, replies, replies.len() - 2) is Commit && replies.last() is Done {
            written(start, before, tables)
        } else {
            committed(start, before, tables)
        }
    }
}

/// The row that an operation is stored as: pending, its type not known yet.
pub open spec fn stored_row(op: operation::Operation) -> operation::Row {
    operation::Row {
        id: op.id@,
        operation_type: None,
        timestamp: casts::signed_of(op.timestamp),
        status: status::PENDING,
        next_retry: None,
        retry_count: 0,
    }
}

/// Whether operation number `k` is the first with this id whose insert succeeded. Answers number
/// zero to two start the run, give the operations and begin the transaction, so answer number
/// `k + 3` is the one to its insert.
pub open spec fn first_inserted(
    operations: Seq<operation::Operation>,
    replies: Seq<FetchReplyView>,
    id: Seq<char>,
    k: int,
) -> bool {
    &&& 0 <= k < operations.len()
    &&& operations[k].id@ == id
    &&& replies[k + 3] is Done
    &&& forall|j: int|
        0 <= j < k && (#[trigger] operations[j]).id@ == id ==> !(replies[j + 3] is Done)
}

/// Whether every insert that was answered succeeded.
pub open spec fn inserts_succeeded(start: FetchState, replies: Seq<FetchReplyView>) -> bool {
    forall|i: int|
        1 <= i < replies.len() && (#[trigger] effect_at(start, replies, i - 1)) is Insert
            ==> replies[i] is Done
}

/// The new rows of these operations.
pub open spec fn new_rows(operations: Seq<operation::Operation>) -> Seq<operation::Change> {
    Seq::new(operations.len(), |i: int| new_row(operations[i]))
}

/// One step of a run, seen from its last answer.
proof fn lemma_last_step(start: FetchState, replies: Seq<FetchReplyView>)
    requires
        replies.len() > 0,
    ensures
        ({
            let before = state_after(start, replies.drop_last());
            &&& state_after(start, replies) == before.next(replies.last()).0
            &&& effect_at(start, replies, replies.len() - 1) == before.next(replies.last()).1
        }),
{
    assert(replies.take(replies.len() - 1) =~= replies.drop_last());
}

/// What holds of a run whatever the answers are.
proof fn lemma_run(interval: interval::Model, replies: Seq<FetchReplyView>)
    ensures
        ({
            let start = FetchState::start(interval);
            let state = state_after(start, replies);
            let rows = inserted(start, replies);
            let all = new_rows(state.operations);
            &&& state.wf()
            &&& state.interval == interval
            &&& state.step is Ready <==> replies.len() == 0
            &&& state.step is Fetching <==> replies.len() == 1
            &&& replies.len() >= 2 && !(state.step is Finished) ==> replies[1]
                == FetchReplyView::Operations(state.operations)
            &&& replies.len() >= 2 && replies[1] is Operations ==> replies[1]
                == FetchReplyView::Operations(state.operations)
            &&& replies.len() >= 2 && !(replies[1] is Operations) ==> state.operations
                == Seq::<operation::Operation>::empty()
            &&& match state.step {
                FetchStep::Ready => rows.len() == 0 && state.operations.len() == 0,
                FetchStep::Fetching => rows.len() == 0 && state.operations.len() == 0,
                FetchStep::Beginning => rows.len() == 0 && state.tried == 0,
                FetchStep::Inserting => rows == all.take(state.tried + 1),
                FetchStep::Updating => rows == all,
                FetchStep::Committing => rows == all,
                FetchStep::Finished => rows == all || rows.len() == 0,
            }
        }),
    decreases replies.len(),
{
    if replies.len() > 0 {
        let start = FetchState::start(interval);
        let before = replies.drop_last();
        lemma_run(interval, before);
        lemma_last_step(start, replies);
        let state = state_after(start, before);
        let next = state_after(start, replies);
        let all = new_rows(next.operations);
        if next.step is Inserting {
            assert(all.take(next.tried).push(all[next.tried]) =~= all.take(next.tried + 1));
            if state.step is Beginning {
                assert(all.take(0) =~= Seq::<operation::Change>::empty());
                assert(inserted(start, before) =~= all.take(0));
            }
        }
        if next.step is Updating {
            if state.step is Inserting {
                assert(all.take(next.tried) =~= all);
            } else {
                assert(inserted(start, before) =~= all);
            }
        }
    }
}

/// An interval is marked finished only once every operation that the client gave was tried, in the
/// order in which it gave them; and a run returns without an error only once that was committed.
pub proof fn law_finished_means_every_operation_was_tried(
    interval: interval::Model,
    replies: Seq<FetchReplyView>,
)
    requires
        replies.len() > 0,
    ensures
        ({
            let start = FetchState::start(interval);
            let effect = effect_at(start, replies, replies.len() - 1);
            &&& effect is Update || effect is Commit || effect == FetchEffectView::Return(
                Ok(()),
            ) ==> {
                &&& replies.len() >= 3
                &&& replies[1] matches FetchReplyView::Operations(operations) && inserted(
                    start,
                    replies,
                ) == new_rows(operations)
            }
            &&& effect matches FetchEffectView::Update(change) ==> change == interval.finished()
        }),
{
    let start = FetchState::start(interval);
    lemma_run(interval, replies.drop_last());
    lemma_run(interval, replies);
    lemma_last_step(start, replies);
}

/// A run that was given operations and whose transaction began never returns before every one of
/// them was tried, even if inserting some of them failed.
pub proof fn law_failed_insert_does_not_stop_the_run(
    interval: interval::Model,
    replies: Seq<FetchReplyView>,
)
    requires
        replies.len() >= 3,
        replies[1] is Operations,
        replies[2] is Done,
        effect_at(FetchState::start(interval), replies, replies.len() - 1) is Return,
    ensures
        inserted(FetchState::start(interval), replies) == new_rows(replies[1]->Operations_0),
{
    let start = FetchState::start(interval);
    lemma_run(interval, replies.drop_last());
    lemma_run(interval, replies);
    lemma_last_step(start, replies);
    if replies.len() == 3 {
        assert(replies.drop_last().last() == replies[1]);
        lemma_last_step(start, replies.drop_last());
        lemma_run(interval, replies.drop_last().drop_last());
    } else {
        lemma_begun(interval, replies.drop_last());
    }
}

/// Where the transaction of a run began, the run never goes back to beginning one.
proof fn lemma_begun(interval: interval::Model, replies: Seq<FetchReplyView>)
    requires
        replies.len() >= 3,
        replies[1] is Operations,
        replies[2] is Done,
    ensures
        ({
            let state = state_after(FetchState::start(interval), replies);
            !(state.step is Beginning) && !(state.step is Ready) && !(state.step is Fetching)
        }),
    decreases replies.len(),
{
    let start = FetchState::start(interval);
    lemma_last_step(start, replies);
    if replies.len() == 3 {
        lemma_run(interval, replies.drop_last().drop_last());
        lemma_last_step(start, replies.drop_last());
    } else {
        lemma_begun(interval, replies.drop_last());
    }
}

/// A run that returns an error names the effect that failed, which is the one answered last.
pub proof fn law_error_names_the_failed_effect(
    interval: interval::Model,
    replies: Seq<FetchReplyView>,
    error: FetchError,
)
    requires
        replies.len() > 0,
        effect_at(FetchState::start(interval), replies, replies.len() - 1)
            == FetchEffectView::Return(Err(error)),
    ensures
        ({
            let n = replies.len() as int;
            let answered = effect_at(FetchState::start(interval), replies, n - 2);
            &&& n >= 2
            &&& match error {
                FetchError::Fetch => answered is Fetch && !(replies[n - 1] is Operations),
                FetchError::Begin => answered is Begin && !(replies[n - 1] is Done),
                FetchError::Update => answered is Update && !(replies[n - 1] is Done),
                FetchError::Commit => answered is Commit && !(replies[n - 1] is Done),
            }
        }),
{
    let start = FetchState::start(interval);
    let n = replies.len() as int;
    let before = replies.drop_last();
    lemma_last_step(start, replies);
    lemma_run(interval, before);
    if n > 1 {
        lemma_run(interval, before.drop_last());
        lemma_last_step(start, before);
        assert(before.take(n - 2) =~= replies.take(n - 2));
    }
}

/// What a run asks to insert next, and that earlier effects do not depend on later answers.
proof fn lemma_asked_to_insert(interval: interval::Model, replies: Seq<FetchReplyView>)
    requires
        replies.len() > 1,
    ensures
        ({
            let start = FetchState::start(interval);
            let before = replies.drop_last();
            let state = state_after(start, before);
            let effect = effect_at(start, replies, replies.len() - 2);
            &&& effect == effect_at(start, before, before.len() - 1)
            &&& effect is Insert <==> state.step is Inserting
            &&& effect is Insert ==> effect == FetchEffectView::Insert(
                new_row(state.operations[state.tried]),
            )
        }),
{
    let start = FetchState::start(interval);
    let before = replies.drop_last();
    lemma_last_step(start, before);
    lemma_run(interval, before.drop_last());
    assert(before.take(before.len() - 1) =~= replies.take(replies.len() - 2));
}

/// How many answers a run has had, by its step.
proof fn lemma_answers(interval: interval::Model, replies: Seq<FetchReplyView>)
    ensures
        ({
            let state = state_after(FetchState::start(interval), replies);
            match state.step {
                FetchStep::Ready => state.tried == 0,
                FetchStep::Fetching => state.tried == 0,
                FetchStep::Beginning => replies.len() == 2 && state.tried == 0,
                FetchStep::Inserting => replies.len() == state.tried + 3,
                FetchStep::Updating => replies.len() == state.tried + 3 && state.tried
                    == state.operations.len(),
                FetchStep::Committing => replies.len() == state.tried + 4 && state.tried
                    == state.operations.len(),
                FetchStep::Finished => state.tried == 0 || (replies.len() > state.tried + 3
                    && state.tried == state.operations.len()),
            }
        }),
    decreases replies.len(),
{
    if replies.len() > 0 {
        lemma_answers(interval, replies.drop_last());
        lemma_run(interval, replies.drop_last());
        lemma_last_step(FetchState::start(interval), replies);
    }
}

/// What the transaction of a run sees of the operations, once `tried` inserts were answered.
spec fn operations_written(
    before: Map<Seq<char>, operation::Row>,
    after: Map<Seq<char>, operation::Row>,
    operations: Seq<operation::Operation>,
    replies: Seq<FetchReplyView>,
    tried: int,
) -> bool {
    &&& forall|id: Seq<char>| #[trigger]
        before.contains_key(id) ==> after.contains_key(id) && after[id] == before[id]
    &&& forall|id: Seq<char>, k: int|
        k < tried && !before.contains_key(id) && #[trigger] first_inserted(
            operations,
            replies,
            id,
            k,
        ) ==> after.contains_key(id) && after[id] == stored_row(operations[k])
    &&& forall|id: Seq<char>| #[trigger]
        after.contains_key(id) ==> before.contains_key(id) || exists|k: int|
            k < tried && #[trigger] first_inserted(operations, replies, id, k)
}

/// What the transaction of a run sees, by the step of the run.
proof fn lemma_written(interval: interval::Model, replies: Seq<FetchReplyView>, tables: Tables)
    ensures
        ({
            let start = FetchState::start(interval);
            let state = state_after(start, replies);
            let after = written(start, replies, tables);
            &&& operations_written(
                tables.operations,
                after.operations,
                state.operations,
                replies,
                state.tried,
            )
            &&& match state.step {
                FetchStep::Committing => after.interval == interval.finished().applied(
                    tables.interval,
                ),
                FetchStep::Finished => true,
                _ => after.interval == tables.interval,
            }
        }),
    decreases replies.len(),
{
    let start = FetchState::start(interval);
    if replies.len() > 0 {
        let before = replies.drop_last();
        let state = state_after(start, before);
        let next = state_after(start, replies);
        let old = written(start, before, tables).operations;
        let new = written(start, replies, tables).operations;
        lemma_written(interval, before, tables);
        lemma_answers(interval, before);
        lemma_run(interval, before);
        lemma_last_step(start, replies);
        if replies.len() > 1 {
            lemma_asked_to_insert(interval, replies);
            lemma_asked_to_update(interval, replies);
        }
        let t = state.tried;
        if t == 0 && !(state.step is Inserting) {
            assert(next.tried == 0);
            assert(new == old);
            assert forall|id: Seq<char>| #[trigger] new.contains_key(id) implies
                tables.operations.contains_key(id) by {}
        } else {
            let operations = next.operations;
            assert(operations == state.operations);
            assert forall|id: Seq<char>, k: int| k < t implies (#[trigger] first_inserted(
                operations,
                replies,
                id,
                k,
            ) <==> first_inserted(operations, before, id, k)) by {
                if 0 <= k < t {
                    assert(replies[k + 3] == before[k + 3]);
                    assert forall|j: int| 0 <= j < k implies replies[j + 3] == #[trigger] before[j
                        + 3] by {}
                }
            }
            if state.step is Inserting {
                lemma_one_insert(tables.operations, old, new, operations, before, replies, t);
            } else {
                assert(new == old);
                assert forall|id: Seq<char>| #[trigger]
                    new.contains_key(id) implies tables.operations.contains_key(id) || exists|k: int|
                    k < t && #[trigger] first_inserted(operations, replies, id, k) by {
                    if !tables.operations.contains_key(id) {
                        let k = choose|k: int|
                            k < t && #[trigger] first_inserted(operations, before, id, k);
                        assert(first_inserted(operations, replies, id, k));
                    }
                }
            }
        }
    }
}

/// One more answer to an insert.
proof fn lemma_one_insert(
    first: Map<Seq<char>, operation::Row>,
    old: Map<Seq<char>, operation::Row>,
    new: Map<Seq<char>, operation::Row>,
    operations: Seq<operation::Operation>,
    before: Seq<FetchReplyView>,
    replies: Seq<FetchReplyView>,
    t: int,
)
    requires
        0 <= t < operations.len(),
        replies.len() == t + 4,
        before == replies.drop_last(),
        operations_written(first, old, operations, before, t),
        new == (if replies.last() is Done {
            new_row(operations[t]).inserted_into(old)
        } else {
            old
        }),
        forall|id: Seq<char>, k: int|
            k < t ==> (#[trigger] first_inserted(operations, replies, id, k) <==> first_inserted(
                operations,
                before,
                id,
                k,
            )),
    ensures
        operations_written(first, new, operations, replies, t + 1),
{
    let added = operations[t].id@;
    let row = stored_row(operations[t]);
    assert(new_row(operations[t]).applied(operation::Row::blank()) == row);
    assert(replies[t + 3] == replies.last());
    assert forall|id: Seq<char>, k: int|
        k < t + 1 && !first.contains_key(id) && #[trigger] first_inserted(
            operations,
            replies,
            id,
            k,
        ) implies new.contains_key(id) && new[id] == stored_row(operations[k]) by {
        if k < t {
            assert(first_inserted(operations, before, id, k));
        } else if old.contains_key(id) {
            let j = choose|j: int| j < t && #[trigger] first_inserted(operations, before, id, j);
            assert(first_inserted(operations, replies, id, j));
            assert(operations[j].id@ == id);
        }
    }
    assert forall|id: Seq<char>| #[trigger] new.contains_key(id) implies first.contains_key(id)
        || exists|k: int| k < t + 1 && #[trigger] first_inserted(operations, replies, id, k) by {
        if !first.contains_key(id) {
            if old.contains_key(id) {
                let k = choose|k: int| k < t && #[trigger] first_inserted(operations, before, id, k);
                assert(first_inserted(operations, replies, id, k));
            } else {
                assert forall|j: int|
                    0 <= j < t && (#[trigger] operations[j]).id@ == id implies !(replies[j
                    + 3] is Done) by {
                    if replies[j + 3] is Done {
                        lemma_some_is_first(operations, replies, id, j);
                        let k = choose|k: int|
                            k <= j && #[trigger] first_inserted(operations, replies, id, k);
                        assert(first_inserted(operations, before, id, k));
                    }
                }
                assert(first_inserted(operations, replies, id, t));
            }
        }
    }
}

/// Where some insert of an id succeeded, one of them is the first.
proof fn lemma_some_is_first(
    operations: Seq<operation::Operation>,
    replies: Seq<FetchReplyView>,
    id: Seq<char>,
    k: int,
)
    requires
        0 <= k < operations.len(),
        operations[k].id@ == id,
        replies[k + 3] is Done,
    ensures
        exists|j: int| j <= k && #[trigger] first_inserted(operations, replies, id, j),
    decreases k,
{
    if exists|j: int|
        0 <= j < k && (#[trigger] operations[j]).id@ == id && replies[j + 3] is Done {
        let j = choose|j: int|
            0 <= j < k && (#[trigger] operations[j]).id@ == id && replies[j + 3] is Done;
        lemma_some_is_first(operations, replies, id, j);
        let i = choose|i: int| i <= j && #[trigger] first_inserted(operations, replies, id, i);
        assert(i <= k && first_inserted(operations, replies, id, i));
    } else {
        assert(first_inserted(operations, replies, id, k));
    }
}

/// When a run asks to mark its interval, and what it asks for then; when it asks to commit.
proof fn lemma_asked_to_update(interval: interval::Model, replies: Seq<FetchReplyView>)
    requires
        replies.len() > 1,
    ensures
        ({
            let start = FetchState::start(interval);
            let step = state_after(start, replies.drop_last()).step;
            let effect = effect_at(start, replies, replies.len() - 2);
            &&& effect is Update <==> step is Updating
            &&& effect is Update ==> effect == FetchEffectView::Update(interval.finished())
            &&& effect is Commit <==> step is Committing
        }),
{
    let start = FetchState::start(interval);
    let before = replies.drop_last();
    lemma_last_step(start, before);
    lemma_run(interval, before.drop_last());
    assert(before.take(before.len() - 1) =~= replies.take(replies.len() - 2));
}

/// Until its commit succeeds, a run leaves the database as it is; and where it returned with
/// another error than that of the commit, it never asked for one.
proof fn lemma_committed(interval: interval::Model, replies: Seq<FetchReplyView>, tables: Tables)
    ensures
        ({
            let start = FetchState::start(interval);
            let state = state_after(start, replies);
            !(state.step is Finished) ==> committed(start, replies, tables) == tables
        }),
        ({
            let start = FetchState::start(interval);
            let state = state_after(start, replies);
            !(state.step is Finished) && !(state.step is Committing) ==> forall|i: int|
                0 <= i < replies.len() ==> !(#[trigger] effect_at(start, replies, i) is Commit)
        }),
    decreases replies.len(),
{
    let start = FetchState::start(interval);
    if replies.len() > 0 {
        let before = replies.drop_last();
        lemma_committed(interval, before, tables);
        lemma_last_step(start, replies);
        if replies.len() > 1 {
            lemma_asked_to_update(interval, replies);
        }
        let state = state_after(start, replies);
        if !(state.step is Finished) && !(state.step is Committing) {
            assert forall|i: int| 0 <= i < replies.len() implies !(#[trigger] effect_at(
                start,
                replies,
                i,
            ) is Commit) by {
                if i < before.len() {
                    assert(before.take(i) =~= replies.take(i));
                    assert(effect_at(start, before, i) == effect_at(start, replies, i));
                }
            }
        }
    }
}

/// A run that fails changes nothing: one that returns an error, of anything but the commit, never
/// asked for a commit, and leaves the operations and the interval as they were.
pub proof fn law_failed_run_changes_nothing(
    interval: interval::Model,
    replies: Seq<FetchReplyView>,
    tables: Tables,
    error: FetchError,
)
    requires
        replies.len() > 0,
        effect_at(FetchState::start(interval), replies, replies.len() - 1)
            == FetchEffectView::Return(Err(error)),
        error != FetchError::Commit,
    ensures
        committed(FetchState::start(interval), replies, tables) == tables,
        forall|i: int|
            0 <= i < replies.len() ==> !(#[trigger] effect_at(
                FetchState::start(interval),
                replies,
                i,
            ) is Commit),
{
    let start = FetchState::start(interval);
    let before = replies.drop_last();
    lemma_last_step(start, replies);
    lemma_committed(interval, before, tables);
    if replies.len() > 1 {
        lemma_asked_to_update(interval, replies);
    }
    assert forall|i: int| 0 <= i < replies.len() implies !(#[trigger] effect_at(
        start,
        replies,
        i,
    ) is Commit) by {
        if i < before.len() {
            assert(before.take(i) =~= replies.take(i));
            assert(effect_at(start, before, i) == effect_at(start, replies, i));
        }
    }
}

/// A run that returns without an error has stored the operations it was given: every row that was
/// there stays as it was, each new id has the row of its first operation whose insert succeeded,
/// and nothing else is added. Its interval is marked finished, and no other column of it changes.
pub proof fn law_finished_run_stores_the_operations(
    interval: interval::Model,
    replies: Seq<FetchReplyView>,
    tables: Tables,
)
    requires
        replies.len() > 0,
        effect_at(FetchState::start(interval), replies, replies.len() - 1)
            == FetchEffectView::Return(Ok(())),
    ensures
        replies.len() > 1,
        replies[1] is Operations,
        ({
            let operations = replies[1]->Operations_0;
            let after = committed(FetchState::start(interval), replies, tables);
            &&& replies.len() == operations.len() + 5
            &&& forall|id: Seq<char>| #[trigger]
                tables.operations.contains_key(id) ==> after.operations.contains_key(id)
                    && after.operations[id] == tables.operations[id]
            &&& forall|id: Seq<char>, k: int|
                !tables.operations.contains_key(id) && #[trigger] first_inserted(
                    operations,
                    replies,
                    id,
                    k,
                ) ==> after.operations.contains_key(id) && after.operations[id] == stored_row(
                    operations[k],
                )
            &&& forall|id: Seq<char>| #[trigger]
                after.operations.contains_key(id) ==> tables.operations.contains_key(id)
                    || exists|k: int| #[trigger] first_inserted(operations, replies, id, k)
            &&& after.interval == (interval::Model {
                status: status::FINISHED,
                ..tables.interval
            })
        }),
{
    let start = FetchState::start(interval);
    let before = replies.drop_last();
    lemma_last_step(start, replies);
    lemma_run(interval, before);
    lemma_answers(interval, before);
    lemma_written(interval, before, tables);
    lemma_asked_to_update(interval, replies);
    let operations = replies[1]->Operations_0;
    let after = committed(start, replies, tables);
    assert(before[1] == replies[1]);
    assert forall|id: Seq<char>, k: int| #[trigger]
        first_inserted(operations, replies, id, k) <==> first_inserted(
            operations,
            before,
            id,
            k,
        ) by {
        if 0 <= k < operations.len() {
            assert(replies[k + 3] == before[k + 3]);
            assert forall|j: int| 0 <= j < k implies replies[j + 3] == #[trigger] before[j + 3] by {}
        }
    }
    assert forall|id: Seq<char>| #[trigger] after.operations.contains_key(id) implies
        tables.operations.contains_key(id) || exists|k: int| #[trigger]
        first_inserted(operations, replies, id, k) by {
        if !tables.operations.contains_key(id) {
            let k = choose|k: int|
                k < operations.len() && #[trigger] first_inserted(operations, before, id, k);
            assert(first_inserted(operations, replies, id, k));
        }
    }
}

/// A run that is given only operations that the table holds, over an interval that is finished,
/// leaves both as they are.
proof fn lemma_nothing_new(interval: interval::Model, replies: Seq<FetchReplyView>, tables: Tables)
    requires
        tables.interval.status == status::FINISHED,
        replies.len() > 1 ==> {
            &&& replies[1] is Operations
            &&& forall|k: int|
                0 <= k < replies[1]->Operations_0.len() ==> tables.operations.contains_key(
                    #[trigger] replies[1]->Operations_0[k].id@,
                )
        },
    ensures
        written(FetchState::start(interval), replies, tables) == tables,
        committed(FetchState::start(interval), replies, tables) == tables,
    decreases replies.len(),
{
    if replies.len() > 1 {
        let before = replies.drop_last();
        lemma_nothing_new(interval, before, tables);
        lemma_run(interval, before);
        lemma_asked_to_insert(interval, replies);
        lemma_asked_to_update(interval, replies);
        let state = state_after(FetchState::start(interval), before);
        if state.step is Inserting {
            assert(before[1] == replies[1]);
            assert(tables.operations.contains_key(replies[1]->Operations_0[state.tried].id@));
        }
    }
}

/// Fetching an interval a second time changes nothing: once a run has returned without an error
/// and without a failed insert, any run that is given the same operations, while the operations of
/// the first are still there and the interval is still finished, leaves the database as it is.
pub proof fn law_fetching_again_changes_nothing(
    interval: interval::Model,
    tables: Tables,
    first: Seq<FetchReplyView>,
    between: Tables,
    second: Seq<FetchReplyView>,
)
    requires
        first.len() > 0,
        effect_at(FetchState::start(interval), first, first.len() - 1) == FetchEffectView::Return(
            Ok(()),
        ),
        inserts_succeeded(FetchState::start(interval), first),
        committed(FetchState::start(interval), first, tables).operations.dom().subset_of(
            between.operations.dom(),
        ),
        between.interval.status == status::FINISHED,
        second.len() > 1 ==> second[1] == first[1],
    ensures
        committed(FetchState::start(interval), second, between) == between,
        written(FetchState::start(interval), second, between) == between,
{
    let start = FetchState::start(interval);
    law_finished_run_stores_the_operations(interval, first, tables);
    let operations = first[1]->Operations_0;
    let after = committed(start, first, tables);
    assert forall|k: int| 0 <= k < operations.len() implies between.operations.contains_key(
        #[trigger] operations[k].id@,
    ) by {
        let id = operations[k].id@;
        lemma_insert_answered(interval, first, k);
        assert(effect_at(start, first, k + 3 - 1) is Insert);
        lemma_some_is_first(operations, first, id, k);
        let j = choose|j: int| j <= k && #[trigger] first_inserted(operations, first, id, j);
        assert(first_inserted(operations, first, id, j));
        assert(after.operations.contains_key(id));
        assert(after.operations.dom().contains(id));
    }
    lemma_nothing_new(interval, second, between);
}

/// In a run that returned without an error, the effect before answer number `k + 3` is the insert
/// of operation number `k`.
proof fn lemma_insert_answered(interval: interval::Model, replies: Seq<FetchReplyView>, k: int)
    requires
        replies.len() > 0,
        effect_at(FetchState::start(interval), replies, replies.len() - 1)
            == FetchEffectView::Return(Ok(())),
        0 <= k < replies.len() - 5,
    ensures
        effect_at(FetchState::start(interval), replies, k + 2) is Insert,
{
    let start = FetchState::start(interval);
    let n = replies.len() as int;
    lemma_last_step(start, replies);
    assert(replies.take(n - 1) =~= replies.drop_last());
    lemma_never_over_before(interval, replies, n - 1, k + 3);
    let prefix = replies.take(k + 3);
    let state = state_after(start, prefix);
    lemma_run(interval, prefix);
    lemma_answers(interval, prefix);
    lemma_run(interval, replies.take(n - 1));
    lemma_answers(interval, replies.take(n - 1));
    assert(prefix[1] == replies[1]);
    assert(replies.take(n - 1)[1] == replies[1]);
    lemma_last_step(start, prefix);
    lemma_run(interval, prefix.drop_last());
    lemma_answers(interval, prefix.drop_last());
    assert(prefix.drop_last() =~= replies.take(k + 2));
    assert(prefix.last() == replies[k + 2]);
}

/// A run that is not over after some answers was not over after fewer.
proof fn lemma_never_over_before(
    interval: interval::Model,
    replies: Seq<FetchReplyView>,
    n: int,
    m: int,
)
    requires
        0 <= m <= n <= replies.len(),
        !(state_after(FetchState::start(interval), replies.take(n)).step is Finished),
    ensures
        !(state_after(FetchState::start(interval), replies.take(m)).step is Finished),
    decreases n - m,
{
    if m < n {
        lemma_last_step(FetchState::start(interval), replies.take(n));
        assert(replies.take(n).drop_last() =~= replies.take(n - 1));
        lemma_never_over_before(interval, replies, n - 1, m);
    }
}

/// What a run does, answer by answer. It asks the client for the time between the two instants in
/// the columns of its interval, whatever the other columns hold; then, in one transaction, it
/// inserts the operations that the client gave, one after the other, whatever comes of each, marks
/// the interval finished and commits. Anything else that fails ends it with the error of its own.
pub proof fn law_each_answer_leads_on(
    interval: interval::Model,
    replies: Seq<FetchReplyView>,
    i: int,
)
    requires
        0 <= i < replies.len(),
    ensures
        ({
            let start = FetchState::start(interval);
            let effect = effect_at(start, replies, i);
            let operations = replies[1]->Operations_0;
            let goes_on = if i - 2 < operations.len() {
                effect == FetchEffectView::Insert(
                    operation::Change::pending(
                        operations[i - 2].id@,
                        operations[i - 2].timestamp,
                    ),
                )
            } else {
                effect == FetchEffectView::Update(interval.finished())
            };
            if i == 0 {
                effect == FetchEffectView::Fetch {
                    start: casts::unsigned_of(interval.start),
                    end: casts::unsigned_of(interval.end),
                }
            } else {
                match effect_at(start, replies, i - 1) {
                    FetchEffectView::Fetch { .. } => i == 1 && if replies[1] is Operations {
                        effect is Begin
                    } else {
                        effect == FetchEffectView::Return(Err(FetchError::Fetch))
                    },
                    FetchEffectView::Begin => i == 2 && replies[1] is Operations
                        && if replies[2] is Done {
                        goes_on
                    } else {
                        effect == FetchEffectView::Return(Err(FetchError::Begin))
                    },
                    FetchEffectView::Insert(_) => i > 2 && replies[1] is Operations && goes_on,
                    FetchEffectView::Update(_) => if replies[i] is Done {
                        effect is Commit
                    } else {
                        effect == FetchEffectView::Return(Err(FetchError::Update))
                    },
                    FetchEffectView::Commit => if replies[i] is Done {
                        effect == FetchEffectView::Return(Ok(()))
                    } else {
                        effect == FetchEffectView::Return(Err(FetchError::Commit))
                    },
                    FetchEffectView::Return(_) => effect is Nothing,
                    FetchEffectView::Nothing => effect is Nothing,
                }
            }
        }),
{
    let start = FetchState::start(interval);
    let upto = replies.take(i + 1);
    let before = replies.take(i);
    assert(upto.drop_last() =~= before);
    if i > 0 {
        let earlier = replies.take(i - 1);
        assert(before.drop_last() =~= earlier);
        assert(before.last() == replies[i - 1]);
        lemma_run(interval, before);
        lemma_answers(interval, before);
        lemma_run(interval, earlier);
        lemma_answers(interval, earlier);
        if i > 1 {
            assert(before[1] == replies[1]);
        }
    }
}

/// No part of an interval is left out: a run that returns without an error has asked for the time
/// from the start of its interval to its end, and has tried to insert every operation that it was
/// given for that time.
pub proof fn law_finished_run_asked_for_the_whole_interval(
    interval: interval::Model,
    replies: Seq<FetchReplyView>,
)
    requires
        replies.len() > 0,
        effect_at(FetchState::start(interval), replies, replies.len() - 1)
            == FetchEffectView::Return(Ok(())),
    ensures
        replies.len() > 1,
        effect_at(FetchState::start(interval), replies, 0) == (FetchEffectView::Fetch {
            start: casts::unsigned_of(interval.start),
            end: casts::unsigned_of(interval.end),
        }),
        replies[1] is Operations,
        forall|k: int|
            0 <= k < replies[1]->Operations_0.len() ==> {
                let op = #[trigger] replies[1]->Operations_0[k];
                effect_at(FetchState::start(interval), replies, k + 2) == FetchEffectView::Insert(
                    operation::Change::pending(op.id@, op.timestamp),
                )
            },
{
    let start = FetchState::start(interval);
    law_finished_run_stores_the_operations(
        interval,
        replies,
        Tables { operations: Map::empty(), interval },
    );
    law_each_answer_leads_on(interval, replies, 0);
    assert forall|k: int| 0 <= k < replies[1]->Operations_0.len() implies {
        let op = #[trigger] replies[1]->Operations_0[k];
        effect_at(start, replies, k + 2) == FetchEffectView::Insert(
            operation::Change::pending(op.id@, op.timestamp),
        )
    } by {
        lemma_insert_answered(interval, replies, k);
        law_each_answer_leads_on(interval, replies, k + 2);
        law_each_answer_leads_on(interval, replies, k + 1);
        law_each_answer_leads_on(interval, replies, 1);
    }
}

/// What an answer and an effect say is what they hold.
pub proof fn law_answers_and_effects_are_read_as_they_are(
    operations: Vec<operation::Operation>,
    start: u64,
    end: u64,
    row: operation::ActiveModel,
    change: interval::ActiveModel,
    result: Result<(), FetchError>,
)
    ensures
        FetchReply::Done@ is Done,
        FetchReply::Failed@ is Failed,
        FetchReply::Operations(operations)@ == FetchReplyView::Operations(operations@),
        (FetchEffect::Fetch { start, end })@ == (FetchEffectView::Fetch { start, end }),
        FetchEffect::Begin@ is Begin,
        FetchEffect::Insert(row)@ == FetchEffectView::Insert(row@),
        FetchEffect::Update(change)@ == FetchEffectView::Update(change),
        FetchEffect::Commit@ is Commit,
        FetchEffect::Return(result)@ == FetchEffectView::Return(result),
        FetchEffect::Nothing@ is Nothing,
{
}

} // verus!

//! What any number of streams do together to one table of the database.
//!
//! The streams share the table; their answers come in any order, and others change the table
//! between them. The database is taken to do what the statements of the streams say: the query for
//! a pending row gives the first, in the order of its stream, of those that wait, are due and are
//! locked by no transaction, and locks it; the statement that claims it gives it marked as in progress; a commit writes the mark, and the end
//! of a transaction frees its lock.
use vstd::prelude::*;

use crate::indexer::Indexer;
use crate::interval;
use crate::job::OrderDirection;
use crate::operation;
use crate::plan;
use crate::reply::Reply;
use crate::retry;
use crate::status;
use crate::stream::{claim_next, ClaimEffect, ClaimStep};

verus! {

/// A row that streams can claim.
pub trait Claimable: Sized {
    /// What tells one row from another.
    type Key;

    /// What a row holds.
    type Row;

    /// An order in which rows are claimed.
    type Order;

    /// What this row holds.
    spec fn content(self) -> Self::Row;

    /// The key of a row.
    spec fn key(row: Self::Row) -> Self::Key;

    /// Whether the row waits to be claimed.
    spec fn waiting(row: Self::Row) -> bool;

    /// Whether the row may be claimed at this instant, in seconds: no later retry is scheduled.
    spec fn due(row: Self::Row, now: int) -> bool;

    /// The row marked as in progress.
    spec fn marked(row: Self::Row) -> Self::Row;

    /// The place of a row in an order: lower ones are claimed first.
    spec fn rank(order: Self::Order, row: Self::Row) -> int;

    /// A marked row waits no more, and its key and when it is due stay.
    proof fn lemma_marked(row: Self::Row, now: int)
        ensures
            !Self::waiting(Self::marked(row)),
            Self::key(Self::marked(row)) == Self::key(row),
            Self::due(Self::marked(row), now) == Self::due(row, now),
    ;

    /// A marked row keeps its place.
    proof fn lemma_rank(order: Self::Order, row: Self::Row)
        ensures
            Self::rank(order, Self::marked(row)) == Self::rank(order, row),
    ;

    /// What is due stays due.
    proof fn lemma_due(row: Self::Row, now: int, later: int)
        requires
            Self::due(row, now),
            now <= later,
        ensures
            Self::due(row, later),
    ;
}

/// Whether a scheduled retry, if there is one, has come.
pub open spec fn retry_has_come(next_retry: Option<i64>, now: int) -> bool {
    match next_retry {
        Some(at) => at <= now,
        None => true,
    }
}

impl Claimable for interval::Model {
    type Key = i32;

    type Row = interval::Model;

    type Order = OrderDirection;

    open spec fn content(self) -> interval::Model {
        self
    }

    open spec fn key(row: interval::Model) -> i32 {
        row.id
    }

    open spec fn waiting(row: interval::Model) -> bool {
        row.status == status::PENDING
    }

    open spec fn due(row: interval::Model, now: int) -> bool {
        retry_has_come(row.next_retry, now)
    }

    open spec fn marked(row: interval::Model) -> interval::Model {
        interval::Model { status: status::IN_PROGRESS, ..row }
    }

    open spec fn rank(order: OrderDirection, row: interval::Model) -> int {
        match order {
            OrderDirection::Ascending => row.start as int,
            OrderDirection::Descending => -row.start,
        }
    }

    proof fn lemma_marked(row: interval::Model, now: int) {
    }

    proof fn lemma_rank(order: OrderDirection, row: interval::Model) {
    }

    proof fn lemma_due(row: interval::Model, now: int, later: int) {
    }
}

impl Claimable for operation::Model {
    type Key = Seq<char>;

    type Row = operation::Row;

    type Order = ();

    open spec fn content(self) -> operation::Row {
        self@
    }

    open spec fn key(row: operation::Row) -> Seq<char> {
        row.id
    }

    open spec fn waiting(row: operation::Row) -> bool {
        row.status == status::PENDING
    }

    open spec fn due(row: operation::Row, now: int) -> bool {
        retry_has_come(row.next_retry, now)
    }

    open spec fn marked(row: operation::Row) -> operation::Row {
        operation::Row { status: status::IN_PROGRESS, ..row }
    }

    open spec fn rank(order: (), row: operation::Row) -> int {
        row.timestamp as int
    }

    proof fn lemma_marked(row: operation::Row, now: int) {
    }

    proof fn lemma_rank(order: (), row: operation::Row) {
    }

    proof fn lemma_due(row: operation::Row, now: int, later: int) {
    }
}

/// A table, the clock of its database and the streams that claim its rows.
pub ghost struct World<R: Claimable> {
    /// The committed rows by their keys.
    pub table: Map<R::Key, R::Row>,
    /// The clock of the database, in seconds.
    pub now: int,
    /// Where each stream stands, by its number.
    pub streams: Map<int, ClaimStep<R>>,
    /// The order in which each stream takes rows, by its number.
    pub orders: Map<int, R::Order>,
    /// The row that the transaction of a stream has locked.
    pub locks: Map<int, R::Key>,
    /// The rows handed out, in the order in which they were.
    pub out: Seq<R::Row>,
    /// The keys of the rows handed out and not set waiting again since.
    pub held: Set<R::Key>,
}

impl<R: Claimable> World<R> {
    /// Whether the row with this key waits to be claimed.
    pub open spec fn waits(self, key: R::Key) -> bool {
        self.table.contains_key(key) && R::waiting(self.table[key])
    }

    /// Whether the transaction of some stream has locked the row with this key.
    pub open spec fn locked(self, key: R::Key) -> bool {
        exists|i: int| #[trigger] self.locks.contains_key(i) && self.locks[i] == key
    }

    /// Whether the row with this key can be claimed: it waits, is due and is not locked.
    pub open spec fn free(self, key: R::Key) -> bool {
        self.waits(key) && R::due(self.table[key], self.now) && !self.locked(key)
    }

    /// Whether the row with this key is the first, in the order of stream `i`, of those that can be
    /// claimed.
    pub open spec fn first_free(self, i: int, key: R::Key) -> bool {
        &&& self.free(key)
        &&& forall|other: R::Key| #[trigger]
            self.free(other) ==> R::rank(self.orders[i], self.table[key]) <= R::rank(
                self.orders[i],
                self.table[other],
            )
    }

    /// Each row stands under its own key.
    pub open spec fn keyed(self) -> bool {
        forall|key: R::Key| #[trigger]
            self.table.contains_key(key) ==> R::key(self.table[key]) == key
    }

    /// Nothing was claimed yet: every stream is about to begin.
    pub open spec fn fresh(self) -> bool {
        &&& self.keyed()
        &&& forall|i: int| #[trigger]
            self.streams.contains_key(i) ==> self.streams[i] == ClaimStep::<R>::Ready
        &&& self.locks == Map::<int, R::Key>::empty()
        &&& self.out == Seq::<R::Row>::empty()
        &&& self.held == Set::<R::Key>::empty()
    }

    /// The table and the locks after stream `i` got this answer to the effect that it asked for
    /// last.
    pub open spec fn database_after(self, after: World<R>, i: int, reply: Reply<R>) -> bool {
        match self.streams[i] {
            ClaimStep::Finding => {
                &&& after.table == self.table
                &&& match reply {
                    Reply::Row(Some(row)) => {
                        let key = R::key(row.content());
                        &&& self.first_free(i, key)
                        &&& self.table[key] == row.content()
                        &&& after.locks == self.locks.insert(i, key)
                    },
                    _ => after.locks == self.locks,
                }
            },
            ClaimStep::Claiming => {
                &&& after.table == self.table
                &&& after.locks == self.locks
                &&& reply matches Reply::Row(Some(row)) ==> row.content() == R::marked(
                    self.table[self.locks[i]],
                )
            },
            ClaimStep::Committing(row) => {
                let written = self.table.insert(self.locks[i], row.content());
                &&& after.locks == self.locks.remove(i)
                &&& after.table == written || (!(reply is Done) && after.table == self.table)
            },
            ClaimStep::Closing => after.table == self.table && after.locks == self.locks.remove(i),
            _ => after.table == self.table && after.locks == self.locks,
        }
    }

    /// Stream `i`, which rests for `rest` after it handed a row out, gets this answer. A commit
    /// that fails may have been carried out all the same.
    pub open spec fn answered(
        self,
        after: World<R>,
        rest: Option<u64>,
        i: int,
        reply: Reply<R>,
    ) -> bool {
        let (step, effect) = claim_next(self.streams[i], reply, rest);
        &&& self.streams.contains_key(i)
        &&& self.now <= after.now
        &&& after.streams == self.streams.insert(i, step)
        &&& after.orders == self.orders
        &&& self.database_after(after, i, reply)
        &&& match effect {
            ClaimEffect::Yield(row) => {
                &&& after.out == self.out.push(row.content())
                &&& after.held == self.held.insert(R::key(row.content()))
            },
            _ => after.out == self.out && after.held == self.held,
        }
    }

    /// Others insert, change and delete rows as they like, but for the locked ones. A row that was
    /// handed out is held no more once it is set waiting.
    pub open spec fn changed_by_others(self, after: World<R>) -> bool {
        &&& self.now <= after.now
        &&& after.keyed()
        &&& forall|key: R::Key| #[trigger]
            self.locked(key) ==> (after.table.contains_key(key) <==> self.table.contains_key(key))
                && after.table[key] == self.table[key]
        &&& after.streams == self.streams
        &&& after.orders == self.orders
        &&& after.locks == self.locks
        &&& after.out == self.out
        &&& after.held == self.held.filter(|key: R::Key| !after.waits(key))
    }

    /// A new stream starts, which takes rows in this order.
    pub open spec fn started(self, after: World<R>, i: int, order: R::Order) -> bool {
        &&& !self.streams.contains_key(i)
        &&& after == World {
            streams: self.streams.insert(i, ClaimStep::Ready),
            orders: self.orders.insert(i, order),
            ..self
        }
    }

    /// A stream is given up, whatever it was doing; the database ends its transaction.
    pub open spec fn dropped(self, after: World<R>, i: int) -> bool {
        after == World { streams: self.streams.remove(i), locks: self.locks.remove(i), ..self }
    }

    /// One thing happens.
    pub open spec fn step(self, after: World<R>, rest: Option<u64>) -> bool {
        ||| self.changed_by_others(after)
        ||| exists|i: int, reply: Reply<R>| #[trigger] self.answered(after, rest, i, reply)
        ||| exists|i: int, order: R::Order| #[trigger] self.started(after, i, order)
        ||| exists|i: int| #[trigger] self.dropped(after, i)
    }

    /// The keys of the rows that wait.
    pub open spec fn pending(self) -> Set<R::Key> {
        Set::new(|key: R::Key| self.waits(key))
    }

    /// Whether this answer to the effect that stream `i` asked for last is that of a database where
    /// nothing fails, and which finds no row only where none can be claimed.
    pub open spec fn undisturbed(self, i: int, reply: Reply<R>) -> bool {
        match self.streams[i] {
            ClaimStep::Beginning => reply is Done,
            ClaimStep::Finding => match reply {
                Reply::Row(Some(_)) => true,
                Reply::Row(None) => forall|key: R::Key| !#[trigger] self.free(key),
                _ => false,
            },
            ClaimStep::Claiming => reply is Row && reply->Row_0 is Some,
            ClaimStep::Committing(_) => reply is Done,
            _ => true,
        }
    }

    /// What every step keeps.
    spec fn inv(self) -> bool {
        &&& self.keyed()
        &&& forall|i: int, j: int| #[trigger]
            self.locks.contains_key(i) && #[trigger] self.locks.contains_key(j) && self.locks[i]
                == self.locks[j] ==> i == j
        &&& forall|i: int| #[trigger]
            self.locks.contains_key(i) ==> self.streams.contains_key(i) && (self.streams[i] is Claiming
                || self.streams[i] is Committing || self.streams[i] is Closing)
        &&& forall|i: int| #[trigger]
            self.streams.contains_key(i) && (self.streams[i] is Claiming
                || self.streams[i] is Committing) ==> {
                &&& self.locks.contains_key(i)
                &&& self.waits(self.locks[i])
                &&& R::due(self.table[self.locks[i]], self.now)
                &&& self.streams[i] matches ClaimStep::Committing(row) ==> row.content()
                    == R::marked(self.table[self.locks[i]])
            }
        &&& forall|key: R::Key| #[trigger] self.held.contains(key) ==> !self.waits(key)
    }
}

/// Whether this is what happened, one step after the other, from a world where nothing was claimed.
pub open spec fn history<R: Claimable>(rest: Option<u64>, worlds: Seq<World<R>>) -> bool
    decreases worlds.len(),
{
    if worlds.len() <= 1 {
        worlds.len() == 1 && worlds[0].fresh()
    } else {
        history(rest, worlds.drop_last()) && worlds[worlds.len() - 2].step(worlds.last(), rest)
    }
}

/// Whether no row that was handed out was set waiting again.
pub open spec fn nothing_released<R: Claimable>(worlds: Seq<World<R>>) -> bool {
    forall|n: int, m: int|
        0 <= n <= m < worlds.len() ==> #[trigger] worlds[n].held.subset_of(
            #[trigger] worlds[m].held,
        )
}

/// Whether this is what happened, one step after the other, where stream `i` alone ran, undisturbed,
/// from a world where nothing was claimed.
pub open spec fn lone_history<R: Claimable>(
    rest: Option<u64>,
    i: int,
    worlds: Seq<World<R>>,
) -> bool
    decreases worlds.len(),
{
    if worlds.len() <= 1 {
        worlds.len() == 1 && worlds[0].fresh() && worlds[0].streams.contains_key(i)
    } else {
        let before = worlds[worlds.len() - 2];
        &&& lone_history(rest, i, worlds.drop_last())
        &&& exists|reply: Reply<R>| #[trigger]
            before.answered(worlds.last(), rest, i, reply) && before.undisturbed(i, reply)
    }
}

/// A stream that hands a row out had it locked while it waited and was due.
proof fn lemma_answered<R: Claimable>(
    before: World<R>,
    after: World<R>,
    rest: Option<u64>,
    i: int,
    reply: Reply<R>,
)
    requires
        before.inv(),
        before.answered(after, rest, i, reply),
    ensures
        after.inv(),
        after.out == before.out || {
            let row = after.out.last();
            &&& after.out == before.out.push(row)
            &&& before.waits(R::key(row))
            &&& R::due(row, before.now)
            &&& row == R::marked(before.table[R::key(row)])
            &&& after.table == before.table.insert(R::key(row), row)
            &&& after.held == before.held.insert(R::key(row))
        },
        after.out == before.out ==> after.held == before.held,
{
    let key = before.locks[i];
    if before.streams[i] is Committing {
        R::lemma_marked(before.table[key], before.now);
    }
    assert forall|j: int| #[trigger]
        after.streams.contains_key(j) && (after.streams[j] is Claiming
            || after.streams[j] is Committing) implies {
        &&& after.locks.contains_key(j)
        &&& after.waits(after.locks[j])
        &&& R::due(after.table[after.locks[j]], after.now)
        &&& after.streams[j] matches ClaimStep::Committing(row) ==> row.content() == R::marked(
            after.table[after.locks[j]],
        )
    } by {
        if j != i {
            assert(before.streams.contains_key(j));
            assert(before.locks.contains_key(j));
            if before.streams[i] is Committing {
                assert(before.locks.contains_key(i));
            }
            R::lemma_due(before.table[before.locks[j]], before.now, after.now);
        } else {
            if before.streams[i] is Finding {
                R::lemma_due(before.table[after.locks[i]], before.now, after.now);
            } else {
                assert(before.locks.contains_key(i));
                R::lemma_due(before.table[before.locks[i]], before.now, after.now);
            }
        }
    }
    assert forall|a: int, b: int| #[trigger]
        after.locks.contains_key(a) && #[trigger] after.locks.contains_key(b) && after.locks[a]
            == after.locks[b] implies a == b by {
        if a != i {
            assert(before.locks.contains_key(a));
        }
        if b != i {
            assert(before.locks.contains_key(b));
        }
    }
}

/// Every step keeps the invariant.
proof fn lemma_step<R: Claimable>(before: World<R>, after: World<R>, rest: Option<u64>)
    requires
        before.inv(),
        before.step(after, rest),
    ensures
        after.inv(),
{
    if before.changed_by_others(after) {
        assert forall|j: int| #[trigger]
            after.streams.contains_key(j) && (after.streams[j] is Claiming
                || after.streams[j] is Committing) implies {
            &&& after.locks.contains_key(j)
            &&& after.waits(after.locks[j])
            &&& R::due(after.table[after.locks[j]], after.now)
            &&& after.streams[j] matches ClaimStep::Committing(row) ==> row.content() == R::marked(
                after.table[after.locks[j]],
            )
        } by {
            assert(before.streams.contains_key(j));
            assert(before.locks.contains_key(j));
            assert(before.locked(before.locks[j]));
            R::lemma_due(before.table[before.locks[j]], before.now, after.now);
        }
    } else if exists|i: int, reply: Reply<R>| #[trigger] before.answered(after, rest, i, reply) {
        let (i, reply) = choose|i: int, reply: Reply<R>| #[trigger]
            before.answered(after, rest, i, reply);
        lemma_answered(before, after, rest, i, reply);
    }
}

/// The invariant holds throughout a history.
proof fn lemma_history<R: Claimable>(rest: Option<u64>, worlds: Seq<World<R>>)
    requires
        history(rest, worlds),
    ensures
        worlds.last().inv(),
    decreases worlds.len(),
{
    if worlds.len() > 1 {
        lemma_history(rest, worlds.drop_last());
        lemma_step(worlds[worlds.len() - 2], worlds.last(), rest);
    }
}

/// Whatever happens to any number of streams, a row is handed out only if it waited until then, so
/// never while it is held: the streams never hand the same row out twice unless it was set waiting
/// in between. It is handed out marked as in progress and so stands in the table, and never before
/// the retry scheduled for it has come.
pub proof fn law_a_held_row_is_not_handed_out<R: Claimable>(
    rest: Option<u64>,
    worlds: Seq<World<R>>,
)
    requires
        worlds.len() >= 2,
        history(rest, worlds),
        worlds.last().out != worlds[worlds.len() - 2].out,
    ensures
        ({
            let before = worlds[worlds.len() - 2];
            let after = worlds.last();
            let row = after.out.last();
            &&& after.out == before.out.push(row)
            &&& !before.held.contains(R::key(row))
            &&& after.held == before.held.insert(R::key(row))
            &&& before.waits(R::key(row))
            &&& row == R::marked(before.table[R::key(row)])
            &&& after.table == before.table.insert(R::key(row), row)
            &&& R::due(row, before.now)
        }),
{
    let before = worlds[worlds.len() - 2];
    let after = worlds.last();
    lemma_history(rest, worlds.drop_last());
    let (i, reply) = choose|i: int, reply: Reply<R>| #[trigger]
        before.answered(after, rest, i, reply);
    lemma_answered(before, after, rest, i, reply);
}

/// No row is handed out twice by any number of streams, as long as nobody sets one that was handed
/// out waiting again.
pub proof fn law_no_row_is_claimed_twice<R: Claimable>(rest: Option<u64>, worlds: Seq<World<R>>)
    requires
        history(rest, worlds),
        nothing_released(worlds),
    ensures
        forall|a: int, b: int|
            0 <= a < b < worlds.last().out.len() ==> R::key(#[trigger] worlds.last().out[a])
                != R::key(#[trigger] worlds.last().out[b]),
        forall|a: int|
            0 <= a < worlds.last().out.len() ==> worlds.last().held.contains(
                R::key(#[trigger] worlds.last().out[a]),
            ),
    decreases worlds.len(),
{
    if worlds.len() > 1 {
        let earlier = worlds.drop_last();
        let before = earlier.last();
        let after = worlds.last();
        assert forall|n: int, m: int| 0 <= n <= m < earlier.len() implies (
        #[trigger] earlier[n].held.subset_of(#[trigger] earlier[m].held)) by {
            assert(worlds[n].held.subset_of(worlds[m].held));
        }
        law_no_row_is_claimed_twice(rest, earlier);
        assert(worlds[worlds.len() - 2].held.subset_of(worlds[worlds.len() - 1].held));
        if after.out != before.out {
            law_a_held_row_is_not_handed_out(rest, worlds);
        }
    }
}

/// How far a stream is on its way to the next row; one that has just handed a row out is one step
/// short of beginning.
spec fn phase<R>(step: ClaimStep<R>) -> int {
    match step {
        ClaimStep::Ready => 0,
        ClaimStep::Beginning => 1,
        ClaimStep::Finding => 2,
        ClaimStep::Claiming => 3,
        ClaimStep::Committing(_) => 4,
        ClaimStep::Closing => 0,
        ClaimStep::Yielded => -1,
    }
}

/// What holds of the table and the rows handed out while a lone stream runs.
spec fn lone_inv<R: Claimable>(i: int, first: World<R>, last: World<R>) -> bool {
    let order = first.orders[i];
    &&& last.orders == first.orders
    &&& last.inv()
    &&& last.streams.contains_key(i)
    &&& forall|j: int| #[trigger] last.locks.contains_key(j) ==> j == i
    &&& first.now <= last.now
    &&& last.pending().finite()
    &&& last.pending().len() + last.out.len() == first.pending().len()
    &&& last.table.dom() == first.table.dom()
    &&& forall|key: R::Key| #[trigger]
        last.waits(key) ==> first.waits(key) && last.table[key] == first.table[key]
    &&& forall|key: R::Key|
        !first.waits(key) ==> #[trigger] last.table[key] == first.table[key]
    &&& forall|a: int|
        0 <= a < last.out.len() ==> {
            let key = R::key(#[trigger] last.out[a]);
            &&& first.waits(key)
            &&& last.out[a] == R::marked(first.table[key])
            &&& last.table[key] == last.out[a]
        }
    &&& forall|a: int, b: int|
        0 <= a < b < last.out.len() ==> R::key(#[trigger] last.out[a]) != R::key(
            #[trigger] last.out[b],
        ) && R::rank(order, last.out[a]) <= R::rank(order, last.out[b])
    &&& forall|a: int, key: R::Key|
        0 <= a < last.out.len() && #[trigger] last.waits(key) ==> R::rank(
            order,
            #[trigger] last.out[a],
        ) <= R::rank(order, last.table[key])
    &&& last.streams[i] is Claiming || last.streams[i] is Committing ==> forall|key: R::Key|
        #[trigger]
        last.waits(key) ==> R::rank(order, last.table[last.locks[i]]) <= R::rank(
            order,
            last.table[key],
        )
    &&& last.streams[i] is Closing ==> last.pending().len() == 0
}

/// One step of a lone stream.
proof fn lemma_lone_step<R: Claimable>(
    rest: Option<u64>,
    i: int,
    first: World<R>,
    before: World<R>,
    after: World<R>,
    reply: Reply<R>,
)
    requires
        forall|key: R::Key| #[trigger]
            first.waits(key) ==> R::due(first.table[key], first.now),
        lone_inv(i, first, before),
        before.answered(after, rest, i, reply),
        before.undisturbed(i, reply),
    ensures
        lone_inv(i, first, after),
        after.out.len() < first.pending().len() ==> 6 * after.out.len() + phase(after.streams[i])
            >= 6 * before.out.len() + phase(before.streams[i]) + 1,
        before.out.len() <= after.out.len(),
{
    lemma_answered(before, after, rest, i, reply);
    if !(before.streams[i] is Committing) {
        assert forall|key: R::Key| #[trigger] after.waits(key) implies before.waits(key) by {}
    }
    if before.streams[i] is Finding {
        assert forall|key: R::Key| #[trigger] before.waits(key) implies R::due(
            before.table[key],
            before.now,
        ) by {
            R::lemma_due(first.table[key], first.now, before.now);
        }
        assert forall|key: R::Key| #[trigger] before.waits(key) implies before.free(key) by {
            assert(!before.locks.contains_key(i));
        }
        assert(after.pending() =~= before.pending());
        if reply->Row_0 is None {
            assert(before.pending() =~= Set::empty());
        }
    } else if before.streams[i] is Committing {
        let row = after.out.last();
        let key = R::key(row);
        assert(before.locks.contains_key(i));
        assert(before.keyed());
        R::lemma_marked(before.table[key], before.now);
        R::lemma_marked(before.table[before.locks[i]], before.now);
        R::lemma_rank(first.orders[i], before.table[key]);
        assert(key == before.locks[i]);
        assert(after.pending() =~= before.pending().remove(key));
        assert(before.pending().contains(key));
        assert(after.table.dom() =~= first.table.dom());
        assert forall|other: R::Key| #[trigger] after.waits(other) implies first.waits(other)
            && after.table[other] == first.table[other] && before.waits(other) by {
            assert(before.waits(other));
        }
        assert forall|other: R::Key| !first.waits(other) implies #[trigger] after.table[other]
            == first.table[other] by {
            assert(other != key);
            assert(before.table[other] == first.table[other]);
        }
    } else {
        assert(after.pending() =~= before.pending());
    }
}

/// What holds throughout a lone history, with the progress of the stream.
proof fn lemma_lone_history<R: Claimable>(
    rest: Option<u64>,
    i: int,
    worlds: Seq<World<R>>,
)
    requires
        lone_history(rest, i, worlds),
        worlds[0].pending().finite(),
        forall|key: R::Key| #[trigger]
            worlds[0].waits(key) ==> R::due(worlds[0].table[key], worlds[0].now),
    ensures
        lone_inv(i, worlds[0], worlds.last()),
        worlds.last().out.len() < worlds[0].pending().len() ==> 6 * worlds.last().out.len() + phase(
            worlds.last().streams[i],
        ) >= worlds.len() - 1,
    decreases worlds.len(),
{
    if worlds.len() > 1 {
        let before = worlds[worlds.len() - 2];
        lemma_lone_history(rest, i, worlds.drop_last());
        let reply = choose|reply: Reply<R>| #[trigger]
            before.answered(worlds.last(), rest, i, reply) && before.undisturbed(i, reply);
        lemma_lone_step(rest, i, worlds[0], before, worlds.last(), reply);
    }
}

/// A stream that runs alone and undisturbed over a table whose waiting rows are all due hands
/// these out in its order, each once, marked as in progress, and no others; the rows that did not
/// wait stay as they are.
pub proof fn law_rows_are_handed_out_in_order<R: Claimable>(
    rest: Option<u64>,
    i: int,
    worlds: Seq<World<R>>,
)
    requires
        lone_history(rest, i, worlds),
        worlds[0].pending().finite(),
        forall|key: R::Key| #[trigger]
            worlds[0].waits(key) ==> R::due(worlds[0].table[key], worlds[0].now),
    ensures
        ({
            let first = worlds[0];
            let last = worlds.last();
            let order = first.orders[i];
            &&& last.out.len() + last.pending().len() == first.pending().len()
            &&& forall|a: int|
                0 <= a < last.out.len() ==> {
                    let key = R::key(#[trigger] last.out[a]);
                    &&& first.waits(key)
                    &&& last.out[a] == R::marked(first.table[key])
                    &&& last.table[key] == last.out[a]
                }
            &&& forall|a: int, b: int|
                0 <= a < b < last.out.len() ==> R::key(#[trigger] last.out[a]) != R::key(
                    #[trigger] last.out[b],
                ) && R::rank(order, last.out[a]) <= R::rank(order, last.out[b])
            &&& forall|a: int, key: R::Key|
                0 <= a < last.out.len() && #[trigger] last.waits(key) ==> R::rank(
                    order,
                    #[trigger] last.out[a],
                ) <= R::rank(order, last.table[key])
            &&& last.table.dom() == first.table.dom()
            &&& forall|key: R::Key|
                !first.waits(key) ==> #[trigger] last.table[key] == first.table[key]
        }),
{
    lemma_lone_history(rest, i, worlds);
}

/// A stream that runs alone and undisturbed over a table whose waiting rows are all due has handed
/// every one of them out after six steps for each, and then none waits any more.
pub proof fn law_every_waiting_row_is_handed_out<R: Claimable>(
    rest: Option<u64>,
    i: int,
    worlds: Seq<World<R>>,
)
    requires
        lone_history(rest, i, worlds),
        worlds[0].pending().finite(),
        forall|key: R::Key| #[trigger]
            worlds[0].waits(key) ==> R::due(worlds[0].table[key], worlds[0].now),
        worlds.len() > 6 * worlds[0].pending().len(),
    ensures
        worlds.last().out.len() == worlds[0].pending().len(),
        forall|key: R::Key| !#[trigger] worlds.last().waits(key),
{
    lemma_lone_history(rest, i, worlds);
    let last = worlds.last();
    assert(last.pending().len() == 0);
    assert forall|key: R::Key| !#[trigger] last.waits(key) by {
        assert(!last.pending().contains(key));
    }
}

/// Whether stream `i` found the row with this key in world number `n`, and it was then the first in
/// the order of the stream of those that could be claimed.
pub open spec fn found_first<R: Claimable>(
    worlds: Seq<World<R>>,
    i: int,
    key: R::Key,
    n: int,
) -> bool {
    &&& 0 <= n < worlds.len() - 1
    &&& worlds[n].streams.contains_key(i)
    &&& worlds[n].streams[i] is Finding
    &&& worlds[n].first_free(i, key)
    &&& worlds[n + 1].streams.contains_key(i)
    &&& worlds[n + 1].streams[i] is Claiming
    &&& worlds[n + 1].locks.contains_key(i)
    &&& worlds[n + 1].locks[i] == key
}

/// Whatever else goes on, the row that a stream finds is at that moment the first, in the order of
/// that stream, of the rows that wait, are due and are not locked by any stream.
pub proof fn law_found_row_is_first_in_the_order<R: Claimable>(
    rest: Option<u64>,
    worlds: Seq<World<R>>,
    i: int,
)
    requires
        worlds.len() >= 2,
        history(rest, worlds),
        worlds[worlds.len() - 2].streams.contains_key(i),
        worlds[worlds.len() - 2].streams[i] is Finding,
        worlds.last().streams.contains_key(i),
        worlds.last().streams[i] is Claiming,
    ensures
        worlds.last().locks.contains_key(i),
        worlds[worlds.len() - 2].first_free(i, worlds.last().locks[i]),
        worlds.last().table == worlds[worlds.len() - 2].table,
        found_first(worlds, i, worlds.last().locks[i], worlds.len() - 2),
{
    let before = worlds[worlds.len() - 2];
    let after = worlds.last();
    let (j, reply) = choose|j: int, reply: Reply<R>| #[trigger]
        before.answered(after, rest, j, reply);
    assert(before.answered(after, rest, j, reply));
    assert(j == i);
}

/// Where a stream has a row in hand, it found it as the first in its order, and the row has not
/// changed since.
proof fn lemma_row_in_hand_was_first<R: Claimable>(
    rest: Option<u64>,
    worlds: Seq<World<R>>,
    i: int,
) -> (n: int)
    requires
        history(rest, worlds),
        worlds.last().streams.contains_key(i),
        worlds.last().streams[i] is Claiming || worlds.last().streams[i] is Committing,
    ensures
        found_first(worlds, i, worlds.last().locks[i], n),
        worlds[n].table[worlds.last().locks[i]] == worlds.last().table[worlds.last().locks[i]],
    decreases worlds.len(),
{
    let earlier = worlds.drop_last();
    let before = worlds[worlds.len() - 2];
    let after = worlds.last();
    lemma_history(rest, earlier);
    if before.streams.contains_key(i) && before.streams[i] is Finding {
        law_found_row_is_first_in_the_order(rest, worlds, i);
        worlds.len() - 2
    } else {
        assert(before.streams.contains_key(i) && (before.streams[i] is Claiming
            || before.streams[i] is Committing));
        assert(before.locks.contains_key(i));
        assert(before.locked(before.locks[i]));
        let n = lemma_row_in_hand_was_first(rest, earlier, i);
        assert(earlier[n] == worlds[n] && earlier[n + 1] == worlds[n + 1]);
        n
    }
}

/// Whatever else goes on, every row handed out was, when its stream found it, the first in the
/// order of that stream of the rows that waited, were due and were not locked by any stream.
pub proof fn law_handed_out_row_was_first_when_found<R: Claimable>(
    rest: Option<u64>,
    worlds: Seq<World<R>>,
)
    requires
        worlds.len() >= 2,
        history(rest, worlds),
        worlds.last().out != worlds[worlds.len() - 2].out,
    ensures
        ({
            let row = worlds.last().out.last();
            exists|i: int, n: int| #[trigger]
                found_first(worlds, i, R::key(row), n) && row == R::marked(
                    worlds[n].table[R::key(row)],
                )
        }),
{
    let earlier = worlds.drop_last();
    let before = worlds[worlds.len() - 2];
    let after = worlds.last();
    let row = after.out.last();
    lemma_history(rest, earlier);
    let (i, reply) = choose|i: int, reply: Reply<R>| #[trigger]
        before.answered(after, rest, i, reply);
    lemma_answered(before, after, rest, i, reply);
    assert(before.locks.contains_key(i));
    R::lemma_marked(before.table[before.locks[i]], before.now);
    let n = lemma_row_in_hand_was_first(rest, earlier, i);
    assert(earlier[n] == worlds[n] && earlier[n + 1] == worlds[n + 1]);
    assert(found_first(worlds, i, R::key(row), n));
}

/// Failed work is left alone until its delay is over: a rescheduled interval is not due, so no
/// stream hands it out, before the instant of its next retry.
pub proof fn law_rescheduled_interval_waits(row: interval::Model, now: u64, clock: int)
    requires
        retry::in_range(now, row.retry_count),
    ensures
        <interval::Model as Claimable>::due(row.rescheduled(now).applied(row), clock) <==> clock
            >= retry::next_retry_at(now, row.retry_count),
{
    interval::law_rescheduling_makes_pending(row, now);
}

/// A rescheduled operation is not due, so no stream hands it out, before the instant of its next
/// retry.
pub proof fn law_rescheduled_operation_waits(row: operation::Row, now: u64, clock: int)
    requires
        retry::in_range(now, row.retry_count),
    ensures
        <operation::Model as Claimable>::due(row.rescheduled(now).applied(row), clock) <==> clock
            >= retry::next_retry_at(now, row.retry_count),
{
    operation::law_rescheduling_keeps_pending(row, now);
}

/// Every interval that is saved will be found: the row made of it, whatever the database filled in,
/// waits to be claimed and is due at any time.
pub proof fn law_saved_intervals_wait_to_be_claimed(
    indexer: Indexer,
    now: u64,
    k: int,
    row: interval::Model,
    clock: int,
)
    requires
        indexer.can_save_until(now),
        0 <= k < indexer.unsaved(now).len(),
    ensures
        ({
            let saved = indexer.unsaved(now)[k].applied(row);
            &&& saved.status == status::PENDING
            &&& saved.next_retry is None
            &&& saved.retry_count == 0
            &&& <interval::Model as Claimable>::waiting(saved)
            &&& <interval::Model as Claimable>::due(saved, clock)
        }),
{
    plan::law_planned_rows_cut_the_time(
        indexer.watermark,
        now,
        indexer.settings.catchup_interval,
        k,
    );
}

/// Every operation that is stored will be found: its new row waits to be claimed and is due at any
/// time.
pub proof fn law_stored_operations_wait_to_be_claimed(
    id: Seq<char>,
    timestamp: u64,
    row: operation::Row,
    clock: int,
)
    ensures
        ({
            let stored = operation::Change::pending(id, timestamp).applied(row);
            &&& stored.id == id
            &&& stored.status == status::PENDING
            &&& stored.next_retry is None
            &&& stored.retry_count == 0
            &&& <operation::Model as Claimable>::waiting(stored)
            &&& <operation::Model as Claimable>::due(stored, clock)
        }),
{
}

} // verus!

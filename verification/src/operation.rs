//! Operations found in an interval, and the changes made to their rows.
use vstd::arithmetic::power2::pow2;
use vstd::prelude::*;

use crate::active_value::ActiveValue;
use crate::casts;
use crate::retry;
use crate::status;

verus! {

/// A row of the operation table.
#[derive(Debug, PartialEq, Eq)]
pub struct Model {
    pub id: String,
    pub operation_type: Option<String>,
    pub timestamp: i64,
    pub status: i16,
    pub next_retry: Option<i64>,
    pub retry_count: i16,
}

/// A new row of the operation table, or a change to one.
#[derive(Debug, PartialEq, Eq)]
pub struct ActiveModel {
    pub id: ActiveValue<String>,
    pub operation_type: ActiveValue<Option<String>>,
    pub timestamp: ActiveValue<i64>,
    pub status: ActiveValue<i16>,
    pub next_retry: ActiveValue<Option<i64>>,
    pub retry_count: ActiveValue<i16>,
}

/// An operation as the client reports it.
#[derive(Debug, PartialEq, Eq)]
pub struct Operation {
    pub id: String,
    pub timestamp: u64,
}

/// What a row of the operation table holds.
pub ghost struct Row {
    pub id: Seq<char>,
    pub operation_type: Option<Seq<char>>,
    pub timestamp: i64,
    pub status: i16,
    pub next_retry: Option<i64>,
    pub retry_count: i16,
}

/// What a change to a row of the operation table says.
pub ghost struct Change {
    pub id: ActiveValue<Seq<char>>,
    pub operation_type: ActiveValue<Option<Seq<char>>>,
    pub timestamp: ActiveValue<i64>,
    pub status: ActiveValue<i16>,
    pub next_retry: ActiveValue<Option<i64>>,
    pub retry_count: ActiveValue<i16>,
}

/// The text in an optional column.
pub open spec fn optional_text(text: Option<String>) -> Option<Seq<char>> {
    match text {
        Some(s) => Some(s@),
        None => None,
    }
}

impl View for Model {
    type V = Row;

    open spec fn view(&self) -> Row {
        Row {
            id: self.id@,
            operation_type: optional_text(self.operation_type),
            timestamp: self.timestamp,
            status: self.status,
            next_retry: self.next_retry,
            retry_count: self.retry_count,
        }
    }
}

impl View for ActiveModel {
    type V = Change;

    open spec fn view(&self) -> Change {
        Change {
            id: match self.id {
                ActiveValue::Write(s) => ActiveValue::Write(s@),
                ActiveValue::Unchanged(s) => ActiveValue::Unchanged(s@),
                ActiveValue::NotSet => ActiveValue::NotSet,
            },
            operation_type: match self.operation_type {
                ActiveValue::Write(s) => ActiveValue::Write(optional_text(s)),
                ActiveValue::Unchanged(s) => ActiveValue::Unchanged(optional_text(s)),
                ActiveValue::NotSet => ActiveValue::NotSet,
            },
            timestamp: self.timestamp,
            status: self.status,
            next_retry: self.next_retry,
            retry_count: self.retry_count,
        }
    }
}

impl Change {
    /// The row after the change was written over `row`.
    pub open spec fn applied(self, row: Row) -> Row {
        Row {
            id: self.id.applied(row.id),
            operation_type: self.operation_type.applied(row.operation_type),
            timestamp: self.timestamp.applied(row.timestamp),
            status: self.status.applied(row.status),
            next_retry: self.next_retry.applied(row.next_retry),
            retry_count: self.retry_count.applied(row.retry_count),
        }
    }

    /// The table after the row was inserted, unless there is one with its id.
    pub open spec fn inserted_into(self, table: Map<Seq<char>, Row>) -> Map<Seq<char>, Row> {
        let row = self.applied(Row::blank());
        if table.contains_key(row.id) {
            table
        } else {
            table.insert(row.id, row)
        }
    }

    /// The new row of a pending operation, its type not known yet.
    pub open spec fn pending(id: Seq<char>, timestamp: u64) -> Change {
        Change {
            id: ActiveValue::Write(id),
            operation_type: ActiveValue::Write(None),
            timestamp: ActiveValue::Write(casts::signed_of(timestamp)),
            status: ActiveValue::Write(status::PENDING),
            next_retry: ActiveValue::Write(None),
            retry_count: ActiveValue::Write(0),
        }
    }
}

impl Row {
    /// The row that a new one is written over.
    pub open spec fn blank() -> Row {
        Row {
            id: Seq::empty(),
            operation_type: None,
            timestamp: 0,
            status: 0,
            next_retry: None,
            retry_count: 0,
        }
    }

    /// The change that writes nothing.
    pub open spec fn unchanged(self) -> Change {
        Change {
            id: ActiveValue::Unchanged(self.id),
            operation_type: ActiveValue::Unchanged(self.operation_type),
            timestamp: ActiveValue::Unchanged(self.timestamp),
            status: ActiveValue::Unchanged(self.status),
            next_retry: ActiveValue::Unchanged(self.next_retry),
            retry_count: ActiveValue::Unchanged(self.retry_count),
        }
    }

    /// The change that marks the operation finished: it writes the status alone.
    pub open spec fn finished(self) -> Change {
        Change { status: ActiveValue::Write(status::FINISHED), ..self.unchanged() }
    }

    /// The change that keeps the operation pending after a failure at `now`: it writes the status,
    /// the instant of the next retry and the retry count, raised by one.
    pub open spec fn rescheduled(self, now: u64) -> Change {
        Change {
            status: ActiveValue::Write(status::PENDING),
            next_retry: ActiveValue::Write(
                Some(retry::next_retry_at(now, self.retry_count) as i64),
            ),
            retry_count: ActiveValue::Write((self.retry_count + 1) as i16),
            ..self.unchanged()
        }
    }
}

impl Clone for Model {
    fn clone(&self) -> (copy: Model)
        ensures
            copy@ == self@,
    {
        Model {
            id: self.id.clone(),
            operation_type: match &self.operation_type {
                Some(name) => Some(name.clone()),
                None => None,
            },
            timestamp: self.timestamp,
            status: self.status,
            next_retry: self.next_retry,
            retry_count: self.retry_count,
        }
    }
}

impl Operation {
    /// Builds the new row of the operation.
    pub fn new_pending(&self) -> (row: ActiveModel)
        ensures
            row@ == Change::pending(self.id@, self.timestamp),
    {
        let timestamp: i64 = casts::to_signed(self.timestamp);
        ActiveModel {
            id: ActiveValue::Write(self.id.clone()),
            operation_type: ActiveValue::Write(None),
            timestamp: ActiveValue::Write(timestamp),
            status: ActiveValue::Write(status::PENDING),
            next_retry: ActiveValue::Write(None),
            retry_count: ActiveValue::Write(0),
        }
    }
}

impl Model {
    /// Builds the change that writes nothing.
    pub fn into_active_model(self) -> (change: ActiveModel)
        ensures
            change@ == self@.unchanged(),
    {
        ActiveModel {
            id: ActiveValue::Unchanged(self.id),
            operation_type: ActiveValue::Unchanged(self.operation_type),
            timestamp: ActiveValue::Unchanged(self.timestamp),
            status: ActiveValue::Unchanged(self.status),
            next_retry: ActiveValue::Unchanged(self.next_retry),
            retry_count: ActiveValue::Unchanged(self.retry_count),
        }
    }

    /// Builds the change that marks the operation finished.
    pub fn finish(self) -> (change: ActiveModel)
        ensures
            change@ == self@.finished(),
    {
        let mut change = self.into_active_model();
        change.status = ActiveValue::Write(status::FINISHED);
        change
    }

    /// Builds the change that keeps the operation pending.
    pub fn reschedule(self, now: u64) -> (change: ActiveModel)
        requires
            retry::in_range(now, self.retry_count),
        ensures
            change@ == self@.rescheduled(now),
    {
        proof {
            retry::law_count_can_grow(now, self.retry_count);
        }
        let retries: i16 = self.retry_count;
        let at: i64 = retry::next_retry(now, retries);
        let mut change = self.into_active_model();
        change.next_retry = ActiveValue::Write(Some(at));
        change.retry_count = ActiveValue::Write(retries + 1);
        change.status = ActiveValue::Write(status::PENDING);
        change
    }
}

/// Finishing an operation changes its status to finished and no other column.
pub proof fn law_finishing_changes_the_status_alone(row: Row)
    ensures
        row.finished().applied(row) == (Row { status: status::FINISHED, ..row }),
{
}

/// A rescheduled operation is pending, due later than the failure, and counted once more; no other
/// column changes.
pub proof fn law_rescheduling_keeps_pending(row: Row, now: u64)
    requires
        retry::in_range(now, row.retry_count),
    ensures
        ({
            let after = row.rescheduled(now).applied(row);
            &&& after.status == status::PENDING
            &&& after.next_retry matches Some(at) && at == retry::next_retry_at(
                now,
                row.retry_count,
            ) && at > casts::signed_of(now)
            &&& after.retry_count == row.retry_count + 1
            &&& after == (Row {
                status: after.status,
                next_retry: after.next_retry,
                retry_count: after.retry_count,
                ..row
            })
        }),
{
    retry::law_count_can_grow(now, row.retry_count);
    retry::law_retry_lies_ahead(now, row.retry_count);
}

/// A new operation holds the id and the instant that the client reported, its type is not known,
/// it waits to be claimed, has no retry scheduled and none behind it.
pub proof fn law_new_operation_is_pending(id: Seq<char>, timestamp: u64)
    ensures
        ({
            let row = Change::pending(id, timestamp);
            &&& row.id == ActiveValue::Write(id)
            &&& row.operation_type == ActiveValue::Write(None::<Seq<char>>)
            &&& row.timestamp matches ActiveValue::Write(at) && casts::unsigned_of(at) == timestamp
            &&& row.status == ActiveValue::Write(status::PENDING)
            &&& row.next_retry == ActiveValue::Write(None::<i64>)
            &&& row.retry_count == ActiveValue::Write(0i16)
        }),
{
    casts::law_stored_instant_reads_back(timestamp);
}

/// The change that finishes an operation is one to that very row and writes its status alone.
pub proof fn law_finishing_names_the_row(row: Row)
    ensures
        row.finished() == (Change {
            id: ActiveValue::Unchanged(row.id),
            operation_type: ActiveValue::Unchanged(row.operation_type),
            timestamp: ActiveValue::Unchanged(row.timestamp),
            status: ActiveValue::Write(status::FINISHED),
            next_retry: ActiveValue::Unchanged(row.next_retry),
            retry_count: ActiveValue::Unchanged(row.retry_count),
        }),
        row.unchanged().status == ActiveValue::Unchanged(row.status),
        row.unchanged() == (Change { status: row.unchanged().status, ..row.finished() }),
{
}

/// The change that reschedules an operation is one to that very row: it waits again, its retry is
/// counted, and the next one lies five seconds after the failure, doubled for each retry before.
pub proof fn law_rescheduling_names_the_row(row: Row, now: u64)
    requires
        retry::in_range(now, row.retry_count),
    ensures
        ({
            let change = row.rescheduled(now);
            &&& change.id == ActiveValue::Unchanged(row.id)
            &&& change.operation_type == ActiveValue::Unchanged(row.operation_type)
            &&& change.timestamp == ActiveValue::Unchanged(row.timestamp)
            &&& change.status == ActiveValue::Write(status::PENDING)
            &&& change.next_retry matches ActiveValue::Write(Some(at)) && at - casts::signed_of(now)
                == 5 * pow2(row.retry_count as nat)
            &&& change.retry_count matches ActiveValue::Write(count) && count == row.retry_count + 1
        }),
{
    retry::law_count_can_grow(now, row.retry_count);
    retry::law_retry_backs_off(now, row.retry_count);
    retry::law_retry_lies_ahead(now, row.retry_count);
}

/// What a row holds is what stands in its columns.
pub proof fn law_row_is_read_column_by_column(model: Model)
    ensures
        model@.id == model.id@,
        model@.operation_type is Some <==> model.operation_type is Some,
        model.operation_type is Some ==> model@.operation_type->0 == model.operation_type->0@,
        model@.timestamp == model.timestamp,
        model@.status == model.status,
        model@.next_retry == model.next_retry,
        model@.retry_count == model.retry_count,
{
}

/// What a change says is what stands in its columns: each is written, unchanged or left out as it
/// is there.
pub proof fn law_change_is_read_column_by_column(change: ActiveModel)
    ensures
        match change.id {
            ActiveValue::Write(id) => change@.id == ActiveValue::Write(id@),
            ActiveValue::Unchanged(id) => change@.id == ActiveValue::Unchanged(id@),
            ActiveValue::NotSet => change@.id is NotSet,
        },
        match change.operation_type {
            ActiveValue::Write(None) => change@.operation_type == ActiveValue::Write(
                None::<Seq<char>>,
            ),
            ActiveValue::Write(Some(name)) => change@.operation_type == ActiveValue::Write(
                Some(name@),
            ),
            ActiveValue::Unchanged(None) => change@.operation_type == ActiveValue::Unchanged(
                None::<Seq<char>>,
            ),
            ActiveValue::Unchanged(Some(name)) => change@.operation_type
                == ActiveValue::Unchanged(Some(name@)),
            ActiveValue::NotSet => change@.operation_type is NotSet,
        },
        change@.timestamp == change.timestamp,
        change@.status == change.status,
        change@.next_retry == change.next_retry,
        change@.retry_count == change.retry_count,
{
}

} // verus!

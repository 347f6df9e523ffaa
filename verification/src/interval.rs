//! Intervals of time whose operations are fetched together, and the changes made to their rows.
use vstd::arithmetic::power2::pow2;
use vstd::prelude::*;

use crate::active_value::ActiveValue;
use crate::casts;
use crate::retry;
use crate::status;

verus! {

/// A row of the interval table.
#[derive(Debug, Clone, Copy, PartialEq, Eq)]
pub struct Model {
    pub id: i32,
    pub start: i64,
    pub end: i64,
    pub timestamp: i64,
    pub status: i16,
    pub next_retry: Option<i64>,
    pub retry_count: i16,
}

/// A new row of the interval table, or a change to one.
#[derive(Debug, Clone, Copy, PartialEq, Eq)]
pub struct ActiveModel {
    pub id: ActiveValue<i32>,
    pub start: ActiveValue<i64>,
    pub end: ActiveValue<i64>,
    pub timestamp: ActiveValue<i64>,
    pub status: ActiveValue<i16>,
    pub next_retry: ActiveValue<Option<i64>>,
    pub retry_count: ActiveValue<i16>,
}

impl ActiveModel {
    /// The row after the change was written over `row`.
    pub open spec fn applied(self, row: Model) -> Model {
        Model {
            id: self.id.applied(row.id),
            start: self.start.applied(row.start),
            end: self.end.applied(row.end),
            timestamp: self.timestamp.applied(row.timestamp),
            status: self.status.applied(row.status),
            next_retry: self.next_retry.applied(row.next_retry),
            retry_count: self.retry_count.applied(row.retry_count),
        }
    }

    /// The new row of a pending interval from `start` to `end`.
    pub open spec fn pending(start: u64, end: u64) -> ActiveModel {
        ActiveModel {
            id: ActiveValue::NotSet,
            start: ActiveValue::Write(casts::signed_of(start)),
            end: ActiveValue::Write(casts::signed_of(end)),
            timestamp: ActiveValue::Write(casts::signed_of(start)),
            status: ActiveValue::Write(status::PENDING),
            next_retry: ActiveValue::Write(None),
            retry_count: ActiveValue::Write(0),
        }
    }

    /// The instant that the row is written to end at, or zero where its end is not written.
    pub open spec fn end_instant(self) -> u64 {
        casts::unsigned_of(self.end.applied(0))
    }

    /// Reads the instant that the row is written to end at.
    pub fn written_end(&self) -> (end: u64)
        ensures
            end == self.end_instant(),
    {
        match self.end {
            ActiveValue::Write(end) => casts::to_unsigned(end),
            _ => 0,
        }
    }

    /// Builds the new row of a pending interval.
    pub fn new_pending(start: u64, end: u64) -> (row: ActiveModel)
        ensures
            row == ActiveModel::pending(start, end),
    {
        let first: i64 = casts::to_signed(start);
        let last: i64 = casts::to_signed(end);
        ActiveModel {
            id: ActiveValue::NotSet,
            start: ActiveValue::Write(first),
            end: ActiveValue::Write(last),
            timestamp: ActiveValue::Write(first),
            status: ActiveValue::Write(status::PENDING),
            next_retry: ActiveValue::Write(None),
            retry_count: ActiveValue::Write(0),
        }
    }
}

impl Model {
    /// The change that writes nothing.
    pub open spec fn unchanged(self) -> ActiveModel {
        ActiveModel {
            id: ActiveValue::Unchanged(self.id),
            start: ActiveValue::Unchanged(self.start),
            end: ActiveValue::Unchanged(self.end),
            timestamp: ActiveValue::Unchanged(self.timestamp),
            status: ActiveValue::Unchanged(self.status),
            next_retry: ActiveValue::Unchanged(self.next_retry),
            retry_count: ActiveValue::Unchanged(self.retry_count),
        }
    }

    /// The change that marks the interval finished: it writes the status alone.
    pub open spec fn finished(self) -> ActiveModel {
        ActiveModel { status: ActiveValue::Write(status::FINISHED), ..self.unchanged() }
    }

    /// The change that makes the interval pending again after a failure at `now`: it writes the
    /// status, the instant of the next retry and the retry count, raised by one.
    pub open spec fn rescheduled(self, now: u64) -> ActiveModel {
        ActiveModel {
            status: ActiveValue::Write(status::PENDING),
            next_retry: ActiveValue::Write(
                Some(retry::next_retry_at(now, self.retry_count) as i64),
            ),
            retry_count: ActiveValue::Write((self.retry_count + 1) as i16),
            ..self.unchanged()
        }
    }

    /// Builds the change that writes nothing.
    pub fn into_active_model(self) -> (change: ActiveModel)
        ensures
            change == self.unchanged(),
    {
        ActiveModel {
            id: ActiveValue::Unchanged(self.id),
            start: ActiveValue::Unchanged(self.start),
            end: ActiveValue::Unchanged(self.end),
            timestamp: ActiveValue::Unchanged(self.timestamp),
            status: ActiveValue::Unchanged(self.status),
            next_retry: ActiveValue::Unchanged(self.next_retry),
            retry_count: ActiveValue::Unchanged(self.retry_count),
        }
    }

    /// Builds the change that marks the interval finished.
    pub fn finish(self) -> (change: ActiveModel)
        ensures
            change == self.finished(),
    {
        let mut change = self.into_active_model();
        change.status = ActiveValue::Write(status::FINISHED);
        change
    }

    /// Builds the change that makes the interval pending again.
    pub fn reschedule(self, now: u64) -> (change: ActiveModel)
        requires
            retry::in_range(now, self.retry_count),
        ensures
            change == self.rescheduled(now),
    {
        proof {
            retry::law_count_can_grow(now, self.retry_count);
        }
        let at: i64 = retry::next_retry(now, self.retry_count);
        let mut change = self.into_active_model();
        change.next_retry = ActiveValue::Write(Some(at));
        change.retry_count = ActiveValue::Write(self.retry_count + 1);
        change.status = ActiveValue::Write(status::PENDING);
        change
    }
}

/// Finishing an interval changes its status to finished and no other column.
pub proof fn law_finishing_changes_the_status_alone(row: Model)
    ensures
        row.finished().applied(row) == (Model { status: status::FINISHED, ..row }),
{
}

/// A rescheduled interval is pending, due later than the failure, and counted once more; no other
/// column changes.
pub proof fn law_rescheduling_makes_pending(row: Model, now: u64)
    requires
        retry::in_range(now, row.retry_count),
    ensures
        ({
            let after = row.rescheduled(now).applied(row);
            &&& after.status == status::PENDING
            &&& after.next_retry matches Some(at) && at == retry::next_retry_at(
                now,
                row.retry_count,
            ) && at > casts::signed_of(now)
            &&& after.retry_count == row.retry_count + 1
            &&& after == (Model {
                status: after.status,
                next_retry: after.next_retry,
                retry_count: after.retry_count,
                ..row
            })
        }),
{
    retry::law_count_can_grow(now, row.retry_count);
    retry::law_retry_lies_ahead(now, row.retry_count);
}

/// A new interval holds the two instants it was made of, is known by its start, waits to be
/// claimed, has no retry scheduled and none behind it; its id is left to the database.
pub proof fn law_new_interval_is_pending(start: u64, end: u64)
    ensures
        ({
            let row = ActiveModel::pending(start, end);
            &&& row.id is NotSet
            &&& row.start matches ActiveValue::Write(first) && casts::unsigned_of(first) == start
            &&& row.end matches ActiveValue::Write(last) && casts::unsigned_of(last) == end
            &&& row.timestamp == row.start
            &&& row.status == ActiveValue::Write(status::PENDING)
            &&& row.next_retry == ActiveValue::Write(None::<i64>)
            &&& row.retry_count == ActiveValue::Write(0i16)
        }),
{
    casts::law_stored_instant_reads_back(start);
    casts::law_stored_instant_reads_back(end);
}

/// The end that is read from a row is the instant in its column, and zero where none is written.
pub proof fn law_end_is_the_written_instant(row: ActiveModel, end: u64)
    ensures
        row.end_instant() == end <== row.end == ActiveValue::Write(casts::signed_of(end)),
        row.end_instant() == 0 <== !(row.end is Write),
{
    casts::law_stored_instant_reads_back(end);
}

/// The change that finishes an interval is one to that very row and writes its status alone.
pub proof fn law_finishing_names_the_row(row: Model)
    ensures
        row.finished() == (ActiveModel {
            id: ActiveValue::Unchanged(row.id),
            start: ActiveValue::Unchanged(row.start),
            end: ActiveValue::Unchanged(row.end),
            timestamp: ActiveValue::Unchanged(row.timestamp),
            status: ActiveValue::Write(status::FINISHED),
            next_retry: ActiveValue::Unchanged(row.next_retry),
            retry_count: ActiveValue::Unchanged(row.retry_count),
        }),
        row.unchanged().status == ActiveValue::Unchanged(row.status),
        row.unchanged() == (ActiveModel { status: row.unchanged().status, ..row.finished() }),
{
}

/// The change that reschedules an interval is one to that very row: it waits again, its retry is
/// counted, and the next one lies five seconds after the failure, doubled for each retry before.
pub proof fn law_rescheduling_names_the_row(row: Model, now: u64)
    requires
        retry::in_range(now, row.retry_count),
    ensures
        ({
            let change = row.rescheduled(now);
            &&& change.id == ActiveValue::Unchanged(row.id)
            &&& change.start == ActiveValue::Unchanged(row.start)
            &&& change.end == ActiveValue::Unchanged(row.end)
            &&& change.timestamp == ActiveValue::Unchanged(row.timestamp)
            &&& change.status == ActiveValue::Write(status::PENDING)
            &&& change.next_retry matches ActiveValue::Write(Some(at)) && at - casts::signed_of(now)
                == 5 * pow2(row.retry_count as nat)
            &&& change.retry_count matches ActiveValue::Write(count) && count == row.retry_count + 1
        }),
{
    retry::law_count_can_grow(now, row.retry_count);
    retry::law_retry_backs_off(now, row.retry_count);
    retry::law_retry_lies_ahead(now, row.retry_count);
}

} // verus!

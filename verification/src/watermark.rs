//! The stored watermark: the instant up to which intervals have been saved.
use vstd::prelude::*;

use crate::active_value::ActiveValue;
use crate::casts;

verus! {

/// The row of the watermark table.
#[derive(Debug, Clone, Copy, PartialEq, Eq)]
pub struct Model {
    pub id: i32,
    pub timestamp: i64,
}

/// A change to the row of the watermark table.
#[derive(Debug, Clone, Copy, PartialEq, Eq)]
pub struct ActiveModel {
    pub id: ActiveValue<i32>,
    pub timestamp: ActiveValue<i64>,
}

impl ActiveModel {
    /// The row after the change was written over `row`.
    pub open spec fn applied(self, row: Model) -> Model {
        Model { id: self.id.applied(row.id), timestamp: self.timestamp.applied(row.timestamp) }
    }
}

/// The change that moves the watermark to `instant`: it rewrites the existing row, or makes the first
/// one where there is none.
pub open spec fn moved_to(existing: Option<Model>, instant: u64) -> ActiveModel {
    ActiveModel {
        id: match existing {
            Some(row) => ActiveValue::Unchanged(row.id),
            None => ActiveValue::NotSet,
        },
        timestamp: ActiveValue::Write(casts::signed_of(instant)),
    }
}

/// Builds the change that moves the watermark to `instant`.
pub fn move_to(existing: Option<Model>, instant: u64) -> (change: ActiveModel)
    ensures
        change == moved_to(existing, instant),
{
    let timestamp: i64 = casts::to_signed(instant);
    match existing {
        Some(row) => ActiveModel {
            id: ActiveValue::Unchanged(row.id),
            timestamp: ActiveValue::Write(timestamp),
        },
        None => ActiveModel { id: ActiveValue::NotSet, timestamp: ActiveValue::Write(timestamp) },
    }
}

/// Moving the watermark rewrites the row that there is, and makes one where there is none; read
/// back, it is the instant that it was moved to.
pub proof fn law_watermark_moves_to_the_instant(existing: Option<Model>, instant: u64)
    ensures
        ({
            let change = moved_to(existing, instant);
            &&& change.timestamp matches ActiveValue::Write(timestamp) && casts::unsigned_of(
                timestamp,
            ) == instant
            &&& existing matches Some(row) ==> change.id == ActiveValue::Unchanged(row.id)
            &&& existing is None ==> change.id is NotSet
        }),
{
    casts::law_stored_instant_reads_back(instant);
}

} // verus!

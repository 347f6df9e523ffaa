//! What a change says about one column of a row.
use vstd::prelude::*;

verus! {

/// The part of a change that concerns one column.
#[derive(Debug, Clone, Copy, PartialEq, Eq)]
pub enum ActiveValue<V> {
    /// The column is written with this value.
    Write(V),
    /// The column holds this value and is not written.
    Unchanged(V),
    /// Nothing is known of the column; it is not written.
    NotSet,
}

impl<V> ActiveValue<V> {
    /// What the column holds after the change was written over a row that held `stored`.
    pub open spec fn applied(self, stored: V) -> V {
        match self {
            ActiveValue::Write(v) => v,
            _ => stored,
        }
    }
}

} // verus!

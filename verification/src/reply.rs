//! How the outside world answers an effect.
use vstd::prelude::*;

verus! {

/// The answer to an effect on the database.
#[derive(Debug)]
pub enum Reply<R> {
    /// The effect was carried out.
    Done,
    /// The effect failed.
    Failed,
    /// The query was carried out and gave this row, if any.
    Row(Option<R>),
}

} // verus!

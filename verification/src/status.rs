//! The states of an interval or an operation in the database.
use vstd::prelude::*;

verus! {

/// Waiting to be claimed.
pub const PENDING: i16 = 0;

/// Claimed and being worked on.
pub const IN_PROGRESS: i16 = 1;

/// Done.
pub const FINISHED: i16 = 2;

/// The numbers that the statements of the streams write for the states of a row.
pub proof fn law_states_have_their_numbers()
    ensures
        PENDING == 0,
        IN_PROGRESS == 1,
        FINISHED == 2,
{
}

} // verus!

//! Conversions between unsigned instants (seconds since the epoch) and the signed 64-bit columns
//! that store them.
use vstd::prelude::*;

verus! {

/// The value of a signed column that holds the bits of `x`: `x` itself up to `i64::MAX`, and
/// `x - 2^64` above it.
pub open spec fn signed_of(x: u64) -> i64 {
    if x <= i64::MAX {
        x as i64
    } else {
        (x - 0x1_0000_0000_0000_0000) as i64
    }
}

/// The unsigned value with the bits of `x`: `x` itself from zero up, and `x + 2^64` below.
pub open spec fn unsigned_of(x: i64) -> u64 {
    if x >= 0 {
        x as u64
    } else {
        (x + 0x1_0000_0000_0000_0000) as u64
    }
}

/// Reinterprets an unsigned instant as a signed column value.
pub fn to_signed(x: u64) -> (r: i64)
    ensures
        r == signed_of(x),
{
    let r: i64 = x as i64;
    assert(x <= 0x7fff_ffff_ffff_ffffu64 ==> r == x) by (bit_vector)
        requires
            r == x as i64,
    ;
    assert(x > 0x7fff_ffff_ffff_ffffu64 ==> r == x - 0x1_0000_0000_0000_0000) by (bit_vector)
        requires
            r == x as i64,
    ;
    r
}

/// Reinterprets a signed column value as an unsigned instant.
pub fn to_unsigned(x: i64) -> (r: u64)
    ensures
        r == unsigned_of(x),
{
    let r: u64 = x as u64;
    assert(x >= 0 ==> r == x) by (bit_vector)
        requires
            r == x as u64,
    ;
    assert(x < 0 ==> r == x + 0x1_0000_0000_0000_0000) by (bit_vector)
        requires
            r == x as u64,
    ;
    r
}

/// Storing an instant in a signed column and reading it back gives the instant again.
pub proof fn law_stored_instant_reads_back(x: u64)
    ensures
        unsigned_of(signed_of(x)) == x,
{
}

/// Reading a signed column as an instant and storing it again gives the column value again.
pub proof fn law_read_column_stores_back(x: i64)
    ensures
        signed_of(unsigned_of(x)) == x,
{
}

/// A signed column and the instant stored in it have the same bits: they differ by a multiple of
/// `2^64`, and by nothing where the instant fits.
pub proof fn law_stored_instant_has_the_same_bits(x: u64)
    ensures
        (signed_of(x) - x) % 0x1_0000_0000_0000_0000 == 0,
        x <= i64::MAX ==> signed_of(x) == x,
{
}

/// An instant and the signed column it was read from have the same bits: they differ by a multiple
/// of `2^64`, and by nothing where the column is not negative.
pub proof fn law_read_instant_has_the_same_bits(x: i64)
    ensures
        (unsigned_of(x) - x) % 0x1_0000_0000_0000_0000 == 0,
        x >= 0 ==> unsigned_of(x) == x,
{
}

} // verus!

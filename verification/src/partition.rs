//! Mapping from slice indices to the time ranges they cover.

use crate::retrieve::model::Timestamp;
use vstd::prelude::*;

verus! {

/// Microseconds in one base unit of the partitioning scheme (fifteen minutes).
pub const UNIT_TIME_MICROS: u64 = 900_000_000;

/// Base-two logarithm of the number of base units in a full slice.
pub const FULL_SLICE_FACTOR: u32 = 9;

/// Microseconds covered by one full slice: `2^9` base units.
pub const FULL_SLICE_MICROS: u64 = 460_800_000_000;

/// The instant, in microseconds, at which slice zero starts.
pub const EPOCH_ORIGIN_MICROS: i64 = 0;

/// The largest slice index whose end still fits in a timestamp.
pub const MAX_SLICE_INDEX: u64 = 20_015_997;

/// Start of the slice with the given index, in microseconds.
pub open spec fn slice_start(slice_index: int) -> int {
    EPOCH_ORIGIN_MICROS as int + slice_index * (FULL_SLICE_MICROS as int)
}

/// End of the slice with the given index, in microseconds.
pub open spec fn slice_end(slice_index: int) -> int {
    slice_start(slice_index) + FULL_SLICE_MICROS as int
}

/// A full slice is `2^9` base units long.
pub proof fn lemma_full_slice_is_512_units()
    ensures
        FULL_SLICE_MICROS as int == 512 * (UNIT_TIME_MICROS as int),
        512 == vstd::arithmetic::power2::pow2(FULL_SLICE_FACTOR as nat),
{
    vstd::arithmetic::power2::lemma2_to64();
}

/// The time range covered by a slice: it starts at the epoch origin plus
/// `slice_index` full slices and lasts one full slice.
pub fn time_bounds_for_slice(slice_index: u64) -> (bounds: (Timestamp, Timestamp))
    requires
        slice_index <= MAX_SLICE_INDEX,
    ensures
        bounds.0.0 as int == slice_start(slice_index as int),
        bounds.1.0 as int == slice_end(slice_index as int),
{
    let elapsed: u64 = slice_index * FULL_SLICE_MICROS;
    let start: i64 = EPOCH_ORIGIN_MICROS + elapsed as i64;
    let end: i64 = start + FULL_SLICE_MICROS as i64;
    (Timestamp(start), Timestamp(end))
}

/// The time range covered by a slice, where its end is an instant that a
/// timestamp can hold; `None` for the slices beyond.
pub fn checked_time_bounds_for_slice(slice_index: u64) -> (bounds: Option<(Timestamp, Timestamp)>)
    ensures
        bounds is Some <==> slice_index <= MAX_SLICE_INDEX,
        bounds matches Some(range) ==> range.0.0 as int == slice_start(slice_index as int)
            && range.1.0 as int == slice_end(slice_index as int),
{
    if slice_index <= MAX_SLICE_INDEX {
        Some(time_bounds_for_slice(slice_index))
    } else {
        None
    }
}

/// The largest slice index is the last whose end a timestamp can hold.
pub proof fn lemma_max_slice_index()
    ensures
        slice_end(MAX_SLICE_INDEX as int) <= i64::MAX,
        slice_end(MAX_SLICE_INDEX as int + 1) > i64::MAX,
{
}

/// Slice zero starts at the epoch origin.
pub proof fn lemma_first_slice_starts_at_origin()
    ensures
        slice_start(0) == EPOCH_ORIGIN_MICROS as int,
{
}

/// Consecutive slices neither overlap nor leave a gap: each slice starts
/// where the one before it ends.
pub proof fn lemma_slices_are_contiguous(slice_index: int)
    ensures
        slice_start(slice_index + 1) == slice_end(slice_index),
{
    assert((slice_index + 1) * (FULL_SLICE_MICROS as int) == slice_index * (FULL_SLICE_MICROS as int)
        + FULL_SLICE_MICROS as int) by (nonlinear_arith);
}

} // verus!

use hc_ops::partition::{
    time_bounds_for_slice, EPOCH_ORIGIN_MICROS, FULL_SLICE_MICROS, MAX_SLICE_INDEX,
    UNIT_TIME_MICROS,
};

#[test]
fn slice_zero_starts_at_the_origin() {
    let (start, end) = time_bounds_for_slice(0);
    assert_eq!(start.0, EPOCH_ORIGIN_MICROS);
    assert_eq!(start.0, 0);
    assert_eq!(end.0, 460_800_000_000);
}

#[test]
fn a_full_slice_is_512_units() {
    assert_eq!(FULL_SLICE_MICROS, 512 * UNIT_TIME_MICROS);
    assert_eq!(UNIT_TIME_MICROS, 15 * 60 * 1_000_000);
}

#[test]
fn slices_follow_one_another() {
    for n in [0u64, 1, 2, 41, 1000, 20_015_996] {
        let (_, end) = time_bounds_for_slice(n);
        let (next_start, next_end) = time_bounds_for_slice(n + 1);
        assert_eq!(end, next_start);
        assert_eq!(next_end.as_micros() - next_start.as_micros(), 460_800_000_000);
    }
}

#[test]
fn slice_bounds_have_exact_values() {
    let (start, end) = time_bounds_for_slice(3);
    assert_eq!(start.as_micros(), 1_382_400_000_000);
    assert_eq!(end.as_micros(), 1_843_200_000_000);
}

#[test]
fn the_last_slice_fits() {
    let (start, end) = time_bounds_for_slice(MAX_SLICE_INDEX);
    assert_eq!(start.as_micros(), 9_223_371_417_600_000_000);
    assert_eq!(end.as_micros(), 9_223_371_878_400_000_000);
    assert!((end.as_micros() as i128) + (FULL_SLICE_MICROS as i128) > i64::MAX as i128);
}

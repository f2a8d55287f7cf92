use core::cmp::Ordering;
use proof_of_sql::column::OwnedColumn;
use proof_of_sql::ordering::{derive_sort_permutation, OrderByDirection};
use proof_of_sql::permutation::PermutationError;
use proof_of_sql::scalar::Scalar;
use proof_of_sql::table::OwnedTable;
use proof_of_sql::time::{compare_timestamps, TimeUnit, TimeZone, TimestampError};

fn one_column_table(vals: Vec<i64>) -> OwnedTable {
    OwnedTable::try_new(vec![("v".to_string(), OwnedColumn::BigInt(vals))]).unwrap()
}

#[test]
fn derived_permutation_reorders_any_column() {
    let t = one_column_table(vec![30, 10, 20]);
    let keys = vec![(0usize, OrderByDirection::Asc)];
    let perm = derive_sort_permutation(&t, &keys);
    assert_eq!(perm.size(), 3);
    // The permutation derived from the table applies to any column of the
    // same length, whatever its variant.
    let other = OwnedColumn::Boolean(vec![true, false, false]);
    let permuted = other.try_permute(&perm).unwrap();
    assert_eq!(permuted, OwnedColumn::Boolean(vec![false, false, true]));
    let sorted = OwnedColumn::BigInt(vec![30, 10, 20]).try_permute(&perm).unwrap();
    assert_eq!(sorted, OwnedColumn::BigInt(vec![10, 20, 30]));
}

#[test]
fn derived_permutation_is_a_bijection() {
    let t = one_column_table(vec![5, 5, 2, 9]);
    let keys = vec![(0usize, OrderByDirection::Asc)];
    let perm = derive_sort_permutation(&t, &keys);
    let mut seen = vec![false; 4];
    for i in 0..perm.size() {
        let v = perm.index(i);
        assert!(v < 4);
        assert!(!seen[v]);
        seen[v] = true;
    }
    assert!(seen.into_iter().all(|b| b));
}

#[test]
fn empty_key_list_gives_identity_permutation() {
    let t = one_column_table(vec![4, 4, 4]);
    let keys: Vec<(usize, OrderByDirection)> = vec![];
    let perm = derive_sort_permutation(&t, &keys);
    assert_eq!((perm.index(0), perm.index(1), perm.index(2)), (0, 1, 2));
}

#[test]
fn size_mismatch_is_rejected() {
    let t = one_column_table(vec![1, 2]);
    let keys = vec![(0usize, OrderByDirection::Asc)];
    let perm = derive_sort_permutation(&t, &keys);
    let longer = OwnedColumn::BigInt(vec![1, 2, 3]);
    assert_eq!(longer.try_permute(&perm).unwrap_err(), PermutationError::SizeMismatch);
}

#[test]
fn timezone_offsets_validate() {
    assert_eq!(TimeZone::try_new(3600).unwrap().offset(), 3600);
    assert_eq!(TimeZone::try_new(-86399).unwrap().offset(), -86399);
    assert_eq!(TimeZone::utc().offset(), 0);
    assert_eq!(
        TimeZone::try_new(86400).unwrap_err(),
        TimestampError::InvalidTimeZoneOffset { offset: 86400 }
    );
    assert_eq!(
        TimeZone::try_new(-90000).unwrap_err(),
        TimestampError::InvalidTimeZoneOffset { offset: -90000 }
    );
}

#[test]
fn time_unit_precision_validates() {
    assert_eq!(TimeUnit::try_from_precision(0).unwrap(), TimeUnit::Second);
    assert_eq!(TimeUnit::try_from_precision(3).unwrap(), TimeUnit::Millisecond);
    assert_eq!(TimeUnit::try_from_precision(6).unwrap(), TimeUnit::Microsecond);
    assert_eq!(TimeUnit::try_from_precision(9).unwrap(), TimeUnit::Nanosecond);
    assert_eq!(
        TimeUnit::try_from_precision(5).unwrap_err(),
        TimestampError::UnsupportedPrecision { precision: 5 }
    );
}

#[test]
fn timestamps_compare_after_unit_normalization() {
    // 1 second is 1000 milliseconds: more than 999, equal to 1000.
    assert_eq!(
        compare_timestamps(1, TimeUnit::Second, 999, TimeUnit::Millisecond).unwrap(),
        Ordering::Greater
    );
    assert_eq!(
        compare_timestamps(1, TimeUnit::Second, 1000, TimeUnit::Millisecond).unwrap(),
        Ordering::Equal
    );
    assert_eq!(
        compare_timestamps(2, TimeUnit::Microsecond, 1999, TimeUnit::Nanosecond).unwrap(),
        Ordering::Greater
    );
    assert_eq!(
        compare_timestamps(-1, TimeUnit::Second, 1, TimeUnit::Nanosecond).unwrap(),
        Ordering::Less
    );
}

#[test]
fn non_normalizable_units_are_a_typed_error() {
    assert_eq!(
        compare_timestamps(i64::MAX, TimeUnit::Second, 0, TimeUnit::Nanosecond).unwrap_err(),
        TimestampError::UnitNormalizationOverflow
    );
    assert_eq!(
        compare_timestamps(0, TimeUnit::Nanosecond, i64::MIN, TimeUnit::Second).unwrap_err(),
        TimestampError::UnitNormalizationOverflow
    );
}

#[test]
fn scalars_order_by_canonical_integer() {
    let a = Scalar::from_u64(7);
    let b = Scalar::from_u64(9);
    assert_eq!(a.compare(&b), Ordering::Less);
    assert_eq!(b.compare(&a), Ordering::Greater);
    assert_eq!(a.compare(&a), Ordering::Equal);
    let big = Scalar { limb3: 1, limb2: 0, limb1: 0, limb0: 0 };
    assert_eq!(big.compare(&Scalar::from_u64(u64::MAX)), Ordering::Greater);
}

use proof_of_sql::column::OwnedColumn;
use proof_of_sql::order_by::{
    apply_steps, OrderByExpr, OrderByPostprocessing, PostprocessingError, PostprocessingStep,
};
use proof_of_sql::ordering::OrderByDirection;
use proof_of_sql::scalar::Scalar;
use proof_of_sql::table::{OwnedTable, TableError};
use proof_of_sql::time::{TimeUnit, TimeZone};

fn table(cols: Vec<(&str, OwnedColumn)>) -> OwnedTable {
    OwnedTable::try_new(cols.into_iter().map(|(n, c)| (n.to_string(), c)).collect()).unwrap()
}

fn strings(vals: Vec<&str>) -> OwnedColumn {
    OwnedColumn::VarChar(vals.into_iter().map(|s| s.to_string()).collect())
}

fn order_by(keys: Vec<(&str, OrderByDirection)>) -> OrderByPostprocessing {
    OrderByPostprocessing::new(
        keys.into_iter()
            .map(|(c, d)| OrderByExpr { column: c.to_string(), direction: d })
            .collect(),
    )
}

#[test]
fn single_key_ascending() {
    let input = table(vec![
        ("id", OwnedColumn::BigInt(vec![3, 1, 2])),
        ("name", strings(vec!["c", "a", "b"])),
    ]);
    let expected = table(vec![
        ("id", OwnedColumn::BigInt(vec![1, 2, 3])),
        ("name", strings(vec!["a", "b", "c"])),
    ]);
    let out = order_by(vec![("id", OrderByDirection::Asc)]).apply(input).unwrap();
    assert_eq!(out, expected);
}

#[test]
fn single_key_descending() {
    let input = table(vec![
        ("id", OwnedColumn::BigInt(vec![3, 1, 2])),
        ("name", strings(vec!["c", "a", "b"])),
    ]);
    let expected = table(vec![
        ("id", OwnedColumn::BigInt(vec![3, 2, 1])),
        ("name", strings(vec!["c", "b", "a"])),
    ]);
    let out = order_by(vec![("id", OrderByDirection::Desc)]).apply(input).unwrap();
    assert_eq!(out, expected);
}

#[test]
fn two_keys_mixed_directions() {
    let input = table(vec![
        ("a", OwnedColumn::BigInt(vec![1, 1, 2])),
        ("b", OwnedColumn::BigInt(vec![2, 1, 3])),
    ]);
    let expected = table(vec![
        ("a", OwnedColumn::BigInt(vec![1, 1, 2])),
        ("b", OwnedColumn::BigInt(vec![2, 1, 3])),
    ]);
    let out = order_by(vec![("a", OrderByDirection::Asc), ("b", OrderByDirection::Desc)])
        .apply(input)
        .unwrap();
    assert_eq!(out, expected);
}

#[test]
fn zero_rows_any_spec() {
    let input = table(vec![
        ("a", OwnedColumn::BigInt(vec![])),
        ("b", strings(vec![])),
    ]);
    let expected = input.clone();
    let out = order_by(vec![("a", OrderByDirection::Desc), ("b", OrderByDirection::Asc)])
        .apply(input)
        .unwrap();
    assert_eq!(out, expected);
}

#[test]
fn missing_column_reports_its_name() {
    let input = table(vec![
        ("a", OwnedColumn::BigInt(vec![1, 2])),
        ("b", OwnedColumn::BigInt(vec![3, 4])),
    ]);
    let err = order_by(vec![("z", OrderByDirection::Asc)]).apply(input).unwrap_err();
    assert_eq!(err, PostprocessingError::ColumnNotFound { column: "z".to_string() });
}

#[test]
fn first_missing_column_wins() {
    let input = table(vec![("a", OwnedColumn::BigInt(vec![1, 2]))]);
    let err = order_by(vec![
        ("a", OrderByDirection::Asc),
        ("q", OrderByDirection::Asc),
        ("r", OrderByDirection::Asc),
    ])
    .apply(input)
    .unwrap_err();
    assert_eq!(err, PostprocessingError::ColumnNotFound { column: "q".to_string() });
}

#[test]
fn ties_keep_original_order() {
    let input = table(vec![
        ("key", OwnedColumn::BigInt(vec![7, 7, 7, 1])),
        ("payload", OwnedColumn::BigInt(vec![10, 20, 30, 40])),
    ]);
    let expected = table(vec![
        ("key", OwnedColumn::BigInt(vec![1, 7, 7, 7])),
        ("payload", OwnedColumn::BigInt(vec![40, 10, 20, 30])),
    ]);
    let out = order_by(vec![("key", OrderByDirection::Asc)]).apply(input).unwrap();
    assert_eq!(out, expected);
}

#[test]
fn rerunning_apply_is_deterministic() {
    let step = order_by(vec![("k", OrderByDirection::Asc)]);
    let make = || {
        table(vec![
            ("k", OwnedColumn::BigInt(vec![2, 2, 1])),
            ("v", strings(vec!["x", "y", "z"])),
        ])
    };
    let first = step.apply(make()).unwrap();
    let second = step.apply(make()).unwrap();
    assert_eq!(first, second);
}

#[test]
fn reversing_every_direction_reverses_rows_without_ties() {
    let input = table(vec![
        ("a", OwnedColumn::BigInt(vec![2, 3, 1])),
        ("tag", strings(vec!["two", "three", "one"])),
    ]);
    let asc = order_by(vec![("a", OrderByDirection::Asc)]).apply(input.clone()).unwrap();
    let desc = order_by(vec![("a", OrderByDirection::Desc)]).apply(input).unwrap();
    let asc_pairs = asc.into_inner();
    let desc_pairs = desc.into_inner();
    match (&asc_pairs[0].1, &desc_pairs[0].1) {
        (OwnedColumn::BigInt(f), OwnedColumn::BigInt(r)) => {
            let mut rev = r.clone();
            rev.reverse();
            assert_eq!(f, &rev);
        },
        _ => panic!("unexpected variant"),
    }
    match (&asc_pairs[1].1, &desc_pairs[1].1) {
        (OwnedColumn::VarChar(f), OwnedColumn::VarChar(r)) => {
            let mut rev = r.clone();
            rev.reverse();
            assert_eq!(f, &rev);
        },
        _ => panic!("unexpected variant"),
    }
}

#[test]
fn varchar_sorts_lexicographically() {
    let input = table(vec![("s", strings(vec!["pear", "apple", "peach", ""]))]);
    let expected = table(vec![("s", strings(vec!["", "apple", "peach", "pear"]))]);
    let out = order_by(vec![("s", OrderByDirection::Asc)]).apply(input).unwrap();
    assert_eq!(out, expected);
}

#[test]
fn boolean_sorts_false_before_true() {
    let input = table(vec![("b", OwnedColumn::Boolean(vec![true, false, true, false]))]);
    let expected = table(vec![("b", OwnedColumn::Boolean(vec![false, false, true, true]))]);
    let out = order_by(vec![("b", OrderByDirection::Asc)]).apply(input).unwrap();
    assert_eq!(out, expected);
}

#[test]
fn every_integer_width_sorts() {
    let input = table(vec![
        ("t", OwnedColumn::TinyInt(vec![2, -1, 0])),
        ("s", OwnedColumn::SmallInt(vec![5, 6, 4])),
        ("i", OwnedColumn::Int(vec![-7, 8, 9])),
        ("w", OwnedColumn::Int128(vec![1, 2, 3])),
    ]);
    let expected = table(vec![
        ("t", OwnedColumn::TinyInt(vec![-1, 0, 2])),
        ("s", OwnedColumn::SmallInt(vec![6, 4, 5])),
        ("i", OwnedColumn::Int(vec![8, 9, -7])),
        ("w", OwnedColumn::Int128(vec![2, 3, 1])),
    ]);
    let out = order_by(vec![("t", OrderByDirection::Asc)]).apply(input).unwrap();
    assert_eq!(out, expected);
}

#[test]
fn scalar_and_decimal_sort_by_canonical_value() {
    let s = Scalar::from_u64;
    let input = table(vec![
        ("d", OwnedColumn::Decimal75(10, 2, vec![s(300), s(100), s(200)])),
        ("r", OwnedColumn::Scalar(vec![s(1), s(2), s(3)])),
    ]);
    let expected = table(vec![
        ("d", OwnedColumn::Decimal75(10, 2, vec![s(100), s(200), s(300)])),
        ("r", OwnedColumn::Scalar(vec![s(2), s(3), s(1)])),
    ]);
    let out = order_by(vec![("d", OrderByDirection::Asc)]).apply(input).unwrap();
    assert_eq!(out, expected);
}

#[test]
fn timestamp_column_sorts_by_ticks() {
    let input = table(vec![(
        "ts",
        OwnedColumn::TimestampTZ(TimeUnit::Millisecond, TimeZone::utc(), vec![30, -10, 20]),
    )]);
    let expected = table(vec![(
        "ts",
        OwnedColumn::TimestampTZ(TimeUnit::Millisecond, TimeZone::utc(), vec![-10, 20, 30]),
    )]);
    let out = order_by(vec![("ts", OrderByDirection::Asc)]).apply(input).unwrap();
    assert_eq!(out, expected);
}

#[test]
fn mismatched_column_lengths_are_rejected() {
    let r = OwnedTable::try_new(vec![
        ("a".to_string(), OwnedColumn::BigInt(vec![1, 2])),
        ("b".to_string(), OwnedColumn::BigInt(vec![1, 2, 3])),
    ]);
    assert_eq!(r.unwrap_err(), TableError::ColumnLengthMismatch);
}

#[test]
fn pipeline_applies_steps_in_order() {
    let input = table(vec![
        ("a", OwnedColumn::BigInt(vec![1, 2, 3])),
        ("b", OwnedColumn::BigInt(vec![9, 9, 1])),
    ]);
    let steps = vec![
        PostprocessingStep::OrderBy(order_by(vec![("a", OrderByDirection::Desc)])),
        PostprocessingStep::OrderBy(order_by(vec![("b", OrderByDirection::Asc)])),
    ];
    // After the first step rows are (3,1),(2,9),(1,9); the second step sorts
    // by b ascending, stably keeping (2,9) before (1,9).
    let expected = table(vec![
        ("a", OwnedColumn::BigInt(vec![3, 2, 1])),
        ("b", OwnedColumn::BigInt(vec![1, 9, 9])),
    ]);
    let out = apply_steps(&steps, input).unwrap();
    assert_eq!(out, expected);
}

#[test]
fn pipeline_propagates_first_error() {
    let input = table(vec![("a", OwnedColumn::BigInt(vec![1]))]);
    let steps = vec![
        PostprocessingStep::OrderBy(order_by(vec![("a", OrderByDirection::Asc)])),
        PostprocessingStep::OrderBy(order_by(vec![("missing", OrderByDirection::Asc)])),
    ];
    let err = apply_steps(&steps, input).unwrap_err();
    assert_eq!(err, PostprocessingError::ColumnNotFound { column: "missing".to_string() });
}

#[test]
fn empty_spec_keeps_row_order() {
    let input = table(vec![("a", OwnedColumn::BigInt(vec![2, 1, 3]))]);
    let expected = input.clone();
    let out = order_by(vec![]).apply(input).unwrap();
    assert_eq!(out, expected);
}

#[test]
fn table_lookup_finds_first_match() {
    let t = table(vec![
        ("x", OwnedColumn::BigInt(vec![1])),
        ("y", OwnedColumn::BigInt(vec![2])),
    ]);
    assert_eq!(t.column_index("y"), Some(1));
    assert_eq!(t.column_index("nope"), None);
    assert!(t.column("x").is_some());
    assert!(t.column("nope").is_none());
    assert_eq!(t.num_rows(), 1);
    assert_eq!(t.num_columns(), 2);
}

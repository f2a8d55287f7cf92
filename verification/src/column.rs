//! The typed columnar result model.
//!
//! [`OwnedColumn`] is a closed set of column variants, each an ordered
//! sequence of values of one SQL type.  Every operation — length, value
//! comparison at two row indexes, permutation application — handles every
//! variant, so that an added variant is caught at compile time wherever its
//! handling would be missing.  The mathematical model of a column is
//! [`ColumnModel`]: the same tag and type metadata over `Seq` values.

use vstd::prelude::*;
use core::cmp::Ordering;
use crate::compare::{bool_cmp, compare_str, int_cmp, str_cmp};
use crate::permutation::{
    is_row_permutation, lemma_reindex_preserves_multiset, reindex_seq, Permutation,
    PermutationError,
};
use crate::scalar::Scalar;
use crate::time::{TimeUnit, TimeZone};

verus! {

/// The mathematical model of a column: its variant tag, its type metadata,
/// and the sequence of its element values.
pub enum ColumnModel {
    /// Booleans.
    Boolean(Seq<bool>),
    /// 8-bit signed integers.
    TinyInt(Seq<i8>),
    /// 16-bit signed integers.
    SmallInt(Seq<i16>),
    /// 32-bit signed integers.
    Int(Seq<i32>),
    /// 64-bit signed integers.
    BigInt(Seq<i64>),
    /// 128-bit signed integers.
    Int128(Seq<i128>),
    /// Fixed-point decimals of a given precision and scale, as scalars.
    Decimal75(u8, i8, Seq<Scalar>),
    /// Raw scalar field elements.
    Scalar(Seq<Scalar>),
    /// Variable-length strings.
    VarChar(Seq<Seq<char>>),
    /// Timestamps of one unit and timezone, as signed tick counts.
    TimestampTZ(TimeUnit, TimeZone, Seq<i64>),
}

impl ColumnModel {
    /// The number of rows.
    pub open spec fn len(self) -> nat {
        match self {
            ColumnModel::Boolean(v) => v.len(),
            ColumnModel::TinyInt(v) => v.len(),
            ColumnModel::SmallInt(v) => v.len(),
            ColumnModel::Int(v) => v.len(),
            ColumnModel::BigInt(v) => v.len(),
            ColumnModel::Int128(v) => v.len(),
            ColumnModel::Decimal75(_, _, v) => v.len(),
            ColumnModel::Scalar(v) => v.len(),
            ColumnModel::VarChar(v) => v.len(),
            ColumnModel::TimestampTZ(_, _, v) => v.len(),
        }
    }

    /// Three-way comparison of the values at row indexes `a` and `b`, under
    /// the total order of the column's element type.
    pub open spec fn cmp_at(self, a: int, b: int) -> Ordering {
        match self {
            ColumnModel::Boolean(v) => bool_cmp(v[a], v[b]),
            ColumnModel::TinyInt(v) => int_cmp(v[a] as int, v[b] as int),
            ColumnModel::SmallInt(v) => int_cmp(v[a] as int, v[b] as int),
            ColumnModel::Int(v) => int_cmp(v[a] as int, v[b] as int),
            ColumnModel::BigInt(v) => int_cmp(v[a] as int, v[b] as int),
            ColumnModel::Int128(v) => int_cmp(v[a] as int, v[b] as int),
            ColumnModel::Decimal75(_, _, v) => v[a].spec_cmp(v[b]),
            ColumnModel::Scalar(v) => v[a].spec_cmp(v[b]),
            ColumnModel::VarChar(v) => str_cmp(v[a], v[b]),
            ColumnModel::TimestampTZ(_, _, v) => int_cmp(v[a] as int, v[b] as int),
        }
    }

    /// The same column with its rows reindexed: row `i` of the result is row
    /// `p[i]` of `self`.  Variant and type metadata are untouched.
    pub open spec fn reindex(self, p: Seq<usize>) -> ColumnModel {
        match self {
            ColumnModel::Boolean(v) => ColumnModel::Boolean(reindex_seq(v, p)),
            ColumnModel::TinyInt(v) => ColumnModel::TinyInt(reindex_seq(v, p)),
            ColumnModel::SmallInt(v) => ColumnModel::SmallInt(reindex_seq(v, p)),
            ColumnModel::Int(v) => ColumnModel::Int(reindex_seq(v, p)),
            ColumnModel::BigInt(v) => ColumnModel::BigInt(reindex_seq(v, p)),
            ColumnModel::Int128(v) => ColumnModel::Int128(reindex_seq(v, p)),
            ColumnModel::Decimal75(precision, scale, v) => ColumnModel::Decimal75(
                precision,
                scale,
                reindex_seq(v, p),
            ),
            ColumnModel::Scalar(v) => ColumnModel::Scalar(reindex_seq(v, p)),
            ColumnModel::VarChar(v) => ColumnModel::VarChar(reindex_seq(v, p)),
            ColumnModel::TimestampTZ(unit, zone, v) => ColumnModel::TimestampTZ(
                unit,
                zone,
                reindex_seq(v, p),
            ),
        }
    }
}

/// A typed column of an owned result table: one variant per supported SQL
/// type, each an ordered sequence of native values (or of [`Scalar`]s).
#[derive(Clone, Debug, PartialEq, Eq)]
pub enum OwnedColumn {
    /// Booleans.
    Boolean(Vec<bool>),
    /// 8-bit signed integers.
    TinyInt(Vec<i8>),
    /// 16-bit signed integers.
    SmallInt(Vec<i16>),
    /// 32-bit signed integers.
    Int(Vec<i32>),
    /// 64-bit signed integers.
    BigInt(Vec<i64>),
    /// 128-bit signed integers.
    Int128(Vec<i128>),
    /// Fixed-point decimals of a given precision and scale, as scalars.
    Decimal75(u8, i8, Vec<Scalar>),
    /// Raw scalar field elements.
    Scalar(Vec<Scalar>),
    /// Variable-length strings.
    VarChar(Vec<String>),
    /// Timestamps of one unit and timezone, as signed tick counts.
    TimestampTZ(TimeUnit, TimeZone, Vec<i64>),
}

impl View for OwnedColumn {
    type V = ColumnModel;

    open spec fn view(&self) -> ColumnModel {
        match self {
            OwnedColumn::Boolean(v) => ColumnModel::Boolean(v@),
            OwnedColumn::TinyInt(v) => ColumnModel::TinyInt(v@),
            OwnedColumn::SmallInt(v) => ColumnModel::SmallInt(v@),
            OwnedColumn::Int(v) => ColumnModel::Int(v@),
            OwnedColumn::BigInt(v) => ColumnModel::BigInt(v@),
            OwnedColumn::Int128(v) => ColumnModel::Int128(v@),
            OwnedColumn::Decimal75(precision, scale, v) => ColumnModel::Decimal75(
                *precision,
                *scale,
                v@,
            ),
            OwnedColumn::Scalar(v) => ColumnModel::Scalar(v@),
            OwnedColumn::VarChar(v) => ColumnModel::VarChar(v.deep_view()),
            OwnedColumn::TimestampTZ(unit, zone, v) => ColumnModel::TimestampTZ(*unit, *zone, v@),
        }
    }
}

/// Copies `v` reordered by the index vector `idx`.
fn permute_vec_copy<T: Copy>(v: &Vec<T>, idx: &Vec<usize>) -> (r: Vec<T>)
    requires
        forall|k: int| 0 <= k < idx@.len() ==> (#[trigger] idx@[k]) < v@.len(),
    ensures
        r@ == reindex_seq(v@, idx@),
{
    let n = idx.len();
    let mut r: Vec<T> = Vec::new();
    let mut i: usize = 0;
    while i < n
        invariant
            i <= n,
            n == idx@.len(),
            forall|k: int| 0 <= k < idx@.len() ==> (#[trigger] idx@[k]) < v@.len(),
            r@.len() == i,
            forall|k: int| 0 <= k < i ==> r@[k] == v@[idx@[k] as int],
        decreases n - i,
    {
        r.push(v[idx[i]]);
        i = i + 1;
    }
    proof {
        assert(r@ =~= reindex_seq(v@, idx@));
    }
    r
}

/// Clones `v` reordered by the index vector `idx`.
fn permute_vec_string(v: &Vec<String>, idx: &Vec<usize>) -> (r: Vec<String>)
    requires
        forall|k: int| 0 <= k < idx@.len() ==> (#[trigger] idx@[k]) < v@.len(),
    ensures
        r.deep_view() == reindex_seq(v.deep_view(), idx@),
{
    let n = idx.len();
    let mut r: Vec<String> = Vec::new();
    let mut i: usize = 0;
    while i < n
        invariant
            i <= n,
            n == idx@.len(),
            forall|k: int| 0 <= k < idx@.len() ==> (#[trigger] idx@[k]) < v@.len(),
            r@.len() == i,
            forall|k: int| 0 <= k < i ==> r@[k]@ == v@[idx@[k] as int]@,
        decreases n - i,
    {
        let s: &String = &v[idx[i]];
        r.push(s.clone());
        i = i + 1;
    }
    proof {
        assert(r.deep_view() =~= reindex_seq(v.deep_view(), idx@));
    }
    r
}

impl OwnedColumn {
    /// The number of rows of this column.
    pub fn len(&self) -> (r: usize)
        ensures
            r == self@.len(),
    {
        match self {
            OwnedColumn::Boolean(v) => v.len(),
            OwnedColumn::TinyInt(v) => v.len(),
            OwnedColumn::SmallInt(v) => v.len(),
            OwnedColumn::Int(v) => v.len(),
            OwnedColumn::BigInt(v) => v.len(),
            OwnedColumn::Int128(v) => v.len(),
            OwnedColumn::Decimal75(_, _, v) => v.len(),
            OwnedColumn::Scalar(v) => v.len(),
            OwnedColumn::VarChar(v) => v.len(),
            OwnedColumn::TimestampTZ(_, _, v) => v.len(),
        }
    }

    /// Three-way comparison of the values at row indexes `a` and `b`.
    pub fn cmp_at(&self, a: usize, b: usize) -> (r: Ordering)
        requires
            a < self@.len(),
            b < self@.len(),
        ensures
            r == self@.cmp_at(a as int, b as int),
    {
        match self {
            OwnedColumn::Boolean(v) => {
                let x = v[a];
                let y = v[b];
                if x == y {
                    Ordering::Equal
                } else if !x {
                    Ordering::Less
                } else {
                    Ordering::Greater
                }
            },
            OwnedColumn::TinyInt(v) => compare_i8(v[a], v[b]),
            OwnedColumn::SmallInt(v) => compare_i16(v[a], v[b]),
            OwnedColumn::Int(v) => compare_i32(v[a], v[b]),
            OwnedColumn::BigInt(v) => compare_i64(v[a], v[b]),
            OwnedColumn::Int128(v) => compare_i128(v[a], v[b]),
            OwnedColumn::Decimal75(_, _, v) => v[a].compare(&v[b]),
            OwnedColumn::Scalar(v) => v[a].compare(&v[b]),
            OwnedColumn::VarChar(v) => compare_str(v[a].as_str(), v[b].as_str()),
            OwnedColumn::TimestampTZ(_, _, v) => compare_i64(v[a], v[b]),
        }
    }

    /// Applies a permutation whose size matches this column's length,
    /// producing a column of the same variant with rows reordered.
    pub fn permute(&self, p: &Permutation) -> (r: OwnedColumn)
        requires
            p@.len() == self@.len(),
        ensures
            r@ == self@.reindex(p@),
    {
        let n = p.size();
        proof {
            crate::permutation::lemma_row_permutation_bijective(p@, n as nat);
        }
        let idx = p.indices();
        match self {
            OwnedColumn::Boolean(v) => OwnedColumn::Boolean(permute_vec_copy(v, idx)),
            OwnedColumn::TinyInt(v) => OwnedColumn::TinyInt(permute_vec_copy(v, idx)),
            OwnedColumn::SmallInt(v) => OwnedColumn::SmallInt(permute_vec_copy(v, idx)),
            OwnedColumn::Int(v) => OwnedColumn::Int(permute_vec_copy(v, idx)),
            OwnedColumn::BigInt(v) => OwnedColumn::BigInt(permute_vec_copy(v, idx)),
            OwnedColumn::Int128(v) => OwnedColumn::Int128(permute_vec_copy(v, idx)),
            OwnedColumn::Decimal75(precision, scale, v) => OwnedColumn::Decimal75(
                *precision,
                *scale,
                permute_vec_copy(v, idx),
            ),
            OwnedColumn::Scalar(v) => OwnedColumn::Scalar(permute_vec_copy(v, idx)),
            OwnedColumn::VarChar(v) => OwnedColumn::VarChar(permute_vec_string(v, idx)),
            OwnedColumn::TimestampTZ(unit, zone, v) => OwnedColumn::TimestampTZ(
                *unit,
                *zone,
                permute_vec_copy(v, idx),
            ),
        }
    }

    /// Applies a permutation, rejecting one whose size disagrees with this
    /// column's length.  The disagreement is an internal invariant
    /// violation, not a recoverable user-facing condition.
    pub fn try_permute(&self, p: &Permutation) -> (r: Result<OwnedColumn, PermutationError>)
        ensures
            p@.len() == self@.len() ==> (r matches Ok(c) && c@ == self@.reindex(p@)),
            p@.len() != self@.len() ==> r == Err::<OwnedColumn, PermutationError>(
                PermutationError::SizeMismatch,
            ),
    {
        if p.size() == self.len() {
            Ok(self.permute(p))
        } else {
            Err(PermutationError::SizeMismatch)
        }
    }
}

/// Applying a row permutation to a column keeps its variant, its type
/// metadata, its length, and the multiset of its values.
pub proof fn lemma_reindex_preserves_column_values(c: ColumnModel, p: Seq<usize>)
    requires
        c.len() <= usize::MAX,
        is_row_permutation(p, c.len()),
    ensures
        c.reindex(p).len() == c.len(),
        (match (c, c.reindex(p)) {
            (ColumnModel::Boolean(v), ColumnModel::Boolean(w)) => w.to_multiset()
                == v.to_multiset(),
            (ColumnModel::TinyInt(v), ColumnModel::TinyInt(w)) => w.to_multiset()
                == v.to_multiset(),
            (ColumnModel::SmallInt(v), ColumnModel::SmallInt(w)) => w.to_multiset()
                == v.to_multiset(),
            (ColumnModel::Int(v), ColumnModel::Int(w)) => w.to_multiset() == v.to_multiset(),
            (ColumnModel::BigInt(v), ColumnModel::BigInt(w)) => w.to_multiset()
                == v.to_multiset(),
            (ColumnModel::Int128(v), ColumnModel::Int128(w)) => w.to_multiset()
                == v.to_multiset(),
            (
                ColumnModel::Decimal75(precision, scale, v),
                ColumnModel::Decimal75(p2, s2, w),
            ) => p2 == precision && s2 == scale && w.to_multiset() == v.to_multiset(),
            (ColumnModel::Scalar(v), ColumnModel::Scalar(w)) => w.to_multiset()
                == v.to_multiset(),
            (ColumnModel::VarChar(v), ColumnModel::VarChar(w)) => w.to_multiset()
                == v.to_multiset(),
            (ColumnModel::TimestampTZ(unit, zone, v), ColumnModel::TimestampTZ(u2, z2, w)) => u2
                == unit && z2 == zone && w.to_multiset() == v.to_multiset(),
            _ => false,
        }),
{
    match c {
        ColumnModel::Boolean(v) => lemma_reindex_preserves_multiset(v, p),
        ColumnModel::TinyInt(v) => lemma_reindex_preserves_multiset(v, p),
        ColumnModel::SmallInt(v) => lemma_reindex_preserves_multiset(v, p),
        ColumnModel::Int(v) => lemma_reindex_preserves_multiset(v, p),
        ColumnModel::BigInt(v) => lemma_reindex_preserves_multiset(v, p),
        ColumnModel::Int128(v) => lemma_reindex_preserves_multiset(v, p),
        ColumnModel::Decimal75(_, _, v) => lemma_reindex_preserves_multiset(v, p),
        ColumnModel::Scalar(v) => lemma_reindex_preserves_multiset(v, p),
        ColumnModel::VarChar(v) => lemma_reindex_preserves_multiset(v, p),
        ColumnModel::TimestampTZ(_, _, v) => lemma_reindex_preserves_multiset(v, p),
    }
}

/// Three-way comparison of 8-bit signed integers.
fn compare_i8(a: i8, b: i8) -> (r: Ordering)
    ensures
        r == int_cmp(a as int, b as int),
{
    if a < b {
        Ordering::Less
    } else if a > b {
        Ordering::Greater
    } else {
        Ordering::Equal
    }
}

/// Three-way comparison of 16-bit signed integers.
fn compare_i16(a: i16, b: i16) -> (r: Ordering)
    ensures
        r == int_cmp(a as int, b as int),
{
    if a < b {
        Ordering::Less
    } else if a > b {
        Ordering::Greater
    } else {
        Ordering::Equal
    }
}

/// Three-way comparison of 32-bit signed integers.
fn compare_i32(a: i32, b: i32) -> (r: Ordering)
    ensures
        r == int_cmp(a as int, b as int),
{
    if a < b {
        Ordering::Less
    } else if a > b {
        Ordering::Greater
    } else {
        Ordering::Equal
    }
}

/// Three-way comparison of 64-bit signed integers.
fn compare_i64(a: i64, b: i64) -> (r: Ordering)
    ensures
        r == int_cmp(a as int, b as int),
{
    if a < b {
        Ordering::Less
    } else if a > b {
        Ordering::Greater
    } else {
        Ordering::Equal
    }
}

/// Three-way comparison of 128-bit signed integers.
fn compare_i128(a: i128, b: i128) -> (r: Ordering)
    ensures
        r == int_cmp(a as int, b as int),
{
    if a < b {
        Ordering::Less
    } else if a > b {
        Ordering::Greater
    } else {
        Ordering::Equal
    }
}

} // verus!

//! The ORDER BY postprocessing step: a pure, single-shot transformation of
//! an owned table.
//!
//! Applying the step resolves every (column reference, direction) pair
//! against the input table — an unresolved reference fails with
//! [`PostprocessingError::ColumnNotFound`] carrying that exact name — then
//! derives one stable permutation from the combined multi-key comparator
//! and applies it to every column, preserving the original column order.

use vstd::prelude::*;
use crate::column::{ColumnModel, OwnedColumn};
use crate::ordering::{
    derive_sort_permutation, flip_keys, keys_model, lemma_flipped_keys_reverse, no_key_ties,
    sort_perm, OrderByDirection,
};
use crate::table::{
    pairs_view, resolve, table_num_rows, table_wf, OwnedTable, TableModel,
};

verus! {

/// Errors a postprocessing step surfaces to the caller as a query failure.
#[derive(Clone, Debug, PartialEq, Eq)]
pub enum PostprocessingError {
    /// An ORDER BY references a column absent from the input table.
    ColumnNotFound {
        /// The name of the missing column.
        column: String,
    },
}

/// One ORDER BY expression: a column reference and a direction.  Only plain
/// column references are supported; general aggregation-free expressions
/// are out of scope until the evaluation engine exposes them.
#[derive(Clone, Debug, PartialEq, Eq)]
pub struct OrderByExpr {
    /// The referenced column identifier.
    pub column: String,
    /// The direction of this key.
    pub direction: OrderByDirection,
}

/// The model of a list of ORDER BY expressions.
pub open spec fn exprs_view(exprs: Seq<OrderByExpr>) -> Seq<(Seq<char>, OrderByDirection)> {
    Seq::new(exprs.len(), |i: int| (exprs[i].column@, exprs[i].direction))
}

/// A node representing a list of ORDER BY expressions.
#[derive(Clone, Debug, PartialEq, Eq)]
pub struct OrderByPostprocessing {
    by_exprs: Vec<OrderByExpr>,
}

impl View for OrderByPostprocessing {
    type V = Seq<(Seq<char>, OrderByDirection)>;

    closed spec fn view(&self) -> Seq<(Seq<char>, OrderByDirection)> {
        exprs_view(self.by_exprs@)
    }
}

/// Every key's column reference resolves against the table.
pub open spec fn all_keys_resolve(t: TableModel, keys: Seq<(Seq<char>, OrderByDirection)>) -> bool {
    forall|k: int| 0 <= k < keys.len() ==> resolve(t, (#[trigger] keys[k]).0) is Some
}

/// The name of the first key whose column reference does not resolve.
pub open spec fn first_missing_name(
    t: TableModel,
    keys: Seq<(Seq<char>, OrderByDirection)>,
) -> Seq<char>
    decreases keys.len(),
{
    if keys.len() == 0 {
        Seq::empty()
    } else if resolve(t, keys[0].0) is None {
        keys[0].0
    } else {
        first_missing_name(t, keys.drop_first())
    }
}

/// The resolved sort keys: for each reference, the first column of that
/// name, paired with the key's direction.
pub open spec fn resolved_keys(
    t: TableModel,
    keys: Seq<(Seq<char>, OrderByDirection)>,
) -> Seq<(ColumnModel, OrderByDirection)> {
    Seq::new(keys.len(), |k: int| (t[resolve(t, keys[k].0).unwrap()].1, keys[k].1))
}

/// The table an ORDER BY produces: the same identifiers in the same order,
/// every column reindexed by the one derived permutation.
pub open spec fn spec_apply_order_by(
    t: TableModel,
    keys: Seq<(Seq<char>, OrderByDirection)>,
) -> TableModel {
    let p = sort_perm(resolved_keys(t, keys), table_num_rows(t));
    Seq::new(t.len(), |i: int| (t[i].0, t[i].1.reindex(p)))
}

/// If the first `k` keys resolve and key `k` does not, key `k` names the
/// first missing column.
proof fn lemma_first_missing(t: TableModel, keys: Seq<(Seq<char>, OrderByDirection)>, k: int)
    requires
        0 <= k < keys.len(),
        forall|q: int| 0 <= q < k ==> resolve(t, (#[trigger] keys[q]).0) is Some,
        resolve(t, keys[k].0) is None,
    ensures
        first_missing_name(t, keys) == keys[k].0,
    decreases k,
{
    if k == 0 {
    } else {
        assert(keys.drop_first()[k - 1] == keys[k]);
        assert forall|q: int| 0 <= q < k - 1 implies resolve(
            t,
            (#[trigger] keys.drop_first()[q]).0,
        ) is Some by {
            assert(keys.drop_first()[q] == keys[q + 1]);
        }
        lemma_first_missing(t, keys.drop_first(), k - 1);
    }
}

impl OrderByPostprocessing {
    /// Create a new `OrderByPostprocessing` node.
    pub fn new(by_exprs: Vec<OrderByExpr>) -> (r: Self)
        ensures
            r@ == exprs_view(by_exprs@),
    {
        Self { by_exprs }
    }

    /// The ORDER BY expressions of this node, in order.
    pub fn exprs(&self) -> (r: &Vec<OrderByExpr>)
        ensures
            exprs_view(r@) == self@,
    {
        &self.by_exprs
    }

    /// Apply the ordering transformation to the given table.
    ///
    /// Exactly when every column reference resolves, the result is the
    /// reordered table; otherwise it is `ColumnNotFound` carrying the first
    /// unresolved name, and no partial application takes place.
    pub fn apply(&self, table: OwnedTable) -> (r: Result<OwnedTable, PostprocessingError>)
        requires
            table.wf(),
        ensures
            all_keys_resolve(table@, self@) ==> (r matches Ok(out) && out@ == spec_apply_order_by(
                table@,
                self@,
            ) && out.wf()),
            !all_keys_resolve(table@, self@) ==> (r matches Err(e)
                && e matches PostprocessingError::ColumnNotFound { column } && column@
                == first_missing_name(table@, self@)),
    {
        let ghost t = table@;
        let m = self.by_exprs.len();
        let mut keys: Vec<(usize, OrderByDirection)> = Vec::new();
        let mut k: usize = 0;
        while k < m
            invariant
                k <= m,
                m == self.by_exprs@.len(),
                table.wf(),
                t == table@,
                keys@.len() == k,
                forall|q: int|
                    0 <= q < k ==> resolve(t, self@[q].0) == Option::Some(
                        (#[trigger] keys@[q]).0 as int,
                    ) && keys@[q].1 == self@[q].1 && keys@[q].0 < t.len(),
            decreases m - k,
        {
            let expr = &self.by_exprs[k];
            proof {
                assert(self@[k as int] == (expr.column@, expr.direction));
            }
            match table.column_index(expr.column.as_str()) {
                Some(ci) => {
                    proof {
                        crate::table::lemma_resolve_in_range(t, expr.column@);
                    }
                    keys.push((ci, expr.direction));
                    k = k + 1;
                },
                None => {
                    proof {
                        assert forall|q: int| 0 <= q < k implies resolve(
                            t,
                            (#[trigger] self@[q]).0,
                        ) is Some by {
                            assert(resolve(t, self@[q].0) == Option::Some(keys@[q].0 as int));
                        }
                        lemma_first_missing(t, self@, k as int);
                    }
                    return Err(
                        PostprocessingError::ColumnNotFound { column: expr.column.clone() },
                    );
                },
            }
        }
        proof {
            assert forall|q: int| 0 <= q < self@.len() implies resolve(
                t,
                (#[trigger] self@[q]).0,
            ) is Some by {
                assert(resolve(t, self@[q].0) == Option::Some(keys@[q].0 as int));
            }
            assert(all_keys_resolve(t, self@));
            assert(keys_model(t, keys@) =~= resolved_keys(t, self@));
        }
        let perm = derive_sort_permutation(&table, &keys);
        let ghost p = perm@;
        let mut cols = table.into_inner();
        let ghost all = cols@;
        let total = cols.len();
        let mut out_cols: Vec<(String, OwnedColumn)> = Vec::new();
        let mut i: usize = 0;
        proof {
            assert(cols@ =~= all.skip(0));
        }
        while i < total
            invariant
                i <= total,
                total == all.len(),
                cols@ =~= all.skip(i as int),
                pairs_view(all) == t,
                table_wf(t),
                p.len() == table_num_rows(t),
                p == perm@,
                out_cols@.len() == i,
                forall|q: int|
                    0 <= q < i ==> (#[trigger] out_cols@[q]).0@ == t[q].0 && out_cols@[q].1@
                        == t[q].1.reindex(p),
            decreases total - i,
        {
            let pair = cols.remove(0);
            proof {
                assert(all.skip(i as int)[0] == all[i as int]);
                assert(all.skip(i as int).drop_first() =~= all.skip(i as int + 1));
                assert(pairs_view(all)[i as int] == (all[i as int].0@, all[i as int].1@));
                assert(t[i as int].1.len() == table_num_rows(t));
            }
            let newcol = pair.1.permute(&perm);
            out_cols.push((pair.0, newcol));
            i = i + 1;
        }
        proof {
            assert(pairs_view(out_cols@) =~= spec_apply_order_by(t, self@));
            assert forall|q: int|
                0 <= q < out_cols@.len() implies (#[trigger] pairs_view(out_cols@)[q]).1.len()
                == table_num_rows(pairs_view(out_cols@)) by {
                assert(t[q].1.len() == table_num_rows(t));
            }
        }
        Ok(OwnedTable::from_parts(out_cols))
    }
}

/// The same ORDER BY specification with every key's direction flipped.
pub open spec fn flip_expr_dirs(keys: Seq<(Seq<char>, OrderByDirection)>) -> Seq<
    (Seq<char>, OrderByDirection),
> {
    keys.map_values(
        |k: (Seq<char>, OrderByDirection)|
            (
                k.0,
                match k.1 {
                    OrderByDirection::Asc => OrderByDirection::Desc,
                    OrderByDirection::Desc => OrderByDirection::Asc,
                },
            ),
    )
}

/// Sorting and then sorting with every key direction reversed visit the
/// rows in exactly opposite orders, provided no two rows tie on the keys:
/// the flipped specification produces each column reindexed by the reverse
/// of the original specification's permutation.
pub proof fn lemma_reversed_directions_reverse_rows(
    t: TableModel,
    keys: Seq<(Seq<char>, OrderByDirection)>,
)
    requires
        table_num_rows(t) <= usize::MAX,
        no_key_ties(resolved_keys(t, keys), table_num_rows(t)),
    ensures
        spec_apply_order_by(t, flip_expr_dirs(keys)) == Seq::new(
            t.len(),
            |i: int|
                (
                    t[i].0,
                    t[i].1.reindex(
                        sort_perm(resolved_keys(t, keys), table_num_rows(t)).reverse(),
                    ),
                ),
        ),
{
    assert(resolved_keys(t, flip_expr_dirs(keys)) =~= flip_keys(resolved_keys(t, keys)));
    lemma_flipped_keys_reverse(resolved_keys(t, keys), table_num_rows(t));
    assert(spec_apply_order_by(t, flip_expr_dirs(keys)) =~= Seq::new(
        t.len(),
        |i: int|
            (
                t[i].0,
                t[i].1.reindex(sort_perm(resolved_keys(t, keys), table_num_rows(t)).reverse()),
            ),
    ));
}

/// A postprocessing step: each variant consumes a table and produces a
/// table; the full system has sibling variants beside ordering.
#[derive(Clone, Debug, PartialEq, Eq)]
pub enum PostprocessingStep {
    /// Reorder the rows by a multi-key ORDER BY specification.
    OrderBy(OrderByPostprocessing),
}

impl PostprocessingStep {
    /// The key list of the step.
    pub open spec fn step_keys(self) -> Seq<(Seq<char>, OrderByDirection)> {
        match self {
            PostprocessingStep::OrderBy(o) => o@,
        }
    }

    /// Apply the step's transformation to the given table.
    pub fn apply(&self, table: OwnedTable) -> (r: Result<OwnedTable, PostprocessingError>)
        requires
            table.wf(),
        ensures
            all_keys_resolve(table@, self.step_keys()) ==> (r matches Ok(out) && out@
                == spec_apply_order_by(table@, self.step_keys()) && out.wf()),
            !all_keys_resolve(table@, self.step_keys()) ==> (r matches Err(e)
                && e matches PostprocessingError::ColumnNotFound { column } && column@
                == first_missing_name(table@, self.step_keys())),
    {
        match self {
            PostprocessingStep::OrderBy(o) => o.apply(table),
        }
    }
}

/// The table a pipeline of steps produces, or the first missing column name
/// at which it fails.
pub open spec fn spec_apply_steps(t: TableModel, steps: Seq<Seq<(Seq<char>, OrderByDirection)>>)
    -> Result<TableModel, Seq<char>>
    decreases steps.len(),
{
    if steps.len() == 0 {
        Result::Ok(t)
    } else if all_keys_resolve(t, steps[0]) {
        spec_apply_steps(spec_apply_order_by(t, steps[0]), steps.drop_first())
    } else {
        Result::Err(first_missing_name(t, steps[0]))
    }
}

/// The models of the steps' key lists, in order.
pub open spec fn steps_view(steps: Seq<PostprocessingStep>) -> Seq<
    Seq<(Seq<char>, OrderByDirection)>,
> {
    Seq::new(steps.len(), |i: int| steps[i].step_keys())
}

/// Applies the steps in order, each consuming the previous step's output;
/// the first failing step's error propagates and nothing partial is
/// returned.
pub fn apply_steps(steps: &Vec<PostprocessingStep>, table: OwnedTable) -> (r: Result<
    OwnedTable,
    PostprocessingError,
>)
    requires
        table.wf(),
    ensures
        match spec_apply_steps(table@, steps_view(steps@)) {
            Result::Ok(out) => r matches Ok(res) && res@ == out && res.wf(),
            Result::Err(name) => r matches Err(e)
                && e matches PostprocessingError::ColumnNotFound { column } && column@ == name,
        },
{
    let ghost t0 = table@;
    let ghost models = steps_view(steps@);
    let total = steps.len();
    let mut cur = table;
    let mut i: usize = 0;
    proof {
        assert(models.skip(0) =~= models);
    }
    while i < total
        invariant
            i <= total,
            total == steps@.len(),
            t0 == table@,
            models == steps_view(steps@),
            cur.wf(),
            spec_apply_steps(t0, models) == spec_apply_steps(cur@, models.skip(i as int)),
        decreases total - i,
    {
        let ghost cur_v = cur@;
        let step = &steps[i];
        proof {
            assert(models.skip(i as int)[0] == models[i as int]);
            assert(models.skip(i as int).drop_first() =~= models.skip(i as int + 1));
        }
        cur = match step.apply(cur) {
            Ok(next) => next,
            Err(e) => {
                proof {
                    assert(spec_apply_steps(cur_v, models.skip(i as int))
                        == Result::<TableModel, Seq<char>>::Err(
                        first_missing_name(cur_v, models[i as int]),
                    ));
                }
                return Err(e);
            },
        };
        i = i + 1;
    }
    proof {
        assert(models.skip(total as int).len() == 0);
    }
    Ok(cur)
}

} // verus!

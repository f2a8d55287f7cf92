//! Multi-key row ordering: the comparator an ORDER BY induces on row
//! indexes, and the derivation of a stable permutation from it.
//!
//! Two row indexes compare by evaluating each (column, direction) key in
//! order, mirroring the outcome for a descending key, and returning the
//! first non-equal outcome.  The stable order [`row_le`] breaks remaining
//! ties by original position, which makes it a total ordering; the
//! permutation an ORDER BY derives is the identity indexes sorted by it,
//! [`sort_perm`].  The laws at the end state that this permutation is the
//! unique stably sorted one, and that flipping every key's direction
//! reverses the row order of a tie-free table.

use vstd::prelude::*;
use vstd::relations::{sorted_by, total_ordering};
use vstd::seq_lib::{lemma_multiset_commutative, lemma_sorted_unique};
use core::cmp::Ordering;
use crate::column::ColumnModel;
use crate::compare::{
    flip_ordering, lemma_str_cmp_eq, lemma_str_cmp_reverse, lemma_str_cmp_trans, reverse_ordering,
};
use crate::permutation::{
    identity_up_to, is_row_permutation, lemma_row_permutation_bijective, Permutation,
};
use crate::table::{table_num_rows, OwnedTable};

verus! {

/// Direction of one sort key.
#[derive(Clone, Copy, Debug, PartialEq, Eq, Structural)]
pub enum OrderByDirection {
    /// Smallest value first.
    Asc,
    /// Largest value first.
    Desc,
}

/// Comparison of one resolved key at rows `a` and `b`: the column's own
/// comparison, mirrored for a descending key.
pub open spec fn key_cmp(key: (ColumnModel, OrderByDirection), a: int, b: int) -> Ordering {
    match key.1 {
        OrderByDirection::Asc => key.0.cmp_at(a, b),
        OrderByDirection::Desc => flip_ordering(key.0.cmp_at(a, b)),
    }
}

/// Lexicographic multi-key comparison of rows `a` and `b`: the first
/// non-equal key outcome, or equal when every key agrees.
pub open spec fn cmp_rows(keys: Seq<(ColumnModel, OrderByDirection)>, a: int, b: int) -> Ordering
    decreases keys.len(),
{
    if keys.len() == 0 {
        Ordering::Equal
    } else if key_cmp(keys[0], a, b) != Ordering::Equal {
        key_cmp(keys[0], a, b)
    } else {
        cmp_rows(keys.drop_first(), a, b)
    }
}

/// The stable row order: key comparison first, ties broken by original
/// position.
pub open spec fn row_le(keys: Seq<(ColumnModel, OrderByDirection)>, a: usize, b: usize) -> bool {
    match cmp_rows(keys, a as int, b as int) {
        Ordering::Less => true,
        Ordering::Equal => a <= b,
        Ordering::Greater => false,
    }
}

/// The stable row order as a relation value.
pub open spec fn row_le_fn(keys: Seq<(ColumnModel, OrderByDirection)>) -> spec_fn(
    usize,
    usize,
) -> bool {
    |a: usize, b: usize| row_le(keys, a, b)
}

/// The permutation an ORDER BY derives: the row indexes `0, …, n-1` sorted
/// stably by the keys.
pub open spec fn sort_perm(keys: Seq<(ColumnModel, OrderByDirection)>, n: nat) -> Seq<usize> {
    identity_up_to(n).sort_by(row_le_fn(keys))
}

/// A column compares each row as equal to itself.
proof fn lemma_cell_cmp_refl(c: ColumnModel, a: int)
    ensures
        c.cmp_at(a, a) == Ordering::Equal,
{
    match c {
        ColumnModel::VarChar(v) => lemma_str_cmp_eq(v[a], v[a]),
        _ => {},
    }
}

/// Swapping the rows of a column comparison mirrors its outcome.
proof fn lemma_cell_cmp_reverse(c: ColumnModel, a: int, b: int)
    ensures
        c.cmp_at(b, a) == flip_ordering(c.cmp_at(a, b)),
{
    match c {
        ColumnModel::VarChar(v) => lemma_str_cmp_reverse(v[a], v[b]),
        _ => {},
    }
}

/// Transitivity of a column comparison, with equality of the overall
/// outcome forcing equality of both steps.
proof fn lemma_cell_cmp_trans(c: ColumnModel, a: int, b: int, d: int)
    requires
        c.cmp_at(a, b) != Ordering::Greater,
        c.cmp_at(b, d) != Ordering::Greater,
    ensures
        c.cmp_at(a, d) != Ordering::Greater,
        c.cmp_at(a, d) == Ordering::Equal ==> c.cmp_at(a, b) == Ordering::Equal && c.cmp_at(b, d)
            == Ordering::Equal,
{
    match c {
        ColumnModel::VarChar(v) => lemma_str_cmp_trans(v[a], v[b], v[d]),
        _ => {},
    }
}

/// Rows compare equal to themselves under any key list.
proof fn lemma_cmp_rows_refl(keys: Seq<(ColumnModel, OrderByDirection)>, a: int)
    ensures
        cmp_rows(keys, a, a) == Ordering::Equal,
    decreases keys.len(),
{
    if keys.len() > 0 {
        lemma_cell_cmp_refl(keys[0].0, a);
        lemma_cmp_rows_refl(keys.drop_first(), a);
    }
}

/// Swapping the rows of the multi-key comparison mirrors its outcome.
proof fn lemma_cmp_rows_reverse(keys: Seq<(ColumnModel, OrderByDirection)>, a: int, b: int)
    ensures
        cmp_rows(keys, b, a) == flip_ordering(cmp_rows(keys, a, b)),
    decreases keys.len(),
{
    if keys.len() > 0 {
        lemma_cell_cmp_reverse(keys[0].0, a, b);
        lemma_cmp_rows_reverse(keys.drop_first(), a, b);
    }
}

/// Transitivity of the multi-key comparison, with equality of the overall
/// outcome forcing equality of both steps.
proof fn lemma_cmp_rows_trans(keys: Seq<(ColumnModel, OrderByDirection)>, a: int, b: int, d: int)
    requires
        cmp_rows(keys, a, b) != Ordering::Greater,
        cmp_rows(keys, b, d) != Ordering::Greater,
    ensures
        cmp_rows(keys, a, d) != Ordering::Greater,
        cmp_rows(keys, a, d) == Ordering::Equal ==> cmp_rows(keys, a, b) == Ordering::Equal
            && cmp_rows(keys, b, d) == Ordering::Equal,
    decreases keys.len(),
{
    if keys.len() > 0 {
        let c = keys[0].0;
        match keys[0].1 {
            OrderByDirection::Asc => {
                lemma_cell_cmp_trans(c, a, b, d);
            },
            OrderByDirection::Desc => {
                lemma_cell_cmp_reverse(c, a, b);
                lemma_cell_cmp_reverse(c, b, d);
                lemma_cell_cmp_reverse(c, a, d);
                lemma_cell_cmp_trans(c, d, b, a);
            },
        }
        if key_cmp(keys[0], a, b) == Ordering::Equal && key_cmp(keys[0], b, d)
            == Ordering::Equal {
            lemma_cmp_rows_trans(keys.drop_first(), a, b, d);
        }
    }
}

/// The stable row order is a total ordering: reflexive, antisymmetric,
/// transitive and strongly connected.
pub proof fn lemma_row_le_total_ordering(keys: Seq<(ColumnModel, OrderByDirection)>)
    ensures
        total_ordering(row_le_fn(keys)),
{
    let leq = row_le_fn(keys);
    assert forall|x: usize| #[trigger] leq(x, x) by {
        lemma_cmp_rows_refl(keys, x as int);
    }
    assert forall|x: usize, y: usize| #[trigger] leq(x, y) && #[trigger] leq(y, x) implies x
        == y by {
        lemma_cmp_rows_reverse(keys, x as int, y as int);
    }
    assert forall|x: usize, y: usize, z: usize|
        #[trigger] leq(x, y) && #[trigger] leq(y, z) implies leq(x, z) by {
        lemma_cmp_rows_trans(keys, x as int, y as int, z as int);
    }
    assert forall|x: usize, y: usize| #[trigger] leq(x, y) || #[trigger] leq(y, x) by {
        lemma_cmp_rows_reverse(keys, x as int, y as int);
    }
}

/// The model of resolved sort keys: for each (column position, direction)
/// pair, the column model at that position of the table.
pub open spec fn keys_model(
    t: crate::table::TableModel,
    ks: Seq<(usize, OrderByDirection)>,
) -> Seq<(ColumnModel, OrderByDirection)> {
    Seq::new(ks.len(), |j: int| (t[ks[j].0 as int].1, ks[j].1))
}

/// Compares rows `a` and `b` of a table under resolved sort keys.
fn cmp_rows_exec(
    table: &OwnedTable,
    keys: &Vec<(usize, OrderByDirection)>,
    a: usize,
    b: usize,
) -> (r: Ordering)
    requires
        table.wf(),
        forall|q: int| 0 <= q < keys@.len() ==> (#[trigger] keys@[q]).0 < table@.len(),
        a < table_num_rows(table@),
        b < table_num_rows(table@),
    ensures
        r == cmp_rows(keys_model(table@, keys@), a as int, b as int),
{
    let ghost km = keys_model(table@, keys@);
    let m = keys.len();
    let mut j: usize = 0;
    proof {
        assert(km.skip(0) =~= km);
    }
    while j < m
        invariant
            j <= m,
            m == keys@.len(),
            table.wf(),
            forall|q: int| 0 <= q < keys@.len() ==> (#[trigger] keys@[q]).0 < table@.len(),
            a < table_num_rows(table@),
            b < table_num_rows(table@),
            km == keys_model(table@, keys@),
            cmp_rows(km, a as int, b as int) == cmp_rows(km.skip(j as int), a as int, b as int),
        decreases m - j,
    {
        let ci = keys[j].0;
        let dir = keys[j].1;
        let pair = table.pair_at(ci);
        proof {
            assert(table@[ci as int].1.len() == table_num_rows(table@));
        }
        let c0 = pair.1.cmp_at(a, b);
        let c = match dir {
            OrderByDirection::Asc => c0,
            OrderByDirection::Desc => reverse_ordering(c0),
        };
        proof {
            assert(km.skip(j as int)[0] == km[j as int]);
            assert(km[j as int] == (table@[keys@[j as int].0 as int].1, keys@[j as int].1));
            assert(km.skip(j as int).drop_first() =~= km.skip(j as int + 1));
            assert(c == key_cmp(km[j as int], a as int, b as int));
        }
        if !matches!(c, Ordering::Equal) {
            return c;
        }
        j = j + 1;
    }
    proof {
        assert(km.skip(m as int).len() == 0);
    }
    Ordering::Equal
}

/// Decides the stable row order between rows `a` and `b`.
fn row_le_exec(
    table: &OwnedTable,
    keys: &Vec<(usize, OrderByDirection)>,
    a: usize,
    b: usize,
) -> (r: bool)
    requires
        table.wf(),
        forall|q: int| 0 <= q < keys@.len() ==> (#[trigger] keys@[q]).0 < table@.len(),
        a < table_num_rows(table@),
        b < table_num_rows(table@),
    ensures
        r == row_le(keys_model(table@, keys@), a, b),
{
    match cmp_rows_exec(table, keys, a, b) {
        Ordering::Less => true,
        Ordering::Equal => a <= b,
        Ordering::Greater => false,
    }
}

/// Inserting an element anywhere in a sequence inserts it into the
/// sequence's multiset.
proof fn lemma_insert_multiset<A>(s: Seq<A>, pos: int, a: A)
    requires
        0 <= pos <= s.len(),
    ensures
        s.insert(pos, a).to_multiset() == s.to_multiset().insert(a),
{
    broadcast use vstd::seq_lib::group_to_multiset_ensures;

    let l = s.subrange(0, pos);
    let rgt = s.subrange(pos, s.len() as int);
    assert(s.insert(pos, a) == l.push(a) + rgt);
    assert(s =~= l + rgt);
    lemma_multiset_commutative(l.push(a), rgt);
    lemma_multiset_commutative(l, rgt);
    assert(l.push(a).to_multiset() =~= l.to_multiset().insert(a));
    assert(l.to_multiset().insert(a).add(rgt.to_multiset()) =~= l.to_multiset().add(
        rgt.to_multiset(),
    ).insert(a));
}

/// Derives the stable permutation of the table's rows under the resolved
/// sort keys: an insertion sort of the row indexes, proven equal to the
/// unique stably sorted order [`sort_perm`].
pub fn derive_sort_permutation(table: &OwnedTable, keys: &Vec<(usize, OrderByDirection)>) -> (r:
    Permutation)
    requires
        table.wf(),
        forall|q: int| 0 <= q < keys@.len() ==> (#[trigger] keys@[q]).0 < table@.len(),
    ensures
        r@ == sort_perm(keys_model(table@, keys@), table_num_rows(table@)),
        is_row_permutation(r@, table_num_rows(table@)),
{
    let ghost km = keys_model(table@, keys@);
    let n = table.num_rows();
    let mut r: Vec<usize> = Vec::new();
    let mut i: usize = 0;
    proof {
        assert(identity_up_to(0) =~= Seq::<usize>::empty());
    }
    while i < n
        invariant
            i <= n,
            n == table_num_rows(table@),
            table.wf(),
            forall|q: int| 0 <= q < keys@.len() ==> (#[trigger] keys@[q]).0 < table@.len(),
            km == keys_model(table@, keys@),
            r@.len() == i,
            forall|k: int| 0 <= k < r@.len() ==> (#[trigger] r@[k]) < i,
            r@.to_multiset() == identity_up_to(i as nat).to_multiset(),
            sorted_by(r@, row_le_fn(km)),
        decreases n - i,
    {
        let ghost old_r = r@;
        let mut pos: usize = r.len();
        loop
            invariant_except_break
                pos <= r@.len(),
            invariant
                r@ == old_r,
                r@.len() == i,
                i < n,
                n == table_num_rows(table@),
                table.wf(),
                forall|q: int| 0 <= q < keys@.len() ==> (#[trigger] keys@[q]).0 < table@.len(),
                km == keys_model(table@, keys@),
                forall|k: int| 0 <= k < r@.len() ==> (#[trigger] r@[k]) < i,
                forall|k: int| pos <= k < r@.len() ==> !row_le_fn(km)(#[trigger] r@[k], i),
            ensures
                pos <= r@.len(),
                pos == 0 || row_le_fn(km)(r@[pos - 1], i),
            decreases pos,
        {
            if pos == 0 {
                break;
            }
            let prev = r[pos - 1];
            if row_le_exec(table, keys, prev, i) {
                break;
            }
            pos = pos - 1;
        }
        proof {
            lemma_row_le_total_ordering(km);
            let leq = row_le_fn(km);
            let iv = i as usize;
            assert forall|k: int| 0 <= k < pos implies leq(old_r[k], iv) by {
                if k < pos - 1 {
                    assert(leq(old_r[k], old_r[pos - 1]));
                }
            }
            assert forall|k: int| pos <= k < old_r.len() implies leq(iv, old_r[k]) by {
                assert(!leq(old_r[k], iv));
            }
            old_r.insert_ensures(pos as int, iv);
            lemma_insert_multiset(old_r, pos as int, iv);
        }
        r.insert(pos, i);
        proof {
            let leq = row_le_fn(km);
            let iv = i as usize;
            let new_r = old_r.insert(pos as int, iv);
            assert(r@ == new_r);
            assert forall|x: int, y: int| 0 <= x < y < new_r.len() implies #[trigger] leq(
                new_r[x],
                new_r[y],
            ) by {
                if x < pos && y == pos {
                    assert(new_r[x] == old_r[x]);
                } else if x == pos && y > pos {
                    assert(new_r[y] == old_r[y - 1]);
                } else if x < pos && y > pos {
                    assert(new_r[x] == old_r[x]);
                    assert(new_r[y] == old_r[y - 1]);
                    assert(leq(old_r[x], old_r[y - 1]));
                } else if x > pos && y > pos {
                    assert(new_r[x] == old_r[x - 1]);
                    assert(new_r[y] == old_r[y - 1]);
                    assert(leq(old_r[x - 1], old_r[y - 1]));
                } else if x < pos && y < pos {
                    assert(leq(old_r[x], old_r[y]));
                }
            }
            assert(sorted_by(r@, leq));
            assert(identity_up_to(i as nat + 1) =~= identity_up_to(i as nat).push(iv));
            broadcast use vstd::seq_lib::group_to_multiset_ensures;

            assert(identity_up_to(i as nat + 1).to_multiset() =~= identity_up_to(
                i as nat,
            ).to_multiset().insert(iv));
        }
        i = i + 1;
    }
    proof {
        lemma_row_le_total_ordering(km);
        identity_up_to(n as nat).lemma_sort_by_ensures(row_le_fn(km));
        broadcast use vstd::seq_lib::group_to_multiset_ensures;

        assert(sort_perm(km, n as nat).to_multiset().len() == identity_up_to(
            n as nat,
        ).to_multiset().len());
        lemma_sorted_unique(r@, sort_perm(km, n as nat), row_le_fn(km));
        assert(r@ =~= sort_perm(km, n as nat));
    }
    Permutation::from_indices(r)
}

/// The derived permutation is a valid permutation, is sorted by the stable
/// row order, and keeps tied rows in their original relative order.
pub proof fn lemma_sort_perm_stable(keys: Seq<(ColumnModel, OrderByDirection)>, n: nat)
    requires
        n <= usize::MAX,
    ensures
        is_row_permutation(sort_perm(keys, n), n),
        sorted_by(sort_perm(keys, n), row_le_fn(keys)),
        forall|i: int, j: int|
            #![trigger sort_perm(keys, n)[i], sort_perm(keys, n)[j]]
            0 <= i < j < n && cmp_rows(
                keys,
                sort_perm(keys, n)[i] as int,
                sort_perm(keys, n)[j] as int,
            ) == Ordering::Equal ==> sort_perm(keys, n)[i] < sort_perm(keys, n)[j],
{
    broadcast use vstd::seq_lib::group_to_multiset_ensures;

    lemma_row_le_total_ordering(keys);
    identity_up_to(n).lemma_sort_by_ensures(row_le_fn(keys));
    let p = sort_perm(keys, n);
    assert(p.to_multiset().len() == identity_up_to(n).to_multiset().len());
    assert(is_row_permutation(p, n));
    lemma_row_permutation_bijective(p, n);
    assert forall|i: int, j: int|
        #![trigger p[i], p[j]]
        0 <= i < j < n && cmp_rows(keys, p[i] as int, p[j] as int) == Ordering::Equal implies p[i]
        < p[j] by {
        assert(row_le_fn(keys)(p[i], p[j]));
        assert(p[i] != p[j]);
    }
}

/// The stable sort is deterministic: any valid permutation that is sorted
/// by the stable row order is the derived one.
pub proof fn lemma_sort_perm_unique(
    keys: Seq<(ColumnModel, OrderByDirection)>,
    n: nat,
    p: Seq<usize>,
)
    requires
        is_row_permutation(p, n),
        sorted_by(p, row_le_fn(keys)),
    ensures
        p == sort_perm(keys, n),
{
    broadcast use vstd::seq_lib::group_to_multiset_ensures;

    lemma_row_le_total_ordering(keys);
    identity_up_to(n).lemma_sort_by_ensures(row_le_fn(keys));
    lemma_sorted_unique(p, sort_perm(keys, n), row_le_fn(keys));
    assert(p =~= sort_perm(keys, n));
}

/// The same keys with every direction flipped.
pub open spec fn flip_keys(keys: Seq<(ColumnModel, OrderByDirection)>) -> Seq<
    (ColumnModel, OrderByDirection),
> {
    keys.map_values(
        |k: (ColumnModel, OrderByDirection)|
            (
                k.0,
                match k.1 {
                    OrderByDirection::Asc => OrderByDirection::Desc,
                    OrderByDirection::Desc => OrderByDirection::Asc,
                },
            ),
    )
}

/// No two distinct rows below `n` compare equal under the keys.
pub open spec fn no_key_ties(keys: Seq<(ColumnModel, OrderByDirection)>, n: nat) -> bool {
    forall|a: int, b: int|
        0 <= a < n && 0 <= b < n && a != b ==> #[trigger] cmp_rows(keys, a, b) != Ordering::Equal
}

/// Flipping every key's direction mirrors the multi-key comparison.
proof fn lemma_cmp_rows_flip(keys: Seq<(ColumnModel, OrderByDirection)>, a: int, b: int)
    ensures
        cmp_rows(flip_keys(keys), a, b) == flip_ordering(cmp_rows(keys, a, b)),
    decreases keys.len(),
{
    if keys.len() > 0 {
        assert(flip_keys(keys)[0].0 == keys[0].0);
        assert(flip_keys(keys).drop_first() =~= flip_keys(keys.drop_first()));
        lemma_cmp_rows_flip(keys.drop_first(), a, b);
    }
}

/// Sorting with every key direction flipped yields the exact reverse row
/// order, provided no two rows tie on the keys.
pub proof fn lemma_flipped_keys_reverse(keys: Seq<(ColumnModel, OrderByDirection)>, n: nat)
    requires
        n <= usize::MAX,
        no_key_ties(keys, n),
    ensures
        sort_perm(flip_keys(keys), n) == sort_perm(keys, n).reverse(),
{
    let p = sort_perm(keys, n);
    lemma_sort_perm_stable(keys, n);
    lemma_row_permutation_bijective(p, n);
    let rev = p.reverse();
    p.lemma_reverse_to_multiset();
    assert(rev.len() == n);
    assert(is_row_permutation(rev, n));
    let leq = row_le_fn(flip_keys(keys));
    assert forall|x: int, y: int| 0 <= x < y < rev.len() implies #[trigger] leq(
        rev[x],
        rev[y],
    ) by {
        let xi = n - 1 - x;
        let yi = n - 1 - y;
        assert(rev[x] == p[xi]);
        assert(rev[y] == p[yi]);
        assert(0 <= yi < xi < n);
        assert(row_le_fn(keys)(p[yi], p[xi]));
        assert(p[yi] != p[xi]);
        assert(cmp_rows(keys, p[yi] as int, p[xi] as int) != Ordering::Equal);
        assert(cmp_rows(keys, p[yi] as int, p[xi] as int) == Ordering::Less);
        lemma_cmp_rows_reverse(keys, p[yi] as int, p[xi] as int);
        lemma_cmp_rows_flip(keys, p[xi] as int, p[yi] as int);
    }
    assert(sorted_by(rev, leq));
    lemma_sort_perm_unique(flip_keys(keys), n, rev);
}

} // verus!

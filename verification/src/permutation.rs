//! The permutation engine: the sole mechanism by which rows are reordered.
//!
//! A [`Permutation`] of size `n` is a bijective reindexing of `[0, n)`: output
//! position `i` takes the value found at input position `index(i)`.  Validity
//! is stated as a multiset identity — the indexes are exactly `0, …, n-1` in
//! some order — from which boundedness, injectivity and surjectivity follow
//! ([`lemma_row_permutation_bijective`]), and reindexing any sequence of
//! values by a permutation preserves the multiset of values
//! ([`lemma_reindex_preserves_multiset`]).

use vstd::prelude::*;

verus! {

/// The row indexes `0, …, n-1` in their original order.
pub open spec fn identity_up_to(n: nat) -> Seq<usize> {
    Seq::new(n, |i: int| i as usize)
}

/// Element `i` of the result is element `p[i]` of `s`.
pub open spec fn reindex_seq<A>(s: Seq<A>, p: Seq<usize>) -> Seq<A> {
    Seq::new(p.len(), |i: int| s[p[i] as int])
}

/// `p` lists each row index below `n` exactly once.
pub open spec fn is_row_permutation(p: Seq<usize>, n: nat) -> bool {
    &&& p.len() == n
    &&& p.to_multiset() == identity_up_to(n).to_multiset()
}

/// The error of applying a permutation to a column of a different length.
/// By construction the two always agree; a mismatch signals an internal
/// invariant violation, not malformed user input.
#[derive(Clone, Copy, Debug, PartialEq, Eq, Structural)]
pub enum PermutationError {
    /// The permutation's size disagrees with the column's length.
    SizeMismatch,
}

/// A bijection from output row position to input row position.
pub struct Permutation {
    indices: Vec<usize>,
}

impl View for Permutation {
    type V = Seq<usize>;

    closed spec fn view(&self) -> Seq<usize> {
        self.indices@
    }
}

impl Permutation {
    /// Every permutation value lists each index below its size exactly once.
    #[verifier::type_invariant]
    pub closed spec fn inv(self) -> bool {
        is_row_permutation(self@, self@.len())
    }

    /// Wraps an index vector that lists each position exactly once.
    pub(crate) fn from_indices(indices: Vec<usize>) -> (r: Permutation)
        requires
            is_row_permutation(indices@, indices@.len()),
        ensures
            r@ == indices@,
    {
        Permutation { indices }
    }

    /// The number of rows this permutation reorders.  Also hands the caller
    /// the validity of the permutation, which holds of every value of this
    /// type by construction.
    pub fn size(&self) -> (r: usize)
        ensures
            r == self@.len(),
            is_row_permutation(self@, self@.len()),
    {
        proof {
            use_type_invariant(self);
        }
        self.indices.len()
    }

    /// Read-only access to the index vector, together with its validity.
    pub fn indices(&self) -> (r: &Vec<usize>)
        ensures
            r@ == self@,
            is_row_permutation(self@, self@.len()),
    {
        proof {
            use_type_invariant(self);
        }
        &self.indices
    }

    /// The input position whose value lands at output position `i`.
    pub fn index(&self, i: usize) -> (r: usize)
        requires
            i < self@.len(),
        ensures
            r == self@[i as int],
            r < self@.len(),
    {
        let n = self.indices.len();
        proof {
            use_type_invariant(self);
            lemma_row_permutation_bijective(self@, n as nat);
        }
        self.indices[i]
    }

}

/// A row permutation of size `n` is a bijection on `[0, n)`: its entries are
/// below `n`, pairwise distinct, and reach every index below `n`.
pub proof fn lemma_row_permutation_bijective(p: Seq<usize>, n: nat)
    requires
        n <= usize::MAX,
        is_row_permutation(p, n),
    ensures
        forall|k: int| 0 <= k < n ==> (#[trigger] p[k]) < n,
        forall|i: int, j: int| 0 <= i < n && 0 <= j < n && i != j ==> p[i] != p[j],
        forall|v: usize| v < n ==> #[trigger] p.contains(v),
{
    broadcast use vstd::seq_lib::group_to_multiset_ensures;

    let id = identity_up_to(n);
    assert forall|i: int, j: int|
        0 <= i < id.len() && 0 <= j < id.len() && i != j implies id[i] != id[j] by {
        assert(id[i] == i as usize);
        assert(id[j] == j as usize);
    }
    assert(id.no_duplicates());
    id.lemma_multiset_has_no_duplicates();
    assert forall|k: int| 0 <= k < n implies (#[trigger] p[k]) < n by {
        assert(p.contains(p[k]));
        assert(id.to_multiset().count(p[k]) > 0);
        assert(id.contains(p[k]));
        let j = choose|j: int| 0 <= j < id.len() && id[j] == p[k];
        assert(id[j] < n);
    }
    assert forall|x: usize| p.to_multiset().contains(x) implies p.to_multiset().count(x) == 1 by {
        assert(id.to_multiset().contains(x));
    }
    p.lemma_multiset_has_no_duplicates_conv();
    assert forall|v: usize| v < n implies #[trigger] p.contains(v) by {
        assert(id[v as int] == v);
        assert(id.contains(v));
        assert(p.to_multiset().count(v) > 0);
        assert(p.contains(v));
    }
}

/// Mapping two sequences with equal multisets through the same function
/// yields images with equal multisets.
pub proof fn lemma_map_multiset_congruence<A, B>(x: Seq<A>, y: Seq<A>, f: spec_fn(A) -> B)
    requires
        x.to_multiset() == y.to_multiset(),
    ensures
        x.map_values(f).to_multiset() == y.map_values(f).to_multiset(),
    decreases x.len(),
{
    broadcast use vstd::seq_lib::group_to_multiset_ensures;

    if x.len() == 0 {
        assert(x.to_multiset().len() == 0);
        assert(y.to_multiset().len() == y.len());
        assert(y.len() == 0);
        assert(x.map_values(f) =~= y.map_values(f));
    } else {
        let a = x.last();
        assert(x.contains(a));
        assert(y.to_multiset().count(a) > 0);
        assert(y.contains(a));
        let k = choose|k: int| 0 <= k < y.len() && y[k] == a;
        assert(x =~= x.drop_last().push(a));
        assert(x.to_multiset() =~= x.drop_last().to_multiset().insert(a));
        assert(x.drop_last().to_multiset() =~= x.to_multiset().remove(a));
        assert(y.remove(k).to_multiset() =~= y.to_multiset().remove(a));
        lemma_map_multiset_congruence(x.drop_last(), y.remove(k), f);
        y.remove_ensures(k);
        y.map_values(f).remove_ensures(k);
        assert(x.map_values(f) =~= x.drop_last().map_values(f).push(f(a)));
        assert(x.map_values(f).to_multiset() =~= x.drop_last().map_values(f).to_multiset().insert(
            f(a),
        ));
        assert(y.remove(k).map_values(f) =~= y.map_values(f).remove(k));
        assert(y.map_values(f).remove(k).to_multiset() =~= y.map_values(f).to_multiset().remove(
            f(a),
        ));
        assert(y.map_values(f).contains(f(a))) by {
            assert(y.map_values(f)[k] == f(a));
        }
        assert(y.map_values(f).to_multiset().remove(f(a)).insert(f(a)) =~= y.map_values(
            f,
        ).to_multiset());
    }
}

/// Reindexing a sequence of values by a row permutation keeps its length and
/// the multiset of its values.
pub proof fn lemma_reindex_preserves_multiset<A>(s: Seq<A>, p: Seq<usize>)
    requires
        s.len() <= usize::MAX,
        is_row_permutation(p, s.len()),
    ensures
        reindex_seq(s, p).len() == s.len(),
        reindex_seq(s, p).to_multiset() == s.to_multiset(),
{
    lemma_row_permutation_bijective(p, s.len());
    let f = |u: usize| s[u as int];
    assert(reindex_seq(s, p) =~= p.map_values(f));
    let id = identity_up_to(s.len());
    assert forall|i: int| 0 <= i < s.len() implies id.map_values(f)[i] == s[i] by {
        assert(id[i] == i as usize);
        assert(id.map_values(f)[i] == f(id[i]));
        assert(f(i as usize) == s[i]);
    }
    assert(s =~= id.map_values(f));
    lemma_map_multiset_congruence(p, identity_up_to(s.len()), f);
}

} // verus!

//! Three-way comparison utilities shared by every column variant.
//!
//! Each column type bottoms out in a total order on its element type; the
//! spec functions here define those orders and the lemmas establish the
//! order-theoretic facts (reversal symmetry and transitivity) that the
//! multi-key row ordering is built on.

use vstd::prelude::*;
use vstd::string::StrSliceExecFns;
use core::cmp::Ordering;

verus! {

/// The mirror image of a comparison outcome.
pub open spec fn flip_ordering(o: Ordering) -> Ordering {
    match o {
        Ordering::Less => Ordering::Greater,
        Ordering::Equal => Ordering::Equal,
        Ordering::Greater => Ordering::Less,
    }
}

/// Reverses a comparison outcome; used to realize a descending sort key.
pub fn reverse_ordering(o: Ordering) -> (r: Ordering)
    ensures
        r == flip_ordering(o),
{
    match o {
        Ordering::Less => Ordering::Greater,
        Ordering::Equal => Ordering::Equal,
        Ordering::Greater => Ordering::Less,
    }
}

/// Three-way comparison of mathematical integers.
pub open spec fn int_cmp(a: int, b: int) -> Ordering {
    if a < b {
        Ordering::Less
    } else if a > b {
        Ordering::Greater
    } else {
        Ordering::Equal
    }
}

/// Booleans order false before true.
pub open spec fn bool_cmp(a: bool, b: bool) -> Ordering {
    int_cmp(if a { 1int } else { 0int }, if b { 1int } else { 0int })
}

/// Characters order by Unicode code point.
pub open spec fn char_cmp(a: char, b: char) -> Ordering {
    int_cmp(a as int, b as int)
}

/// Lexicographic comparison of character sequences: a proper prefix orders
/// first, otherwise the first differing character decides.
pub open spec fn str_cmp(a: Seq<char>, b: Seq<char>) -> Ordering
    decreases a.len(),
{
    if a.len() == 0 && b.len() == 0 {
        Ordering::Equal
    } else if a.len() == 0 {
        Ordering::Less
    } else if b.len() == 0 {
        Ordering::Greater
    } else if char_cmp(a[0], b[0]) != Ordering::Equal {
        char_cmp(a[0], b[0])
    } else {
        str_cmp(a.drop_first(), b.drop_first())
    }
}

/// Two character sequences compare equal exactly when they are equal.
pub proof fn lemma_str_cmp_eq(a: Seq<char>, b: Seq<char>)
    ensures
        (str_cmp(a, b) == Ordering::Equal) <==> (a == b),
    decreases a.len(),
{
    if a.len() == 0 && b.len() == 0 {
        assert(a =~= b);
    } else if a.len() == 0 || b.len() == 0 {
    } else {
        lemma_str_cmp_eq(a.drop_first(), b.drop_first());
        if str_cmp(a, b) == Ordering::Equal {
            assert(char_cmp(a[0], b[0]) == Ordering::Equal);
            assert(a[0] == b[0]);
            assert(a.drop_first() == b.drop_first());
            assert forall|i: int| 0 <= i < a.len() implies a[i] == b[i] by {
                if i > 0 {
                    assert(a[i] == a.drop_first()[i - 1]);
                    assert(b[i] == b.drop_first()[i - 1]);
                }
            }
            assert(a =~= b);
        }
        if a == b {
            assert(a.drop_first() =~= b.drop_first());
        }
    }
}

/// Swapping the arguments of the lexicographic comparison mirrors its outcome.
pub proof fn lemma_str_cmp_reverse(a: Seq<char>, b: Seq<char>)
    ensures
        str_cmp(b, a) == flip_ordering(str_cmp(a, b)),
    decreases a.len(),
{
    if a.len() != 0 && b.len() != 0 {
        lemma_str_cmp_reverse(a.drop_first(), b.drop_first());
    }
}

/// Transitivity of the lexicographic order, together with the fact that an
/// equal overall outcome forces both steps to have been equal.
pub proof fn lemma_str_cmp_trans(a: Seq<char>, b: Seq<char>, c: Seq<char>)
    requires
        str_cmp(a, b) != Ordering::Greater,
        str_cmp(b, c) != Ordering::Greater,
    ensures
        str_cmp(a, c) != Ordering::Greater,
        str_cmp(a, c) == Ordering::Equal ==> str_cmp(a, b) == Ordering::Equal && str_cmp(b, c)
            == Ordering::Equal,
    decreases a.len(),
{
    if a.len() == 0 {
        if b.len() != 0 && c.len() == 0 {
            assert(str_cmp(b, c) == Ordering::Greater);
        }
    } else {
        assert(b.len() != 0);
        assert(c.len() != 0);
        if char_cmp(a[0], b[0]) == Ordering::Equal && char_cmp(b[0], c[0]) == Ordering::Equal {
            lemma_str_cmp_trans(a.drop_first(), b.drop_first(), c.drop_first());
        }
    }
}

/// Compares two strings lexicographically by character.
pub fn compare_str(a: &str, b: &str) -> (r: Ordering)
    ensures
        r == str_cmp(a@, b@),
{
    let a_len: usize = a.unicode_len();
    let b_len: usize = b.unicode_len();
    let mut i: usize = 0;
    proof {
        assert(a@.skip(0) =~= a@);
        assert(b@.skip(0) =~= b@);
    }
    while i < a_len && i < b_len
        invariant
            i <= a_len,
            i <= b_len,
            a_len == a@.len(),
            b_len == b@.len(),
            str_cmp(a@, b@) == str_cmp(a@.skip(i as int), b@.skip(i as int)),
        decreases a_len - i,
    {
        let ca = a.get_char(i);
        let cb = b.get_char(i);
        proof {
            assert(a@.skip(i as int)[0] == a@[i as int]);
            assert(b@.skip(i as int)[0] == b@[i as int]);
            assert(a@.skip(i as int).drop_first() =~= a@.skip(i + 1));
            assert(b@.skip(i as int).drop_first() =~= b@.skip(i + 1));
        }
        if (ca as u32) < (cb as u32) {
            return Ordering::Less;
        }
        if (ca as u32) > (cb as u32) {
            return Ordering::Greater;
        }
        i = i + 1;
    }
    proof {
        assert(a@.skip(i as int).len() == 0 || b@.skip(i as int).len() == 0);
    }
    if a_len == b_len {
        Ordering::Equal
    } else if a_len < b_len {
        Ordering::Less
    } else {
        Ordering::Greater
    }
}

} // verus!

//! The scalar field element that every proof-bound column value reduces to.
//!
//! A scalar is kept as four 64-bit limbs of its canonical representative,
//! most significant limb first.  Equality is limb-wise and the total order is
//! the order of the represented 256-bit integers, which the comparison lemma
//! below states exactly.

use vstd::prelude::*;
use core::cmp::Ordering;
use crate::compare::int_cmp;

verus! {

/// An element of the finite field underlying the proof system, by the four
/// 64-bit limbs of its canonical value, most significant first.
#[derive(Clone, Copy, Debug, Hash, PartialEq, Eq, Structural)]
pub struct Scalar {
    /// Bits 192..256 of the canonical value.
    pub limb3: u64,
    /// Bits 128..192 of the canonical value.
    pub limb2: u64,
    /// Bits 64..128 of the canonical value.
    pub limb1: u64,
    /// Bits 0..64 of the canonical value.
    pub limb0: u64,
}

impl Scalar {
    /// The canonical value as an unbounded integer.
    pub open spec fn as_int(self) -> int {
        self.limb3 * 0x1000000000000000000000000000000000000000000000000 + self.limb2
            * 0x100000000000000000000000000000000 + self.limb1 * 0x10000000000000000 + self.limb0
    }

    /// A scalar from a native unsigned integer.
    pub fn from_u64(v: u64) -> (r: Scalar)
        ensures
            r.as_int() == v,
    {
        Scalar { limb3: 0, limb2: 0, limb1: 0, limb0: v }
    }

    /// Limb-wise lexicographic comparison, most significant limb first.
    pub open spec fn spec_cmp(self, other: Scalar) -> Ordering {
        if self.limb3 != other.limb3 {
            int_cmp(self.limb3 as int, other.limb3 as int)
        } else if self.limb2 != other.limb2 {
            int_cmp(self.limb2 as int, other.limb2 as int)
        } else if self.limb1 != other.limb1 {
            int_cmp(self.limb1 as int, other.limb1 as int)
        } else {
            int_cmp(self.limb0 as int, other.limb0 as int)
        }
    }

    /// Three-way comparison of two scalars.
    pub fn compare(&self, other: &Scalar) -> (r: Ordering)
        ensures
            r == self.spec_cmp(*other),
    {
        if self.limb3 != other.limb3 {
            if self.limb3 < other.limb3 {
                Ordering::Less
            } else {
                Ordering::Greater
            }
        } else if self.limb2 != other.limb2 {
            if self.limb2 < other.limb2 {
                Ordering::Less
            } else {
                Ordering::Greater
            }
        } else if self.limb1 != other.limb1 {
            if self.limb1 < other.limb1 {
                Ordering::Less
            } else {
                Ordering::Greater
            }
        } else {
            if self.limb0 < other.limb0 {
                Ordering::Less
            } else if self.limb0 > other.limb0 {
                Ordering::Greater
            } else {
                Ordering::Equal
            }
        }
    }
}

/// The limb-wise order is exactly the order of the canonical values.
pub proof fn lemma_scalar_cmp_is_value_cmp(a: Scalar, b: Scalar)
    ensures
        a.spec_cmp(b) == int_cmp(a.as_int(), b.as_int()),
{
    assert(a.limb2 * 0x100000000000000000000000000000000 + a.limb1 * 0x10000000000000000 + a.limb0
        < 0x1000000000000000000000000000000000000000000000000);
    assert(b.limb2 * 0x100000000000000000000000000000000 + b.limb1 * 0x10000000000000000 + b.limb0
        < 0x1000000000000000000000000000000000000000000000000);
    assert(a.limb1 * 0x10000000000000000 + a.limb0 < 0x100000000000000000000000000000000);
    assert(b.limb1 * 0x10000000000000000 + b.limb0 < 0x100000000000000000000000000000000);
}

} // verus!

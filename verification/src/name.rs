//! Names in XOR space and the order of their distances.

use crate::distance::{lemma_xor_distance_injective, xor_distance};
use std::cmp::Ordering;
use vstd::prelude::*;

verus! {

/// Number of bytes in a name.
pub const XOR_NAME_LEN: usize = 32;

/// A 256-bit identifier in XOR space: a number between 0 and 2^256 - 1, most
/// significant byte first.
#[derive(Clone, Copy, Debug, Eq, PartialOrd, Ord, Hash)]
pub struct XorName(pub [u8; 32]);

impl View for XorName {
    type V = Seq<u8>;

    open spec fn view(&self) -> Seq<u8> {
        self.0@
    }
}

impl PartialEq for XorName {
    fn eq(&self, other: &Self) -> (r: bool) {
        let mut i: usize = 0;
        while i < 32
            invariant
                0 <= i <= 32,
                forall|j: int| 0 <= j < i ==> self.0[j] == other.0[j],
            decreases 32 - i,
        {
            if self.0[i] != other.0[i] {
                return false;
            }
            i = i + 1;
        }
        assert(self.0 =~= other.0);
        true
    }
}

impl vstd::std_specs::cmp::PartialEqSpecImpl for XorName {
    open spec fn obeys_eq_spec() -> bool {
        true
    }

    open spec fn eq_spec(&self, other: &Self) -> bool {
        *self == *other
    }
}

/// `closer(from, x, y)` holds when `x` is strictly nearer to `from` than `y`
/// is, by XOR distance.
pub open spec fn closer(from: XorName, x: XorName, y: XorName) -> bool {
    xor_distance(from@, x@) < xor_distance(from@, y@)
}

/// Two names that are equally far from a third are the same name.
pub proof fn lemma_closer_total(from: XorName, x: XorName, y: XorName)
    ensures
        closer(from, x, y) || closer(from, y, x) || x == y,
{
    if !closer(from, x, y) && !closer(from, y, x) {
        lemma_xor_distance_injective(from@, x@, y@);
        assert(x.0 =~= y.0);
    }
}

/// `XorName::cmp_distance` of the xor_name crate. It compares the XOR
/// distances of `lhs` and `rhs` from `from`, read as 256-bit numbers: `Less`
/// when `lhs` is nearer, `Greater` when `rhs` is nearer, `Equal` when the two
/// are the same name.
#[verifier::external_body]
fn outside_cmp_distance(from: &XorName, lhs: &XorName, rhs: &XorName) -> (r: Ordering)
    ensures
        r == Ordering::Less <==> closer(*from, *lhs, *rhs),
        r == Ordering::Greater <==> closer(*from, *rhs, *lhs),
        r == Ordering::Equal <==> *lhs == *rhs,
{
    xor_name::XorName(from.0).cmp_distance(&xor_name::XorName(lhs.0), &xor_name::XorName(rhs.0))
}

impl XorName {
    /// Compares the distances of `lhs` and `rhs` from `self`.
    pub fn cmp_distance(&self, lhs: &XorName, rhs: &XorName) -> (r: Ordering)
        ensures
            r == Ordering::Less <==> closer(*self, *lhs, *rhs),
            r == Ordering::Greater <==> closer(*self, *rhs, *lhs),
            r == Ordering::Equal <==> *lhs == *rhs,
    {
        outside_cmp_distance(self, lhs, rhs)
    }
}

} // verus!

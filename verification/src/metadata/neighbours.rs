//! The nearest neighbours of an adult among the adults of a section.

use crate::metadata::liveness_model::{is_nearest, NEIGHBOUR_COUNT};
use crate::name::{closer, lemma_closer_total, XorName};
use itertools::Itertools;
use vstd::prelude::*;

verus! {

/// `Itertools::sorted_by` of the itertools crate, on the names in `names`,
/// with the distance from `from` as the order. It sorts them with the
/// stable sort of std's slices: what comes out are the names that went in,
/// each as often as it went in, and none comes after one that is farther
/// from `from`.
#[verifier::external_body]
pub(crate) fn sorted_by_distance(from: &XorName, names: Vec<XorName>) -> (r: Vec<XorName>)
    ensures
        r@.to_multiset() == names@.to_multiset(),
        forall|i: int, j: int| 0 <= i < j < r.len() ==> !closer(*from, r[j], r[i]),
{
    names.into_iter().sorted_by(|lhs, rhs| from.cmp_distance(lhs, rhs)).collect()
}

/// The names in `names` other than `adult`, in their order.
fn others_than(adult: &XorName, names: &Vec<XorName>) -> (r: Vec<XorName>)
    requires
        names@.no_duplicates(),
    ensures
        r@.no_duplicates(),
        forall|x: XorName| r@.contains(x) <==> names@.contains(x) && x != *adult,
{
    let mut r: Vec<XorName> = Vec::new();
    let mut i: usize = 0;
    while i < names.len()
        invariant
            0 <= i <= names.len(),
            names@.no_duplicates(),
            r@.no_duplicates(),
            forall|k: int|
                0 <= k < r.len() ==> #[trigger] r[k] != *adult && exists|j: int|
                    0 <= j < i && names[j] == r[k],
            forall|j: int| 0 <= j < i && names[j] != *adult ==> r@.contains(#[trigger] names[j]),
        decreases names.len() - i,
    {
        let name = names[i];
        if name != *adult {
            let ghost before = r@;
            r.push(name);
            proof {
                assert forall|a: int, b: int| 0 <= a < r.len() && 0 <= b < r.len() && a
                    != b implies r[a] != r[b] by {
                    if a == before.len() {
                        let j = choose|j: int| 0 <= j < i && names[j] == before[b];
                    } else if b == before.len() {
                        let j = choose|j: int| 0 <= j < i && names[j] == before[a];
                    }
                }
                assert forall|k: int| 0 <= k < r.len() implies #[trigger] r[k] != *adult
                    && exists|j: int| 0 <= j < i + 1 && names[j] == r[k] by {
                    if k < before.len() {
                        let j = choose|j: int| 0 <= j < i && names[j] == before[k];
                        assert(names[j] == r[k]);
                    } else {
                        assert(names[i as int] == r[k]);
                    }
                }
                assert forall|j: int| 0 <= j < i + 1 && names[j] != *adult implies r@.contains(
                    #[trigger] names[j],
                ) by {
                    if j < i {
                        assert(before.contains(names[j]));
                        let k = choose|k: int| 0 <= k < before.len() && before[k] == names[j];
                        assert(r[k] == names[j]);
                    } else {
                        assert(r[before.len() as int] == names[j]);
                    }
                }
            }
        }
        i = i + 1;
    }
    proof {
        assert forall|x: XorName| r@.contains(x) <==> names@.contains(x) && x != *adult by {
            if r@.contains(x) {
                let k = choose|k: int| 0 <= k < r.len() && r[k] == x;
                let j = choose|j: int| 0 <= j < i && names[j] == r[k];
                assert(names@[j] == x);
            }
            if names@.contains(x) && x != *adult {
                let j = choose|j: int| 0 <= j < names.len() && names[j] == x;
                assert(r@.contains(names[j]));
            }
        }
    }
    r
}

/// The nearest neighbours of `adult` among `adults`, nearest first.
pub fn nearest_neighbours(adult: &XorName, adults: &Vec<XorName>) -> (r: Vec<XorName>)
    requires
        adults@.no_duplicates(),
    ensures
        is_nearest(*adult, adults@.to_set(), r@),
{
    let others = others_than(adult, adults);
    let mut sorted = sorted_by_distance(adult, others);
    let ghost all = sorted@;
    proof {
        others@.to_multiset_ensures();
        all.to_multiset_ensures();
        others@.lemma_multiset_has_no_duplicates();
        all.lemma_multiset_has_no_duplicates_conv();
        assert forall|x: XorName| all.contains(x) <==> others@.contains(x) by {
            assert(all.to_multiset().count(x) == others@.to_multiset().count(x));
        }
        assert forall|i: int, j: int| 0 <= i < j < all.len() implies closer(
            *adult,
            all[i],
            all[j],
        ) by {
            lemma_closer_total(*adult, all[i], all[j]);
        }
    }
    sorted.truncate(NEIGHBOUR_COUNT);
    proof {
        let r = sorted@;
        let set = adults@.to_set();
        assert forall|i: int| 0 <= i < r.len() implies set.contains(#[trigger] r[i]) && r[i]
            != *adult by {
            assert(r[i] == all[i]);
            assert(all.contains(all[i]));
        }
        assert forall|i: int, j: int| 0 <= i < j < r.len() implies #[trigger] closer(
            *adult,
            r[i],
            r[j],
        ) by {
            assert(r[i] == all[i] && r[j] == all[j]);
        }
        assert forall|x: XorName, i: int|
            set.contains(x) && x != *adult && !r.contains(x) && 0 <= i < r.len() implies #[trigger] closer(
            *adult,
            r[i],
            x,
        ) by {
            assert(all.contains(x));
            let k = choose|k: int| 0 <= k < all.len() && all[k] == x;
            if k < r.len() {
                assert(r[k] == x);
            }
            assert(r[i] == all[i]);
        }
        if r.len() < NEIGHBOUR_COUNT {
            assert(r == all);
            assert forall|x: XorName| set.contains(x) && x != *adult implies #[trigger] r.contains(
                x,
            ) by {
                assert(all.contains(x));
            }
        }
    }
    sorted
}

} // verus!

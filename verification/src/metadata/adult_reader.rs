//! The adults of the section, as the elder last saw them.

use crate::metadata::neighbours::sorted_by_distance;
use crate::name::{closer, lemma_closer_total, XorName};
use crate::name_set::NameSet;
use crate::prefix::Prefix;
use vstd::prelude::*;

verus! {

/// `chosen` are the `count` members of `candidates` that are nearest to
/// `target`, nearest first; all of them, where there are fewer.
pub open spec fn closest_among(
    target: XorName,
    candidates: Set<XorName>,
    count: nat,
    chosen: Seq<XorName>,
) -> bool {
    &&& chosen.len() <= count
    &&& forall|i: int| 0 <= i < chosen.len() ==> candidates.contains(#[trigger] chosen[i])
    &&& forall|i: int, j: int|
        0 <= i < j < chosen.len() ==> #[trigger] closer(target, chosen[i], chosen[j])
    &&& forall|x: XorName, i: int|
        candidates.contains(x) && !chosen.contains(x) && 0 <= i < chosen.len()
            ==> #[trigger] closer(target, chosen[i], x)
    &&& chosen.len() < count ==> forall|x: XorName|
        candidates.contains(x) ==> #[trigger] chosen.contains(x)
}

/// What an elder knows of its section: the prefix, and the adults.
#[derive(Debug)]
pub struct AdultReader {
    our_prefix: Prefix,
    adults: NameSet,
}

impl AdultReader {
    /// The prefix of the section.
    pub closed spec fn spec_our_prefix(&self) -> Prefix {
        self.our_prefix
    }

    /// The adults of the section.
    pub closed spec fn adults(&self) -> Set<XorName> {
        self.adults@
    }

    /// No adult is held twice.
    pub closed spec fn wf(&self) -> bool {
        self.adults.wf()
    }

    /// The section with the given prefix and adults.
    pub fn new(our_prefix: Prefix, adults: NameSet) -> (r: AdultReader)
        requires
            adults.wf(),
        ensures
            r.wf(),
            r.spec_our_prefix() == our_prefix,
            r.adults() == adults@,
    {
        AdultReader { our_prefix, adults }
    }

    /// The prefix of the section.
    #[verifier::when_used_as_spec(spec_our_prefix)]
    pub fn our_prefix(&self) -> (r: Prefix)
        ensures
            r == self.spec_our_prefix(),
    {
        self.our_prefix
    }

    /// The `count` adults nearest to `name` among those that are not full,
    /// nearest first.
    pub fn non_full_adults_closest_to(
        &self,
        name: &XorName,
        full_adults: &NameSet,
        count: usize,
    ) -> (r: Vec<XorName>)
        requires
            self.wf(),
        ensures
            closest_among(*name, self.adults().difference(full_adults@), count as nat, r@),
    {
        let adults = self.adults.to_vec();
        let sorted = sorted_by_distance(name, adults);
        let ghost candidates = self.adults().difference(full_adults@);
        proof {
            adults@.to_multiset_ensures();
            sorted@.to_multiset_ensures();
            adults@.lemma_multiset_has_no_duplicates();
            sorted@.lemma_multiset_has_no_duplicates_conv();
            assert forall|x: XorName| sorted@.contains(x) <==> adults@.contains(x) by {
                assert(sorted@.to_multiset().count(x) == adults@.to_multiset().count(x));
            }
            assert forall|i: int, j: int| 0 <= i < j < sorted.len() implies closer(
                *name,
                sorted[i],
                sorted[j],
            ) by {
                lemma_closer_total(*name, sorted[i], sorted[j]);
            }
        }
        let mut chosen: Vec<XorName> = Vec::new();
        let ghost mut from: Seq<int> = Seq::empty();
        let mut i: usize = 0;
        while i < sorted.len() && chosen.len() < count
            invariant
                0 <= i <= sorted.len(),
                chosen.len() <= count,
                candidates == self.adults().difference(full_adults@),
                forall|x: XorName| sorted@.contains(x) <==> self.adults().contains(x),
                forall|a: int, b: int|
                    0 <= a < b < sorted.len() ==> closer(*name, sorted[a], sorted[b]),
                from.len() == chosen.len(),
                forall|k: int|
                    0 <= k < chosen.len() ==> 0 <= #[trigger] from[k] < i && chosen[k]
                        == sorted[from[k]] && candidates.contains(chosen[k]),
                forall|k: int, l: int| 0 <= k < l < chosen.len() ==> from[k] < from[l],
                forall|j: int|
                    0 <= j < i && candidates.contains(#[trigger] sorted[j]) ==> chosen@.contains(
                        sorted[j],
                    ),
            decreases sorted.len() - i,
        {
            let adult = sorted[i];
            let ghost before = chosen@;
            if !full_adults.contains(&adult) {
                chosen.push(adult);
                proof {
                    assert(sorted@.contains(adult));
                    from = from.push(i as int);
                    assert forall|j: int|
                        0 <= j < i + 1 && candidates.contains(
                            #[trigger] sorted[j],
                        ) implies chosen@.contains(sorted[j]) by {
                        if j < i {
                            let k = choose|k: int| 0 <= k < before.len() && before[k] == sorted[j];
                            assert(chosen[k] == sorted[j]);
                        } else {
                            assert(chosen[before.len() as int] == sorted[j]);
                        }
                    }
                }
            }
            i = i + 1;
        }
        proof {
            let r = chosen@;
            assert forall|k: int| 0 <= k < r.len() implies candidates.contains(#[trigger] r[k]) by {
                assert(0 <= from[k] < i);
            }
            assert forall|a: int, b: int| 0 <= a < b < r.len() implies #[trigger] closer(
                *name,
                r[a],
                r[b],
            ) by {
                assert(from[a] < from[b]);
                assert(0 <= from[a] < i && 0 <= from[b] < i);
            }
            assert forall|x: XorName, k: int|
                candidates.contains(x) && !r.contains(x) && 0 <= k < r.len() implies #[trigger] closer(
                *name,
                r[k],
                x,
            ) by {
                assert(sorted@.contains(x));
                let j = choose|j: int| 0 <= j < sorted.len() && sorted[j] == x;
                if j < i {
                    assert(candidates.contains(sorted[j]));
                    assert(r.contains(sorted[j]));
                }
                assert(0 <= from[k] < i);
            }
            if r.len() < count {
                assert forall|x: XorName| candidates.contains(x) implies #[trigger] r.contains(
                    x,
                ) by {
                    assert(sorted@.contains(x));
                    let j = choose|j: int| 0 <= j < sorted.len() && sorted[j] == x;
                    assert(i == sorted.len());
                    assert(candidates.contains(sorted[j]));
                }
            }
        }
        chosen
    }
}

/// Where two choices of the nearest candidates agree before a position, and
/// the second holds there a name that is nearer than what the first holds
/// there, the first does not hold that name at all.
proof fn lemma_not_chosen(
    target: XorName,
    candidates: Set<XorName>,
    count: nat,
    s: Seq<XorName>,
    t: Seq<XorName>,
    i: int,
)
    requires
        closest_among(target, candidates, count, s),
        closest_among(target, candidates, count, t),
        0 <= i < s.len(),
        i < t.len(),
        forall|k: int| 0 <= k < i ==> s[k] == t[k],
        closer(target, t[i], s[i]),
    ensures
        !s.contains(t[i]),
{
    if s.contains(t[i]) {
        let j = choose|j: int| 0 <= j < s.len() && s[j] == t[i];
        if j < i {
            assert(closer(target, t[j], t[i]));
        } else if j > i {
            assert(closer(target, s[i], s[j]));
        }
    }
}

/// Two choices of the nearest candidates agree up to any position that both
/// have.
proof fn lemma_closest_prefix(
    target: XorName,
    candidates: Set<XorName>,
    count: nat,
    s: Seq<XorName>,
    t: Seq<XorName>,
    i: int,
)
    requires
        closest_among(target, candidates, count, s),
        closest_among(target, candidates, count, t),
        0 <= i <= s.len(),
        i <= t.len(),
    ensures
        forall|k: int| 0 <= k < i ==> s[k] == t[k],
    decreases i,
{
    if i > 0 {
        lemma_closest_prefix(target, candidates, count, s, t, i - 1);
        let x = s[i - 1];
        let y = t[i - 1];
        if x != y {
            lemma_closer_total(target, x, y);
            if closer(target, x, y) {
                lemma_not_chosen(target, candidates, count, t, s, i - 1);
                assert(closer(target, t[i - 1], x));
            } else {
                lemma_not_chosen(target, candidates, count, s, t, i - 1);
                assert(closer(target, s[i - 1], y));
            }
        }
    }
}

/// The nearest candidates to a name can be chosen in one way only.
pub proof fn law_closest_unique(
    target: XorName,
    candidates: Set<XorName>,
    count: nat,
    s: Seq<XorName>,
    t: Seq<XorName>,
)
    requires
        closest_among(target, candidates, count, s),
        closest_among(target, candidates, count, t),
    ensures
        s == t,
{
    if s.len() <= t.len() {
        lemma_closest_prefix(target, candidates, count, s, t, s.len() as int);
        if s.len() < t.len() {
            let y = t[s.len() as int];
            assert(s.contains(y));
            let j = choose|j: int| 0 <= j < s.len() && s[j] == y;
            assert(closer(target, t[j], t[s.len() as int]));
        }
    } else {
        lemma_closest_prefix(target, candidates, count, s, t, t.len() as int);
        let y = s[t.len() as int];
        assert(t.contains(y));
        let j = choose|j: int| 0 <= j < t.len() && t[j] == y;
        assert(closer(target, s[j], s[t.len() as int]));
    }
    assert(s =~= t);
}

} // verus!

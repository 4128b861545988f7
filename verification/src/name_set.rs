//! Finite sets of names.

use crate::name::XorName;
use vstd::prelude::*;

verus! {

/// A finite set of names, held without repetition in the order of insertion.
#[derive(Debug)]
pub struct NameSet {
    names: Vec<XorName>,
}

impl View for NameSet {
    type V = Set<XorName>;

    open spec fn view(&self) -> Set<XorName> {
        self.elements().to_set()
    }
}

impl NameSet {
    /// The members in the order in which `get` hands them out.
    pub closed spec fn elements(&self) -> Seq<XorName> {
        self.names@
    }

    /// No name is held twice.
    pub open spec fn wf(&self) -> bool {
        self.elements().no_duplicates()
    }

    /// A well-formed set has as many members as it holds elements.
    pub proof fn lemma_len(&self)
        requires
            self.wf(),
        ensures
            self@.finite(),
            self@.len() == self.elements().len(),
    {
        self.elements().unique_seq_to_set();
    }

    /// The empty set.
    pub fn new() -> (r: NameSet)
        ensures
            r.wf(),
            r@ == Set::<XorName>::empty(),
            r.elements() == Seq::<XorName>::empty(),
    {
        let r = NameSet { names: Vec::new() };
        assert(r.elements().to_set() =~= Set::<XorName>::empty());
        r
    }

    /// The number of members.
    pub fn len(&self) -> (r: usize)
        ensures
            r == self.elements().len(),
            self.wf() ==> r == self@.len(),
    {
        proof {
            if self.wf() {
                self.lemma_len();
            }
        }
        self.names.len()
    }

    /// Whether the set has no member.
    pub fn is_empty(&self) -> (r: bool)
        ensures
            r == (self.elements().len() == 0),
            r == (self@ == Set::<XorName>::empty()),
    {
        proof {
            if self.names@.len() == 0 {
                assert(self@ =~= Set::<XorName>::empty());
            } else {
                assert(self@.contains(self.names@[0]));
            }
        }
        self.names.len() == 0
    }

    /// The member at position `i`.
    pub fn get(&self, i: usize) -> (r: XorName)
        requires
            i < self.elements().len(),
        ensures
            r == self.elements()[i as int],
            self@.contains(r),
    {
        self.names[i]
    }

    /// The position of `name` among the elements, if it is a member.
    pub fn position(&self, name: &XorName) -> (r: Option<usize>)
        ensures
            r matches Some(i) ==> i < self.elements().len() && self.elements()[i as int] == *name,
            r is None ==> !self@.contains(*name),
            r is Some <==> self@.contains(*name),
    {
        let mut i: usize = 0;
        while i < self.names.len()
            invariant
                0 <= i <= self.names.len(),
                forall|j: int| 0 <= j < i ==> self.names@[j] != *name,
            decreases self.names.len() - i,
        {
            if self.names[i] == *name {
                return Some(i);
            }
            i = i + 1;
        }
        None
    }

    /// Whether `name` is a member.
    pub fn contains(&self, name: &XorName) -> (r: bool)
        ensures
            r == self@.contains(*name),
    {
        self.position(name).is_some()
    }

    /// Adds `name`; the result tells whether it was new.
    pub fn insert(&mut self, name: XorName) -> (r: bool)
        requires
            old(self).wf(),
        ensures
            final(self).wf(),
            final(self)@ == old(self)@.insert(name),
            r == !old(self)@.contains(name),
            r ==> final(self).elements() == old(self).elements().push(name),
            !r ==> final(self).elements() == old(self).elements(),
    {
        if self.contains(&name) {
            assert(self@ =~= self@.insert(name));
            false
        } else {
            self.names.push(name);
            assert(self.names@.to_set() =~= old(self).names@.to_set().insert(name)) by {
                let s = old(self).names@;
                assert forall|x: XorName| s.push(name).to_set().contains(x) == s.to_set().insert(
                    name,
                ).contains(x) by {
                    if s.push(name).contains(x) {
                        let k = choose|k: int| 0 <= k < s.push(name).len() && s.push(name)[k] == x;
                        if k < s.len() {
                            assert(s[k] == x);
                        }
                    }
                    if s.contains(x) {
                        let k = choose|k: int| 0 <= k < s.len() && s[k] == x;
                        assert(s.push(name)[k] == x);
                    }
                    if x == name {
                        assert(s.push(name)[s.len() as int] == x);
                    }
                }
            }
            true
        }
    }

    /// Takes `name` out; the result tells whether it was a member.
    pub fn remove(&mut self, name: &XorName) -> (r: bool)
        requires
            old(self).wf(),
        ensures
            final(self).wf(),
            final(self)@ == old(self)@.remove(*name),
            r == old(self)@.contains(*name),
            !r ==> final(self).elements() == old(self).elements(),
    {
        match self.position(name) {
            Some(i) => {
                let _ = self.names.remove(i);
                proof {
                    let s = old(self).names@;
                    let t = self.names@;
                    assert(t == s.remove(i as int));
                    assert forall|a: int, b: int| 0 <= a < t.len() && 0 <= b < t.len() && a
                        != b implies t[a] != t[b] by {
                        let a0 = if a < i { a } else { a + 1 };
                        let b0 = if b < i { b } else { b + 1 };
                        assert(t[a] == s[a0] && t[b] == s[b0]);
                    }
                    assert forall|x: XorName| t.to_set().contains(x) == s.to_set().remove(
                        *name,
                    ).contains(x) by {
                        if t.contains(x) {
                            let k = choose|k: int| 0 <= k < t.len() && t[k] == x;
                            let k0 = if k < i { k } else { k + 1 };
                            assert(s[k0] == x);
                            assert(k0 != i);
                        }
                        if s.contains(x) && x != *name {
                            let k = choose|k: int| 0 <= k < s.len() && s[k] == x;
                            let k1 = if k < i { k } else { k - 1 };
                            assert(t[k1] == x);
                        }
                    }
                    assert(t.to_set() =~= s.to_set().remove(*name));
                }
                true
            },
            None => {
                assert(self@ =~= self@.remove(*name));
                false
            },
        }
    }

    /// The set of the names that `names` holds.
    pub fn from_vec(names: &Vec<XorName>) -> (r: NameSet)
        ensures
            r.wf(),
            r@ == names@.to_set(),
    {
        let mut r = NameSet::new();
        let mut i: usize = 0;
        while i < names.len()
            invariant
                0 <= i <= names.len(),
                r.wf(),
                r@ == names@.take(i as int).to_set(),
            decreases names.len() - i,
        {
            let _ = r.insert(names[i]);
            proof {
                let p = names@.take(i as int);
                let q = names@.take(i + 1);
                assert(q == p.push(names@[i as int]));
                assert forall|x: XorName| q.to_set().contains(x) == p.to_set().insert(
                    names@[i as int],
                ).contains(x) by {
                    if q.contains(x) {
                        let k = choose|k: int| 0 <= k < q.len() && q[k] == x;
                        if k < p.len() {
                            assert(p[k] == x);
                        }
                    }
                    if p.contains(x) {
                        let k = choose|k: int| 0 <= k < p.len() && p[k] == x;
                        assert(q[k] == x);
                    }
                    if x == names@[i as int] {
                        assert(q[i as int] == x);
                    }
                }
                assert(q.to_set() =~= p.to_set().insert(names@[i as int]));
            }
            i = i + 1;
        }
        assert(names@.take(names.len() as int) == names@);
        r
    }

    /// The members as a vector, each once.
    pub fn to_vec(&self) -> (r: Vec<XorName>)
        ensures
            r@ == self.elements(),
    {
        let mut r: Vec<XorName> = Vec::new();
        let mut i: usize = 0;
        while i < self.names.len()
            invariant
                0 <= i <= self.names.len(),
                r@ == self.names@.take(i as int),
            decreases self.names.len() - i,
        {
            r.push(self.names[i]);
            assert(self.names@.take(i + 1) == self.names@.take(i as int).push(self.names@[i as int]));
            i = i + 1;
        }
        assert(self.names@.take(self.names.len() as int) == self.names@);
        r
    }

    /// A copy of the set.
    pub fn duplicate(&self) -> (r: NameSet)
        ensures
            r.elements() == self.elements(),
            r@ == self@,
            r.wf() == self.wf(),
    {
        NameSet { names: self.to_vec() }
    }

    /// Adds every member of `other`.
    pub fn extend(&mut self, other: &NameSet)
        requires
            old(self).wf(),
        ensures
            final(self).wf(),
            final(self)@ == old(self)@.union(other@),
    {
        let mut i: usize = 0;
        assert(self@ =~= old(self)@.union(other.elements().take(0).to_set()));
        while i < other.len()
            invariant
                0 <= i <= other.elements().len(),
                self.wf(),
                self@ == old(self)@.union(other.elements().take(i as int).to_set()),
            decreases other.elements().len() - i,
        {
            let name = other.get(i);
            let _ = self.insert(name);
            proof {
                let p = other.elements().take(i as int);
                let q = other.elements().take(i + 1);
                assert forall|x: XorName| q.to_set().contains(x) == (p.to_set().contains(x) || x
                    == name) by {
                    if q.contains(x) {
                        let k = choose|k: int| 0 <= k < q.len() && q[k] == x;
                        if k < p.len() {
                            assert(p[k] == x);
                        }
                    }
                    if p.contains(x) {
                        let k = choose|k: int| 0 <= k < p.len() && p[k] == x;
                        assert(q[k] == x);
                    }
                    if x == name {
                        assert(q[i as int] == x);
                    }
                }
                assert(self@ =~= old(self)@.union(q.to_set()));
            }
            i = i + 1;
        }
        assert(other.elements().take(other.elements().len() as int) == other.elements());
    }

    /// The members that are also members of `other`.
    pub fn intersection(&self, other: &NameSet) -> (r: NameSet)
        requires
            self.wf(),
        ensures
            r.wf(),
            r@ == self@.intersect(other@),
    {
        let mut r = NameSet::new();
        let mut i: usize = 0;
        let ghost wanted = self@.intersect(other@);
        assert(r@ =~= self.elements().take(0).to_set().intersect(wanted));
        while i < self.names.len()
            invariant
                0 <= i <= self.names.len(),
                r.wf(),
                wanted == self@.intersect(other@),
                r@ == self.elements().take(i as int).to_set().intersect(wanted),
            decreases self.names.len() - i,
        {
            let name = self.names[i];
            proof {
                let p = self.elements().take(i as int);
                let q = self.elements().take(i + 1);
                assert forall|x: XorName| q.to_set().contains(x) == (p.to_set().contains(x) || x
                    == name) by {
                    if q.contains(x) {
                        let k = choose|k: int| 0 <= k < q.len() && q[k] == x;
                        if k < p.len() {
                            assert(p[k] == x);
                        }
                    }
                    if p.contains(x) {
                        let k = choose|k: int| 0 <= k < p.len() && p[k] == x;
                        assert(q[k] == x);
                    }
                    if x == name {
                        assert(q[i as int] == x);
                    }
                }
                assert(self@.contains(name));
            }
            if other.contains(&name) {
                let _ = r.insert(name);
            }
            proof {
                assert(r@ =~= self.elements().take(i + 1).to_set().intersect(wanted));
            }
            i = i + 1;
        }
        proof {
            assert(self.elements().take(self.names.len() as int) == self.elements());
            assert(r@ =~= wanted);
        }
        r
    }
}

} // verus!

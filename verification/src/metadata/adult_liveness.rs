//! Which adults owe replies to which operations, and which of them lag.

use crate::data::BlobAddress;
use crate::messages::{EndUser, MessageId};
use crate::metadata::liveness_model::{
    accounted, awaits, bookkeeping, inv, is_nearest, lemma_leaving_one_more, lemma_targeting_after_leaving,
    lemma_targeting_after_reply, lemma_targeting_bound, lemma_targeting_insert, max_pending,
    neighbours_valid, ops_after_leaving, ops_after_new, ops_after_reply, ops_without,
    pending_after_new, pending_after_reply, pending_or_zero, read_under, targeting, unresponsive,
    write_under, LivenessView, OperationView, MIN_PENDING_OPS, PENDING_OP_TOLERANCE_FACTOR,
};
use crate::metadata::liveness_laws::law_neighbours_determined;
use crate::metadata::neighbours::nearest_neighbours;
use crate::name::XorName;
use crate::name_map::NameMap;
use crate::name_set::NameSet;
use vstd::prelude::*;

verus! {

/// An operation that waits for replies from adults.
#[derive(Debug)]
#[allow(inconsistent_fields)]
enum Operation {
    Read { address: BlobAddress, origin: EndUser, targets: NameSet },
    Write { address: BlobAddress, origin: Option<EndUser>, targets: NameSet },
}

impl View for Operation {
    type V = OperationView;

    closed spec fn view(&self) -> OperationView {
        match self {
            Operation::Read { address, origin, targets } => OperationView::Read {
                address: *address,
                origin: *origin,
                targets: targets@,
            },
            Operation::Write { address, origin, targets } => OperationView::Write {
                address: *address,
                origin: *origin,
                targets: targets@,
            },
        }
    }
}

impl Operation {
    spec fn wf(&self) -> bool {
        match self {
            Operation::Read { targets, .. } => targets.wf(),
            Operation::Write { targets, .. } => targets.wf(),
        }
    }
}

/// Tracks the operations that wait for replies from adults, how many replies
/// each adult owes, and each adult's nearest neighbours.
pub struct AdultLiveness {
    ops: NameMap<Operation>,
    pending_ops: NameMap<usize>,
    closest_adults: NameMap<Vec<XorName>>,
}

impl View for AdultLiveness {
    type V = LivenessView;

    closed spec fn view(&self) -> LivenessView {
        LivenessView {
            ops: Map::new(
                |id: MessageId| self.ops@.contains_key(id.0),
                |id: MessageId| self.ops@[id.0]@,
            ),
            pending: Map::new(
                |n: XorName| self.pending_ops@.contains_key(n),
                |n: XorName| self.pending_ops@[n] as nat,
            ),
            closest: Map::new(
                |n: XorName| self.closest_adults@.contains_key(n),
                |n: XorName| self.closest_adults@[n]@,
            ),
        }
    }
}

impl AdultLiveness {
    /// The three maps are held without repeated keys, and no operation
    /// holds a target twice.
    pub closed spec fn consistent(&self) -> bool {
        &&& self.ops.wf()
        &&& self.pending_ops.wf()
        &&& self.closest_adults.wf()
        &&& forall|k: XorName| self.ops@.contains_key(k) ==> (#[trigger] self.ops@[k]).wf()
    }

    /// The tracker is in a state that its operations keep.
    pub open spec fn wf(&self) -> bool {
        self.consistent() && inv(self@)
    }

    /// The tracker is in a state that its operations keep, but for the
    /// neighbours that it lists, which may be any names.
    pub open spec fn coherent(&self) -> bool {
        self.consistent() && bookkeeping(self@)
    }

    /// A tracker that tracks nothing.
    pub fn new() -> (r: AdultLiveness)
        ensures
            r.wf(),
            accounted(r@),
            r@.ops == Map::<MessageId, OperationView>::empty(),
            r@.pending == Map::<XorName, nat>::empty(),
            r@.closest == Map::<XorName, Seq<XorName>>::empty(),
    {
        let r = AdultLiveness {
            ops: NameMap::new(),
            pending_ops: NameMap::new(),
            closest_adults: NameMap::new(),
        };
        proof {
            assert(r@.ops =~= Map::<MessageId, OperationView>::empty());
            assert(r@.pending =~= Map::<XorName, nat>::empty());
            assert(r@.closest =~= Map::<XorName, Seq<XorName>>::empty());
            assert(r@.pending.dom() =~= r@.closest.dom());
        }
        r
    }

    /// Lists each tracked adult anew with its nearest tracked neighbours.
    fn refresh_closest_adults(&mut self)
        requires
            old(self).closest_adults.wf(),
        ensures
            final(self).ops == old(self).ops,
            final(self).pending_ops == old(self).pending_ops,
            final(self).closest_adults.wf(),
            final(self).closest_adults@.dom() == old(self).closest_adults@.dom(),
            neighbours_valid(final(self)@.closest),
    {
        let adults = self.closest_adults.keys();
        let mut i: usize = 0;
        while i < adults.len()
            invariant
                0 <= i <= adults.len(),
                self.ops == old(self).ops,
                self.pending_ops == old(self).pending_ops,
                self.closest_adults.wf(),
                self.closest_adults.keys_seq() == adults@,
                adults@.no_duplicates(),
                adults@.to_set() == self.closest_adults@.dom(),
                self.closest_adults@.dom() == old(self).closest_adults@.dom(),
                forall|j: int|
                    0 <= j < i ==> is_nearest(
                        adults[j],
                        adults@.to_set(),
                        (#[trigger] self.closest_adults@[adults[j]])@,
                    ),
            decreases adults.len() - i,
        {
            let adult = adults[i];
            let nearest = nearest_neighbours(&adult, &adults);
            let ghost before = self.closest_adults@;
            proof {
                self.closest_adults.lemma_entry(i as int);
            }
            self.closest_adults.insert(adult, nearest);
            proof {
                assert(self.closest_adults@.dom() =~= before.dom());
                assert forall|j: int| 0 <= j < i + 1 implies is_nearest(
                    adults[j],
                    adults@.to_set(),
                    (#[trigger] self.closest_adults@[adults[j]])@,
                ) by {
                    if j < i {
                        assert(adults[j] != adult);
                        assert(self.closest_adults@[adults[j]] == before[adults[j]]);
                    }
                }
            }
            i = i + 1;
        }
        proof {
            let closest = self@.closest;
            assert(closest.dom() =~= adults@.to_set());
            assert forall|a: XorName| closest.contains_key(a) implies is_nearest(
                a,
                closest.dom(),
                #[trigger] closest[a],
            ) by {
                let j = choose|j: int| 0 <= j < adults.len() && adults[j] == a;
                assert(is_nearest(adults[j], adults@.to_set(), self.closest_adults@[adults[j]]@));
            }
        }
    }

    /// Takes `name` from the adults that the operation `msg_id` waits for,
    /// and the operation away when it waits for nobody.
    fn release_target(&mut self, msg_id: MessageId, name: &XorName)
        requires
            old(self).consistent(),
        ensures
            final(self).consistent(),
            final(self).pending_ops == old(self).pending_ops,
            final(self).closest_adults == old(self).closest_adults,
            final(self)@.ops == ops_after_reply(old(self)@.ops, msg_id, *name),
    {
        let ghost before = self.ops@;
        match self.ops.remove(&msg_id.0) {
            Some(op) => {
                let op = match op {
                    Operation::Read { address, origin, targets } => {
                        let mut targets = targets;
                        let _ = targets.remove(name);
                        Operation::Read { address, origin, targets }
                    },
                    Operation::Write { address, origin, targets } => {
                        let mut targets = targets;
                        let _ = targets.remove(name);
                        Operation::Write { address, origin, targets }
                    },
                };
                let complete = match &op {
                    Operation::Read { targets, .. } => targets.is_empty(),
                    Operation::Write { targets, .. } => targets.is_empty(),
                };
                assert(op@ == before[msg_id.0]@.with_targets(
                    before[msg_id.0]@.targets().remove(*name),
                ));
                if !complete {
                    self.ops.insert(msg_id.0, op);
                }
                assert(self@.ops =~= ops_after_reply(old(self)@.ops, msg_id, *name));
            },
            None => {
                assert(self@.ops =~= ops_after_reply(old(self)@.ops, msg_id, *name));
            },
        }
    }

    /// Records that `name` has replied to the operation `msg_id`: `name` owes
    /// one reply less, but never less than none, and the operation no longer
    /// waits for it. An operation that waits for nobody is complete, and
    /// is dropped.
    pub fn remove_target(&mut self, msg_id: MessageId, name: &XorName)
        requires
            old(self).wf(),
        ensures
            final(self).wf(),
            final(self)@.ops == ops_after_reply(old(self)@.ops, msg_id, *name),
            final(self)@.pending == pending_after_reply(old(self)@.pending, *name),
            final(self)@.closest == old(self)@.closest,
            accounted(old(self)@) && (awaits(old(self)@.ops, msg_id, *name) || pending_or_zero(
                old(self)@.pending,
                *name,
            ) == 0) ==> accounted(final(self)@),
    {
        let owed: usize = match self.pending_ops.get(name) {
            Some(count) => *count,
            None => 0,
        };
        if owed > 0 {
            self.pending_ops.insert(*name, owed - 1);
        }
        assert(self@.pending =~= pending_after_reply(old(self)@.pending, *name));
        self.release_target(msg_id, name);
        proof {
            let v = old(self)@;
            let w = self@;
            assert(w.closest =~= v.closest);
            assert(w.pending =~= pending_after_reply(v.pending, *name));
            assert(w.pending.dom() =~= v.pending.dom());
            assert forall|n: XorName| w.pending.contains_key(n) implies #[trigger] w.pending[n]
                <= targeting(w.ops, n) by {
                lemma_targeting_after_reply(v.ops, msg_id, *name, n);
            }
            lemma_targeting_after_reply(v.ops, msg_id, *name, *name);
            if accounted(v) && (awaits(v.ops, msg_id, *name) || pending_or_zero(v.pending, *name)
                == 0) {
                assert forall|n: XorName| w.pending.contains_key(n) implies #[trigger] w.pending[n]
                    == targeting(w.ops, n) by {
                    lemma_targeting_after_reply(v.ops, msg_id, *name, n);
                }
            }
        }
    }

    /// Counts one more owed reply for each of `targets`, and tracks those
    /// among them that were not tracked.
    fn increment_pending_op(&mut self, targets: &NameSet)
        requires
            old(self).pending_ops.wf(),
            old(self).closest_adults.wf(),
            targets.wf(),
            old(self).pending_ops@.dom() == old(self).closest_adults@.dom(),
            neighbours_valid(old(self)@.closest),
            forall|n: XorName|
                targets@.contains(n) && old(self).pending_ops@.contains_key(n) ==> old(
                    self,
                ).pending_ops@[n] < usize::MAX,
        ensures
            final(self).ops == old(self).ops,
            final(self).pending_ops.wf(),
            final(self).closest_adults.wf(),
            final(self)@.pending == pending_after_new(old(self)@.pending, targets@),
            final(self).closest_adults@.dom() == old(self).closest_adults@.dom().union(targets@),
            final(self).pending_ops@.dom() == final(self).closest_adults@.dom(),
            neighbours_valid(final(self)@.closest),
    {
        let mut i: usize = 0;
        assert(targets.elements().take(0).to_set() =~= Set::<XorName>::empty());
        assert(self@.pending =~= pending_after_new(old(self)@.pending, Set::<XorName>::empty()));
        assert(self.closest_adults@.dom() =~= old(self).closest_adults@.dom().union(
            Set::<XorName>::empty(),
        ));
        while i < targets.len()
            invariant
                0 <= i <= targets.elements().len(),
                targets.wf(),
                self.ops == old(self).ops,
                self.pending_ops.wf(),
                self.closest_adults.wf(),
                self@.pending == pending_after_new(
                    old(self)@.pending,
                    targets.elements().take(i as int).to_set(),
                ),
                self.closest_adults@.dom() == old(self).closest_adults@.dom().union(
                    targets.elements().take(i as int).to_set(),
                ),
                self.pending_ops@.dom() == self.closest_adults@.dom(),
                neighbours_valid(self@.closest),
                forall|n: XorName|
                    targets@.contains(n) && old(self).pending_ops@.contains_key(n) ==> old(
                        self,
                    ).pending_ops@[n] < usize::MAX,
            decreases targets.elements().len() - i,
        {
            let node = targets.get(i);
            let ghost done = targets.elements().take(i as int).to_set();
            let ghost next = targets.elements().take(i + 1).to_set();
            let ghost pending_before = self@.pending;
            let ghost closest_before = self.closest_adults@.dom();
            proof {
                assert(targets.elements().take(i + 1) == targets.elements().take(i as int).push(
                    node,
                ));
                assert(next =~= done.insert(node)) by {
                    let p = targets.elements().take(i as int);
                    let q = targets.elements().take(i + 1);
                    assert forall|x: XorName| q.to_set().contains(x) == p.to_set().insert(
                        node,
                    ).contains(x) by {
                        if q.contains(x) {
                            let k = choose|k: int| 0 <= k < q.len() && q[k] == x;
                            if k < p.len() {
                                assert(p[k] == x);
                            }
                        }
                        if p.contains(x) {
                            let k = choose|k: int| 0 <= k < p.len() && p[k] == x;
                            assert(q[k] == x);
                        }
                        if x == node {
                            assert(q[i as int] == x);
                        }
                    }
                }
                assert(!done.contains(node)) by {
                    let p = targets.elements().take(i as int);
                    if p.contains(node) {
                        let k = choose|k: int| 0 <= k < p.len() && p[k] == node;
                        assert(targets.elements()[k] == targets.elements()[i as int]);
                    }
                }
            }
            let owed: usize = match self.pending_ops.get(&node) {
                Some(count) => *count,
                None => 0,
            };
            proof {
                assert(pending_before.contains_key(node) == self.pending_ops@.contains_key(node));
                if self.pending_ops@.contains_key(node) {
                    assert(pending_before[node] == self.pending_ops@[node]);
                    assert(pending_before[node] == pending_or_zero(old(self)@.pending, node));
                    if old(self).pending_ops@.contains_key(node) {
                        assert(old(self)@.pending[node] == old(self).pending_ops@[node]);
                    }
                } else {
                    assert(!old(self)@.pending.contains_key(node));
                }
                assert(owed == pending_or_zero(old(self)@.pending, node));
            }
            let ghost pending_map = self.pending_ops@;
            self.pending_ops.insert(node, owed + 1);
            if !self.closest_adults.contains_key(&node) {
                self.closest_adults.insert(node, Vec::new());
                self.refresh_closest_adults();
            }
            proof {
                assert(self.closest_adults@.dom() =~= closest_before.insert(node));
                assert(self.closest_adults@.dom() =~= old(self).closest_adults@.dom().union(next));
                assert(self.pending_ops@.dom() =~= self.closest_adults@.dom());
                let goal = pending_after_new(old(self)@.pending, next);
                assert forall|n: XorName| self@.pending.contains_key(n) == goal.contains_key(
                    n,
                ) by {
                    assert(pending_before.contains_key(n) == (old(self)@.pending.contains_key(n)
                        || done.contains(n)));
                }
                assert forall|n: XorName| self@.pending.contains_key(n) implies #[trigger] self@.pending[n]
                    == goal[n] by {
                    if n == node {
                        assert(self.pending_ops@[n] == owed + 1);
                        assert(next.contains(n));
                    } else {
                        assert(self.pending_ops@[n] == pending_map[n]);
                        assert(pending_before.contains_key(n));
                        assert(pending_before[n] == pending_map[n]);
                        assert(next.contains(n) == done.contains(n));
                    }
                }
                assert(self@.pending =~= goal);
            }
            i = i + 1;
        }
        assert(targets.elements().take(targets.elements().len() as int) == targets.elements());
    }

    /// Takes up the operation `op` under `msg_id`, unless an operation is
    /// under way under that id.
    fn insert_operation(&mut self, msg_id: MessageId, op: Operation) -> (r: bool)
        requires
            old(self).wf(),
            op.wf(),
        ensures
            final(self).wf(),
            r == !old(self)@.ops.contains_key(msg_id),
            !r ==> final(self)@ == old(self)@,
            final(self)@.ops == ops_after_new(old(self)@.ops, msg_id, op@),
            r ==> final(self)@.pending == pending_after_new(old(self)@.pending, op@.targets()),
            r ==> final(self)@.closest.dom() == old(self)@.closest.dom().union(op@.targets()),
            accounted(old(self)@) ==> accounted(final(self)@),
    {
        if self.ops.contains_key(&msg_id.0) {
            return false;
        }
        let targets = match &op {
            Operation::Read { targets, .. } => targets.duplicate(),
            Operation::Write { targets, .. } => targets.duplicate(),
        };
        let ghost view = op@;
        assert(targets@ == view.targets());
        self.ops.insert(msg_id.0, op);
        let count = self.ops.len();
        proof {
            let v = old(self)@;
            let names = old(self).ops@.dom();
            old(self).ops.lemma_dom();
            assert(names.map(|k: XorName| MessageId(k)) =~= v.ops.dom()) by {
                assert forall|id: MessageId| v.ops.dom().contains(id) implies names.map(
                    |k: XorName| MessageId(k),
                ).contains(id) by {
                    assert(names.contains(id.0));
                    assert(MessageId(id.0) == id);
                }
            }
            vstd::set_lib::lemma_map_size_bound(names, v.ops.dom(), |k: XorName| MessageId(k));
            assert(v.ops.dom().len() < usize::MAX);
            assert forall|n: XorName|
                targets@.contains(n) && self.pending_ops@.contains_key(
                    n,
                ) implies self.pending_ops@[n] < usize::MAX by {
                assert(v.pending.contains_key(n));
                assert(v.pending[n] <= targeting(v.ops, n));
                lemma_targeting_bound(v.ops, n);
            }
            assert(self@.closest == old(self)@.closest);
            assert(self.pending_ops@.dom() =~= self.closest_adults@.dom()) by {
                assert forall|n: XorName|
                    self.pending_ops@.contains_key(n) == self.closest_adults@.contains_key(n) by {
                    assert(v.pending.dom().contains(n) == v.closest.dom().contains(n));
                }
            }
        }
        self.increment_pending_op(&targets);
        proof {
            let v = old(self)@;
            let w = self@;
            targets.lemma_len();
            assert(w.ops =~= v.ops.insert(msg_id, view));
            assert(w.closest.dom() =~= v.closest.dom().union(view.targets()));
            assert(w.pending.dom() =~= w.closest.dom());
            assert(w.pending.dom() =~= v.pending.dom().union(view.targets()));
            assert(w.pending.dom().finite());
            assert forall|n: XorName| w.pending.contains_key(n) implies #[trigger] w.pending[n]
                <= targeting(w.ops, n) by {
                lemma_targeting_insert(v.ops, msg_id, view, n);
            }
            if accounted(v) {
                assert forall|n: XorName| w.pending.contains_key(n) implies #[trigger] w.pending[n]
                    == targeting(w.ops, n) by {
                    lemma_targeting_insert(v.ops, msg_id, view, n);
                    if !v.pending.contains_key(n) {
                        assert(v.ops.dom().filter(
                            |id: MessageId| v.ops[id].targets().contains(n),
                        ) =~= Set::<MessageId>::empty());
                    }
                }
            }
        }
        true
    }

    /// Takes up a write under `msg_id` that waits for a reply from each of
    /// `targets`, unless an operation is under way under that id. The result
    /// tells whether the write was taken up.
    pub fn new_write(
        &mut self,
        msg_id: MessageId,
        origin: Option<EndUser>,
        address: BlobAddress,
        targets: NameSet,
    ) -> (r: bool)
        requires
            old(self).wf(),
            targets.wf(),
        ensures
            final(self).wf(),
            r == !old(self)@.ops.contains_key(msg_id),
            !r ==> final(self)@ == old(self)@,
            final(self)@.ops == ops_after_new(
                old(self)@.ops,
                msg_id,
                OperationView::Write { address, origin, targets: targets@ },
            ),
            r ==> final(self)@.pending == pending_after_new(old(self)@.pending, targets@),
            r ==> final(self)@.closest.dom() == old(self)@.closest.dom().union(targets@),
            accounted(old(self)@) ==> accounted(final(self)@),
    {
        self.insert_operation(msg_id, Operation::Write { address, origin, targets })
    }

    /// Takes up a read under `msg_id` that waits for a reply from each of
    /// `targets`, unless an operation is under way under that id. The result
    /// tells whether the read was taken up.
    pub fn new_read(
        &mut self,
        msg_id: MessageId,
        address: BlobAddress,
        origin: EndUser,
        targets: NameSet,
    ) -> (r: bool)
        requires
            old(self).wf(),
            targets.wf(),
        ensures
            final(self).wf(),
            r == !old(self)@.ops.contains_key(msg_id),
            !r ==> final(self)@ == old(self)@,
            final(self)@.ops == ops_after_new(
                old(self)@.ops,
                msg_id,
                OperationView::Read { address, origin, targets: targets@ },
            ),
            r ==> final(self)@.pending == pending_after_new(old(self)@.pending, targets@),
            r ==> final(self)@.closest.dom() == old(self)@.closest.dom().union(targets@),
            accounted(old(self)@) ==> accounted(final(self)@),
    {
        self.insert_operation(msg_id, Operation::Read { address, origin, targets })
    }

    /// Records the reply of `src` to `correlation_id`, as `remove_target`
    /// does. Where the operation was a write, the result is its address and
    /// the client that asked for it.
    pub fn record_adult_write_liveness(&mut self, correlation_id: MessageId, src: XorName) -> (r:
        Option<(BlobAddress, Option<EndUser>)>)
        requires
            old(self).wf(),
        ensures
            final(self).wf(),
            r == write_under(old(self)@.ops, correlation_id),
            final(self)@.ops == ops_after_reply(old(self)@.ops, correlation_id, src),
            final(self)@.pending == pending_after_reply(old(self)@.pending, src),
            final(self)@.closest == old(self)@.closest,
            accounted(old(self)@) && (awaits(old(self)@.ops, correlation_id, src)
                || pending_or_zero(old(self)@.pending, src) == 0) ==> accounted(final(self)@),
    {
        let found = match self.ops.get(&correlation_id.0) {
            Some(Operation::Write { address, origin, .. }) => Some((*address, *origin)),
            _ => None,
        };
        self.remove_target(correlation_id, &src);
        found
    }

    /// Records the reply of `src` to `correlation_id`, as `remove_target`
    /// does, whether or not the adult found the blob. Where the operation
    /// was a read, the result is its address and the client that asked for
    /// it.
    pub fn record_adult_read_liveness(
        &mut self,
        correlation_id: MessageId,
        src: XorName,
        was_success: bool,
    ) -> (r: Option<(BlobAddress, EndUser)>)
        requires
            old(self).wf(),
        ensures
            final(self).wf(),
            r == read_under(old(self)@.ops, correlation_id),
            final(self)@.ops == ops_after_reply(old(self)@.ops, correlation_id, src),
            final(self)@.pending == pending_after_reply(old(self)@.pending, src),
            final(self)@.closest == old(self)@.closest,
            accounted(old(self)@) && (awaits(old(self)@.ops, correlation_id, src)
                || pending_or_zero(old(self)@.pending, src) == 0) ==> accounted(final(self)@),
    {
        let found = match self.ops.get(&correlation_id.0) {
            Some(Operation::Read { address, origin, .. }) => Some((*address, *origin)),
            _ => None,
        };
        self.remove_target(correlation_id, &src);
        found
    }

    /// How many replies `name` owes; none if it is not tracked.
    pub fn pending_op_count(&self, name: &XorName) -> (r: usize)
        requires
            self.wf(),
        ensures
            r == pending_or_zero(self@.pending, *name),
    {
        match self.pending_ops.get(name) {
            Some(count) => *count,
            None => 0,
        }
    }

    /// Whether an operation is under way under `msg_id`.
    pub fn is_pending(&self, msg_id: &MessageId) -> (r: bool)
        requires
            self.wf(),
        ensures
            r == self@.ops.contains_key(*msg_id),
    {
        self.ops.contains_key(&msg_id.0)
    }

    /// The adults that the operation under `msg_id` waits for, each once,
    /// if one is under way.
    pub fn targets_of(&self, msg_id: &MessageId) -> (r: Option<Vec<XorName>>)
        requires
            self.wf(),
        ensures
            r is Some <==> self@.ops.contains_key(*msg_id),
            r matches Some(names) ==> names@.no_duplicates() && names@.to_set()
                == self@.ops[*msg_id].targets(),
    {
        match self.ops.get(&msg_id.0) {
            Some(Operation::Read { targets, .. }) => Some(targets.to_vec()),
            Some(Operation::Write { targets, .. }) => Some(targets.to_vec()),
            None => None,
        }
    }

    /// The tracked adults, each once.
    pub fn tracked_adults(&self) -> (r: Vec<XorName>)
        requires
            self.wf(),
        ensures
            r@.no_duplicates(),
            r@.to_set() == self@.closest.dom(),
    {
        let r = self.closest_adults.keys();
        assert(r@.to_set() =~= self@.closest.dom());
        r
    }

    /// The nearest neighbours of `name`, nearest first, if it is tracked.
    pub fn closest_adults_to(&self, name: &XorName) -> (r: Option<Vec<XorName>>)
        requires
            self.wf(),
        ensures
            r is Some <==> self@.closest.contains_key(*name),
            r matches Some(neighbours) ==> neighbours@ == self@.closest[*name],
    {
        match self.closest_adults.get(name) {
            Some(neighbours) => {
                let mut copy: Vec<XorName> = Vec::new();
                let mut i: usize = 0;
                while i < neighbours.len()
                    invariant
                        0 <= i <= neighbours.len(),
                        copy@ == neighbours@.take(i as int),
                    decreases neighbours.len() - i,
                {
                    copy.push(neighbours[i]);
                    assert(neighbours@.take(i + 1) == neighbours@.take(i as int).push(
                        neighbours@[i as int],
                    ));
                    i = i + 1;
                }
                assert(neighbours@.take(neighbours.len() as int) == neighbours@);
                Some(copy)
            },
            None => None,
        }
    }

    /// The most replies that any of `neighbours` owes.
    pub fn max_pending_of(&self, neighbours: &Vec<XorName>) -> (r: usize)
        requires
            self.wf(),
        ensures
            r == max_pending(self@.pending, neighbours@),
    {
        let mut most: usize = 0;
        let mut i: usize = 0;
        while i < neighbours.len()
            invariant
                0 <= i <= neighbours.len(),
                self.wf(),
                most == max_pending(self@.pending, neighbours@.take(i as int)),
            decreases neighbours.len() - i,
        {
            let owed = self.pending_op_count(&neighbours[i]);
            proof {
                let next = neighbours@.take(i + 1);
                assert(next.drop_last() == neighbours@.take(i as int));
                assert(next.last() == neighbours@[i as int]);
            }
            if owed > most {
                most = owed;
            }
            i = i + 1;
        }
        assert(neighbours@.take(neighbours.len() as int) == neighbours@);
        most
    }

    /// The tracked adults that lag behind their neighbours, each once and
    /// with the number of replies that it owes, in no particular order. An
    /// adult lags when it owes more than `MIN_PENDING_OPS` replies, the
    /// busiest of its neighbours does too, and it owes more than
    /// `PENDING_OP_TOLERANCE_FACTOR` times as many as that neighbour.
    pub fn find_unresponsive_adults(&self) -> (r: Vec<(XorName, usize)>)
        requires
            self.wf(),
        ensures
            forall|i: int|
                0 <= i < r.len() ==> unresponsive(self@, (#[trigger] r[i]).0) && r[i].1
                    == pending_or_zero(self@.pending, r[i].0),
            forall|a: XorName|
                unresponsive(self@, a) ==> exists|i: int| 0 <= i < r.len() && (#[trigger] r[i]).0 == a,
            forall|i: int, j: int| 0 <= i < j < r.len() ==> (#[trigger] r[i]).0 != (#[trigger] r[j]).0,
    {
        let mut found: Vec<(XorName, usize)> = Vec::new();
        let mut k: usize = 0;
        while k < self.closest_adults.len()
            invariant
                0 <= k <= self.closest_adults.keys_seq().len(),
                self.wf(),
                forall|i: int|
                    0 <= i < found.len() ==> unresponsive(self@, (#[trigger] found[i]).0)
                        && found[i].1 == pending_or_zero(self@.pending, found[i].0) && exists|
                        j: int,
                    | 0 <= j < k && self.closest_adults.keys_seq()[j] == found[i].0,
                forall|j: int|
                    0 <= j < k && unresponsive(self@, #[trigger] self.closest_adults.keys_seq()[j])
                        ==> exists|i: int|
                        0 <= i < found.len() && (#[trigger] found[i]).0
                            == self.closest_adults.keys_seq()[j],
                forall|i: int, j: int|
                    0 <= i < j < found.len() ==> (#[trigger] found[i]).0 != (#[trigger] found[j]).0,
            decreases self.closest_adults.keys_seq().len() - k,
        {
            let adult = self.closest_adults.key_at(k);
            let neighbours = self.closest_adults.value_at(k);
            let most = self.max_pending_of(neighbours);
            let owed = self.pending_op_count(&adult);
            let ghost before = found@;
            proof {
                self.closest_adults.lemma_entry(k as int);
                assert(self@.closest[adult] == neighbours@);
            }
            if owed > MIN_PENDING_OPS && most > MIN_PENDING_OPS && most <= usize::MAX
                / PENDING_OP_TOLERANCE_FACTOR && owed > PENDING_OP_TOLERANCE_FACTOR * most {
                found.push((adult, owed));
                proof {
                    assert forall|i: int, j: int| 0 <= i < j < found.len() implies (#[trigger] found[i]).0
                        != (#[trigger] found[j]).0 by {
                        if j == before.len() {
                            let m = choose|m: int|
                                0 <= m < k && self.closest_adults.keys_seq()[m] == before[i].0;
                            self.closest_adults.lemma_entry(m);
                        }
                    }
                    assert forall|j: int|
                        0 <= j < k + 1 && unresponsive(
                            self@,
                            #[trigger] self.closest_adults.keys_seq()[j],
                        ) implies exists|i: int|
                        0 <= i < found.len() && (#[trigger] found[i]).0
                            == self.closest_adults.keys_seq()[j] by {
                        if j < k {
                            let i = choose|i: int|
                                0 <= i < before.len() && (#[trigger] before[i]).0
                                    == self.closest_adults.keys_seq()[j];
                            assert(found[i].0 == self.closest_adults.keys_seq()[j]);
                        } else {
                            assert(found[before.len() as int].0 == adult);
                        }
                    }
                    assert forall|i: int| 0 <= i < found.len() implies unresponsive(
                        self@,
                        (#[trigger] found[i]).0,
                    ) && found[i].1 == pending_or_zero(self@.pending, found[i].0) && exists|j: int|
                        0 <= j < k + 1 && self.closest_adults.keys_seq()[j] == found[i].0 by {
                        if i < before.len() {
                            let j = choose|j: int|
                                0 <= j < k && self.closest_adults.keys_seq()[j] == before[i].0;
                            assert(self.closest_adults.keys_seq()[j] == found[i].0);
                        } else {
                            assert(self.closest_adults.keys_seq()[k as int] == found[i].0);
                        }
                    }
                }
            } else {
                proof {
                    assert(!unresponsive(self@, adult));
                }
            }
            k = k + 1;
        }
        proof {
            assert forall|a: XorName| unresponsive(self@, a) implies exists|i: int|
                0 <= i < found.len() && (#[trigger] found[i]).0 == a by {
                assert(self.closest_adults@.contains_key(a));
                let j = choose|j: int|
                    0 <= j < self.closest_adults.keys_seq().len()
                        && self.closest_adults.keys_seq()[j] == a;
                assert(unresponsive(self@, self.closest_adults.keys_seq()[j]));
            }
        }
        found
    }

    /// Takes `name` from the adults that any operation waits for, and the
    /// operations away that then wait for nobody.
    fn release_everywhere(&mut self, name: &XorName)
        requires
            old(self).consistent(),
        ensures
            final(self).consistent(),
            final(self).pending_ops == old(self).pending_ops,
            final(self).closest_adults == old(self).closest_adults,
            final(self)@.ops == ops_without(old(self)@.ops, set![*name]),
    {
        let ids = self.ops.keys();
        let ghost start = self@.ops;
        let mut k: usize = 0;
        proof {
            assert(self@.ops =~= partly_without(
                start,
                ids@.take(0).to_set(),
                *name,
            ));
        }
        while k < ids.len()
            invariant
                0 <= k <= ids.len(),
                self.consistent(),
                self.pending_ops == old(self).pending_ops,
                self.closest_adults == old(self).closest_adults,
                ids@.no_duplicates(),
                forall|id: MessageId| start.contains_key(id) <==> ids@.contains(id.0),
                self@.ops == partly_without(start, ids@.take(k as int).to_set(), *name),
            decreases ids.len() - k,
        {
            let id = MessageId(ids[k]);
            let ghost done = ids@.take(k as int).to_set();
            let ghost next = ids@.take(k + 1).to_set();
            let ghost before = self@.ops;
            proof {
                assert(!done.contains(id.0)) by {
                    let p = ids@.take(k as int);
                    if p.contains(id.0) {
                        let m = choose|m: int| 0 <= m < p.len() && p[m] == id.0;
                        assert(ids@[m] == ids@[k as int]);
                    }
                }
                assert forall|x: XorName| next.contains(x) == (done.contains(x) || x == id.0) by {
                    let p = ids@.take(k as int);
                    let q = ids@.take(k + 1);
                    if q.contains(x) {
                        let m = choose|m: int| 0 <= m < q.len() && q[m] == x;
                        if m < p.len() {
                            assert(p[m] == x);
                        }
                    }
                    if p.contains(x) {
                        let m = choose|m: int| 0 <= m < p.len() && p[m] == x;
                        assert(q[m] == x);
                    }
                    if x == id.0 {
                        assert(q[k as int] == x);
                    }
                }
                assert(ids@.contains(id.0));
            }
            self.release_target(id, name);
            proof {
                let goal = partly_without(start, next, *name);
                assert forall|other: MessageId| self@.ops.contains_key(other)
                    == goal.contains_key(other) by {
                    assert(MessageId(other.0) == other);
                }
                assert forall|other: MessageId| self@.ops.contains_key(
                    other,
                ) implies #[trigger] self@.ops[other] == goal[other] by {
                    assert(MessageId(other.0) == other);
                }
                assert(self@.ops =~= goal);
            }
            k = k + 1;
        }
        proof {
            assert(ids@.take(ids.len() as int) == ids@);
            let all = ids@.to_set();
            let goal = ops_without(start, set![*name]);
            assert forall|id: MessageId| start.contains_key(id) implies #[trigger] start[id].targets().remove(
                *name,
            ) == start[id].targets().difference(set![*name]) by {
                assert(start[id].targets().remove(*name) =~= start[id].targets().difference(
                    set![*name],
                ));
            }
            assert(partly_without(start, all, *name) =~= goal);
        }
    }

    /// Forgets the tracked adults that are not among `current_members`:
    /// they owe nothing any more, no operation waits for them, and the
    /// adults that stay are listed with their nearest neighbours among
    /// those that stay. When at least one adult is forgotten, the
    /// operations that then wait for nobody are dropped.
    pub fn retain_members_only(&mut self, current_members: NameSet)
        requires
            old(self).wf(),
        ensures
            final(self).wf(),
            final(self)@.ops == ops_after_leaving(
                old(self)@.ops,
                old(self)@.closest.dom().difference(current_members@),
            ),
            final(self)@.pending == old(self)@.pending.remove_keys(
                old(self)@.closest.dom().difference(current_members@),
            ),
            final(self)@.closest.dom() == old(self)@.closest.dom().intersect(current_members@),
            accounted(old(self)@) ==> accounted(final(self)@),
    {
        let old_members = self.closest_adults.keys();
        let ghost v = self@;
        let mut k: usize = 0;
        proof {
            assert(self.pending_ops@.dom() =~= self.closest_adults@.dom()) by {
                assert forall|n: XorName|
                    self.pending_ops@.contains_key(n) == self.closest_adults@.contains_key(n) by {
                    assert(v.pending.dom().contains(n) == v.closest.dom().contains(n));
                }
            }
            let none = old_members@.take(0).to_set().difference(current_members@);
            assert(none =~= Set::<XorName>::empty());
            assert(self@.pending =~= v.pending.remove_keys(none));
            assert(self.closest_adults@.dom() =~= v.closest.dom().difference(none));
        }
        while k < old_members.len()
            invariant
                0 <= k <= old_members.len(),
                self.consistent(),
                v == old(self)@,
                old_members@.no_duplicates(),
                old_members@.to_set() == v.closest.dom(),
                self@.ops == ops_after_leaving(
                    v.ops,
                    old_members@.take(k as int).to_set().difference(current_members@),
                ),
                self@.pending == v.pending.remove_keys(
                    old_members@.take(k as int).to_set().difference(current_members@),
                ),
                self.closest_adults@.dom() == v.closest.dom().difference(
                    old_members@.take(k as int).to_set().difference(current_members@),
                ),
                self.pending_ops@.dom() == self.closest_adults@.dom(),
            decreases old_members.len() - k,
        {
            let name = old_members[k];
            let ghost gone = old_members@.take(k as int).to_set().difference(current_members@);
            let ghost next = old_members@.take(k + 1).to_set().difference(current_members@);
            proof {
                assert forall|x: XorName|
                    old_members@.take(k + 1).to_set().contains(x) == (old_members@.take(
                        k as int,
                    ).to_set().contains(x) || x == name) by {
                    let p = old_members@.take(k as int);
                    let q = old_members@.take(k + 1);
                    if q.contains(x) {
                        let m = choose|m: int| 0 <= m < q.len() && q[m] == x;
                        if m < p.len() {
                            assert(p[m] == x);
                        }
                    }
                    if p.contains(x) {
                        let m = choose|m: int| 0 <= m < p.len() && p[m] == x;
                        assert(q[m] == x);
                    }
                    if x == name {
                        assert(q[k as int] == x);
                    }
                }
            }
            if !current_members.contains(&name) {
                let ghost pending_before = self@.pending;
                let _ = self.pending_ops.remove(&name);
                let _ = self.closest_adults.remove(&name);
                let ghost pending_now = self@.pending;
                proof {
                    assert(next =~= gone.insert(name));
                    assert(pending_now =~= pending_before.remove(name));
                    assert(pending_before.remove(name) =~= v.pending.remove_keys(next));
                }
                self.release_everywhere(&name);
                proof {
                    assert(next =~= gone.insert(name));
                    lemma_leaving_one_more(v.ops, gone, name);
                    assert(self@.pending == pending_now);
                    assert(self@.pending =~= v.pending.remove_keys(next));
                    assert(self.closest_adults@.dom() =~= v.closest.dom().difference(next));
                    assert(self.pending_ops@.dom() =~= self.closest_adults@.dom());
                }
            } else {
                proof {
                    assert(next =~= gone);
                }
            }
            k = k + 1;
        }
        proof {
            assert(old_members@.take(old_members.len() as int) == old_members@);
        }
        let ghost gone = v.closest.dom().difference(current_members@);
        let ghost ops_now = self@.ops;
        let ghost pending_now = self@.pending;
        self.refresh_closest_adults();
        proof {
            let w = self@;
            assert(w.ops == ops_now);
            assert(w.pending == pending_now);
            assert(w.closest.dom() =~= v.closest.dom().intersect(current_members@));
            assert(w.pending.dom() =~= w.closest.dom());
            assert(w.pending.dom().subset_of(v.pending.dom()));
            vstd::set_lib::lemma_set_subset_finite(v.pending.dom(), w.pending.dom());
            assert(w.ops.dom().subset_of(v.ops.dom()));
            vstd::set_lib::lemma_set_subset_finite(v.ops.dom(), w.ops.dom());
            assert forall|id: MessageId| w.ops.contains_key(id) implies (#[trigger] w.ops[id]).targets().finite() by {
                assert(v.ops[id].targets().finite());
            }
            assert forall|id: MessageId, n: XorName|
                w.ops.contains_key(id) && (#[trigger] w.ops[id]).targets().contains(
                    n,
                ) implies #[trigger] w.pending.contains_key(n) by {
                assert(v.ops[id].targets().contains(n));
                assert(v.pending.contains_key(n));
            }
            assert forall|n: XorName| w.pending.contains_key(n) implies #[trigger] w.pending[n]
                <= targeting(w.ops, n) by {
                lemma_targeting_after_leaving(v.ops, gone, n);
            }
            if accounted(v) {
                assert forall|n: XorName| w.pending.contains_key(n) implies #[trigger] w.pending[n]
                    == targeting(w.ops, n) by {
                    lemma_targeting_after_leaving(v.ops, gone, n);
                }
            }
        }
    }

    /// Lists each tracked adult anew with its nearest tracked neighbours:
    /// the `NEIGHBOUR_COUNT` tracked adults other than itself that are
    /// nearest to it, nearest first. The operations, the replies owed and
    /// the tracked adults stay as they are; and where every adult was
    /// listed with its nearest neighbours already, so does the listing.
    pub fn recompute_closest_adults(&mut self)
        requires
            old(self).coherent(),
        ensures
            final(self).wf(),
            final(self)@.ops == old(self)@.ops,
            final(self)@.pending == old(self)@.pending,
            final(self)@.closest.dom() == old(self)@.closest.dom(),
            forall|a: XorName|
                old(self)@.closest.contains_key(a) ==> is_nearest(
                    a,
                    old(self)@.closest.dom(),
                    #[trigger] final(self)@.closest[a],
                ),
            neighbours_valid(old(self)@.closest) ==> final(self)@ == old(self)@,
    {
        proof {
            assert(self.pending_ops@.dom() =~= self.closest_adults@.dom()) by {
                assert forall|n: XorName|
                    self.pending_ops@.contains_key(n) == self.closest_adults@.contains_key(n) by {
                    assert(self@.pending.dom().contains(n) == self@.closest.dom().contains(n));
                }
            }
        }
        self.refresh_closest_adults();
        proof {
            assert(self@.closest.dom() =~= old(self)@.closest.dom());
            assert(self@.ops == old(self)@.ops);
            assert(self@.pending == old(self)@.pending);
            if neighbours_valid(old(self)@.closest) {
                law_neighbours_determined(self@.closest, old(self)@.closest);
            }
        }
    }
}

/// The operations of `ops` when `name` has left those in `done`: these no
/// longer wait for `name`, and those of them that then wait for nobody are
/// gone.
spec fn partly_without(
    ops: Map<MessageId, OperationView>,
    done: Set<XorName>,
    name: XorName,
) -> Map<MessageId, OperationView> {
    Map::new(
        |id: MessageId|
            ops.contains_key(id) && (done.contains(id.0) ==> ops[id].targets().remove(name)
                != Set::<XorName>::empty()),
        |id: MessageId|
            if done.contains(id.0) {
                ops[id].with_targets(ops[id].targets().remove(name))
            } else {
                ops[id]
            },
    )
}

} // verus!

//! The liveness tracker in its earlier form, which keeps the command of each
//! write and reports an adult by how far it is behind its neighbours.

use crate::data::BlobAddress;
use crate::messages::{BlobWrite, BlobWriteView, EndUser, MessageId};
use crate::metadata::adult_liveness::AdultLiveness;
use crate::metadata::liveness_model::{
    accounted, awaits, bookkeeping, inv, is_nearest, max_pending, neighbours_valid, ops_after_new, ops_after_reply, pending_after_new,
    pending_after_reply, pending_or_zero, read_under, LivenessView, OperationView,
};
use crate::name::XorName;
use crate::name_map::NameMap;
use crate::name_set::NameSet;
use vstd::prelude::*;

verus! {

/// An adult is flagged when it owes this many replies more than the
/// busiest of its neighbours, and then some.
pub const MAX_PENDING_OP_DIFFERENCE: usize = 5;

/// The state of the tracker: that of the liveness tracker, and the command
/// of each write under way.
pub struct AdultOpsView {
    /// The operations, the replies owed and the neighbours.
    pub tracker: LivenessView,
    /// The command of each write under way.
    pub writes: Map<MessageId, BlobWriteView>,
}

/// Whether the tracker reports `adult`: it has a neighbour, and owes more
/// than `MAX_PENDING_OP_DIFFERENCE` replies more than the busiest of its
/// neighbours.
pub open spec fn behind(v: LivenessView, adult: XorName) -> bool {
    &&& v.closest.contains_key(adult)
    &&& v.closest[adult].len() > 0
    &&& pending_or_zero(v.pending, adult) - max_pending(v.pending, v.closest[adult])
        > MAX_PENDING_OP_DIFFERENCE
}

/// The commands after the operation `id` has had a reply: the command of an
/// operation that is gone is gone.
pub open spec fn writes_after_reply(
    writes: Map<MessageId, BlobWriteView>,
    ops: Map<MessageId, OperationView>,
    id: MessageId,
) -> Map<MessageId, BlobWriteView> {
    if ops.contains_key(id) {
        writes
    } else {
        writes.remove(id)
    }
}

/// Tracks the operations that wait for replies from adults, as the liveness
/// tracker does, and the command of each write.
pub struct AdultOps {
    tracker: AdultLiveness,
    writes: NameMap<BlobWrite>,
}

impl View for AdultOps {
    type V = AdultOpsView;

    closed spec fn view(&self) -> AdultOpsView {
        AdultOpsView {
            tracker: self.tracker@,
            writes: Map::new(
                |id: MessageId| self.writes@.contains_key(id.0),
                |id: MessageId| self.writes@[id.0]@,
            ),
        }
    }
}

impl AdultOps {
    /// The parts are held as their operations keep them.
    pub closed spec fn consistent(&self) -> bool {
        self.tracker.consistent() && self.writes.wf()
    }

    /// The tracker is in a state that its operations keep: a command is
    /// kept for each write under way, and for nothing else.
    pub open spec fn wf(&self) -> bool {
        &&& self.consistent()
        &&& inv(self@.tracker)
        &&& forall|id: MessageId|
            self@.writes.contains_key(id) <==> self@.tracker.ops.contains_key(id)
                && self@.tracker.ops[id] is Write
    }

    /// The tracker is in a state that its operations keep, but for the
    /// neighbours that it lists, which may be any names.
    pub open spec fn coherent(&self) -> bool {
        &&& self.consistent()
        &&& bookkeeping(self@.tracker)
        &&& forall|id: MessageId|
            self@.writes.contains_key(id) <==> self@.tracker.ops.contains_key(id)
                && self@.tracker.ops[id] is Write
    }

    /// A tracker that tracks nothing.
    pub fn new() -> (r: AdultOps)
        ensures
            r.wf(),
            accounted(r@.tracker),
            r@.tracker.ops == Map::<MessageId, OperationView>::empty(),
            r@.tracker.pending == Map::<XorName, nat>::empty(),
            r@.tracker.closest == Map::<XorName, Seq<XorName>>::empty(),
            r@.writes == Map::<MessageId, BlobWriteView>::empty(),
    {
        let r = AdultOps { tracker: AdultLiveness::new(), writes: NameMap::new() };
        assert(r@.writes =~= Map::<MessageId, BlobWriteView>::empty());
        r
    }

    /// Takes up the write `blob_write` under `msg_id`, to wait for a reply
    /// from each of `targets`, unless an operation is under way under that
    /// id. The result tells whether the write was taken up.
    pub fn new_write(
        &mut self,
        msg_id: MessageId,
        blob_write: BlobWrite,
        origin: EndUser,
        targets: NameSet,
    ) -> (r: bool)
        requires
            old(self).wf(),
            targets.wf(),
        ensures
            final(self).wf(),
            r == !old(self)@.tracker.ops.contains_key(msg_id),
            !r ==> final(self)@ == old(self)@,
            final(self)@.tracker.ops == ops_after_new(
                old(self)@.tracker.ops,
                msg_id,
                OperationView::Write {
                    address: blob_write.spec_dst_address(),
                    origin: Some(origin),
                    targets: targets@,
                },
            ),
            r ==> final(self)@.tracker.pending == pending_after_new(
                old(self)@.tracker.pending,
                targets@,
            ),
            r ==> final(self)@.tracker.closest.dom() == old(self)@.tracker.closest.dom().union(
                targets@,
            ),
            r ==> final(self)@.writes == old(self)@.writes.insert(msg_id, blob_write@),
            accounted(old(self)@.tracker) ==> accounted(final(self)@.tracker),
    {
        let address = blob_write.dst_address();
        if self.tracker.new_write(msg_id, Some(origin), address, targets) {
            self.writes.insert(msg_id.0, blob_write);
            proof {
                assert(self@.writes =~= old(self)@.writes.insert(msg_id, blob_write@));
            }
            true
        } else {
            proof {
                assert(self@.writes =~= old(self)@.writes);
            }
            false
        }
    }

    /// Takes up a read under `msg_id` that waits for a reply from each of
    /// `targets`, unless an operation is under way under that id. The result
    /// tells whether the read was taken up.
    pub fn new_read(
        &mut self,
        msg_id: MessageId,
        address: BlobAddress,
        origin: EndUser,
        targets: NameSet,
    ) -> (r: bool)
        requires
            old(self).wf(),
            targets.wf(),
        ensures
            final(self).wf(),
            r == !old(self)@.tracker.ops.contains_key(msg_id),
            !r ==> final(self)@ == old(self)@,
            final(self)@.tracker.ops == ops_after_new(
                old(self)@.tracker.ops,
                msg_id,
                OperationView::Read { address, origin, targets: targets@ },
            ),
            r ==> final(self)@.tracker.pending == pending_after_new(
                old(self)@.tracker.pending,
                targets@,
            ),
            r ==> final(self)@.tracker.closest.dom() == old(self)@.tracker.closest.dom().union(
                targets@,
            ),
            final(self)@.writes == old(self)@.writes,
            accounted(old(self)@.tracker) ==> accounted(final(self)@.tracker),
    {
        let r = self.tracker.new_read(msg_id, address, origin, targets);
        proof {
            assert(self@.writes =~= old(self)@.writes);
        }
        r
    }

    /// Records that `name` has replied to the operation `msg_id`: `name` owes
    /// one reply less, and the operation no longer waits for it. An operation
    /// that waits for nobody is complete, and is dropped with its command.
    /// An adult that is tracked must owe a reply.
    pub fn remove_target(&mut self, msg_id: MessageId, name: XorName)
        requires
            old(self).wf(),
            old(self)@.tracker.pending.contains_key(name) ==> old(self)@.tracker.pending[name] > 0,
        ensures
            final(self).wf(),
            final(self)@.tracker.ops == ops_after_reply(old(self)@.tracker.ops, msg_id, name),
            final(self)@.tracker.pending == pending_after_reply(old(self)@.tracker.pending, name),
            final(self)@.tracker.closest == old(self)@.tracker.closest,
            final(self)@.writes == writes_after_reply(
                old(self)@.writes,
                final(self)@.tracker.ops,
                msg_id,
            ),
            accounted(old(self)@.tracker) && awaits(old(self)@.tracker.ops, msg_id, name)
                ==> accounted(final(self)@.tracker),
    {
        self.tracker.remove_target(msg_id, &name);
        if !self.tracker.is_pending(&msg_id) {
            let _ = self.writes.remove(&msg_id.0);
        }
        proof {
            let goal = writes_after_reply(old(self)@.writes, self@.tracker.ops, msg_id);
            assert forall|id: MessageId| self@.writes.contains_key(id) == goal.contains_key(id) by {
                assert(MessageId(id.0) == id);
            }
            assert(self@.writes =~= goal);
            assert forall|id: MessageId|
                self@.writes.contains_key(id) <==> self@.tracker.ops.contains_key(id)
                    && self@.tracker.ops[id] is Write by {
                assert(MessageId(id.0) == id);
                if id != msg_id {
                    assert(self@.tracker.ops.contains_key(id) == old(
                        self,
                    )@.tracker.ops.contains_key(id));
                }
            }
        }
    }

    /// Records the reply of `src` to `msg_id`, as `remove_target` does.
    /// Where the operation was a write, the result is a copy of its command.
    pub fn process_blob_write_result(&mut self, msg_id: MessageId, src: XorName) -> (r: Option<
        BlobWrite,
    >)
        requires
            old(self).wf(),
            old(self)@.tracker.pending.contains_key(src) ==> old(self)@.tracker.pending[src] > 0,
        ensures
            final(self).wf(),
            r is Some <==> old(self)@.writes.contains_key(msg_id),
            r matches Some(command) ==> command@ == old(self)@.writes[msg_id],
            final(self)@.tracker.ops == ops_after_reply(old(self)@.tracker.ops, msg_id, src),
            final(self)@.tracker.pending == pending_after_reply(old(self)@.tracker.pending, src),
            final(self)@.tracker.closest == old(self)@.tracker.closest,
            final(self)@.writes == writes_after_reply(
                old(self)@.writes,
                final(self)@.tracker.ops,
                msg_id,
            ),
            accounted(old(self)@.tracker) && awaits(old(self)@.tracker.ops, msg_id, src)
                ==> accounted(final(self)@.tracker),
    {
        let found = match self.writes.get(&msg_id.0) {
            Some(command) => Some(command.duplicate()),
            None => None,
        };
        self.remove_target(msg_id, src);
        found
    }

    /// Records the reply of `src` to `msg_id`, as `remove_target` does.
    /// Where the operation was a read, the result is its address and the
    /// client that asked for it.
    pub fn process_blob_read_result(&mut self, msg_id: MessageId, src: XorName) -> (r: Option<
        (BlobAddress, EndUser),
    >)
        requires
            old(self).wf(),
            old(self)@.tracker.pending.contains_key(src) ==> old(self)@.tracker.pending[src] > 0,
        ensures
            final(self).wf(),
            r == read_under(old(self)@.tracker.ops, msg_id),
            final(self)@.tracker.ops == ops_after_reply(old(self)@.tracker.ops, msg_id, src),
            final(self)@.tracker.pending == pending_after_reply(old(self)@.tracker.pending, src),
            final(self)@.tracker.closest == old(self)@.tracker.closest,
            final(self)@.writes == writes_after_reply(
                old(self)@.writes,
                final(self)@.tracker.ops,
                msg_id,
            ),
            accounted(old(self)@.tracker) && awaits(old(self)@.tracker.ops, msg_id, src)
                ==> accounted(final(self)@.tracker),
    {
        let found = self.tracker.record_adult_read_liveness(msg_id, src, true);
        if !self.tracker.is_pending(&msg_id) {
            let _ = self.writes.remove(&msg_id.0);
        }
        proof {
            let goal = writes_after_reply(old(self)@.writes, self@.tracker.ops, msg_id);
            assert forall|id: MessageId| self@.writes.contains_key(id) == goal.contains_key(id) by {
                assert(MessageId(id.0) == id);
            }
            assert(self@.writes =~= goal);
            assert forall|id: MessageId|
                self@.writes.contains_key(id) <==> self@.tracker.ops.contains_key(id)
                    && self@.tracker.ops[id] is Write by {
                assert(MessageId(id.0) == id);
                if id != msg_id {
                    assert(self@.tracker.ops.contains_key(id) == old(
                        self,
                    )@.tracker.ops.contains_key(id));
                }
            }
        }
        found
    }

    /// How many replies `name` owes; none if it is not tracked.
    pub fn pending_op_count(&self, name: &XorName) -> (r: usize)
        requires
            self.wf(),
        ensures
            r == pending_or_zero(self@.tracker.pending, *name),
    {
        self.tracker.pending_op_count(name)
    }

    /// Lists each tracked adult anew with its nearest tracked neighbours:
    /// the `NEIGHBOUR_COUNT` tracked adults other than itself that are
    /// nearest to it, nearest first. The operations, their commands, the
    /// replies owed and the tracked adults stay as they are; and where
    /// every adult was listed with its nearest neighbours already, so does
    /// the listing.
    pub fn recompute_closest_adults(&mut self)
        requires
            old(self).coherent(),
        ensures
            final(self).wf(),
            final(self)@.tracker.ops == old(self)@.tracker.ops,
            final(self)@.tracker.pending == old(self)@.tracker.pending,
            final(self)@.tracker.closest.dom() == old(self)@.tracker.closest.dom(),
            final(self)@.writes == old(self)@.writes,
            forall|a: XorName|
                old(self)@.tracker.closest.contains_key(a) ==> is_nearest(
                    a,
                    old(self)@.tracker.closest.dom(),
                    #[trigger] final(self)@.tracker.closest[a],
                ),
            neighbours_valid(old(self)@.tracker.closest) ==> final(self)@ == old(self)@,
    {
        self.tracker.recompute_closest_adults();
        proof {
            assert(self.writes == old(self).writes);
            assert(self@.writes == old(self)@.writes);
            assert forall|id: MessageId|
                self@.writes.contains_key(id) <==> self@.tracker.ops.contains_key(id)
                    && self@.tracker.ops[id] is Write by {
                assert(old(self)@.writes.contains_key(id) <==> old(self)@.tracker.ops.contains_key(
                    id,
                ) && old(self)@.tracker.ops[id] is Write);
            }
        }
    }

    /// The tracked adults that are behind their neighbours, each once and
    /// with the number of replies that it owes, in no particular order.
    pub fn find_unresponsive_adults(&self) -> (r: Vec<(XorName, usize)>)
        requires
            self.wf(),
        ensures
            forall|i: int|
                0 <= i < r.len() ==> behind(self@.tracker, (#[trigger] r[i]).0) && r[i].1
                    == pending_or_zero(self@.tracker.pending, r[i].0),
            forall|a: XorName|
                behind(self@.tracker, a) ==> exists|i: int| 0 <= i < r.len() && (#[trigger] r[i]).0 == a,
            forall|i: int, j: int| 0 <= i < j < r.len() ==> (#[trigger] r[i]).0 != (#[trigger] r[j]).0,
    {
        let adults = self.tracker.tracked_adults();
        let mut found: Vec<(XorName, usize)> = Vec::new();
        let ghost v = self@.tracker;
        let mut k: usize = 0;
        while k < adults.len()
            invariant
                0 <= k <= adults.len(),
                self.wf(),
                v == self@.tracker,
                adults@.no_duplicates(),
                adults@.to_set() == v.closest.dom(),
                forall|i: int|
                    0 <= i < found.len() ==> behind(v, (#[trigger] found[i]).0) && found[i].1
                        == pending_or_zero(v.pending, found[i].0) && exists|j: int|
                        0 <= j < k && adults[j] == found[i].0,
                forall|j: int|
                    0 <= j < k && behind(v, #[trigger] adults[j]) ==> exists|i: int|
                        0 <= i < found.len() && (#[trigger] found[i]).0 == adults[j],
                forall|i: int, j: int|
                    0 <= i < j < found.len() ==> (#[trigger] found[i]).0 != (#[trigger] found[j]).0,
            decreases adults.len() - k,
        {
            let adult = adults[k];
            let ghost before = found@;
            proof {
                assert(adults@.contains(adult));
                assert(v.closest.dom().contains(adult));
            }
            let flagged = match self.tracker.closest_adults_to(&adult) {
                Some(neighbours) => {
                    let most = self.tracker.max_pending_of(&neighbours);
                    let owed = self.tracker.pending_op_count(&adult);
                    if neighbours.len() > 0 && owed > most && owed - most
                        > MAX_PENDING_OP_DIFFERENCE {
                        Some(owed)
                    } else {
                        None
                    }
                },
                None => None,
            };
            proof {
                assert(flagged is Some <==> behind(v, adult));
            }
            if let Some(owed) = flagged {
                found.push((adult, owed));
                proof {
                    assert forall|i: int, j: int| 0 <= i < j < found.len() implies (#[trigger] found[i]).0
                        != (#[trigger] found[j]).0 by {
                        if j == before.len() {
                            let m = choose|m: int| 0 <= m < k && adults[m] == before[i].0;
                            assert(adults[m] != adults[k as int]);
                        }
                    }
                    assert forall|j: int| 0 <= j < k + 1 && behind(v, #[trigger] adults[j]) implies exists|
                        i: int,
                    | 0 <= i < found.len() && (#[trigger] found[i]).0 == adults[j] by {
                        if j < k {
                            let i = choose|i: int|
                                0 <= i < before.len() && (#[trigger] before[i]).0 == adults[j];
                            assert(found[i].0 == adults[j]);
                        } else {
                            assert(found[before.len() as int].0 == adult);
                        }
                    }
                    assert forall|i: int| 0 <= i < found.len() implies behind(
                        v,
                        (#[trigger] found[i]).0,
                    ) && found[i].1 == pending_or_zero(v.pending, found[i].0) && exists|j: int|
                        0 <= j < k + 1 && adults[j] == found[i].0 by {
                        if i < before.len() {
                            let j = choose|j: int| 0 <= j < k && adults[j] == before[i].0;
                            assert(adults[j] == found[i].0);
                        } else {
                            assert(adults[k as int] == found[i].0);
                        }
                    }
                }
            }
            k = k + 1;
        }
        proof {
            assert forall|a: XorName| behind(v, a) implies exists|i: int|
                0 <= i < found.len() && (#[trigger] found[i]).0 == a by {
                assert(adults@.to_set().contains(a));
                let j = choose|j: int| 0 <= j < adults.len() && adults[j] == a;
                assert(behind(v, adults[j]));
            }
        }
        found
    }
}

} // verus!

//! The liveness tracker as a mathematical state, and what holds of it.

use crate::data::BlobAddress;
use crate::messages::{EndUser, MessageId};
use crate::name::{closer, XorName};
use vstd::prelude::*;

verus! {

/// How many nearest neighbours an adult is compared with.
pub const NEIGHBOUR_COUNT: usize = 2;

/// An adult with no more pending operations than this is never flagged, and
/// neither is one whose neighbours all have no more than this.
pub const MIN_PENDING_OPS: usize = 10;

/// An adult is flagged only when it has more than this many times the
/// pending operations of its busiest neighbour.
pub const PENDING_OP_TOLERANCE_FACTOR: usize = 10;

/// An operation that waits for replies from adults.
#[allow(inconsistent_fields)]
pub enum OperationView {
    /// A read: the address, the client that asked, the adults still to reply.
    Read { address: BlobAddress, origin: EndUser, targets: Set<XorName> },
    /// A write: the address, the client that asked (none when the section
    /// itself began the write), the adults still to reply.
    Write { address: BlobAddress, origin: Option<EndUser>, targets: Set<XorName> },
}

impl OperationView {
    /// The adults that have not replied yet.
    pub open spec fn targets(self) -> Set<XorName> {
        match self {
            OperationView::Read { targets, .. } => targets,
            OperationView::Write { targets, .. } => targets,
        }
    }

    /// The same operation, waiting for `targets`.
    pub open spec fn with_targets(self, targets: Set<XorName>) -> OperationView {
        match self {
            OperationView::Read { address, origin, .. } => OperationView::Read {
                address,
                origin,
                targets,
            },
            OperationView::Write { address, origin, .. } => OperationView::Write {
                address,
                origin,
                targets,
            },
        }
    }
}

/// The state of the liveness tracker.
pub struct LivenessView {
    /// The operations under way, by message id.
    pub ops: Map<MessageId, OperationView>,
    /// For each tracked adult, how many replies it owes.
    pub pending: Map<XorName, nat>,
    /// For each tracked adult, its nearest tracked neighbours, nearest first.
    pub closest: Map<XorName, Seq<XorName>>,
}

/// The number of operations that wait for a reply from `name`.
pub open spec fn targeting(ops: Map<MessageId, OperationView>, name: XorName) -> nat {
    ops.dom().filter(|id: MessageId| ops[id].targets().contains(name)).len()
}

/// `neighbours` are the `NEIGHBOUR_COUNT` members of `adults` other than
/// `adult` that are nearest to `adult`, nearest first; all the others, where
/// there are fewer.
pub open spec fn is_nearest(adult: XorName, adults: Set<XorName>, neighbours: Seq<XorName>) -> bool {
    &&& neighbours.len() <= NEIGHBOUR_COUNT
    &&& forall|i: int|
        0 <= i < neighbours.len() ==> adults.contains(#[trigger] neighbours[i]) && neighbours[i]
            != adult
    &&& forall|i: int, j: int|
        0 <= i < j < neighbours.len() ==> #[trigger] closer(adult, neighbours[i], neighbours[j])
    &&& forall|x: XorName, i: int|
        adults.contains(x) && x != adult && !neighbours.contains(x) && 0 <= i < neighbours.len()
            ==> #[trigger] closer(adult, neighbours[i], x)
    &&& neighbours.len() < NEIGHBOUR_COUNT ==> forall|x: XorName|
        adults.contains(x) && x != adult ==> #[trigger] neighbours.contains(x)
}

/// Every tracked adult is listed with its nearest tracked neighbours.
pub open spec fn neighbours_valid(closest: Map<XorName, Seq<XorName>>) -> bool {
    forall|a: XorName|
        closest.contains_key(a) ==> is_nearest(a, closest.dom(), #[trigger] closest[a])
}

/// What holds of the operations, the replies owed and the tracked adults
/// between any two calls: the adults that owe replies are those that are
/// listed with neighbours, every adult that an operation waits for is among
/// them, and no adult owes more replies than there are operations that wait
/// for it.
pub open spec fn bookkeeping(v: LivenessView) -> bool {
    &&& v.ops.dom().finite()
    &&& v.pending.dom().finite()
    &&& v.pending.dom() == v.closest.dom()
    &&& forall|id: MessageId| v.ops.contains_key(id) ==> (#[trigger] v.ops[id]).targets().finite()
    &&& forall|id: MessageId, n: XorName|
        v.ops.contains_key(id) && (#[trigger] v.ops[id]).targets().contains(n)
            ==> #[trigger] v.pending.contains_key(n)
    &&& forall|n: XorName|
        v.pending.contains_key(n) ==> #[trigger] v.pending[n] <= targeting(v.ops, n)
}

/// What holds of the tracker's state between any two calls: the bookkeeping
/// fits, and every tracked adult is listed with its nearest neighbours.
pub open spec fn inv(v: LivenessView) -> bool {
    &&& bookkeeping(v)
    &&& neighbours_valid(v.closest)
}

/// Every tracked adult owes exactly as many replies as there are operations
/// that wait for it.
pub open spec fn accounted(v: LivenessView) -> bool {
    forall|n: XorName| v.pending.contains_key(n) ==> #[trigger] v.pending[n] == targeting(v.ops, n)
}

/// The replies that `name` owes; none if it is not tracked.
pub open spec fn pending_or_zero(pending: Map<XorName, nat>, name: XorName) -> nat {
    if pending.contains_key(name) {
        pending[name]
    } else {
        0
    }
}

/// The counts after one more operation waits for each of `targets`.
pub open spec fn pending_after_new(pending: Map<XorName, nat>, targets: Set<XorName>) -> Map<
    XorName,
    nat,
> {
    Map::new(
        |n: XorName| pending.contains_key(n) || targets.contains(n),
        |n: XorName|
            if targets.contains(n) {
                pending_or_zero(pending, n) + 1
            } else {
                pending_or_zero(pending, n)
            },
    )
}

/// The operations after `op` has been offered under `id`: it is taken up
/// unless an operation is under way under that id.
pub open spec fn ops_after_new(
    ops: Map<MessageId, OperationView>,
    id: MessageId,
    op: OperationView,
) -> Map<MessageId, OperationView> {
    if ops.contains_key(id) {
        ops
    } else {
        ops.insert(id, op)
    }
}

/// The counts after `name` has replied once: one less for `name`, but never
/// less than none.
pub open spec fn pending_after_reply(pending: Map<XorName, nat>, name: XorName) -> Map<
    XorName,
    nat,
> {
    if pending.contains_key(name) && pending[name] > 0 {
        pending.insert(name, (pending[name] - 1) as nat)
    } else {
        pending
    }
}

/// The operations after `name` has replied to `id`: the operation no longer
/// waits for `name`, and is gone when it waits for nobody.
pub open spec fn ops_after_reply(
    ops: Map<MessageId, OperationView>,
    id: MessageId,
    name: XorName,
) -> Map<MessageId, OperationView> {
    if !ops.contains_key(id) {
        ops
    } else if ops[id].targets().remove(name) == Set::<XorName>::empty() {
        ops.remove(id)
    } else {
        ops.insert(id, ops[id].with_targets(ops[id].targets().remove(name)))
    }
}

/// The operations after the adults in `gone` have left, where at least one
/// has: no operation waits for them any longer, and those that wait for
/// nobody are gone.
pub open spec fn ops_without(ops: Map<MessageId, OperationView>, gone: Set<XorName>) -> Map<
    MessageId,
    OperationView,
> {
    Map::new(
        |id: MessageId|
            ops.contains_key(id) && ops[id].targets().difference(gone) != Set::<XorName>::empty(),
        |id: MessageId| ops[id].with_targets(ops[id].targets().difference(gone)),
    )
}

/// The operations after the adults in `gone` have left.
pub open spec fn ops_after_leaving(ops: Map<MessageId, OperationView>, gone: Set<XorName>) -> Map<
    MessageId,
    OperationView,
> {
    if gone == Set::<XorName>::empty() {
        ops
    } else {
        ops_without(ops, gone)
    }
}

/// The most replies that any of `neighbours` owes; none where there is no
/// neighbour.
pub open spec fn max_pending(pending: Map<XorName, nat>, neighbours: Seq<XorName>) -> nat
    decreases neighbours.len(),
{
    if neighbours.len() == 0 {
        0
    } else {
        let rest = max_pending(pending, neighbours.drop_last());
        let last = pending_or_zero(pending, neighbours.last());
        if last > rest {
            last
        } else {
            rest
        }
    }
}

/// An adult that owes `own` replies lags behind neighbours of which the
/// busiest owes `neighbours`: both counts are above the floor, and a tenth of
/// the adult's count is more than the neighbours' count.
pub open spec fn lagging(own: nat, neighbours: nat) -> bool {
    &&& own > MIN_PENDING_OPS
    &&& neighbours > MIN_PENDING_OPS
    &&& own > PENDING_OP_TOLERANCE_FACTOR * neighbours
}

/// Whether the tracker reports `adult` as unresponsive.
pub open spec fn unresponsive(v: LivenessView, adult: XorName) -> bool {
    &&& v.closest.contains_key(adult)
    &&& lagging(pending_or_zero(v.pending, adult), max_pending(v.pending, v.closest[adult]))
}

/// No more operations wait for an adult than there are operations.
pub proof fn lemma_targeting_bound(ops: Map<MessageId, OperationView>, name: XorName)
    requires
        ops.dom().finite(),
    ensures
        targeting(ops, name) <= ops.dom().len(),
{
    ops.dom().lemma_len_filter(|id: MessageId| ops[id].targets().contains(name));
}

/// A new operation counts once for each adult that it waits for.
pub proof fn lemma_targeting_insert(
    ops: Map<MessageId, OperationView>,
    id: MessageId,
    op: OperationView,
    name: XorName,
)
    requires
        ops.dom().finite(),
        !ops.contains_key(id),
    ensures
        targeting(ops.insert(id, op), name) == targeting(ops, name) + (if op.targets().contains(
            name,
        ) {
            1nat
        } else {
            0nat
        }),
{
    let after = ops.insert(id, op);
    let f = |i: MessageId| ops[i].targets().contains(name);
    let g = |i: MessageId| after[i].targets().contains(name);
    ops.dom().lemma_len_filter(f);
    if op.targets().contains(name) {
        assert(after.dom().filter(g) =~= ops.dom().filter(f).insert(id));
    } else {
        assert(after.dom().filter(g) =~= ops.dom().filter(f));
    }
}

/// An operation that is taken away no longer counts for the adults that it
/// waited for.
pub proof fn lemma_targeting_remove(
    ops: Map<MessageId, OperationView>,
    id: MessageId,
    name: XorName,
)
    requires
        ops.dom().finite(),
        ops.contains_key(id),
    ensures
        targeting(ops, name) == targeting(ops.remove(id), name) + (if ops[id].targets().contains(
            name,
        ) {
            1nat
        } else {
            0nat
        }),
{
    let before = ops.remove(id);
    assert(before.insert(id, ops[id]) =~= ops);
    lemma_targeting_insert(before, id, ops[id], name);
}

/// Two sets of operations in which the same operations wait for `name` count
/// the same for it.
pub proof fn lemma_targeting_same(
    a: Map<MessageId, OperationView>,
    b: Map<MessageId, OperationView>,
    name: XorName,
)
    requires
        forall|id: MessageId|
            (a.contains_key(id) && a[id].targets().contains(name)) <==> (b.contains_key(id)
                && b[id].targets().contains(name)),
    ensures
        targeting(a, name) == targeting(b, name),
{
    assert(a.dom().filter(|id: MessageId| a[id].targets().contains(name)) =~= b.dom().filter(
        |id: MessageId| b[id].targets().contains(name),
    ));
}

/// Whether the operation `id` waits for a reply from `name`.
pub open spec fn awaits(ops: Map<MessageId, OperationView>, id: MessageId, name: XorName) -> bool {
    ops.contains_key(id) && ops[id].targets().contains(name)
}

/// A reply of `name` to `id` takes one from the operations that wait for
/// `name`, if `id` waited for it, and leaves the count of every other adult
/// as it was.
pub proof fn lemma_targeting_after_reply(
    ops: Map<MessageId, OperationView>,
    id: MessageId,
    name: XorName,
    n: XorName,
)
    requires
        ops.dom().finite(),
    ensures
        ops_after_reply(ops, id, name).dom().finite(),
        n != name ==> targeting(ops_after_reply(ops, id, name), n) == targeting(ops, n),
        targeting(ops, name) == targeting(ops_after_reply(ops, id, name), name) + (if awaits(
            ops,
            id,
            name,
        ) {
            1nat
        } else {
            0nat
        }),
{
    if ops.contains_key(id) {
        let rest = ops[id].targets().remove(name);
        lemma_targeting_remove(ops, id, n);
        lemma_targeting_remove(ops, id, name);
        if rest == Set::<XorName>::empty() {
            if n != name && ops[id].targets().contains(n) {
                assert(rest.contains(n));
            }
        } else {
            let op = ops[id].with_targets(rest);
            assert(ops.insert(id, op) =~= ops.remove(id).insert(id, op));
            lemma_targeting_insert(ops.remove(id), id, op, n);
            lemma_targeting_insert(ops.remove(id), id, op, name);
        }
    }
}

/// The read or write that is under way under `id`, if it is a write: its
/// address and the client that asked for it.
pub open spec fn write_under(ops: Map<MessageId, OperationView>, id: MessageId) -> Option<
    (BlobAddress, Option<EndUser>),
> {
    if ops.contains_key(id) {
        match ops[id] {
            OperationView::Write { address, origin, .. } => Some((address, origin)),
            OperationView::Read { .. } => None,
        }
    } else {
        None
    }
}

/// The operation that is under way under `id`, if it is a read: its address
/// and the client that asked for it.
pub open spec fn read_under(ops: Map<MessageId, OperationView>, id: MessageId) -> Option<
    (BlobAddress, EndUser),
> {
    if ops.contains_key(id) {
        match ops[id] {
            OperationView::Read { address, origin, .. } => Some((address, origin)),
            OperationView::Write { .. } => None,
        }
    } else {
        None
    }
}

/// When one more adult leaves after others have, the operations are those
/// that are left when all of them leave at once.
pub proof fn lemma_leaving_one_more(
    ops: Map<MessageId, OperationView>,
    gone: Set<XorName>,
    name: XorName,
)
    ensures
        ops_without(ops_after_leaving(ops, gone), set![name]) == ops_after_leaving(
            ops,
            gone.insert(name),
        ),
{
    let both = gone.insert(name);
    assert(both.contains(name));
    assert(both != Set::<XorName>::empty());
    let left = ops_without(ops_after_leaving(ops, gone), set![name]);
    let right = ops_without(ops, both);
    if gone == Set::<XorName>::empty() {
        assert(both =~= set![name]);
    } else {
        assert forall|id: MessageId| ops.contains_key(id) implies ops[id].targets().difference(
            gone,
        ).difference(set![name]) == #[trigger] ops[id].targets().difference(both) by {
            assert(ops[id].targets().difference(gone).difference(set![name])
                =~= ops[id].targets().difference(both));
        }
        assert forall|id: MessageId| left.contains_key(id) == right.contains_key(id) by {
            if ops.contains_key(id) {
                let t = ops[id].targets();
                if t.difference(both) != Set::<XorName>::empty() {
                    if t.difference(gone) == Set::<XorName>::empty() {
                        assert(t.difference(both) =~= Set::<XorName>::empty());
                    }
                }
            }
        }
        assert(left =~= right);
    }
}

/// After adults have left, exactly the operations that waited for an adult
/// that stays still wait for it.
pub proof fn lemma_targeting_after_leaving(
    ops: Map<MessageId, OperationView>,
    gone: Set<XorName>,
    n: XorName,
)
    requires
        ops.dom().finite(),
        !gone.contains(n),
    ensures
        ops_after_leaving(ops, gone).dom().finite(),
        targeting(ops_after_leaving(ops, gone), n) == targeting(ops, n),
{
    let after = ops_after_leaving(ops, gone);
    assert(after.dom().subset_of(ops.dom()));
    vstd::set_lib::lemma_set_subset_finite(ops.dom(), after.dom());
    assert forall|id: MessageId|
        (after.contains_key(id) && after[id].targets().contains(n)) <==> (ops.contains_key(id)
            && ops[id].targets().contains(n)) by {
        if ops.contains_key(id) && ops[id].targets().contains(n) {
            assert(ops[id].targets().difference(gone).contains(n));
        }
    }
    lemma_targeting_same(after, ops, n);
}

} // verus!

//! Laws of the liveness tracker.

use crate::messages::MessageId;
use crate::metadata::liveness_model::{
    is_nearest, lagging, max_pending, neighbours_valid, ops_after_new, ops_after_reply,
    pending_after_reply, pending_or_zero, unresponsive, LivenessView, OperationView,
    MIN_PENDING_OPS,
};
use crate::name::{closer, lemma_closer_total, XorName};
use vstd::prelude::*;

verus! {

/// While an operation is under way under an id, no other is taken up under
/// that id: taking one up leaves the operations as they are. And once an
/// operation has been offered under an id, one is under way under it, so
/// that a second offer is not taken up and changes nothing.
pub proof fn law_message_id_taken_up_once(
    ops: Map<MessageId, OperationView>,
    id: MessageId,
    first: OperationView,
    second: OperationView,
)
    ensures
        ops.contains_key(id) ==> ops_after_new(ops, id, first) == ops,
        ops_after_new(ops, id, first).contains_key(id),
        ops_after_new(ops_after_new(ops, id, first), id, second) == ops_after_new(ops, id, first),
{
}

/// The operations after each of `names` in turn has replied to `id`.
pub open spec fn ops_after_replies(
    ops: Map<MessageId, OperationView>,
    id: MessageId,
    names: Seq<XorName>,
) -> Map<MessageId, OperationView>
    decreases names.len(),
{
    if names.len() == 0 {
        ops
    } else {
        ops_after_reply(ops_after_replies(ops, id, names.drop_last()), id, names.last())
    }
}

/// Replies to one operation leave the others as they are; and while the
/// operation is under way, it waits for those of its first targets that have
/// not replied, of which there is at least one.
proof fn lemma_replies(ops: Map<MessageId, OperationView>, id: MessageId, names: Seq<XorName>)
    requires
        ops.contains_key(id),
    ensures
        ({
            let after = ops_after_replies(ops, id, names);
            after.contains_key(id) ==> {
                &&& after[id].targets() == ops[id].targets().difference(names.to_set())
                &&& names.len() > 0 ==> after[id].targets() != Set::<XorName>::empty()
            }
        }),
    decreases names.len(),
{
    let after = ops_after_replies(ops, id, names);
    if names.len() == 0 {
        assert(ops[id].targets().difference(names.to_set()) =~= ops[id].targets());
    } else {
        let before = ops_after_replies(ops, id, names.drop_last());
        lemma_replies(ops, id, names.drop_last());
        if after.contains_key(id) {
            assert(before.contains_key(id));
            let rest = before[id].targets().remove(names.last());
            assert(after[id].targets() == rest);
            assert forall|x: XorName| names.to_set().contains(x) == (names.drop_last().to_set().contains(
                x,
            ) || x == names.last()) by {
                let p = names.drop_last();
                if names.contains(x) {
                    let k = choose|k: int| 0 <= k < names.len() && names[k] == x;
                    if k < p.len() {
                        assert(p[k] == x);
                    }
                }
                if p.contains(x) {
                    let k = choose|k: int| 0 <= k < p.len() && p[k] == x;
                    assert(names[k] == x);
                }
                if x == names.last() {
                    assert(names[names.len() - 1] == x);
                }
            }
            assert(rest =~= ops[id].targets().difference(names.to_set()));
        }
    }
}

/// An operation that waits for at least one adult is complete, and no longer
/// under way, once each of the adults that it waited for has replied to it.
pub proof fn law_operation_completes(
    ops: Map<MessageId, OperationView>,
    id: MessageId,
    names: Seq<XorName>,
)
    requires
        ops.contains_key(id),
        ops[id].targets() != Set::<XorName>::empty(),
        forall|t: XorName| ops[id].targets().contains(t) ==> names.contains(t),
    ensures
        !ops_after_replies(ops, id, names).contains_key(id),
{
    lemma_replies(ops, id, names);
    let after = ops_after_replies(ops, id, names);
    if after.contains_key(id) {
        assert(ops[id].targets().difference(names.to_set()) =~= Set::<XorName>::empty());
        if names.len() == 0 {
            assert(ops[id].targets() =~= Set::<XorName>::empty());
        }
    }
}

/// The order in which two adults reply does not matter: whichever of them
/// replies first, to whichever operations, the operations and the replies
/// owed are the same in the end.
pub proof fn law_replies_commute(
    ops: Map<MessageId, OperationView>,
    pending: Map<XorName, nat>,
    first_id: MessageId,
    first: XorName,
    second_id: MessageId,
    second: XorName,
)
    requires
        first != second,
    ensures
        ops_after_reply(ops_after_reply(ops, first_id, first), second_id, second)
            == ops_after_reply(ops_after_reply(ops, second_id, second), first_id, first),
        pending_after_reply(pending_after_reply(pending, first), second) == pending_after_reply(
            pending_after_reply(pending, second),
            first,
        ),
{
    let one = ops_after_reply(ops_after_reply(ops, first_id, first), second_id, second);
    let other = ops_after_reply(ops_after_reply(ops, second_id, second), first_id, first);
    if first_id == second_id {
        if ops.contains_key(first_id) {
            let t = ops[first_id].targets();
            assert(t.remove(first).remove(second) =~= t.remove(second).remove(first));
            if t.remove(first) == Set::<XorName>::empty() {
                assert(!t.remove(second).remove(first).contains(second));
                assert(t.remove(second).remove(first) =~= Set::<XorName>::empty()) by {
                    assert forall|x: XorName| !t.remove(second).remove(first).contains(x) by {
                        if t.remove(second).remove(first).contains(x) {
                            assert(t.remove(first).contains(x));
                        }
                    }
                }
            }
            if t.remove(second) == Set::<XorName>::empty() {
                assert(t.remove(first).remove(second) =~= Set::<XorName>::empty()) by {
                    assert forall|x: XorName| !t.remove(first).remove(second).contains(x) by {
                        if t.remove(first).remove(second).contains(x) {
                            assert(t.remove(second).contains(x));
                        }
                    }
                }
            }
        }
        assert(one =~= other);
    } else {
        assert(one =~= other);
    }
    assert(pending_after_reply(pending_after_reply(pending, first), second)
        =~= pending_after_reply(pending_after_reply(pending, second), first));
}

/// Two lists of nearest neighbours of one adult among the same adults agree
/// up to any position that both have.
proof fn lemma_nearest_prefix(
    adult: XorName,
    adults: Set<XorName>,
    s: Seq<XorName>,
    t: Seq<XorName>,
    i: int,
)
    requires
        is_nearest(adult, adults, s),
        is_nearest(adult, adults, t),
        0 <= i <= s.len(),
        i <= t.len(),
    ensures
        forall|k: int| 0 <= k < i ==> s[k] == t[k],
    decreases i,
{
    if i > 0 {
        lemma_nearest_prefix(adult, adults, s, t, i - 1);
        let x = s[i - 1];
        let y = t[i - 1];
        if x != y {
            lemma_closer_total(adult, x, y);
            if closer(adult, x, y) {
                lemma_not_listed(adult, adults, t, s, i - 1);
                assert(closer(adult, t[i - 1], x));
            } else {
                lemma_not_listed(adult, adults, s, t, i - 1);
                assert(closer(adult, s[i - 1], y));
            }
        }
    }
}

/// Where two lists of nearest neighbours agree before a position, and the
/// second holds there a name that is nearer than what the first holds
/// there, the first does not hold that name at all.
proof fn lemma_not_listed(
    adult: XorName,
    adults: Set<XorName>,
    s: Seq<XorName>,
    t: Seq<XorName>,
    i: int,
)
    requires
        is_nearest(adult, adults, s),
        is_nearest(adult, adults, t),
        0 <= i < s.len(),
        i < t.len(),
        forall|k: int| 0 <= k < i ==> s[k] == t[k],
        closer(adult, t[i], s[i]),
    ensures
        !s.contains(t[i]),
{
    if s.contains(t[i]) {
        let j = choose|j: int| 0 <= j < s.len() && s[j] == t[i];
        if j < i {
            assert(closer(adult, t[j], t[i]));
        } else if j > i {
            assert(closer(adult, s[i], s[j]));
        }
    }
}

/// An adult has one list of nearest neighbours among given adults, and no
/// other.
pub proof fn law_nearest_unique(
    adult: XorName,
    adults: Set<XorName>,
    s: Seq<XorName>,
    t: Seq<XorName>,
)
    requires
        is_nearest(adult, adults, s),
        is_nearest(adult, adults, t),
    ensures
        s == t,
{
    if s.len() <= t.len() {
        lemma_nearest_prefix(adult, adults, s, t, s.len() as int);
        if s.len() < t.len() {
            let y = t[s.len() as int];
            assert(s.contains(y));
            let j = choose|j: int| 0 <= j < s.len() && s[j] == y;
            assert(closer(adult, t[j], t[s.len() as int]));
        }
    } else {
        lemma_nearest_prefix(adult, adults, s, t, t.len() as int);
        let y = s[t.len() as int];
        assert(t.contains(y));
        let j = choose|j: int| 0 <= j < t.len() && t[j] == y;
        assert(closer(adult, s[j], s[t.len() as int]));
    }
    assert(s =~= t);
}

/// Two listings of the same adults, each with every adult's nearest
/// neighbours, are the same listing.
pub proof fn law_neighbours_determined(
    a: Map<XorName, Seq<XorName>>,
    b: Map<XorName, Seq<XorName>>,
)
    requires
        a.dom() == b.dom(),
        neighbours_valid(a),
        neighbours_valid(b),
    ensures
        a == b,
{
    assert forall|n: XorName| a.contains_key(n) implies a[n] == b[n] by {
        assert(b.contains_key(n));
        law_nearest_unique(n, a.dom(), a[n], b[n]);
    }
    assert(a =~= b);
}

/// Where no neighbour owes fewer replies in `high` than in `low`, the busiest
/// neighbour owes no fewer either.
pub proof fn lemma_max_pending_monotone(
    low: Map<XorName, nat>,
    high: Map<XorName, nat>,
    neighbours: Seq<XorName>,
)
    requires
        forall|i: int|
            0 <= i < neighbours.len() ==> pending_or_zero(low, #[trigger] neighbours[i])
                <= pending_or_zero(high, neighbours[i]),
    ensures
        max_pending(low, neighbours) <= max_pending(high, neighbours),
    decreases neighbours.len(),
{
    if neighbours.len() > 0 {
        let rest = neighbours.drop_last();
        assert forall|i: int| 0 <= i < rest.len() implies pending_or_zero(low, #[trigger] rest[i])
            <= pending_or_zero(high, rest[i]) by {
            assert(rest[i] == neighbours[i]);
        }
        lemma_max_pending_monotone(low, high, rest);
        assert(neighbours.last() == neighbours[neighbours.len() - 1]);
    }
}

/// More replies owed by an adult itself can only get it flagged, and fewer
/// can only get it off the report: where every other adult owes in `more`
/// what it owes in `fewer`, and the adult owes no less, it is flagged in
/// `more` if it is in `fewer`.
pub proof fn law_own_load(fewer: LivenessView, more: LivenessView, adult: XorName)
    requires
        neighbours_valid(fewer.closest),
        more.closest == fewer.closest,
        pending_or_zero(fewer.pending, adult) <= pending_or_zero(more.pending, adult),
        forall|n: XorName|
            n != adult ==> pending_or_zero(more.pending, n) == pending_or_zero(fewer.pending, n),
    ensures
        unresponsive(fewer, adult) ==> unresponsive(more, adult),
{
    if fewer.closest.contains_key(adult) {
        let neighbours = fewer.closest[adult];
        assert(is_nearest(adult, fewer.closest.dom(), neighbours));
        lemma_max_pending_monotone(fewer.pending, more.pending, neighbours);
        lemma_max_pending_monotone(more.pending, fewer.pending, neighbours);
    }
}

/// More replies owed by an adult's neighbours can only get it off the
/// report, where the busiest of them owed more than `MIN_PENDING_OPS`
/// before: where the adult owes in `more` what it owes in `fewer`, and no
/// adult owes less, it is flagged in `fewer` if it is in `more`.
pub proof fn law_neighbour_load(fewer: LivenessView, more: LivenessView, adult: XorName)
    requires
        more.closest == fewer.closest,
        pending_or_zero(more.pending, adult) == pending_or_zero(fewer.pending, adult),
        forall|n: XorName| pending_or_zero(fewer.pending, n) <= pending_or_zero(more.pending, n),
        fewer.closest.contains_key(adult) ==> max_pending(fewer.pending, fewer.closest[adult])
            > MIN_PENDING_OPS,
    ensures
        unresponsive(more, adult) ==> unresponsive(fewer, adult),
{
    if fewer.closest.contains_key(adult) {
        lemma_max_pending_monotone(fewer.pending, more.pending, fewer.closest[adult]);
    }
}

/// Whether an adult lags grows with what it owes and, above the floor,
/// falls with what its busiest neighbour owes.
pub proof fn law_lagging_monotone(own: nat, more: nat, neighbours: nat, busier: nat)
    requires
        own <= more,
        neighbours <= busier,
    ensures
        lagging(own, neighbours) ==> lagging(more, neighbours),
        lagging(own, busier) && neighbours > MIN_PENDING_OPS ==> lagging(own, neighbours),
{
}

} // verus!

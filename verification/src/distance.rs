//! The XOR metric on byte strings, as natural numbers.

use vstd::prelude::*;

verus! {

/// The number that a byte string denotes, most significant byte first.
pub open spec fn be_value(s: Seq<u8>) -> int
    decreases s.len(),
{
    if s.len() == 0 {
        0
    } else {
        be_value(s.drop_last()) * 256 + s.last()
    }
}

/// The bytewise XOR of two byte strings, as long as the first.
pub open spec fn xor_bytes(a: Seq<u8>, b: Seq<u8>) -> Seq<u8> {
    Seq::new(a.len(), |i: int| a[i] ^ b[i])
}

/// The XOR distance between two byte strings of equal length.
pub open spec fn xor_distance(a: Seq<u8>, b: Seq<u8>) -> int {
    be_value(xor_bytes(a, b))
}

/// The value of a byte string is never negative.
pub proof fn lemma_be_value_nonnegative(s: Seq<u8>)
    ensures
        be_value(s) >= 0,
    decreases s.len(),
{
    if s.len() > 0 {
        lemma_be_value_nonnegative(s.drop_last());
    }
}

/// Byte strings of one length that denote the same number are equal.
pub proof fn lemma_be_value_injective(s: Seq<u8>, t: Seq<u8>)
    requires
        s.len() == t.len(),
        be_value(s) == be_value(t),
    ensures
        s == t,
    decreases s.len(),
{
    if s.len() > 0 {
        let a = be_value(s.drop_last());
        let b = be_value(t.drop_last());
        lemma_be_value_nonnegative(s.drop_last());
        lemma_be_value_nonnegative(t.drop_last());
        assert(a * 256 + s.last() == b * 256 + t.last());
        assert(a == b && s.last() == t.last());
        lemma_be_value_injective(s.drop_last(), t.drop_last());
        assert(s =~= s.drop_last().push(s.last()));
        assert(t =~= t.drop_last().push(t.last()));
    } else {
        assert(s =~= t);
    }
}

/// Two byte strings at the same distance from a third, all of one length, are
/// equal.
pub proof fn lemma_xor_distance_injective(from: Seq<u8>, x: Seq<u8>, y: Seq<u8>)
    requires
        from.len() == x.len(),
        from.len() == y.len(),
        xor_distance(from, x) == xor_distance(from, y),
    ensures
        x == y,
{
    let dx = xor_bytes(from, x);
    let dy = xor_bytes(from, y);
    lemma_be_value_injective(dx, dy);
    assert forall|i: int| 0 <= i < x.len() implies x[i] == y[i] by {
        let f = from[i];
        let a = x[i];
        let b = y[i];
        assert(dx[i] == f ^ a);
        assert(dy[i] == f ^ b);
        assert(f ^ a == f ^ b ==> a == b) by (bit_vector);
    }
    assert(x =~= y);
}

} // verus!

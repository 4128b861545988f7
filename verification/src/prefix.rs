//! Section prefixes.

use crate::name::XorName;
use vstd::prelude::*;

verus! {

/// A section prefix: the names that start with the first `bit_count` bits of
/// `name`.
#[derive(Clone, Copy, Debug, PartialEq, Eq)]
pub struct Prefix {
    /// How many leading bits of `name` count. A name has 256 bits, and a
    /// greater number counts as 256.
    pub bit_count: usize,
    /// The name whose leading bits make the prefix.
    pub name: XorName,
}

/// Bit `i` of a name, where bit 0 is the most significant bit of the first
/// byte.
pub open spec fn name_bit(name: XorName, i: int) -> bool {
    byte_bit(name.0[i / 8], (7 - i % 8) as u8)
}

/// The bit of `byte` that is worth two to the power `shift`.
pub open spec fn byte_bit(byte: u8, shift: u8) -> bool {
    (byte >> shift) & 1u8 == 1u8
}

proof fn lemma_differing_bit(a: u8, b: u8) -> (shift: u8)
    requires
        a != b,
    ensures
        shift < 8,
        byte_bit(a, shift) != byte_bit(b, shift),
{
    assert(a != b ==> (((a >> 0u8) & 1u8 == 1u8) != ((b >> 0u8) & 1u8 == 1u8)) || (((a >> 1u8) & 1u8
        == 1u8) != ((b >> 1u8) & 1u8 == 1u8)) || (((a >> 2u8) & 1u8 == 1u8) != ((b >> 2u8) & 1u8
        == 1u8)) || (((a >> 3u8) & 1u8 == 1u8) != ((b >> 3u8) & 1u8 == 1u8)) || (((a >> 4u8) & 1u8
        == 1u8) != ((b >> 4u8) & 1u8 == 1u8)) || (((a >> 5u8) & 1u8 == 1u8) != ((b >> 5u8) & 1u8
        == 1u8)) || (((a >> 6u8) & 1u8 == 1u8) != ((b >> 6u8) & 1u8 == 1u8)) || (((a >> 7u8) & 1u8
        == 1u8) != ((b >> 7u8) & 1u8 == 1u8))) by (bit_vector);
    if byte_bit(a, 0) != byte_bit(b, 0) {
        0
    } else if byte_bit(a, 1) != byte_bit(b, 1) {
        1
    } else if byte_bit(a, 2) != byte_bit(b, 2) {
        2
    } else if byte_bit(a, 3) != byte_bit(b, 3) {
        3
    } else if byte_bit(a, 4) != byte_bit(b, 4) {
        4
    } else if byte_bit(a, 5) != byte_bit(b, 5) {
        5
    } else if byte_bit(a, 6) != byte_bit(b, 6) {
        6
    } else {
        7
    }
}

proof fn lemma_masked_bits(a: u8, b: u8, keep: u8, shift: u8)
    requires
        1 <= keep <= 7,
        8 - keep <= shift <= 7,
        (a ^ b) & (0xffu8 << ((8 - keep) as u8)) == 0,
    ensures
        byte_bit(a, shift) == byte_bit(b, shift),
{
    let low: u8 = (8 - keep) as u8;
    assert(low <= shift && shift <= 7 && (a ^ b) & (0xffu8 << low) == 0 ==> ((a >> shift) & 1u8
        == 1u8) == ((b >> shift) & 1u8 == 1u8)) by (bit_vector);
}

proof fn lemma_masked_difference(a: u8, b: u8, keep: u8) -> (shift: u8)
    requires
        1 <= keep <= 7,
        (a ^ b) & (0xffu8 << ((8 - keep) as u8)) != 0,
    ensures
        8 - keep <= shift <= 7,
        byte_bit(a, shift) != byte_bit(b, shift),
{
    let low: u8 = (8 - keep) as u8;
    assert(1 <= low && low <= 7 && (a ^ b) & (0xffu8 << low) != 0 ==> (low <= 1 && ((a >> 1u8) & 1u8
        == 1u8) != ((b >> 1u8) & 1u8 == 1u8)) || (low <= 2 && ((a >> 2u8) & 1u8 == 1u8) != ((b
        >> 2u8) & 1u8 == 1u8)) || (low <= 3 && ((a >> 3u8) & 1u8 == 1u8) != ((b >> 3u8) & 1u8
        == 1u8)) || (low <= 4 && ((a >> 4u8) & 1u8 == 1u8) != ((b >> 4u8) & 1u8 == 1u8)) || (low
        <= 5 && ((a >> 5u8) & 1u8 == 1u8) != ((b >> 5u8) & 1u8 == 1u8)) || (low <= 6 && ((a
        >> 6u8) & 1u8 == 1u8) != ((b >> 6u8) & 1u8 == 1u8)) || (((a >> 7u8) & 1u8 == 1u8) != ((b
        >> 7u8) & 1u8 == 1u8))) by (bit_vector);
    if low <= 1 && byte_bit(a, 1) != byte_bit(b, 1) {
        1
    } else if low <= 2 && byte_bit(a, 2) != byte_bit(b, 2) {
        2
    } else if low <= 3 && byte_bit(a, 3) != byte_bit(b, 3) {
        3
    } else if low <= 4 && byte_bit(a, 4) != byte_bit(b, 4) {
        4
    } else if low <= 5 && byte_bit(a, 5) != byte_bit(b, 5) {
        5
    } else if low <= 6 && byte_bit(a, 6) != byte_bit(b, 6) {
        6
    } else {
        7
    }
}

impl Prefix {
    /// How many leading bits count: `bit_count`, but no more than a name has.
    pub open spec fn length(&self) -> int {
        if self.bit_count < 256 {
            self.bit_count as int
        } else {
            256
        }
    }

    /// Whether `name` starts with the bits of the prefix.
    pub open spec fn spec_matches(&self, name: XorName) -> bool {
        forall|i: int| 0 <= i < self.length() ==> name_bit(self.name, i) == name_bit(name, i)
    }

    /// Whether `name` starts with the bits of the prefix.
    pub fn matches(&self, name: &XorName) -> (r: bool)
        ensures
            r == self.spec_matches(*name),
    {
        let count: usize = if self.bit_count < 256 {
            self.bit_count
        } else {
            256
        };
        let full: usize = count / 8;
        let keep: usize = count % 8;
        let mut j: usize = 0;
        while j < full
            invariant
                0 <= j <= full,
                full <= 32,
                full == count / 8,
                count == self.length(),
                forall|k: int| 0 <= k < j ==> self.name.0[k] == name.0[k],
            decreases full - j,
        {
            if self.name.0[j] != name.0[j] {
                proof {
                    let shift = lemma_differing_bit(self.name.0[j as int], name.0[j as int]);
                    let i: int = 8 * j + (7 - shift);
                    assert(i / 8 == j && i % 8 == 7 - shift);
                    assert(0 <= i < self.length());
                    assert(name_bit(self.name, i) != name_bit(*name, i));
                }
                return false;
            }
            j = j + 1;
        }
        if keep > 0 {
            let mask: u8 = 0xffu8 << (8 - keep);
            let a = self.name.0[full];
            let b = name.0[full];
            if (a ^ b) & mask != 0 {
                proof {
                    let shift = lemma_masked_difference(a, b, keep as u8);
                    let i: int = 8 * full + (7 - shift);
                    assert(i / 8 == full && i % 8 == 7 - shift);
                    assert(0 <= i < self.length());
                    assert(name_bit(self.name, i) != name_bit(*name, i));
                }
                return false;
            }
            proof {
                assert forall|i: int| 0 <= i < self.length() implies name_bit(self.name, i)
                    == name_bit(*name, i) by {
                    if i / 8 == full {
                        lemma_masked_bits(a, b, keep as u8, (7 - i % 8) as u8);
                    }
                }
            }
        }
        true
    }
}

} // verus!

//! A store of blobs with a limit on the space they take.

use crate::data::{Blob, BlobAddress, BlobView};
use crate::error::Error;
use vstd::prelude::*;

verus! {

/// Whether one of `stored` has the address `address`.
pub open spec fn holds(stored: Seq<BlobView>, address: BlobAddress) -> bool {
    exists|i: int| 0 <= i < stored.len() && (#[trigger] stored[i]).address == address
}

/// A position in `stored` of a blob with the address `address`.
pub open spec fn position_of(stored: Seq<BlobView>, address: BlobAddress) -> int {
    choose|i: int| 0 <= i < stored.len() && (#[trigger] stored[i]).address == address
}

/// The blob among `stored` that has the address `address`.
pub open spec fn blob_at(stored: Seq<BlobView>, address: BlobAddress) -> BlobView {
    stored[position_of(stored, address)]
}

/// The blobs of `stored` but the one at `address`.
pub open spec fn without(stored: Seq<BlobView>, address: BlobAddress) -> Seq<BlobView> {
    if holds(stored, address) {
        stored.remove(position_of(stored, address))
    } else {
        stored
    }
}

/// The number of bytes in the contents of `stored`.
pub open spec fn total_size(stored: Seq<BlobView>) -> nat
    decreases stored.len(),
{
    if stored.len() == 0 {
        0
    } else {
        total_size(stored.drop_last()) + stored.last().value.len()
    }
}

/// No two of `stored` have the same address.
pub open spec fn distinct_addresses(stored: Seq<BlobView>) -> bool {
    forall|i: int, j: int|
        0 <= i < j < stored.len() ==> (#[trigger] stored[i]).address != (#[trigger] stored[j]).address
}

/// Taking a blob out takes the size of its contents from the total.
pub proof fn lemma_total_size_remove(stored: Seq<BlobView>, i: int)
    requires
        0 <= i < stored.len(),
    ensures
        total_size(stored) == total_size(stored.remove(i)) + stored[i].value.len(),
    decreases stored.len(),
{
    if i == stored.len() - 1 {
        assert(stored.remove(i) =~= stored.drop_last());
    } else {
        lemma_total_size_remove(stored.drop_last(), i);
        assert(stored.remove(i).drop_last() =~= stored.drop_last().remove(i));
        assert(stored.remove(i).last() == stored.last());
    }
}

/// A blob that is put where no blob had its address is there afterwards, as
/// it was put; and a blob that is taken out is there no longer.
pub proof fn law_round_trip(stored: Seq<BlobView>, blob: BlobView)
    requires
        distinct_addresses(stored),
    ensures
        !holds(stored, blob.address) ==> holds(stored.push(blob), blob.address) && blob_at(
            stored.push(blob),
            blob.address,
        ) == blob,
        !holds(without(stored, blob.address), blob.address),
        distinct_addresses(without(stored, blob.address)),
{
    if !holds(stored, blob.address) {
        let after = stored.push(blob);
        assert(after[stored.len() as int].address == blob.address);
        let i = position_of(after, blob.address);
        if i < stored.len() {
            assert(stored[i].address == blob.address);
        }
    }
    lemma_without(stored, blob.address);
}

/// What is left when the blob at an address is taken out.
pub proof fn lemma_without(stored: Seq<BlobView>, address: BlobAddress)
    requires
        distinct_addresses(stored),
    ensures
        !holds(without(stored, address), address),
        distinct_addresses(without(stored, address)),
        forall|other: BlobAddress|
            other != address ==> holds(without(stored, address), other) == holds(stored, other),
        forall|other: BlobAddress|
            other != address && holds(stored, other) ==> blob_at(without(stored, address), other)
                == blob_at(stored, other),
{
    let rest = without(stored, address);
    if holds(stored, address) {
        let p = position_of(stored, address);
        assert forall|i: int| 0 <= i < rest.len() implies (#[trigger] rest[i]) == stored[if i < p {
            i
        } else {
            i + 1
        }] by {}
        if holds(rest, address) {
            let i = position_of(rest, address);
            let i0 = if i < p {
                i
            } else {
                i + 1
            };
            assert(stored[i0].address == stored[p].address);
        }
        assert forall|i: int, j: int| 0 <= i < j < rest.len() implies (#[trigger] rest[i]).address
            != (#[trigger] rest[j]).address by {
            let i0 = if i < p {
                i
            } else {
                i + 1
            };
            let j0 = if j < p {
                j
            } else {
                j + 1
            };
            assert(rest[i] == stored[i0] && rest[j] == stored[j0]);
        }
        assert forall|other: BlobAddress| other != address implies holds(rest, other) == holds(
            stored,
            other,
        ) by {
            if holds(rest, other) {
                let i = position_of(rest, other);
                let i0 = if i < p {
                    i
                } else {
                    i + 1
                };
                assert(stored[i0].address == other);
            }
            if holds(stored, other) {
                let i = position_of(stored, other);
                let i1 = if i < p {
                    i
                } else {
                    i - 1
                };
                assert(rest[i1].address == other);
            }
        }
        assert forall|other: BlobAddress| other != address && holds(stored, other) implies blob_at(
            rest,
            other,
        ) == blob_at(stored, other) by {
            let i = position_of(stored, other);
            let i1 = if i < p {
                i
            } else {
                i - 1
            };
            assert(rest[i1].address == other);
            let k = position_of(rest, other);
            let k0 = if k < p {
                k
            } else {
                k + 1
            };
            assert(stored[k0].address == other);
            if k0 < i {
                assert(stored[k0].address != stored[i].address);
            } else if i < k0 {
                assert(stored[i].address != stored[k0].address);
            }
        }
    }
}

/// A store of blobs, each under its address, that holds no more bytes of
/// contents than its capacity.
pub struct BlobChunkStore {
    chunks: Vec<Blob>,
    max_capacity: u64,
    used_space: u64,
}

impl BlobChunkStore {
    /// The blobs in the store, in the order in which they were put.
    pub closed spec fn stored(&self) -> Seq<BlobView> {
        self.chunks@.map_values(|b: Blob| b@)
    }

    /// The most bytes of contents that the store takes.
    pub closed spec fn spec_max_capacity(&self) -> nat {
        self.max_capacity as nat
    }

    /// The store counts the bytes that it holds.
    pub closed spec fn counted(&self) -> bool {
        self.used_space == total_size(self.stored())
    }

    /// No two blobs have the same address, and the contents fit the
    /// capacity.
    pub open spec fn wf(&self) -> bool {
        &&& self.counted()
        &&& distinct_addresses(self.stored())
        &&& total_size(self.stored()) <= self.spec_max_capacity()
    }

    /// An empty store that takes `max_capacity` bytes of contents.
    pub fn new(max_capacity: u64) -> (r: BlobChunkStore)
        ensures
            r.wf(),
            r.stored() == Seq::<BlobView>::empty(),
            r.spec_max_capacity() == max_capacity,
    {
        let r = BlobChunkStore { chunks: Vec::new(), max_capacity, used_space: 0 };
        assert(r.stored() =~= Seq::<BlobView>::empty());
        r
    }

    /// The most bytes of contents that the store takes.
    pub fn max_capacity(&self) -> (r: u64)
        ensures
            r == self.spec_max_capacity(),
    {
        self.max_capacity
    }

    /// The bytes of contents that the store holds.
    pub fn used_space(&self) -> (r: u64)
        requires
            self.wf(),
        ensures
            r == total_size(self.stored()),
            r <= self.spec_max_capacity(),
    {
        self.used_space
    }

    /// The position of the blob at `address`, if the store holds one.
    fn find(&self, address: &BlobAddress) -> (r: Option<usize>)
        requires
            self.wf(),
        ensures
            r is Some <==> holds(self.stored(), *address),
            r matches Some(i) ==> i < self.chunks.len() && i == position_of(
                self.stored(),
                *address,
            ) && self.chunks[i as int]@ == blob_at(self.stored(), *address),
    {
        let mut i: usize = 0;
        while i < self.chunks.len()
            invariant
                0 <= i <= self.chunks.len(),
                self.wf(),
                forall|j: int| 0 <= j < i ==> (#[trigger] self.stored()[j]).address != *address,
            decreases self.chunks.len() - i,
        {
            if *self.chunks[i].address() == *address {
                proof {
                    let stored = self.stored();
                    assert(stored[i as int].address == *address);
                    let p = position_of(stored, *address);
                    if p < i {
                        assert(stored[p].address != stored[i as int].address);
                    } else if i < p {
                        assert(stored[i as int].address != stored[p].address);
                    }
                }
                return Some(i);
            }
            i = i + 1;
        }
        None
    }

    /// Whether the store holds a blob at `address`.
    pub fn has(&self, address: &BlobAddress) -> (r: bool)
        requires
            self.wf(),
        ensures
            r == holds(self.stored(), *address),
    {
        self.find(address).is_some()
    }

    /// A copy of the blob at `address`; `NoSuchKey` where there is none.
    pub fn get(&self, address: &BlobAddress) -> (r: Result<Blob, Error>)
        requires
            self.wf(),
        ensures
            r is Ok <==> holds(self.stored(), *address),
            r matches Ok(blob) ==> blob@ == blob_at(self.stored(), *address) && (blob is Private)
                == (blob@.owner is Some),
            r matches Err(e) ==> e is NoSuchKey,
    {
        match self.find(address) {
            Some(i) => Ok(self.chunks[i].duplicate()),
            None => Err(Error::NoSuchKey),
        }
    }

    /// Puts a copy of `blob` into the store. Where the store holds a blob
    /// at its address, that is `DataExists`; where the contents do not fit
    /// the space that is left, `NotEnoughSpace`; either way the store stays
    /// as it is.
    pub fn put(&mut self, blob: &Blob) -> (r: Result<(), Error>)
        requires
            old(self).wf(),
        ensures
            final(self).wf(),
            final(self).spec_max_capacity() == old(self).spec_max_capacity(),
            holds(old(self).stored(), blob@.address) ==> r matches Err(Error::DataExists),
            !holds(old(self).stored(), blob@.address) && total_size(old(self).stored())
                + blob@.value.len() > old(self).spec_max_capacity() ==> r matches Err(
                Error::NotEnoughSpace,
            ),
            !holds(old(self).stored(), blob@.address) && total_size(old(self).stored())
                + blob@.value.len() <= old(self).spec_max_capacity() ==> r is Ok,
            r is Ok ==> final(self).stored() == old(self).stored().push(blob@),
            r is Err ==> final(self).stored() == old(self).stored(),
    {
        if self.has(blob.address()) {
            return Err(Error::DataExists);
        }
        let size = blob.value().len();
        if size as u64 > self.max_capacity - self.used_space {
            return Err(Error::NotEnoughSpace);
        }
        let ghost before = self.stored();
        self.chunks.push(blob.duplicate());
        self.used_space = self.used_space + size as u64;
        proof {
            let after = self.stored();
            assert(after =~= before.push(blob@));
            assert(after.drop_last() =~= before);
            assert forall|i: int, j: int| 0 <= i < j < after.len() implies (#[trigger] after[i]).address
                != (#[trigger] after[j]).address by {
                if j == before.len() {
                    assert(before[i].address != blob@.address);
                }
            }
        }
        Ok(())
    }

    /// Takes the blob at `address` out of the store; `NoSuchKey` where
    /// there is none.
    pub fn delete(&mut self, address: &BlobAddress) -> (r: Result<(), Error>)
        requires
            old(self).wf(),
        ensures
            final(self).wf(),
            final(self).spec_max_capacity() == old(self).spec_max_capacity(),
            final(self).stored() == without(old(self).stored(), *address),
            !holds(final(self).stored(), *address),
            r is Ok <==> holds(old(self).stored(), *address),
            r matches Err(e) ==> e is NoSuchKey,
    {
        proof {
            lemma_without(self.stored(), *address);
        }
        match self.find(address) {
            Some(i) => {
                let ghost before = self.stored();
                let blob = self.chunks.remove(i);
                proof {
                    assert(self.stored() =~= before.remove(i as int));
                    lemma_total_size_remove(before, i as int);
                    lemma_without(before, *address);
                    assert(blob@ == before[i as int]);
                }
                self.used_space = self.used_space - blob.value().len() as u64;
                Ok(())
            },
            None => Err(Error::NoSuchKey),
        }
    }

    /// The addresses of the blobs in the store.
    pub fn keys(&self) -> (r: Vec<BlobAddress>)
        requires
            self.wf(),
        ensures
            r@ == self.stored().map_values(|b: BlobView| b.address),
    {
        let mut r: Vec<BlobAddress> = Vec::new();
        let mut i: usize = 0;
        while i < self.chunks.len()
            invariant
                0 <= i <= self.chunks.len(),
                r.len() == i,
                forall|j: int| 0 <= j < i ==> r[j] == self.stored()[j].address,
            decreases self.chunks.len() - i,
        {
            r.push(*self.chunks[i].address());
            i = i + 1;
        }
        assert(r@ =~= self.stored().map_values(|b: BlobView| b.address));
        r
    }
}

} // verus!

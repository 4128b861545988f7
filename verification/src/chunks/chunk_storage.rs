//! An adult's handling of the commands and queries about its chunks.

use crate::chunks::chunk_store::{
    blob_at, distinct_addresses, holds, lemma_without, total_size, without, BlobChunkStore,
};
use crate::data::{Blob, BlobAddress, BlobView};
use crate::error::{convert_to_error_message, Error, ErrorMessage};
use crate::messages::{
    Aggregation, CmdError, DstLocation, EndUser, Message, MessageId, NodeEvent, QueryResponse,
};
use crate::name::XorName;
use crate::node_ops::{NodeDuty, OutgoingMsg};
use vstd::prelude::*;

verus! {

/// Whether `duty` tells the elders of the chunk `name` how the write
/// `msg_id` was handled.
pub open spec fn tells_of_write(duty: NodeDuty, msg_id: MessageId, name: XorName) -> bool {
    &&& duty matches NodeDuty::Send(out)
    &&& out.msg matches Message::NodeEvent { event, id, correlation_id }
    &&& id.is_response_to(msg_id)
    &&& correlation_id == msg_id
    &&& out.section_source == false
    &&& out.dst == DstLocation::Section(name)
    &&& out.aggregation == Aggregation::NoAggregation
}

/// The outcome of a write of which `duty` tells, if it tells of one.
pub open spec fn told_outcome(duty: NodeDuty) -> Option<Result<(), CmdError>> {
    match duty {
        NodeDuty::Send(out) => match out.msg {
            Message::NodeEvent { event: NodeEvent::ChunkWriteHandled(outcome), .. } => Some(
                outcome,
            ),
            _ => None,
        },
        _ => None,
    }
}

/// Whether `duty` tells the elders of the chunk `name` that the write
/// `msg_id` was handled with the outcome `outcome`.
pub open spec fn is_write_handled(
    duty: NodeDuty,
    outcome: Result<(), CmdError>,
    msg_id: MessageId,
    name: XorName,
) -> bool {
    &&& tells_of_write(duty, msg_id, name)
    &&& told_outcome(duty) == Some(outcome)
}

/// What the error says that meets the wish to delete a public blob, in the
/// handling of the message with the identifier `msg_id`.
pub uninterp spec fn invalid_delete_text(msg_id: Seq<u8>) -> Seq<char>;

/// `format!` of std, on the `Debug` form that the sn_messaging crate gives
/// the message id: the words of the error, which depend on the id alone.
#[verifier::external_body]
fn outside_invalid_delete_text(msg_id: &MessageId) -> (r: String)
    ensures
        r@ == invalid_delete_text(msg_id.0@),
{
    format!(
        "ChunkStorage: Invalid DeletePrivate(Blob::Public) encountered: {:?}",
        sn_messaging::MessageId::with(msg_id.0.0)
    )
}

/// The duty that tells the elders of the chunk `name` that the write `msg_id`
/// was handled with the outcome `outcome`.
pub fn chunk_write_handled(outcome: Result<(), CmdError>, msg_id: MessageId, name: XorName) -> (duty:
    NodeDuty)
    ensures
        is_write_handled(duty, outcome, msg_id, name),
{
    NodeDuty::Send(
        OutgoingMsg {
            msg: Message::NodeEvent {
                event: NodeEvent::ChunkWriteHandled(outcome),
                id: MessageId::in_response_to(&msg_id),
                correlation_id: msg_id,
            },
            section_source: false,
            dst: DstLocation::Section(name),
            aggregation: Aggregation::NoAggregation,
        },
    )
}

/// Whether `duty` answers the query `msg_id` for the blob at `address`, to
/// the elders of the chunk: with the blob of `stored` at that address, or
/// with `DataNotFound` where there is none.
pub open spec fn is_blob_answer(
    duty: NodeDuty,
    stored: Seq<BlobView>,
    address: BlobAddress,
    msg_id: MessageId,
) -> bool {
    &&& duty matches NodeDuty::Send(out)
    &&& out.msg matches Message::QueryResponse { response, id, correlation_id }
    &&& response matches QueryResponse::GetBlob(found)
    &&& if holds(stored, address) {
        found matches Ok(blob) && blob@ == blob_at(stored, address)
    } else {
        found == Err::<Blob, ErrorMessage>(ErrorMessage::DataNotFound(address))
    }
    &&& id.is_response_to(msg_id)
    &&& correlation_id == msg_id
    &&& out.section_source == false
    &&& out.dst == DstLocation::Section(address.spec_name())
    &&& out.aggregation == Aggregation::NoAggregation
}

/// Whether a client's wish to delete the blob at `address` is granted,
/// where the store holds one: the blob is private, and the client owns it.
pub open spec fn delete_granted(stored: Seq<BlobView>, address: BlobAddress, origin: EndUser) -> bool {
    blob_at(stored, address).owner == Some(origin.public_key)
}

/// Whether `outcome` is what comes of the wish of the client `origin`, in
/// the message `msg_id`, to delete the blob at `address`, where the store
/// holds one: a private blob is deleted for its owner and for nobody else,
/// and to delete a public blob is an invalid operation.
pub open spec fn is_delete_outcome(
    outcome: Result<(), CmdError>,
    stored: Seq<BlobView>,
    address: BlobAddress,
    msg_id: MessageId,
    origin: EndUser,
) -> bool {
    match blob_at(stored, address).owner {
        Some(owner) => if owner == origin.public_key {
            outcome == Ok::<(), CmdError>(())
        } else {
            outcome == Err::<(), CmdError>(
                CmdError::Data(ErrorMessage::InvalidOwners(origin.public_key)),
            )
        },
        None => {
            &&& outcome matches Err(CmdError::Data(ErrorMessage::InvalidOperation(text)))
            &&& text@ == invalid_delete_text(msg_id.0@)
        },
    }
}

/// What comes of storing a blob: a blob that is there already counts as
/// stored; a blob that does not fit is not.
pub open spec fn store_outcome(stored: Seq<BlobView>, capacity: nat, blob: BlobView) -> Result<
    (),
    CmdError,
> {
    if holds(stored, blob.address) || total_size(stored) + blob.value.len() <= capacity {
        Ok(())
    } else {
        Err(CmdError::Data(ErrorMessage::NotEnoughSpace))
    }
}

/// The blobs after `blob` was to be stored: with it at the end, where no
/// blob had its address and it fits.
pub open spec fn stored_after(stored: Seq<BlobView>, capacity: nat, blob: BlobView) -> Seq<
    BlobView,
> {
    if !holds(stored, blob.address) && total_size(stored) + blob.value.len() <= capacity {
        stored.push(blob)
    } else {
        stored
    }
}

/// The chunks of an adult.
pub struct ChunkStorage {
    chunks: BlobChunkStore,
}

impl ChunkStorage {
    /// The blobs in the store, in the order in which they were put.
    pub closed spec fn stored(&self) -> Seq<BlobView> {
        self.chunks.stored()
    }

    /// The most bytes of contents that the store takes.
    pub closed spec fn spec_max_capacity(&self) -> nat {
        self.chunks.spec_max_capacity()
    }

    /// The store is in a state that its operations keep.
    pub closed spec fn wf(&self) -> bool {
        self.chunks.wf()
    }

    /// In a store that is in such a state, no two chunks have the same
    /// address, and the contents fit the capacity.
    pub proof fn lemma_wf(&self)
        requires
            self.wf(),
        ensures
            distinct_addresses(self.stored()),
            total_size(self.stored()) <= self.spec_max_capacity(),
    {
    }

    /// Chunk storage that takes `max_capacity` bytes of contents, with
    /// nothing in it.
    pub fn new(max_capacity: u64) -> (r: ChunkStorage)
        ensures
            r.wf(),
            r.stored() == Seq::<BlobView>::empty(),
            r.spec_max_capacity() == max_capacity,
    {
        ChunkStorage { chunks: BlobChunkStore::new(max_capacity) }
    }

    /// The addresses of the chunks held.
    pub fn keys(&self) -> (r: Vec<BlobAddress>)
        requires
            self.wf(),
        ensures
            r@ == self.stored().map_values(|b: BlobView| b.address),
    {
        self.chunks.keys()
    }

    /// Whether a chunk is held at `address`.
    pub fn has(&self, address: &BlobAddress) -> (r: bool)
        requires
            self.wf(),
        ensures
            r == holds(self.stored(), *address),
    {
        self.chunks.has(address)
    }

    /// The bytes of contents held.
    pub fn used_space(&self) -> (r: u64)
        requires
            self.wf(),
        ensures
            r == total_size(self.stored()),
            r <= self.spec_max_capacity(),
    {
        self.chunks.used_space()
    }

    /// The most bytes of contents that the store takes.
    pub fn max_capacity(&self) -> (r: u64)
        ensures
            r == self.spec_max_capacity(),
    {
        self.chunks.max_capacity()
    }

    /// Stores `data`, and reports the outcome to the elders of the chunk.
    /// A chunk that is held already counts as stored.
    pub fn store(&mut self, data: &Blob, msg_id: MessageId) -> (r: Result<NodeDuty, Error>)
        requires
            old(self).wf(),
        ensures
            final(self).wf(),
            final(self).spec_max_capacity() == old(self).spec_max_capacity(),
            final(self).stored() == stored_after(
                old(self).stored(),
                old(self).spec_max_capacity(),
                data@,
            ),
            r matches Ok(duty) && is_write_handled(
                duty,
                store_outcome(old(self).stored(), old(self).spec_max_capacity(), data@),
                msg_id,
                data@.address.spec_name(),
            ),
    {
        let result = match self.try_store(data) {
            Ok(()) => Ok(()),
            Err(Error::DataExists) => Ok(()),
            Err(other) => Err(CmdError::Data(convert_to_error_message(other))),
        };
        Ok(chunk_write_handled(result, msg_id, data.address().name()))
    }

    /// Stores `data`. Where a chunk is held at its address, that is
    /// `DataExists`; where it does not fit, `NotEnoughSpace`.
    pub fn try_store(&mut self, data: &Blob) -> (r: Result<(), Error>)
        requires
            old(self).wf(),
        ensures
            final(self).wf(),
            final(self).spec_max_capacity() == old(self).spec_max_capacity(),
            final(self).stored() == stored_after(
                old(self).stored(),
                old(self).spec_max_capacity(),
                data@,
            ),
            holds(old(self).stored(), data@.address) ==> r matches Err(Error::DataExists),
            !holds(old(self).stored(), data@.address) ==> (r is Ok <==> total_size(
                old(self).stored(),
            ) + data@.value.len() <= old(self).spec_max_capacity()),
            !holds(old(self).stored(), data@.address) && r is Err ==> r matches Err(
                Error::NotEnoughSpace,
            ),
    {
        if self.chunks.has(data.address()) {
            return Err(Error::DataExists);
        }
        self.chunks.put(data)
    }

    /// A copy of the chunk at `address`; `NoSuchKey` where there is none.
    pub fn get_chunk(&self, address: &BlobAddress) -> (r: Result<Blob, Error>)
        requires
            self.wf(),
        ensures
            r is Ok <==> holds(self.stored(), *address),
            r matches Ok(blob) ==> blob@ == blob_at(self.stored(), *address) && (blob is Private)
                == (blob@.owner is Some),
            r matches Err(e) ==> e is NoSuchKey,
    {
        self.chunks.get(address)
    }

    /// Takes the chunk at `address` out; `NoSuchKey` where there is none.
    pub fn delete_chunk(&mut self, address: &BlobAddress) -> (r: Result<(), Error>)
        requires
            old(self).wf(),
        ensures
            final(self).wf(),
            final(self).spec_max_capacity() == old(self).spec_max_capacity(),
            final(self).stored() == without(old(self).stored(), *address),
            !holds(final(self).stored(), *address),
            forall|other: BlobAddress|
                other != *address ==> #[trigger] holds(final(self).stored(), other) == holds(
                    old(self).stored(),
                    other,
                ),
            forall|other: BlobAddress|
                other != *address && holds(old(self).stored(), other) ==> #[trigger] blob_at(
                    final(self).stored(),
                    other,
                ) == blob_at(old(self).stored(), other),
            r is Ok <==> holds(old(self).stored(), *address),
            r matches Err(e) ==> e is NoSuchKey,
    {
        proof {
            lemma_without(self.stored(), *address);
        }
        self.chunks.delete(address)
    }

    /// Answers the query `msg_id` for the blob at `address`, to the elders
    /// of the chunk.
    pub fn get(&self, address: &BlobAddress, msg_id: MessageId) -> (r: Vec<NodeDuty>)
        requires
            self.wf(),
        ensures
            r.len() == 1,
            is_blob_answer(r[0], self.stored(), *address, msg_id),
    {
        let mut ops: Vec<NodeDuty> = Vec::new();
        let result = match self.get_chunk(address) {
            Ok(blob) => Ok(blob),
            Err(_) => Err(ErrorMessage::DataNotFound(*address)),
        };
        ops.push(
            NodeDuty::Send(
                OutgoingMsg {
                    msg: Message::QueryResponse {
                        id: MessageId::in_response_to(&msg_id),
                        response: QueryResponse::GetBlob(result),
                        correlation_id: msg_id,
                    },
                    section_source: false,
                    dst: DstLocation::Section(address.name()),
                    aggregation: Aggregation::NoAggregation,
                },
            ),
        );
        ops
    }

    /// Stores a chunk that the elders sent as a replica. A chunk that is
    /// held already stays as it is, and that is no error.
    pub fn store_for_replication(&mut self, blob: Blob) -> (r: Result<(), Error>)
        requires
            old(self).wf(),
        ensures
            final(self).wf(),
            final(self).spec_max_capacity() == old(self).spec_max_capacity(),
            final(self).stored() == stored_after(
                old(self).stored(),
                old(self).spec_max_capacity(),
                blob@,
            ),
            r is Ok <==> store_outcome(old(self).stored(), old(self).spec_max_capacity(), blob@)
                is Ok,
            r matches Err(e) ==> e is NotEnoughSpace,
    {
        if self.chunks.has(blob.address()) {
            return Ok(());
        }
        self.chunks.put(&blob)
    }

    /// Handles the wish of the client `origin` to delete the private blob
    /// at `address`. Where no chunk is held there, nothing happens and
    /// nothing is sent. Else the outcome is told to the elders of the
    /// chunk: a public blob stays, and the wish was an invalid operation; a
    /// private blob goes if `origin` owns it, and else stays.
    pub fn delete(&mut self, address: BlobAddress, msg_id: MessageId, origin: EndUser) -> (r:
        Result<NodeDuty, Error>)
        requires
            old(self).wf(),
        ensures
            final(self).wf(),
            final(self).spec_max_capacity() == old(self).spec_max_capacity(),
            delete_granted(old(self).stored(), address, origin) ==> !holds(
                final(self).stored(),
                address,
            ),
            forall|other: BlobAddress|
                other != address ==> #[trigger] holds(final(self).stored(), other) == holds(
                    old(self).stored(),
                    other,
                ),
            forall|other: BlobAddress|
                other != address && holds(old(self).stored(), other) ==> #[trigger] blob_at(
                    final(self).stored(),
                    other,
                ) == blob_at(old(self).stored(), other),
            r matches Ok(duty) && if !holds(old(self).stored(), address) {
                &&& duty is NoOp
                &&& final(self).stored() == old(self).stored()
            } else {
                &&& tells_of_write(duty, msg_id, address.spec_name())
                &&& told_outcome(duty) matches Some(outcome)
                &&& is_delete_outcome(outcome, old(self).stored(), address, msg_id, origin)
                &&& final(self).stored() == if delete_granted(old(self).stored(), address, origin) {
                    without(old(self).stored(), address)
                } else {
                    old(self).stored()
                }
            },
    {
        proof {
            lemma_without(self.stored(), address);
        }
        if !self.chunks.has(&address) {
            return Ok(NodeDuty::NoOp);
        }
        let result = match self.chunks.get(&address) {
            Ok(Blob::Private(data)) => {
                if *data.owner() == *origin.id() {
                    match self.delete_chunk(&address) {
                        Ok(()) => Ok(()),
                        Err(_) => Err(CmdError::Data(ErrorMessage::FailedToDelete)),
                    }
                } else {
                    Err(CmdError::Data(ErrorMessage::InvalidOwners(*origin.id())))
                }
            },
            Ok(_) => Err(
                CmdError::Data(ErrorMessage::InvalidOperation(outside_invalid_delete_text(&msg_id))),
            ),
            _ => Err(CmdError::Data(ErrorMessage::NoSuchKey)),
        };
        Ok(chunk_write_handled(result, msg_id, address.name()))
    }
}

/// Only the owner deletes a private blob: where a client's wish to delete is
/// granted, the blob at the address is private and the client owns it.
pub proof fn law_delete_needs_owner(
    outcome: Result<(), CmdError>,
    stored: Seq<BlobView>,
    address: BlobAddress,
    msg_id: MessageId,
    origin: EndUser,
)
    requires
        is_delete_outcome(outcome, stored, address, msg_id, origin),
    ensures
        outcome is Ok <==> blob_at(stored, address).owner == Some(origin.public_key),
        outcome is Ok <==> delete_granted(stored, address, origin),
{
}

/// Nobody deletes a public blob: whoever asks, the wish is an invalid
/// operation.
pub proof fn law_public_delete_rejected(
    outcome: Result<(), CmdError>,
    stored: Seq<BlobView>,
    address: BlobAddress,
    msg_id: MessageId,
    origin: EndUser,
)
    requires
        blob_at(stored, address).owner is None,
        is_delete_outcome(outcome, stored, address, msg_id, origin),
    ensures
        outcome matches Err(CmdError::Data(error)) && error is InvalidOperation,
        !delete_granted(stored, address, origin),
{
}

} // verus!

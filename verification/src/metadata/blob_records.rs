//! Where the chunks of a section go, and who answers for them.

use crate::data::{Blob, BlobAddress, PublicKey};
use crate::error::{convert_to_error_message, error_message_of, Error, ErrorMessage};
use crate::messages::{
    has_content_id, Aggregation, BlobDataExchange, BlobRead, BlobWrite, ClientSigned, CmdError,
    EndUser,
    MessageId, NodeCmd, NodeMsg, NodeQuery, NodeSystemCmd, QueryResponse,
};
use crate::metadata::adult_liveness::AdultLiveness;
use crate::metadata::adult_reader::{closest_among, law_closest_unique, AdultReader};
use crate::metadata::liveness_model::{
    accounted, awaits, inv, ops_after_leaving, ops_after_reply, pending_after_new,
    pending_after_reply, pending_or_zero, read_under, unresponsive, LivenessView, OperationView,
};
use crate::metadata::{
    build_client_error_response, build_client_query_response, is_client_error_response,
    is_client_query_response,
};
use crate::name::XorName;
use crate::name_set::NameSet;
use crate::node_ops::NodeDuty;
use crate::prefix::Prefix;
use vstd::prelude::*;

verus! {

/// How many adults hold a copy of each chunk.
pub const CHUNK_COPY_COUNT: usize = 4;

/// What the elders know of the adults' storage.
#[derive(Debug)]
pub struct AdultsStorageInfo {
    /// The adults that take no more chunks.
    pub full_adults: NameSet,
}

/// Whether `targets` are the adults that hold the chunk `name`: the
/// `CHUNK_COPY_COUNT` adults nearest to `name` among those that are not
/// full.
pub open spec fn is_placement(
    name: XorName,
    adults: Set<XorName>,
    full: Set<XorName>,
    targets: Set<XorName>,
) -> bool {
    exists|chosen: Seq<XorName>|
        closest_among(name, adults.difference(full), CHUNK_COPY_COUNT as nat, chosen)
            && #[trigger] chosen.to_set() == targets
}

/// The adults that hold the chunk `name`.
pub open spec fn placement(name: XorName, adults: Set<XorName>, full: Set<XorName>) -> Set<
    XorName,
> {
    choose|targets: Set<XorName>| is_placement(name, adults, full, targets)
}

/// The adults that are asked for the chunk `name`: those that hold it, and
/// the full adults, which may hold it from before they were full.
pub open spec fn read_targets(name: XorName, adults: Set<XorName>, full: Set<XorName>) -> Set<
    XorName,
> {
    placement(name, adults, full).union(full)
}

/// A chunk is placed in one way only.
pub proof fn law_placement_unique(
    name: XorName,
    adults: Set<XorName>,
    full: Set<XorName>,
    targets: Set<XorName>,
)
    requires
        is_placement(name, adults, full, targets),
    ensures
        targets == placement(name, adults, full),
{
    let other = placement(name, adults, full);
    assert(is_placement(name, adults, full, other));
    let s = choose|chosen: Seq<XorName>|
        closest_among(name, adults.difference(full), CHUNK_COPY_COUNT as nat, chosen)
            && #[trigger] chosen.to_set() == targets;
    let t = choose|chosen: Seq<XorName>|
        closest_among(name, adults.difference(full), CHUNK_COPY_COUNT as nat, chosen)
            && #[trigger] chosen.to_set() == other;
    law_closest_unique(name, adults.difference(full), CHUNK_COPY_COUNT as nat, s, t);
}

/// No chunk is placed on a full adult: where a chunk can be placed at all,
/// it goes to at most `CHUNK_COPY_COUNT` adults of the section, none of
/// them full.
pub proof fn law_write_excludes_full_adults(
    name: XorName,
    adults: Set<XorName>,
    full: Set<XorName>,
    targets: Set<XorName>,
)
    requires
        is_placement(name, adults, full, targets),
    ensures
        targets.disjoint(full),
        targets.subset_of(adults),
        targets.finite(),
        targets.len() <= CHUNK_COPY_COUNT,
{
    let s = choose|chosen: Seq<XorName>|
        closest_among(name, adults.difference(full), CHUNK_COPY_COUNT as nat, chosen)
            && #[trigger] chosen.to_set() == targets;
    assert forall|x: XorName| targets.contains(x) implies adults.contains(x) && !full.contains(
        x,
    ) by {
        let k = choose|k: int| 0 <= k < s.len() && s[k] == x;
        assert(adults.difference(full).contains(s[k]));
    }
    vstd::seq_lib::seq_to_set_is_finite(s);
    s.lemma_cardinality_of_set();
}

/// Every full adult is asked on a read, and so is every full adult that is
/// a member of the section.
pub proof fn law_read_includes_full_adults(
    name: XorName,
    adults: Set<XorName>,
    full: Set<XorName>,
    members: Set<XorName>,
)
    ensures
        full.intersect(members).subset_of(read_targets(name, adults, full)),
        full.subset_of(read_targets(name, adults, full)),
{
}

/// What the error says that meets an answer that is not about a blob.
pub open spec fn misplaced_answer_text() -> Seq<char> {
    "Got Other, but only `GetBlob` query responses are supposed to exist in this flow."@
}

/// The name of the chunk that a command is about.
pub open spec fn chunk_name(write: BlobWrite) -> XorName {
    match write {
        BlobWrite::New(data) => data@.address.spec_name(),
        BlobWrite::DeletePrivate(address) => address.spec_name(),
    }
}

/// Whether a command stores a private blob that `signer` does not own.
pub open spec fn not_owned(write: BlobWrite, signer: PublicKey) -> bool {
    write matches BlobWrite::New(data) && data@.owner matches Some(owner) && owner != signer
}

/// Whether `duty` tells the client `origin` that the command or query
/// `msg_id` failed with `error`.
pub open spec fn is_error_duty(
    duty: NodeDuty,
    error: ErrorMessage,
    msg_id: MessageId,
    origin: EndUser,
) -> bool {
    duty matches NodeDuty::Send(out) && is_client_error_response(
        out,
        CmdError::Data(error),
        msg_id,
        origin,
    )
}

/// Checks that `requester` owns `data`, where it is private.
pub fn validate_data_owner(data: &Blob, requester: &PublicKey) -> (r: Result<(), Error>)
    ensures
        r is Err <==> (data@.owner matches Some(owner) && owner != *requester),
        r matches Err(e) ==> e == Error::InvalidOwners(*requester),
{
    match data.owner() {
        Some(owner) => {
            if *owner != *requester {
                Err(Error::InvalidOwners(*requester))
            } else {
                Ok(())
            }
        },
        None => Ok(()),
    }
}

/// What the error says where no message id can be had for a chunk.
pub open spec fn no_message_id_text() -> Seq<char> {
    "no message id can be derived for the chunk"@
}

/// The duty that sends `data` to `targets`, to store as a replica, each to
/// reply on its own, under the message id `msg_id`; an error where there is
/// no message id.
pub fn replicate_chunk_duty(data: Blob, targets: NameSet, msg_id: Option<MessageId>) -> (r: Result<
    NodeDuty,
    Error,
>)
    ensures
        msg_id is None ==> ({
            &&& r matches Err(Error::Logic(text))
            &&& text@ == no_message_id_text()
        }),
        msg_id matches Some(id) ==> ({
            &&& r matches Ok(NodeDuty::SendToNodes { targets: sent_to, msg, aggregation })
            &&& sent_to == targets
            &&& msg == NodeMsg::NodeCmd {
                cmd: NodeCmd::System(NodeSystemCmd::ReplicateChunk(data)),
                id,
            }
            &&& aggregation == Aggregation::NoAggregation
        }),
{
    match msg_id {
        Some(id) => Ok(
            NodeDuty::SendToNodes {
                targets,
                msg: NodeMsg::NodeCmd {
                    cmd: NodeCmd::System(NodeSystemCmd::ReplicateChunk(data)),
                    id,
                },
                aggregation: Aggregation::NoAggregation,
            },
        ),
        None => Err(Error::Logic("no message id can be derived for the chunk".to_owned())),
    }
}

/// The elder's record of the chunks of its section: which adults are full,
/// which adults there are, and which reads wait for which adults.
pub struct BlobRecords {
    adult_storage_info: AdultsStorageInfo,
    reader: AdultReader,
    adult_liveness: AdultLiveness,
}

impl BlobRecords {
    /// The adults that take no more chunks.
    pub closed spec fn full_adults(&self) -> Set<XorName> {
        self.adult_storage_info.full_adults@
    }

    /// The adults of the section.
    pub closed spec fn adults(&self) -> Set<XorName> {
        self.reader.adults()
    }

    /// The prefix of the section.
    pub closed spec fn our_prefix(&self) -> Prefix {
        self.reader.spec_our_prefix()
    }

    /// The state of the liveness tracker.
    pub closed spec fn liveness(&self) -> LivenessView {
        self.adult_liveness@
    }

    /// The parts of the record are in a state that its operations keep.
    pub closed spec fn wf(&self) -> bool {
        &&& self.adult_storage_info.full_adults.wf()
        &&& self.reader.wf()
        &&& self.adult_liveness.wf()
    }

    /// What holds of the liveness tracker of a well-formed record.
    pub proof fn lemma_liveness(&self)
        requires
            self.wf(),
        ensures
            inv(self.liveness()),
    {
    }

    /// The record of a section of which `reader` tells, with the full adults
    /// of `adult_storage_info` and no read under way.
    pub fn new(adult_storage_info: AdultsStorageInfo, reader: AdultReader) -> (r: BlobRecords)
        requires
            adult_storage_info.full_adults.wf(),
            reader.wf(),
        ensures
            r.wf(),
            r.full_adults() == adult_storage_info.full_adults@,
            r.adults() == reader.adults(),
            r.our_prefix() == reader.spec_our_prefix(),
            r.liveness().ops == Map::<MessageId, OperationView>::empty(),
            r.liveness().pending == Map::<XorName, nat>::empty(),
            r.liveness().closest == Map::<XorName, Seq<XorName>>::empty(),
            accounted(r.liveness()),
    {
        BlobRecords { adult_storage_info, reader, adult_liveness: AdultLiveness::new() }
    }

    /// Takes `reader` as what is known of the section from now on.
    pub fn set_reader(&mut self, reader: AdultReader)
        requires
            old(self).wf(),
            reader.wf(),
        ensures
            final(self).wf(),
            final(self).adults() == reader.adults(),
            final(self).our_prefix() == reader.spec_our_prefix(),
            final(self).full_adults() == old(self).full_adults(),
            final(self).liveness() == old(self).liveness(),
    {
        self.reader = reader;
    }

    /// The full adults whose names `prefix` matches.
    pub fn get_data_of(&self, prefix: Prefix) -> (r: BlobDataExchange)
        requires
            self.wf(),
        ensures
            r.full_adults.wf(),
            r.full_adults@ == self.full_adults().filter(|n: XorName| prefix.spec_matches(n)),
    {
        let full = &self.adult_storage_info.full_adults;
        let mut matching = NameSet::new();
        let mut i: usize = 0;
        let ghost wanted = self.full_adults().filter(|n: XorName| prefix.spec_matches(n));
        assert(matching@ =~= full.elements().take(0).to_set().intersect(wanted));
        while i < full.len()
            invariant
                0 <= i <= full.elements().len(),
                matching.wf(),
                full@ == self.full_adults(),
                wanted == self.full_adults().filter(|n: XorName| prefix.spec_matches(n)),
                matching@ == full.elements().take(i as int).to_set().intersect(wanted),
            decreases full.elements().len() - i,
        {
            let name = full.get(i);
            proof {
                let p = full.elements().take(i as int);
                let q = full.elements().take(i + 1);
                assert forall|x: XorName| q.to_set().contains(x) == (p.to_set().contains(x) || x
                    == name) by {
                    if q.contains(x) {
                        let k = choose|k: int| 0 <= k < q.len() && q[k] == x;
                        if k < p.len() {
                            assert(p[k] == x);
                        }
                    }
                    if p.contains(x) {
                        let k = choose|k: int| 0 <= k < p.len() && p[k] == x;
                        assert(q[k] == x);
                    }
                    if x == name {
                        assert(q[i as int] == x);
                    }
                }
            }
            if prefix.matches(&name) {
                let _ = matching.insert(name);
            }
            proof {
                assert(matching@ =~= full.elements().take(i + 1).to_set().intersect(wanted));
            }
            i = i + 1;
        }
        proof {
            assert(full.elements().take(full.elements().len() as int) == full.elements());
            assert(matching@ =~= wanted);
        }
        BlobDataExchange { full_adults: matching }
    }

    /// Takes the full adults of `blob_data` among the full adults.
    pub fn update(&mut self, blob_data: BlobDataExchange) -> (r: Result<(), Error>)
        requires
            old(self).wf(),
        ensures
            r is Ok,
            final(self).wf(),
            final(self).full_adults() == old(self).full_adults().union(blob_data.full_adults@),
            final(self).adults() == old(self).adults(),
            final(self).our_prefix() == old(self).our_prefix(),
            final(self).liveness() == old(self).liveness(),
    {
        self.adult_storage_info.full_adults.extend(&blob_data.full_adults);
        Ok(())
    }

    /// Forgets the adults that are not among `members`: they are no longer
    /// full adults, and the liveness tracker no longer tracks them.
    pub fn retain_members_only(&mut self, members: NameSet) -> (r: Result<(), Error>)
        requires
            old(self).wf(),
        ensures
            r is Ok,
            final(self).wf(),
            final(self).full_adults() == old(self).full_adults().intersect(members@),
            final(self).adults() == old(self).adults(),
            final(self).our_prefix() == old(self).our_prefix(),
            final(self).liveness().ops == ops_after_leaving(
                old(self).liveness().ops,
                old(self).liveness().closest.dom().difference(members@),
            ),
            final(self).liveness().pending == old(self).liveness().pending.remove_keys(
                old(self).liveness().closest.dom().difference(members@),
            ),
            final(self).liveness().closest.dom() == old(self).liveness().closest.dom().intersect(
                members@,
            ),
            accounted(old(self).liveness()) ==> accounted(final(self).liveness()),
    {
        let kept = self.adult_storage_info.full_adults.intersection(&members);
        self.adult_storage_info.full_adults = kept;
        self.adult_liveness.retain_members_only(members);
        Ok(())
    }

    /// Takes the holder of the key `node_id` among the full adults.
    pub fn increase_full_node_count(&mut self, node_id: PublicKey) -> (r: Result<(), Error>)
        requires
            old(self).wf(),
        ensures
            r is Ok,
            final(self).wf(),
            final(self).full_adults() == old(self).full_adults().insert(node_id.holder()),
            final(self).adults() == old(self).adults(),
            final(self).our_prefix() == old(self).our_prefix(),
            final(self).liveness() == old(self).liveness(),
    {
        let _ = self.adult_storage_info.full_adults.insert(node_id.to_name());
        Ok(())
    }

    /// Takes `node_name` from the full adults, if it is among them.
    pub fn decrease_full_node_count_if_present(&mut self, node_name: XorName) -> (r: Result<
        (),
        Error,
    >)
        requires
            old(self).wf(),
        ensures
            r is Ok,
            final(self).wf(),
            final(self).full_adults() == old(self).full_adults().remove(node_name),
            final(self).adults() == old(self).adults(),
            final(self).our_prefix() == old(self).our_prefix(),
            final(self).liveness() == old(self).liveness(),
    {
        let _ = self.adult_storage_info.full_adults.remove(&node_name);
        Ok(())
    }

    /// The adults that hold the chunk `target`, nearest first.
    pub fn get_holders_for_chunk(&self, target: &XorName) -> (r: Vec<XorName>)
        requires
            self.wf(),
        ensures
            closest_among(
                *target,
                self.adults().difference(self.full_adults()),
                CHUNK_COPY_COUNT as nat,
                r@,
            ),
            r@.to_set() == placement(*target, self.adults(), self.full_adults()),
    {
        let holders = self.reader.non_full_adults_closest_to(
            target,
            &self.adult_storage_info.full_adults,
            CHUNK_COPY_COUNT,
        );
        proof {
            assert(is_placement(*target, self.adults(), self.full_adults(), holders@.to_set()));
            law_placement_unique(*target, self.adults(), self.full_adults(), holders@.to_set());
        }
        holders
    }

    /// The duty that tells the client `origin` that `msg_id` failed with
    /// `error`.
    pub fn send_error(&self, error: Error, msg_id: MessageId, origin: EndUser) -> (r: Result<
        NodeDuty,
        Error,
    >)
        ensures
            r matches Ok(duty) && is_error_duty(duty, error_message_of(error), msg_id, origin),
    {
        let error = convert_to_error_message(error);
        Ok(NodeDuty::Send(build_client_error_response(CmdError::Data(error), msg_id, origin)))
    }

    /// Sends the command `write` on to the adults that hold its chunk, or
    /// tells the client that there are none.
    fn send_chunks_to_adults(
        &self,
        write: BlobWrite,
        msg_id: MessageId,
        client_signed: ClientSigned,
        origin: EndUser,
    ) -> (r: Result<NodeDuty, Error>)
        requires
            self.wf(),
        ensures
            r matches Ok(duty) && self.forwards(duty, write, msg_id, client_signed, origin),
    {
        let name = match &write {
            BlobWrite::New(data) => data.name(),
            BlobWrite::DeletePrivate(address) => address.name(),
        };
        let holders = self.get_holders_for_chunk(&name);
        let targets = NameSet::from_vec(&holders);
        if targets.is_empty() {
            return self.send_error(Error::NoAdults(self.reader.our_prefix()), msg_id, origin);
        }
        Ok(
            NodeDuty::SendToNodes {
                targets,
                msg: NodeMsg::NodeCmd {
                    cmd: NodeCmd::Chunks { cmd: write, client_signed, origin },
                    id: msg_id,
                },
                aggregation: Aggregation::AtDestination,
            },
        )
    }

    /// Whether `duty` sends the command `write` on to the adults that hold
    /// its chunk, each to reply on its own, or, where there are none, tells
    /// the client so.
    pub open spec fn forwards(
        &self,
        duty: NodeDuty,
        write: BlobWrite,
        msg_id: MessageId,
        client_signed: ClientSigned,
        origin: EndUser,
    ) -> bool {
        let holders = placement(chunk_name(write), self.adults(), self.full_adults());
        if holders == Set::<XorName>::empty() {
            is_error_duty(duty, ErrorMessage::NoAdults(self.our_prefix()), msg_id, origin)
        } else {
            &&& duty matches NodeDuty::SendToNodes { targets, msg, aggregation }
            &&& targets.wf()
            &&& targets@ == holders
            &&& msg == NodeMsg::NodeCmd {
                cmd: NodeCmd::Chunks { cmd: write, client_signed, origin },
                id: msg_id,
            }
            &&& aggregation == Aggregation::AtDestination
        }
    }

    /// Handles a client's command about a blob. A private blob that the
    /// signer does not own is refused; any other command is sent on to the
    /// adults that hold its chunk.
    pub fn write(
        &mut self,
        write: BlobWrite,
        msg_id: MessageId,
        client_signed: ClientSigned,
        origin: EndUser,
    ) -> (r: Result<NodeDuty, Error>)
        requires
            old(self).wf(),
        ensures
            final(self).wf(),
            final(self).full_adults() == old(self).full_adults(),
            final(self).adults() == old(self).adults(),
            final(self).our_prefix() == old(self).our_prefix(),
            final(self).liveness() == old(self).liveness(),
            r matches Ok(duty) && if not_owned(write, client_signed.public_key) {
                is_error_duty(
                    duty,
                    ErrorMessage::InvalidOwners(client_signed.public_key),
                    msg_id,
                    origin,
                )
            } else {
                old(self).forwards(duty, write, msg_id, client_signed, origin)
            },
    {
        match write {
            BlobWrite::New(data) => self.store(data, msg_id, client_signed, origin),
            BlobWrite::DeletePrivate(address) => self.delete(
                address,
                msg_id,
                client_signed,
                origin,
            ),
        }
    }

    /// Handles the command to store `data`.
    fn store(
        &self,
        data: Blob,
        msg_id: MessageId,
        client_signed: ClientSigned,
        origin: EndUser,
    ) -> (r: Result<NodeDuty, Error>)
        requires
            self.wf(),
        ensures
            r matches Ok(duty) && if not_owned(BlobWrite::New(data), client_signed.public_key) {
                is_error_duty(
                    duty,
                    ErrorMessage::InvalidOwners(client_signed.public_key),
                    msg_id,
                    origin,
                )
            } else {
                self.forwards(duty, BlobWrite::New(data), msg_id, client_signed, origin)
            },
    {
        match validate_data_owner(&data, &client_signed.public_key) {
            Err(error) => self.send_error(error, msg_id, origin),
            Ok(()) => self.send_chunks_to_adults(
                BlobWrite::New(data),
                msg_id,
                client_signed,
                origin,
            ),
        }
    }

    /// Handles the command to delete the private blob at `address`.
    fn delete(
        &self,
        address: BlobAddress,
        msg_id: MessageId,
        client_signed: ClientSigned,
        origin: EndUser,
    ) -> (r: Result<NodeDuty, Error>)
        requires
            self.wf(),
        ensures
            r matches Ok(duty) && self.forwards(
                duty,
                BlobWrite::DeletePrivate(address),
                msg_id,
                client_signed,
                origin,
            ),
    {
        self.send_chunks_to_adults(BlobWrite::DeletePrivate(address), msg_id, client_signed, origin)
    }

    /// Sends `data` to the adults that hold its chunk, to store as a
    /// replica. The message id stands for the chunk, its owner and those
    /// adults, so that every elder sends the same message. Where the three
    /// have no such id, that is an error.
    pub fn republish_chunk(&mut self, data: Blob) -> (r: Result<NodeDuty, Error>)
        requires
            old(self).wf(),
        ensures
            final(self).wf(),
            final(self).full_adults() == old(self).full_adults(),
            final(self).adults() == old(self).adults(),
            final(self).our_prefix() == old(self).our_prefix(),
            final(self).liveness() == old(self).liveness(),
            r is Ok <==> has_content_id(
                data@.address.spec_name(),
                data@.owner,
                placement(data@.address.spec_name(), old(self).adults(), old(self).full_adults()),
            ),
            r matches Err(e) ==> ({
                &&& e matches Error::Logic(text)
                &&& text@ == no_message_id_text()
            }),
            r matches Ok(duty) ==> old(self).republishes(duty, data),
    {
        let name = data.name();
        let owner = match data.owner() {
            Some(key) => Some(*key),
            None => None,
        };
        let holders = self.get_holders_for_chunk(&name);
        let targets = NameSet::from_vec(&holders);
        let msg_id = MessageId::from_content(&name, &owner, &targets);
        replicate_chunk_duty(data, targets, msg_id)
    }

    /// Whether `duty` sends `data` to the adults that hold its chunk, to
    /// store as a replica, each to reply on its own, under the message id
    /// that stands for the chunk, its owner and those adults.
    pub open spec fn republishes(&self, duty: NodeDuty, data: Blob) -> bool {
        let name = data@.address.spec_name();
        let holders = placement(name, self.adults(), self.full_adults());
        &&& duty matches NodeDuty::SendToNodes { targets, msg, aggregation }
        &&& targets.wf()
        &&& targets@ == holders
        &&& msg matches NodeMsg::NodeCmd { cmd, id }
        &&& cmd == NodeCmd::System(NodeSystemCmd::ReplicateChunk(data))
        &&& id.is_from_content(name, data@.owner, holders)
        &&& aggregation == Aggregation::NoAggregation
    }

    /// Handles a client's query about a blob.
    pub fn read(&mut self, read: &BlobRead, msg_id: MessageId, origin: EndUser) -> (r: Result<
        NodeDuty,
        Error,
    >)
        requires
            old(self).wf(),
        ensures
            final(self).wf(),
            final(self).full_adults() == old(self).full_adults(),
            final(self).adults() == old(self).adults(),
            final(self).our_prefix() == old(self).our_prefix(),
            r matches Ok(duty) && old(self).asks(*final(self), duty, *read, msg_id, origin),
            accounted(old(self).liveness()) ==> accounted(final(self).liveness()),
    {
        match read {
            BlobRead::Get(address) => self.get(*address, msg_id, origin),
        }
    }

    /// Whether, from `self`, the query `read` leads to the record `after`
    /// and to `duty`. Where nobody can be asked, the client is told so.
    /// Else the read is taken up under `msg_id`, to wait for the adults
    /// that hold the chunk and for the full adults, and is sent to them,
    /// each to reply on its own; but where an operation is under way under
    /// `msg_id`, nothing changes and nothing is sent.
    pub open spec fn asks(
        &self,
        after: BlobRecords,
        duty: NodeDuty,
        read: BlobRead,
        msg_id: MessageId,
        origin: EndUser,
    ) -> bool {
        let address = read->0;
        let asked = read_targets(address.spec_name(), self.adults(), self.full_adults());
        let before = self.liveness();
        if asked == Set::<XorName>::empty() {
            &&& after.liveness() == before
            &&& is_error_duty(duty, ErrorMessage::NoAdults(self.our_prefix()), msg_id, origin)
        } else if before.ops.contains_key(msg_id) {
            &&& after.liveness() == before
            &&& duty is NoOp
        } else {
            &&& after.liveness().ops == before.ops.insert(
                msg_id,
                OperationView::Read { address, origin, targets: asked },
            )
            &&& after.liveness().pending == pending_after_new(before.pending, asked)
            &&& after.liveness().closest.dom() == before.closest.dom().union(asked)
            &&& duty matches NodeDuty::SendToNodes { targets, msg, aggregation }
            &&& targets.wf()
            &&& targets@ == asked
            &&& msg == NodeMsg::NodeQuery {
                query: NodeQuery::Chunks { query: BlobRead::Get(address), origin },
                id: msg_id,
            }
            &&& aggregation == Aggregation::NoAggregation
        }
    }

    /// Handles the query for the blob at `address`.
    fn get(&mut self, address: BlobAddress, msg_id: MessageId, origin: EndUser) -> (r: Result<
        NodeDuty,
        Error,
    >)
        requires
            old(self).wf(),
        ensures
            final(self).wf(),
            final(self).full_adults() == old(self).full_adults(),
            final(self).adults() == old(self).adults(),
            final(self).our_prefix() == old(self).our_prefix(),
            r matches Ok(duty) && old(self).asks(
                *final(self),
                duty,
                BlobRead::Get(address),
                msg_id,
                origin,
            ),
            accounted(old(self).liveness()) ==> accounted(final(self).liveness()),
    {
        let holders = self.get_holders_for_chunk(&address.name());
        let mut targets = NameSet::from_vec(&holders);
        targets.extend(&self.adult_storage_info.full_adults);
        if targets.is_empty() {
            return self.send_error(Error::NoAdults(self.reader.our_prefix()), msg_id, origin);
        }
        if self.adult_liveness.new_read(msg_id, address, origin, targets.duplicate()) {
            Ok(
                NodeDuty::SendToNodes {
                    targets,
                    msg: NodeMsg::NodeQuery {
                        query: NodeQuery::Chunks { query: BlobRead::Get(address), origin },
                        id: msg_id,
                    },
                    aggregation: Aggregation::NoAggregation,
                },
            )
        } else {
            Ok(NodeDuty::NoOp)
        }
    }

    /// Whether `duties` are what follows the answer `response` of the adult
    /// `src` to the read `correlation_id`, in a record with the full adults
    /// `full` and a liveness tracker that was in the state `before` and is
    /// in the state `after`. First the answer is passed on to the client
    /// that asked, if the read was under way; but not a failure that a full
    /// adult reports. Then the adults that lag are proposed as offline,
    /// each once, if there are any.
    pub open spec fn follows_answer(
        duties: Seq<NodeDuty>,
        response: QueryResponse,
        correlation_id: MessageId,
        src: XorName,
        full: Set<XorName>,
        before: LivenessView,
        after: LivenessView,
    ) -> bool {
        let passed_on = read_under(before.ops, correlation_id) is Some && !(full.contains(src)
            && !response.spec_is_success());
        let lagging = exists|a: XorName| unresponsive(after, a);
        let first: int = if passed_on {
            1
        } else {
            0
        };
        let second: int = if lagging {
            1
        } else {
            0
        };
        &&& duties.len() == first + second
        &&& passed_on ==> ({
            &&& duties[0] matches NodeDuty::Send(out)
            &&& read_under(before.ops, correlation_id) matches Some(found)
            &&& is_client_query_response(out, response, correlation_id, found.1)
        })
        &&& lagging ==> ({
            &&& duties[first] matches NodeDuty::ProposeOffline(names)
            &&& names@.no_duplicates()
            &&& forall|a: XorName| names@.contains(a) <==> unresponsive(after, a)
        })
    }

    /// Takes the answer `response` of the adult `src` to the read
    /// `correlation_id`. An answer that is not about a blob has no place
    /// here: it is an error, and changes nothing.
    pub fn record_adult_read_liveness(
        &mut self,
        correlation_id: MessageId,
        response: QueryResponse,
        src: XorName,
    ) -> (r: Result<Vec<NodeDuty>, Error>)
        requires
            old(self).wf(),
        ensures
            final(self).wf(),
            final(self).full_adults() == old(self).full_adults(),
            final(self).adults() == old(self).adults(),
            final(self).our_prefix() == old(self).our_prefix(),
            r is Err <==> response is Other,
            r matches Err(e) ==> final(self).liveness() == old(self).liveness(),
            r matches Err(Error::Logic(text)) ==> text@ == misplaced_answer_text(),
            r matches Err(e) ==> e is Logic,
            r matches Ok(duties) ==> {
                &&& final(self).liveness().ops == ops_after_reply(
                    old(self).liveness().ops,
                    correlation_id,
                    src,
                )
                &&& final(self).liveness().pending == pending_after_reply(
                    old(self).liveness().pending,
                    src,
                )
                &&& final(self).liveness().closest == old(self).liveness().closest
                &&& Self::follows_answer(
                    duties@,
                    response,
                    correlation_id,
                    src,
                    old(self).full_adults(),
                    old(self).liveness(),
                    final(self).liveness(),
                )
            },
            accounted(old(self).liveness()) && (awaits(old(self).liveness().ops, correlation_id, src)
                || pending_or_zero(old(self).liveness().pending, src) == 0) ==> accounted(
                final(self).liveness(),
            ),
    {
        if !matches!(response, QueryResponse::GetBlob(_)) {
            return Err(
                Error::Logic(
                    "Got Other, but only `GetBlob` query responses are supposed to exist in this flow.".to_owned(),
                ),
            );
        }
        let mut duties: Vec<NodeDuty> = Vec::new();
        let success = response.is_success();
        let found = self.adult_liveness.record_adult_read_liveness(correlation_id, src, success);
        if let Some((_address, end_user)) = found {
            if self.adult_storage_info.full_adults.contains(&src) && !success {
            } else {
                duties.push(
                    NodeDuty::Send(build_client_query_response(response, correlation_id, end_user)),
                );
            }
        }
        let ghost first = duties@.len();
        let lagging = self.adult_liveness.find_unresponsive_adults();
        let mut unresponsive_adults: Vec<XorName> = Vec::new();
        let mut i: usize = 0;
        while i < lagging.len()
            invariant
                0 <= i <= lagging.len(),
                unresponsive_adults.len() == i,
                forall|k: int| 0 <= k < i ==> unresponsive_adults[k] == (#[trigger] lagging[k]).0,
            decreases lagging.len() - i,
        {
            unresponsive_adults.push(lagging[i].0);
            i = i + 1;
        }
        proof {
            let names = unresponsive_adults@;
            let after = self.liveness();
            assert forall|a: int, b: int| 0 <= a < names.len() && 0 <= b < names.len() && a
                != b implies names[a] != names[b] by {
                if a < b {
                    assert(lagging[a].0 != lagging[b].0);
                } else {
                    assert(lagging[b].0 != lagging[a].0);
                }
            }
            assert forall|a: XorName| names.contains(a) <==> unresponsive(after, a) by {
                if names.contains(a) {
                    let k = choose|k: int| 0 <= k < names.len() && names[k] == a;
                    assert(unresponsive(after, lagging[k].0));
                }
                if unresponsive(after, a) {
                    let k = choose|k: int| 0 <= k < lagging.len() && (#[trigger] lagging[k]).0 == a;
                    assert(names[k] == a);
                }
            }
            if names.len() > 0 {
                assert(names.contains(names[0]));
            }
        }
        if unresponsive_adults.len() > 0 {
            duties.push(NodeDuty::ProposeOffline(unresponsive_adults));
        }
        Ok(duties)
    }
}

} // verus!

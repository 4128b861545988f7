//! Messages between clients, elders and adults.

use crate::data::{Blob, BlobAddress, PublicKey};
use crate::error::ErrorMessage;
use crate::name::XorName;
use crate::name_set::NameSet;
use ed25519_dalek::PublicKey as Ed25519Key;
use sn_data_types::PublicKey as OutsideKey;
use sn_messaging::MessageId as OutsideId;
use std::collections::BTreeSet;
use threshold_crypto::PublicKey as BlsKey;
use threshold_crypto::PublicKeyShare as BlsKeyShare;
use vstd::prelude::*;
use xor_name::XorName as OutsideName;

verus! {

/// The identifier of a message.
#[derive(Clone, Copy, Debug, Eq, PartialOrd, Ord, Hash)]
pub struct MessageId(pub XorName);

impl PartialEq for MessageId {
    fn eq(&self, other: &Self) -> (r: bool) {
        self.0 == other.0
    }
}

impl vstd::std_specs::cmp::PartialEqSpecImpl for MessageId {
    open spec fn obeys_eq_spec() -> bool {
        true
    }

    open spec fn eq_spec(&self, other: &Self) -> bool {
        *self == *other
    }
}

/// A client, by its public key and the socket it is reached through.
#[derive(Clone, Copy, Debug, Eq, PartialOrd, Ord, Hash)]
pub struct EndUser {
    /// The client's public key.
    pub public_key: PublicKey,
    /// The socket at the elders through which the client is reached.
    pub socket_id: XorName,
}

impl PartialEq for EndUser {
    fn eq(&self, other: &Self) -> (r: bool) {
        self.public_key == other.public_key && self.socket_id == other.socket_id
    }
}

impl vstd::std_specs::cmp::PartialEqSpecImpl for EndUser {
    open spec fn obeys_eq_spec() -> bool {
        true
    }

    open spec fn eq_spec(&self, other: &Self) -> bool {
        *self == *other
    }
}

impl EndUser {
    /// The client's public key.
    pub fn id(&self) -> (r: &PublicKey)
        ensures
            *r == self.public_key,
    {
        &self.public_key
    }
}

/// The key that signed a client's command, and the signature.
#[derive(Debug, PartialEq, Eq)]
pub struct ClientSigned {
    /// The client's public key.
    pub public_key: PublicKey,
    /// The client's signature over the command.
    pub signature: Vec<u8>,
}

/// How the replies to a message are gathered.
#[derive(Clone, Copy, Debug, PartialEq, Eq, Structural)]
pub enum Aggregation {
    /// Each reply travels on its own.
    NoAggregation,
    /// The replies are gathered where they arrive.
    AtDestination,
}

/// Where a message comes from.
#[derive(Clone, Copy, Debug, PartialEq, Eq)]
pub enum SrcLocation {
    /// A client.
    EndUser(EndUser),
    /// The node of this name.
    Node(XorName),
    /// The section nearest to this name.
    Section(XorName),
}

/// Where a message goes.
#[derive(Clone, Copy, Debug, PartialEq, Eq)]
pub enum DstLocation {
    /// A client.
    EndUser(EndUser),
    /// The node of this name.
    Node(XorName),
    /// The section nearest to this name.
    Section(XorName),
}

impl SrcLocation {
    /// The place itself, as where a message goes.
    pub open spec fn spec_to_dst(&self) -> DstLocation {
        match self {
            SrcLocation::EndUser(user) => DstLocation::EndUser(*user),
            SrcLocation::Node(name) => DstLocation::Node(*name),
            SrcLocation::Section(name) => DstLocation::Section(*name),
        }
    }

    /// The place itself, as where a message goes.
    #[verifier::when_used_as_spec(spec_to_dst)]
    pub fn to_dst(&self) -> (r: DstLocation)
        ensures
            r == self.spec_to_dst(),
    {
        match self {
            SrcLocation::EndUser(user) => DstLocation::EndUser(*user),
            SrcLocation::Node(name) => DstLocation::Node(*name),
            SrcLocation::Section(name) => DstLocation::Section(*name),
        }
    }
}

/// A client's query about blobs.
#[derive(Clone, Copy, Debug, PartialEq, Eq)]
pub enum BlobRead {
    /// Fetch the blob at an address.
    Get(BlobAddress),
}

/// A client's command about blobs.
#[derive(Debug, PartialEq, Eq)]
pub enum BlobWrite {
    /// Store a blob.
    New(Blob),
    /// Delete the private blob at an address.
    DeletePrivate(BlobAddress),
}

/// What a command about blobs holds.
pub enum BlobWriteView {
    /// Store a blob.
    New(crate::data::BlobView),
    /// Delete the private blob at an address.
    DeletePrivate(BlobAddress),
}

impl View for BlobWrite {
    type V = BlobWriteView;

    open spec fn view(&self) -> BlobWriteView {
        match self {
            BlobWrite::New(data) => BlobWriteView::New(data@),
            BlobWrite::DeletePrivate(address) => BlobWriteView::DeletePrivate(*address),
        }
    }
}

impl BlobWrite {
    /// The address of the blob that the command is about.
    pub open spec fn spec_dst_address(&self) -> BlobAddress {
        match self {
            BlobWrite::New(data) => data@.address,
            BlobWrite::DeletePrivate(address) => *address,
        }
    }

    /// The address of the blob that the command is about.
    #[verifier::when_used_as_spec(spec_dst_address)]
    pub fn dst_address(&self) -> (r: BlobAddress)
        ensures
            r == self.spec_dst_address(),
    {
        match self {
            BlobWrite::New(data) => *data.address(),
            BlobWrite::DeletePrivate(address) => *address,
        }
    }

    /// A copy of the command.
    pub fn duplicate(&self) -> (r: BlobWrite)
        ensures
            r@ == self@,
    {
        match self {
            BlobWrite::New(data) => BlobWrite::New(data.duplicate()),
            BlobWrite::DeletePrivate(address) => BlobWrite::DeletePrivate(*address),
        }
    }
}

/// Why a command failed.
#[derive(Debug, PartialEq, Eq)]
pub enum CmdError {
    /// A command about data failed.
    Data(ErrorMessage),
}

/// The answer to a query.
#[derive(Debug, PartialEq, Eq)]
pub enum QueryResponse {
    /// The answer to `BlobRead::Get`.
    GetBlob(Result<Blob, ErrorMessage>),
    /// The answer to a query that is not about blobs.
    Other,
}

impl QueryResponse {
    /// Whether the answer carries what was asked for.
    pub open spec fn spec_is_success(&self) -> bool {
        self matches QueryResponse::GetBlob(Ok(_))
    }

    /// Whether the answer carries what was asked for.
    #[verifier::when_used_as_spec(spec_is_success)]
    pub fn is_success(&self) -> (r: bool)
        ensures
            r == self.spec_is_success(),
    {
        match self {
            QueryResponse::GetBlob(Ok(_)) => true,
            _ => false,
        }
    }
}

/// What an adult reports to the elders of a chunk.
#[derive(Debug, PartialEq, Eq)]
pub enum NodeEvent {
    /// A write to a chunk was handled, with this outcome.
    ChunkWriteHandled(Result<(), CmdError>),
}

/// A message to a client or to a section.
#[derive(Debug, PartialEq, Eq)]
pub enum Message {
    /// An adult's report.
    NodeEvent { event: NodeEvent, id: MessageId, correlation_id: MessageId },
    /// The answer to a query.
    QueryResponse { response: QueryResponse, id: MessageId, correlation_id: MessageId },
    /// The failure of a command.
    CmdError { error: CmdError, id: MessageId, correlation_id: MessageId },
}

/// The word that a message could not be handled, sent back to where the
/// message came from.
#[derive(Debug, PartialEq, Eq)]
pub struct ProcessingError {
    /// Why the message could not be handled.
    pub reason: Option<ErrorMessage>,
    /// The message that could not be handled.
    pub source_message: Option<Message>,
    /// The identifier of this word.
    pub id: MessageId,
}

/// What helps the sender of a message that could not be handled to send it
/// again.
#[derive(Debug, PartialEq, Eq)]
pub struct SupportingInfo {
    /// The message that could not be handled.
    pub source_message: Message,
    /// The identifier of this help.
    pub id: MessageId,
    /// The identifier of the word that the message could not be handled.
    pub correlation_id: MessageId,
}

/// What travels between a client and the network.
#[derive(Debug, PartialEq, Eq)]
pub enum ClientMsg {
    /// A message to be handled.
    Process(Message),
    /// The word that a message could not be handled.
    ProcessingError(ProcessingError),
    /// Help for the sender of a message that could not be handled.
    SupportingInfo(SupportingInfo),
}

/// A command of the section itself to an adult.
#[derive(Debug, PartialEq, Eq)]
pub enum NodeSystemCmd {
    /// Store this chunk as a replica.
    ReplicateChunk(Blob),
}

/// A command to an adult.
#[derive(Debug, PartialEq, Eq)]
pub enum NodeCmd {
    /// A client's command about a chunk.
    Chunks { cmd: BlobWrite, client_signed: ClientSigned, origin: EndUser },
    /// A command of the section itself.
    System(NodeSystemCmd),
}

/// A query to an adult.
#[derive(Clone, Copy, Debug, PartialEq, Eq)]
pub enum NodeQuery {
    /// A client's query about a chunk.
    Chunks { query: BlobRead, origin: EndUser },
}

/// A message from an elder to adults.
#[derive(Debug, PartialEq, Eq)]
pub enum NodeMsg {
    /// A command.
    NodeCmd { cmd: NodeCmd, id: MessageId },
    /// A query.
    NodeQuery { query: NodeQuery, id: MessageId },
}

/// The full adults that an elder knows of, as handed to another elder.
#[derive(Debug)]
pub struct BlobDataExchange {
    /// The names of the full adults.
    pub full_adults: NameSet,
}

/// The bytes of the identifier that a reply to the message with the
/// identifier `src` carries.
pub uninterp spec fn response_id(src: Seq<u8>) -> Seq<u8>;

/// `MessageId::in_response_to` of the sn_messaging crate: the identifier of
/// the reply to a message, derived from the identifier of that message
/// alone.
#[verifier::external_body]
fn outside_in_response_to(src: &MessageId) -> (r: MessageId)
    ensures
        r.0@ == response_id(src.0@),
{
    let id = OutsideId::in_response_to(&OutsideId::with(src.0.0));
    MessageId(XorName(*id.as_ref()))
}

/// `MessageId::new` of the sn_messaging crate: an identifier of random
/// bytes, of which nothing is known.
#[verifier::external_body]
pub(crate) fn outside_new_id() -> MessageId {
    MessageId(XorName(*OutsideId::new().as_ref()))
}

/// The bytes of the identifier that stands for the chunk `name` of the owner
/// `owner`, held by `targets`; none where the three have no identifier.
pub uninterp spec fn content_id(
    name: XorName,
    owner: Option<PublicKey>,
    targets: Set<XorName>,
) -> Option<Seq<u8>>;

/// Whether the chunk `name` of the owner `owner`, held by `targets`, has an
/// identifier.
pub open spec fn has_content_id(name: XorName, owner: Option<PublicKey>, targets: Set<XorName>) -> bool {
    content_id(name, owner, targets) is Some
}

/// `MessageId::from_content` of the sn_messaging crate, on a name, an owner
/// and the set of the names in `targets`: an identifier derived from these
/// three alone. Whether there is one depends on them alone too: there is
/// none where a key is not the encoding of a key, or where sn_messaging
/// cannot serialise the three.
#[verifier::external_body]
fn outside_from_content(name: &XorName, owner: &Option<PublicKey>, targets: &Vec<XorName>) -> (r:
    Option<MessageId>)
    ensures
        r matches Some(id) ==> content_id(*name, *owner, targets@.to_set()) == Some(id.0@),
        r is None ==> content_id(*name, *owner, targets@.to_set()) is None,
{
    let owner = match owner {
        Some(PublicKey::Ed25519(b)) => Some(OutsideKey::Ed25519(Ed25519Key::from_bytes(b).ok()?)),
        Some(PublicKey::Bls(b)) => Some(OutsideKey::Bls(BlsKey::from_bytes(b).ok()?)),
        Some(PublicKey::BlsShare(b)) => Some(OutsideKey::BlsShare(BlsKeyShare::from_bytes(b).ok()?)),
        None => None,
    };
    let targets: BTreeSet<OutsideName> = targets.iter().map(|n| OutsideName(n.0)).collect();
    let id = OutsideId::from_content(&(OutsideName(name.0), owner.as_ref(), &targets)).ok()?;
    Some(MessageId(XorName(*id.as_ref())))
}

impl MessageId {
    /// Whether `self` is the identifier that stands for the chunk `name` of
    /// the owner `owner`, held by `targets`.
    pub open spec fn is_from_content(
        &self,
        name: XorName,
        owner: Option<PublicKey>,
        targets: Set<XorName>,
    ) -> bool {
        content_id(name, owner, targets) == Some(self.0@)
    }

    /// The identifier that stands for the chunk `name` of the owner `owner`,
    /// held by `targets`, where the three have one.
    pub fn from_content(name: &XorName, owner: &Option<PublicKey>, targets: &NameSet) -> (r: Option<
        MessageId,
    >)
        ensures
            r is Some <==> has_content_id(*name, *owner, targets@),
            r matches Some(id) ==> id.is_from_content(*name, *owner, targets@),
    {
        let names = targets.to_vec();
        outside_from_content(name, owner, &names)
    }

    /// Whether `self` is the identifier of the reply to the message `to`.
    pub open spec fn is_response_to(&self, to: MessageId) -> bool {
        self.0@ == response_id(to.0@)
    }

    /// The identifier of the reply to the message `src`.
    pub fn in_response_to(src: &MessageId) -> (r: MessageId)
        ensures
            r.is_response_to(*src),
    {
        outside_in_response_to(src)
    }
}

} // verus!

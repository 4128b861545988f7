//! What the node's handlers ask its sender to do.

use crate::messages::{
    Aggregation, ClientMsg, DstLocation, Message, NodeMsg, ProcessingError, SrcLocation,
};
use crate::name::XorName;
use crate::name_set::NameSet;
use vstd::prelude::*;

verus! {

/// A message on its way out, with where it goes.
#[derive(Debug, PartialEq, Eq)]
pub struct OutgoingMsg {
    /// The message.
    pub msg: Message,
    /// Whether the message is sent in the name of the section, not of this
    /// node alone.
    pub section_source: bool,
    /// Where the message goes.
    pub dst: DstLocation,
    /// How the replies are gathered.
    pub aggregation: Aggregation,
}

/// The word that a message could not be handled, on its way back.
#[derive(Debug, PartialEq, Eq)]
pub struct OutgoingLazyError {
    /// The word.
    pub msg: ProcessingError,
    /// Where it goes.
    pub dst: DstLocation,
}

/// A message that the node handles.
#[derive(Debug, PartialEq, Eq)]
pub enum MsgType {
    /// A message between nodes.
    Node(NodeMsg),
    /// A message of a client.
    Client(ClientMsg),
}

/// The message in whose handling an error arose, and where it came from.
#[derive(Debug, PartialEq, Eq)]
pub struct MsgContext {
    /// The message.
    pub msg: MsgType,
    /// Where it came from.
    pub src: SrcLocation,
}

/// What a handler asks the sender to do.
#[derive(Debug)]
pub enum NodeDuty {
    /// Send one message to one destination.
    Send(OutgoingMsg),
    /// Send back the word that a message could not be handled.
    SendError(OutgoingLazyError),
    /// Send one message to each of a set of nodes.
    SendToNodes { targets: NameSet, msg: NodeMsg, aggregation: Aggregation },
    /// Tell the section that these nodes seem to be gone.
    ProposeOffline(Vec<XorName>),
    /// Do nothing.
    NoOp,
}

} // verus!

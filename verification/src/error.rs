//! Errors of the node and the errors that it reports to clients.

use crate::data::{BlobAddress, PublicKey};
use crate::prefix::Prefix;
use vstd::prelude::*;

verus! {

/// What can go wrong inside the node.
#[derive(Debug, PartialEq, Eq)]
pub enum Error {
    /// The chunk is already stored.
    DataExists,
    /// No chunk is stored at the address.
    NoSuchKey,
    /// The store has no room for the chunk.
    NotEnoughSpace,
    /// The requester does not own the blob.
    InvalidOwners(PublicKey),
    /// No adult of the section can take the chunk.
    NoAdults(Prefix),
    /// A message arrived where the protocol has no place for it.
    Logic(String),
    /// The durable store failed.
    Io(String),
}

/// An error as a client sees it.
#[derive(Debug, PartialEq, Eq)]
pub enum ErrorMessage {
    /// The chunk is already stored.
    DataExists,
    /// No chunk is stored at the address.
    NoSuchKey,
    /// The store has no room for the chunk.
    NotEnoughSpace,
    /// The requester does not own the blob.
    InvalidOwners(PublicKey),
    /// The operation is not allowed, or could not be carried out; with the
    /// reason in words.
    InvalidOperation(String),
    /// The chunk could not be deleted.
    FailedToDelete,
    /// No adult of the section can take the chunk.
    NoAdults(Prefix),
    /// No blob was found at the address.
    DataNotFound(BlobAddress),
}

/// The message that tells a client of `error`.
pub open spec fn error_message_of(error: Error) -> ErrorMessage {
    match error {
        Error::DataExists => ErrorMessage::DataExists,
        Error::NoSuchKey => ErrorMessage::NoSuchKey,
        Error::NotEnoughSpace => ErrorMessage::NotEnoughSpace,
        Error::InvalidOwners(key) => ErrorMessage::InvalidOwners(key),
        Error::NoAdults(prefix) => ErrorMessage::NoAdults(prefix),
        Error::Logic(text) => ErrorMessage::InvalidOperation(text),
        Error::Io(text) => ErrorMessage::InvalidOperation(text),
    }
}

/// Turns an error of the node into the message that tells a client of it.
pub fn convert_to_error_message(error: Error) -> (r: ErrorMessage)
    ensures
        r == error_message_of(error),
{
    match error {
        Error::DataExists => ErrorMessage::DataExists,
        Error::NoSuchKey => ErrorMessage::NoSuchKey,
        Error::NotEnoughSpace => ErrorMessage::NotEnoughSpace,
        Error::InvalidOwners(key) => ErrorMessage::InvalidOwners(key),
        Error::NoAdults(prefix) => ErrorMessage::NoAdults(prefix),
        Error::Logic(text) => ErrorMessage::InvalidOperation(text),
        Error::Io(text) => ErrorMessage::InvalidOperation(text),
    }
}

} // verus!

//! What an elder keeps about the chunks of its section.

use crate::messages::{
    Aggregation, CmdError, DstLocation, EndUser, Message, MessageId, QueryResponse,
};
use crate::node_ops::OutgoingMsg;
use vstd::prelude::*;

pub mod adult_liveness;
pub mod adult_ops;
pub mod adult_reader;
pub mod blob_records;
pub mod liveness_laws;
pub mod liveness_model;
pub mod neighbours;

verus! {

/// Whether `out` carries `response` to the client `end_user`, as the answer
/// to the query `correlation_id`.
pub open spec fn is_client_query_response(
    out: OutgoingMsg,
    response: QueryResponse,
    correlation_id: MessageId,
    end_user: EndUser,
) -> bool {
    &&& out.msg matches Message::QueryResponse { response: carried, id, correlation_id: answered }
    &&& carried == response
    &&& answered == correlation_id
    &&& id.is_response_to(correlation_id)
    &&& out.section_source == false
    &&& out.dst == DstLocation::EndUser(end_user)
    &&& out.aggregation == Aggregation::NoAggregation
}

/// Whether `out` carries `error` to the client `end_user`, as the outcome of
/// the command `msg_id`.
pub open spec fn is_client_error_response(
    out: OutgoingMsg,
    error: CmdError,
    msg_id: MessageId,
    end_user: EndUser,
) -> bool {
    &&& out.msg matches Message::CmdError { error: carried, id, correlation_id: answered }
    &&& carried == error
    &&& answered == msg_id
    &&& id.is_response_to(msg_id)
    &&& out.section_source == false
    &&& out.dst == DstLocation::EndUser(end_user)
    &&& out.aggregation == Aggregation::NoAggregation
}

/// The message that carries `response` to the client `end_user`, as the
/// answer to the query `correlation_id`.
pub fn build_client_query_response(
    response: QueryResponse,
    correlation_id: MessageId,
    end_user: EndUser,
) -> (out: OutgoingMsg)
    ensures
        is_client_query_response(out, response, correlation_id, end_user),
{
    OutgoingMsg {
        msg: Message::QueryResponse {
            response,
            id: MessageId::in_response_to(&correlation_id),
            correlation_id,
        },
        section_source: false,
        dst: DstLocation::EndUser(end_user),
        aggregation: Aggregation::NoAggregation,
    }
}

/// The message that carries `error` to the client `end_user`, as the outcome
/// of the command `msg_id`.
pub fn build_client_error_response(error: CmdError, msg_id: MessageId, end_user: EndUser) -> (out:
    OutgoingMsg)
    ensures
        is_client_error_response(out, error, msg_id, end_user),
{
    OutgoingMsg {
        msg: Message::CmdError {
            error,
            id: MessageId::in_response_to(&msg_id),
            correlation_id: msg_id,
        },
        section_source: false,
        dst: DstLocation::EndUser(end_user),
        aggregation: Aggregation::NoAggregation,
    }
}

} // verus!

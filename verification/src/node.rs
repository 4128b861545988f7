//! What the node does about an error that arose in the handling of a
//! message.

use crate::error::{convert_to_error_message, error_message_of, Error};
use crate::messages::{outside_new_id, ClientMsg, MessageId, ProcessingError};
use crate::node_ops::{MsgContext, MsgType, NodeDuty, OutgoingLazyError};
use vstd::prelude::*;

verus! {

/// Whether an error in the handling of the message of `ctx` is told to the
/// sender: it is where the message is known and is a client's message to be
/// handled.
pub open spec fn is_told(ctx: Option<MsgContext>) -> bool {
    ctx matches Some(MsgContext { msg: MsgType::Client(ClientMsg::Process(_)), .. })
}

/// The duty that follows the error `err` in the handling of the message of
/// `ctx`. Where the error is told to the sender, the word goes back to
/// where the message came from, under the identifier `id`, with the
/// message itself and with the error as a client sees it. Else nothing is
/// done.
pub open spec fn error_duty_of(err: Error, ctx: Option<MsgContext>, id: MessageId) -> NodeDuty {
    match ctx {
        Some(MsgContext { msg: MsgType::Client(ClientMsg::Process(msg)), src }) => NodeDuty::SendError(
            OutgoingLazyError {
                msg: ProcessingError {
                    reason: Some(error_message_of(err)),
                    source_message: Some(msg),
                    id,
                },
                dst: src.spec_to_dst(),
            },
        ),
        _ => NodeDuty::NoOp,
    }
}

/// The duty that follows the error `err` in the handling of the message of
/// `ctx`, where the word that goes back is sent under the identifier `id`.
pub fn error_duty(err: Error, ctx: Option<MsgContext>, id: MessageId) -> (duty: NodeDuty)
    ensures
        duty == error_duty_of(err, ctx, id),
{
    match ctx {
        Some(MsgContext { msg: MsgType::Client(ClientMsg::Process(msg)), src }) => NodeDuty::SendError(
            OutgoingLazyError {
                msg: ProcessingError {
                    reason: Some(convert_to_error_message(err)),
                    source_message: Some(msg),
                    id,
                },
                dst: src.to_dst(),
            },
        ),
        _ => NodeDuty::NoOp,
    }
}

/// The duty that follows the error `err` in the handling of the message of
/// `ctx`. Where the error is told to the sender, the word goes back under
/// a new identifier of random bytes.
pub fn try_handle_error(err: Error, ctx: Option<MsgContext>) -> (duty: NodeDuty)
    ensures
        !is_told(ctx) ==> duty is NoOp,
        exists|id: MessageId| duty == error_duty_of(err, ctx, id),
{
    let told = match &ctx {
        Some(MsgContext { msg: MsgType::Client(ClientMsg::Process(_)), .. }) => true,
        _ => false,
    };
    if told {
        let id = outside_new_id();
        let duty = error_duty(err, ctx, id);
        assert(duty == error_duty_of(err, ctx, id));
        duty
    } else {
        let ghost any: MessageId = arbitrary();
        assert(NodeDuty::NoOp == error_duty_of(err, ctx, any));
        NodeDuty::NoOp
    }
}

} // verus!

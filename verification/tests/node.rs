use sn_node::data::{BlobAddress, PublicKey};
use sn_node::error::{Error, ErrorMessage};
use sn_node::messages::{
    Aggregation, BlobRead, ClientMsg, DstLocation, EndUser, Message, MessageId, NodeMsg, NodeQuery,
    ProcessingError, QueryResponse, SrcLocation, SupportingInfo,
};
use sn_node::messaging::{Itinerary, Messaging};
use sn_node::metadata::adult_ops::AdultOps;
use sn_node::name::XorName;
use sn_node::name_set::NameSet;
use sn_node::node::{error_duty, try_handle_error};
use sn_node::node_ops::{MsgContext, MsgType, NodeDuty, OutgoingLazyError};
use sn_node::prefix::Prefix;

fn name(first: u8) -> XorName {
    let mut bytes = [0u8; 32];
    bytes[0] = first;
    XorName(bytes)
}

fn id(n: u8) -> MessageId {
    MessageId(XorName([n; 32]))
}

fn user(n: u8) -> EndUser {
    EndUser { public_key: PublicKey::Ed25519([n; 32]), socket_id: name(n) }
}

fn query_response() -> Message {
    Message::QueryResponse {
        response: QueryResponse::Other,
        id: id(2),
        correlation_id: id(1),
    }
}

fn client_context(src: SrcLocation) -> Option<MsgContext> {
    Some(MsgContext { msg: MsgType::Client(ClientMsg::Process(query_response())), src })
}

#[test]
fn source_becomes_destination() {
    assert_eq!(SrcLocation::EndUser(user(1)).to_dst(), DstLocation::EndUser(user(1)));
    assert_eq!(SrcLocation::Node(name(2)).to_dst(), DstLocation::Node(name(2)));
    assert_eq!(SrcLocation::Section(name(3)).to_dst(), DstLocation::Section(name(3)));
}

#[test]
fn error_without_context_is_dropped() {
    assert!(matches!(try_handle_error(Error::NoSuchKey, None), NodeDuty::NoOp));
    assert!(matches!(error_duty(Error::NoSuchKey, None, id(9)), NodeDuty::NoOp));
}

#[test]
fn error_of_a_message_that_is_not_a_clients_to_handle_is_dropped() {
    let node_msg = NodeMsg::NodeQuery {
        query: NodeQuery::Chunks {
            query: BlobRead::Get(BlobAddress::Public(name(1))),
            origin: user(1),
        },
        id: id(1),
    };
    let from_node = Some(MsgContext { msg: MsgType::Node(node_msg), src: SrcLocation::Node(name(2)) });
    assert!(matches!(try_handle_error(Error::NoSuchKey, from_node), NodeDuty::NoOp));
    let word = ProcessingError { reason: None, source_message: None, id: id(4) };
    let lazy = Some(MsgContext {
        msg: MsgType::Client(ClientMsg::ProcessingError(word)),
        src: SrcLocation::EndUser(user(1)),
    });
    assert!(matches!(error_duty(Error::NoSuchKey, lazy, id(9)), NodeDuty::NoOp));
    let help = SupportingInfo { source_message: query_response(), id: id(5), correlation_id: id(4) };
    let helped = Some(MsgContext {
        msg: MsgType::Client(ClientMsg::SupportingInfo(help)),
        src: SrcLocation::EndUser(user(1)),
    });
    assert!(matches!(try_handle_error(Error::NoSuchKey, helped), NodeDuty::NoOp));
}

#[test]
fn error_of_a_clients_message_goes_back_to_the_client() {
    let duty = error_duty(Error::DataExists, client_context(SrcLocation::EndUser(user(7))), id(9));
    match duty {
        NodeDuty::SendError(out) => assert_eq!(
            out,
            OutgoingLazyError {
                msg: ProcessingError {
                    reason: Some(ErrorMessage::DataExists),
                    source_message: Some(query_response()),
                    id: id(9),
                },
                dst: DstLocation::EndUser(user(7)),
            }
        ),
        other => panic!("unexpected duty {:?}", other),
    }
}

#[test]
fn handled_error_gets_a_new_id_each_time() {
    let mut ids = Vec::new();
    for _ in 0..2 {
        let ctx = client_context(SrcLocation::Section(name(3)));
        match try_handle_error(Error::Logic("out of place".to_owned()), ctx) {
            NodeDuty::SendError(out) => {
                assert_eq!(out.dst, DstLocation::Section(name(3)));
                assert_eq!(
                    out.msg.reason,
                    Some(ErrorMessage::InvalidOperation("out of place".to_owned()))
                );
                assert_eq!(out.msg.source_message, Some(query_response()));
                ids.push(out.msg.id);
            }
            other => panic!("unexpected duty {:?}", other),
        }
    }
    assert_ne!(ids[0], ids[1]);
}

#[test]
fn messaging_sends_the_word_of_an_error_from_the_node() {
    let messaging = Messaging::new(name(0x80), Prefix { bit_count: 1, name: name(0x80) });
    let duty = error_duty(Error::DataExists, client_context(SrcLocation::EndUser(user(7))), id(9));
    assert_eq!(
        messaging.process(&duty),
        vec![Itinerary {
            src: SrcLocation::Node(name(0x80)),
            dst: DstLocation::EndUser(user(7)),
            aggregation: Aggregation::NoAggregation,
        }]
    );
}

#[test]
fn adult_ops_tells_how_many_replies_an_adult_owes() {
    let mut ops = AdultOps::new();
    assert_eq!(ops.pending_op_count(&name(1)), 0);
    let address = BlobAddress::Public(name(0x10));
    assert!(ops.new_read(id(1), address, user(1), NameSet::from_vec(&vec![name(1), name(2)])));
    assert!(ops.new_read(id(2), address, user(1), NameSet::from_vec(&vec![name(1)])));
    assert_eq!(ops.pending_op_count(&name(1)), 2);
    assert_eq!(ops.pending_op_count(&name(2)), 1);
    ops.remove_target(id(2), name(1));
    assert_eq!(ops.pending_op_count(&name(1)), 1);
}

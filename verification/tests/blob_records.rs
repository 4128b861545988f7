use sn_node::data::{Blob, BlobAddress, PrivateBlob, PublicBlob, PublicKey};
use sn_node::error::{Error, ErrorMessage};
use sn_node::messages::{
    Aggregation, BlobDataExchange, BlobRead, BlobWrite, ClientSigned, CmdError, DstLocation,
    EndUser, Message, MessageId, NodeCmd, NodeMsg, NodeQuery, NodeSystemCmd, QueryResponse,
    SrcLocation,
};
use sn_node::messaging::{Itinerary, Messaging};
use sn_node::metadata::adult_reader::AdultReader;
use sn_node::metadata::blob_records::{
    replicate_chunk_duty, validate_data_owner, AdultsStorageInfo, BlobRecords, CHUNK_COPY_COUNT,
};
use sn_node::metadata::{build_client_error_response, build_client_query_response};
use sn_node::name::XorName;
use sn_node::name_set::NameSet;
use sn_node::node_ops::{NodeDuty, OutgoingMsg};
use sn_node::prefix::Prefix;

fn name(first: u8) -> XorName {
    let mut bytes = [0u8; 32];
    bytes[0] = first;
    XorName(bytes)
}

fn id(n: u32) -> MessageId {
    let mut bytes = [0u8; 32];
    bytes[28..].copy_from_slice(&n.to_be_bytes());
    MessageId(XorName(bytes))
}

fn set(names: &[XorName]) -> NameSet {
    NameSet::from_vec(&names.to_vec())
}

fn sorted(mut names: Vec<XorName>) -> Vec<XorName> {
    names.sort();
    names
}

fn key(n: u8) -> PublicKey {
    PublicKey::Ed25519([n; 32])
}

fn user(n: u8) -> EndUser {
    EndUser { public_key: key(n), socket_id: name(n) }
}

fn signed(n: u8) -> ClientSigned {
    ClientSigned { public_key: key(n), signature: vec![n; 4] }
}

fn prefix() -> Prefix {
    Prefix { bit_count: 0, name: name(0) }
}

const A: u8 = 0x80;
const B: u8 = 0x11;
const C: u8 = 0x12;
const D: u8 = 0x14;
const E: u8 = 0x18;
const F: u8 = 0x30;

fn chunk() -> BlobAddress {
    BlobAddress::Public(name(0x10))
}

fn records(adults: &[u8], full: &[u8]) -> BlobRecords {
    let adults: Vec<XorName> = adults.iter().map(|b| name(*b)).collect();
    let full: Vec<XorName> = full.iter().map(|b| name(*b)).collect();
    BlobRecords::new(
        AdultsStorageInfo { full_adults: set(&full) },
        AdultReader::new(prefix(), set(&adults)),
    )
}

fn error_of(duty: NodeDuty, msg_id: MessageId, origin: EndUser) -> ErrorMessage {
    match duty {
        NodeDuty::Send(out) => {
            assert!(!out.section_source);
            assert_eq!(out.dst, DstLocation::EndUser(origin));
            assert_eq!(out.aggregation, Aggregation::NoAggregation);
            match out.msg {
                Message::CmdError { error: CmdError::Data(error), id, correlation_id } => {
                    assert_eq!(correlation_id, msg_id);
                    assert_eq!(id, MessageId::in_response_to(&msg_id));
                    error
                }
                other => panic!("unexpected message {:?}", other),
            }
        }
        other => panic!("unexpected duty {:?}", other),
    }
}

fn fan_out(duty: NodeDuty) -> (Vec<XorName>, NodeMsg, Aggregation) {
    match duty {
        NodeDuty::SendToNodes { targets, msg, aggregation } => (sorted(targets.to_vec()), msg, aggregation),
        other => panic!("unexpected duty {:?}", other),
    }
}

#[test]
fn chunk_copy_count_is_four() {
    assert_eq!(CHUNK_COPY_COUNT, 4);
}

#[test]
fn reader_chooses_the_nearest_adults_that_are_not_full() {
    let reader = AdultReader::new(prefix(), set(&[name(A), name(F), name(E), name(D), name(C), name(B)]));
    assert_eq!(reader.our_prefix(), prefix());
    assert_eq!(
        reader.non_full_adults_closest_to(&name(0x10), &NameSet::new(), 4),
        vec![name(B), name(C), name(D), name(E)]
    );
    assert_eq!(
        reader.non_full_adults_closest_to(&name(0x10), &set(&[name(C), name(B)]), 3),
        vec![name(D), name(E), name(F)]
    );
    assert_eq!(
        reader.non_full_adults_closest_to(&name(0x10), &set(&[name(C)]), 9),
        vec![name(B), name(D), name(E), name(F), name(A)]
    );
    assert!(reader.non_full_adults_closest_to(&name(0x10), &NameSet::new(), 0).is_empty());
}

#[test]
fn write_goes_to_the_four_nearest_adults() {
    let mut records = records(&[A, B, C, D, E, F], &[]);
    let blob = Blob::Public(PublicBlob::new(vec![1, 2, 3]));
    let name_of_blob = blob.name();
    let expected = records.get_holders_for_chunk(&name_of_blob);
    assert_eq!(expected.len(), 4);
    let duty = records.write(BlobWrite::New(blob.duplicate()), id(1), signed(1), user(1)).unwrap();
    let (targets, msg, aggregation) = fan_out(duty);
    assert_eq!(targets, sorted(expected));
    assert_eq!(aggregation, Aggregation::AtDestination);
    assert_eq!(
        msg,
        NodeMsg::NodeCmd {
            cmd: NodeCmd::Chunks { cmd: BlobWrite::New(blob), client_signed: signed(1), origin: user(1) },
            id: id(1),
        }
    );
}

#[test]
fn holders_are_nearest_first() {
    let records = records(&[A, B, C, D, E, F], &[]);
    assert_eq!(
        records.get_holders_for_chunk(&name(0x10)),
        vec![name(B), name(C), name(D), name(E)]
    );
}

#[test]
fn write_is_dispatched_again_on_redelivery() {
    let mut records = records(&[A, B, C, D, E, F], &[]);
    let address = BlobAddress::Private(name(0x10));
    for _ in 0..2 {
        let duty = records
            .write(BlobWrite::DeletePrivate(address), id(1), signed(1), user(1))
            .unwrap();
        let (targets, msg, aggregation) = fan_out(duty);
        assert_eq!(targets, vec![name(B), name(C), name(D), name(E)]);
        assert_eq!(aggregation, Aggregation::AtDestination);
        assert_eq!(
            msg,
            NodeMsg::NodeCmd {
                cmd: NodeCmd::Chunks {
                    cmd: BlobWrite::DeletePrivate(address),
                    client_signed: signed(1),
                    origin: user(1),
                },
                id: id(1),
            }
        );
    }
}

#[test]
fn write_excludes_full_adults() {
    let mut records = records(&[A, B, C, D, E, F], &[C, F]);
    let duty = records
        .write(BlobWrite::DeletePrivate(BlobAddress::Private(name(0x10))), id(1), signed(1), user(1))
        .unwrap();
    let (targets, _, _) = fan_out(duty);
    assert_eq!(targets, sorted(vec![name(B), name(D), name(E), name(A)]));
}

#[test]
fn write_without_adults_tells_the_client() {
    let mut records = records(&[B, C], &[B, C]);
    let duty = records
        .write(BlobWrite::DeletePrivate(BlobAddress::Private(name(0x10))), id(1), signed(1), user(1))
        .unwrap();
    assert_eq!(error_of(duty, id(1), user(1)), ErrorMessage::NoAdults(prefix()));
    let blob = Blob::Public(PublicBlob::new(vec![1]));
    let duty = records.write(BlobWrite::New(blob), id(2), signed(1), user(1)).unwrap();
    assert_eq!(error_of(duty, id(2), user(1)), ErrorMessage::NoAdults(prefix()));
}

#[test]
fn private_blob_of_another_owner_is_refused() {
    let mut records = records(&[A, B, C, D, E, F], &[]);
    let blob = Blob::Private(PrivateBlob::new(vec![1, 2], key(7)));
    assert_eq!(validate_data_owner(&blob, &key(7)), Ok(()));
    assert_eq!(validate_data_owner(&blob, &key(8)), Err(Error::InvalidOwners(key(8))));
    assert_eq!(validate_data_owner(&Blob::Public(PublicBlob::new(vec![1])), &key(8)), Ok(()));
    let duty = records.write(BlobWrite::New(blob.duplicate()), id(1), signed(8), user(8)).unwrap();
    assert_eq!(error_of(duty, id(1), user(8)), ErrorMessage::InvalidOwners(key(8)));
    let duty = records.write(BlobWrite::New(blob), id(1), signed(7), user(8)).unwrap();
    let (targets, _, _) = fan_out(duty);
    assert_eq!(targets.len(), 4);
}

#[test]
fn read_includes_full_adults() {
    let mut records = records(&[A, B, C, D, E, F], &[F]);
    let duty = records.read(&BlobRead::Get(chunk()), id(1), user(1)).unwrap();
    let (targets, msg, aggregation) = fan_out(duty);
    assert_eq!(targets, sorted(vec![name(B), name(C), name(D), name(E), name(F)]));
    assert_eq!(aggregation, Aggregation::NoAggregation);
    assert_eq!(
        msg,
        NodeMsg::NodeQuery {
            query: NodeQuery::Chunks { query: BlobRead::Get(chunk()), origin: user(1) },
            id: id(1),
        }
    );
    let again = records.read(&BlobRead::Get(chunk()), id(1), user(1)).unwrap();
    assert!(matches!(again, NodeDuty::NoOp));
}

#[test]
fn read_asks_full_adults_that_are_no_adults_of_the_reader() {
    let mut records = records(&[B], &[0x77]);
    let duty = records.read(&BlobRead::Get(chunk()), id(1), user(1)).unwrap();
    let (targets, _, _) = fan_out(duty);
    assert_eq!(targets, sorted(vec![name(B), name(0x77)]));
}

#[test]
fn read_without_adults_tells_the_client() {
    let mut records = records(&[], &[]);
    let duty = records.read(&BlobRead::Get(chunk()), id(1), user(1)).unwrap();
    assert_eq!(error_of(duty, id(1), user(1)), ErrorMessage::NoAdults(prefix()));
    let duty = records.read(&BlobRead::Get(chunk()), id(1), user(1)).unwrap();
    assert_eq!(error_of(duty, id(1), user(1)), ErrorMessage::NoAdults(prefix()));
}

fn found(blob: &Blob) -> QueryResponse {
    QueryResponse::GetBlob(Ok(blob.duplicate()))
}

fn not_found() -> QueryResponse {
    QueryResponse::GetBlob(Err(ErrorMessage::DataNotFound(chunk())))
}

fn forwarded(duties: Vec<NodeDuty>, response: QueryResponse, msg_id: MessageId, origin: EndUser) {
    assert_eq!(duties.len(), 1);
    match &duties[0] {
        NodeDuty::Send(out) => assert_eq!(
            out,
            &OutgoingMsg {
                msg: Message::QueryResponse {
                    response,
                    id: MessageId::in_response_to(&msg_id),
                    correlation_id: msg_id,
                },
                section_source: false,
                dst: DstLocation::EndUser(origin),
                aggregation: Aggregation::NoAggregation,
            }
        ),
        other => panic!("unexpected duty {:?}", other),
    }
}

#[test]
fn read_with_one_full_adult() {
    let mut records = records(&[A, B, C, D, E, F], &[F]);
    let blob = Blob::Public(PublicBlob::new(vec![1, 2, 3]));
    let duty = records.read(&BlobRead::Get(chunk()), id(1), user(1)).unwrap();
    assert_eq!(fan_out(duty).0.len(), 5);
    let duties = records.record_adult_read_liveness(id(1), found(&blob), name(B)).unwrap();
    forwarded(duties, found(&blob), id(1), user(1));
    let duties = records.record_adult_read_liveness(id(1), not_found(), name(F)).unwrap();
    assert!(duties.is_empty());
    for adult in [C, D, E] {
        let duties = records.record_adult_read_liveness(id(1), found(&blob), name(adult)).unwrap();
        forwarded(duties, found(&blob), id(1), user(1));
    }
    let late = records.record_adult_read_liveness(id(1), found(&blob), name(B)).unwrap();
    assert!(late.is_empty());
    let duty = records.read(&BlobRead::Get(chunk()), id(1), user(1)).unwrap();
    assert_eq!(fan_out(duty).0.len(), 5);
}

#[test]
fn failure_of_an_adult_that_is_not_full_is_passed_on() {
    let mut records = records(&[B, C, F], &[F]);
    let blob = Blob::Public(PublicBlob::new(vec![1, 2, 3]));
    let _ = records.read(&BlobRead::Get(chunk()), id(1), user(1)).unwrap();
    let duties = records.record_adult_read_liveness(id(1), not_found(), name(B)).unwrap();
    forwarded(duties, not_found(), id(1), user(1));
    let duties = records.record_adult_read_liveness(id(1), found(&blob), name(F)).unwrap();
    forwarded(duties, found(&blob), id(1), user(1));
}

#[test]
fn answer_that_is_not_about_a_blob_is_a_logic_error() {
    let mut records = records(&[B, C], &[]);
    let _ = records.read(&BlobRead::Get(chunk()), id(1), user(1)).unwrap();
    let result = records.record_adult_read_liveness(id(1), QueryResponse::Other, name(B));
    assert_eq!(
        result.err(),
        Some(Error::Logic(
            "Got Other, but only `GetBlob` query responses are supposed to exist in this flow."
                .to_owned()
        ))
    );
    let blob = Blob::Public(PublicBlob::new(vec![1]));
    let duties = records.record_adult_read_liveness(id(1), found(&blob), name(B)).unwrap();
    forwarded(duties, found(&blob), id(1), user(1));
    assert!(!QueryResponse::Other.is_success());
    assert!(found(&blob).is_success());
    assert!(!not_found().is_success());
}

#[test]
fn lagging_adult_is_proposed_offline() {
    let mut records = records(&[B, C, D], &[]);
    let blob = Blob::Public(PublicBlob::new(vec![1]));
    for n in 0..140 {
        let duty = records.read(&BlobRead::Get(chunk()), id(n), user(1)).unwrap();
        assert_eq!(fan_out(duty).0, vec![name(B), name(C), name(D)]);
    }
    for n in 0..126 {
        for adult in [C, D] {
            let duties = records.record_adult_read_liveness(id(n), found(&blob), name(adult)).unwrap();
            forwarded(duties, found(&blob), id(n), user(1));
        }
    }
    let duties = records.record_adult_read_liveness(id(126), found(&blob), name(C)).unwrap();
    forwarded(duties, found(&blob), id(126), user(1));
    let mut duties = records.record_adult_read_liveness(id(126), found(&blob), name(D)).unwrap();
    assert_eq!(duties.len(), 2);
    match duties.remove(1) {
        NodeDuty::ProposeOffline(names) => assert_eq!(names, vec![name(B)]),
        other => panic!("unexpected duty {:?}", other),
    }
    forwarded(duties, found(&blob), id(126), user(1));
    let mut duties = records.record_adult_read_liveness(id(200), found(&blob), name(A)).unwrap();
    assert_eq!(duties.len(), 1);
    match duties.remove(0) {
        NodeDuty::ProposeOffline(names) => assert_eq!(names, vec![name(B)]),
        other => panic!("unexpected duty {:?}", other),
    }
}

#[test]
fn republish_goes_to_the_holders_without_aggregation() {
    let mut records = records(&[A, B, C, D, E, F], &[B]);
    let owner = threshold_crypto::SecretKey::random().public_key();
    let blob = Blob::Private(PrivateBlob::new(vec![1, 2], PublicKey::Bls(owner.to_bytes())));
    let holders = records.get_holders_for_chunk(&blob.name());
    let expected = sn_messaging::MessageId::from_content(&(
        xor_name::XorName(blob.name().0),
        Some(sn_data_types::PublicKey::from(owner)),
        holders.iter().map(|n| xor_name::XorName(n.0)).collect::<std::collections::BTreeSet<_>>(),
    ))
    .unwrap();
    let duty = records.republish_chunk(blob.duplicate()).unwrap();
    let (targets, msg, aggregation) = fan_out(duty);
    assert_eq!(targets, sorted(holders));
    assert!(!targets.contains(&name(B)));
    assert_eq!(aggregation, Aggregation::NoAggregation);
    assert_eq!(
        msg,
        NodeMsg::NodeCmd {
            cmd: NodeCmd::System(NodeSystemCmd::ReplicateChunk(blob.duplicate())),
            id: MessageId(XorName(*expected.as_ref())),
        }
    );
    let again = records.republish_chunk(blob).unwrap();
    assert_eq!(fan_out(again).1, msg);
}

#[test]
fn republish_of_a_public_blob_has_an_id_without_owner() {
    let mut records = records(&[A, B], &[]);
    let blob = Blob::Public(PublicBlob::new(vec![1, 2]));
    let holders = records.get_holders_for_chunk(&blob.name());
    let none: Option<sn_data_types::PublicKey> = None;
    let expected = sn_messaging::MessageId::from_content(&(
        xor_name::XorName(blob.name().0),
        none,
        holders.iter().map(|n| xor_name::XorName(n.0)).collect::<std::collections::BTreeSet<_>>(),
    ))
    .unwrap();
    let duty = records.republish_chunk(blob).unwrap();
    match fan_out(duty).1 {
        NodeMsg::NodeCmd { id, .. } => assert_eq!(&id.0 .0, expected.as_ref()),
        other => panic!("unexpected message {:?}", other),
    }
}

#[test]
fn replicate_chunk_duty_needs_a_message_id() {
    let blob = Blob::Public(PublicBlob::new(vec![1, 2]));
    let duty = replicate_chunk_duty(blob.duplicate(), set(&[name(C), name(B)]), Some(id(7))).unwrap();
    match duty {
        NodeDuty::SendToNodes { targets, msg, aggregation } => {
            assert_eq!(targets.to_vec(), vec![name(C), name(B)]);
            assert_eq!(aggregation, Aggregation::NoAggregation);
            assert_eq!(
                msg,
                NodeMsg::NodeCmd {
                    cmd: NodeCmd::System(NodeSystemCmd::ReplicateChunk(blob.duplicate())),
                    id: id(7),
                }
            );
        }
        other => panic!("unexpected duty {:?}", other),
    }
    assert_eq!(
        replicate_chunk_duty(blob, set(&[name(C)]), None).err(),
        Some(Error::Logic("no message id can be derived for the chunk".to_owned()))
    );
}

#[test]
fn republish_fails_where_the_owner_is_no_key() {
    let mut records = records(&[A, B], &[]);
    let blob = Blob::Private(PrivateBlob::new(vec![1, 2], PublicKey::Bls([0xffu8; 48])));
    assert!(matches!(records.republish_chunk(blob), Err(Error::Logic(_))));
}

#[test]
fn message_id_from_content_depends_on_every_part() {
    let targets = set(&[name(B), name(C)]);
    let swapped = set(&[name(C), name(B)]);
    let first = MessageId::from_content(&name(1), &None, &targets).unwrap();
    assert_eq!(MessageId::from_content(&name(1), &None, &swapped), Some(first));
    assert_ne!(MessageId::from_content(&name(2), &None, &targets), Some(first));
    assert_ne!(MessageId::from_content(&name(1), &None, &set(&[name(B)])), Some(first));
    let owner = threshold_crypto::SecretKey::random().public_key().to_bytes();
    let owned = MessageId::from_content(&name(1), &Some(PublicKey::Bls(owner)), &targets).unwrap();
    assert_ne!(owned, first);
    assert_ne!(first.0, name(1));
}

#[test]
fn full_node_accounting() {
    let mut records = records(&[A, B, C, D, E, F], &[]);
    assert_eq!(records.increase_full_node_count(PublicKey::Ed25519(name(B).0)), Ok(()));
    assert_eq!(
        records.get_holders_for_chunk(&name(0x10)),
        vec![name(C), name(D), name(E), name(F)]
    );
    assert_eq!(records.decrease_full_node_count_if_present(name(C)), Ok(()));
    assert_eq!(records.decrease_full_node_count_if_present(name(B)), Ok(()));
    assert_eq!(
        records.get_holders_for_chunk(&name(0x10)),
        vec![name(B), name(C), name(D), name(E)]
    );
}

#[test]
fn state_exchange_by_prefix() {
    let mut records = records(&[A, B, C, D, E, F], &[A, B, F]);
    let upper = Prefix { bit_count: 1, name: name(0x80) };
    let lower = Prefix { bit_count: 1, name: name(0x00) };
    assert_eq!(records.get_data_of(upper).full_adults.to_vec(), vec![name(A)]);
    assert_eq!(sorted(records.get_data_of(lower).full_adults.to_vec()), vec![name(B), name(F)]);
    assert_eq!(records.get_data_of(prefix()).full_adults.len(), 3);
    assert_eq!(records.update(BlobDataExchange { full_adults: set(&[name(C), name(A)]) }), Ok(()));
    assert_eq!(
        sorted(records.get_data_of(prefix()).full_adults.to_vec()),
        sorted(vec![name(A), name(B), name(C), name(F)])
    );
}

#[test]
fn retain_members_only_forgets_full_adults_and_targets() {
    let mut records = records(&[B, C, D], &[C, F]);
    let duty = records.read(&BlobRead::Get(chunk()), id(1), user(1)).unwrap();
    assert_eq!(fan_out(duty).0, sorted(vec![name(B), name(C), name(D), name(F)]));
    assert_eq!(records.retain_members_only(set(&[name(B), name(C)])), Ok(()));
    assert_eq!(records.get_data_of(prefix()).full_adults.to_vec(), vec![name(C)]);
    let blob = Blob::Public(PublicBlob::new(vec![1]));
    for adult in [B, C] {
        let duties = records.record_adult_read_liveness(id(1), found(&blob), name(adult)).unwrap();
        forwarded(duties, found(&blob), id(1), user(1));
    }
    let late = records.record_adult_read_liveness(id(1), found(&blob), name(D)).unwrap();
    assert!(late.is_empty());
}

#[test]
fn set_reader_replaces_the_adults() {
    let mut records = records(&[B, C], &[]);
    let wide = Prefix { bit_count: 1, name: name(0) };
    records.set_reader(AdultReader::new(wide, set(&[name(D)])));
    assert_eq!(records.get_holders_for_chunk(&name(0x10)), vec![name(D)]);
    records.set_reader(AdultReader::new(wide, NameSet::new()));
    let duty = records.read(&BlobRead::Get(chunk()), id(1), user(1)).unwrap();
    assert_eq!(error_of(duty, id(1), user(1)), ErrorMessage::NoAdults(wide));
}

#[test]
fn send_error_addresses_the_client() {
    let records = records(&[B], &[]);
    let duty = records.send_error(Error::NoSuchKey, id(3), user(2)).unwrap();
    assert_eq!(error_of(duty, id(3), user(2)), ErrorMessage::NoSuchKey);
}

#[test]
fn client_responses_are_stamped() {
    let response = build_client_query_response(not_found(), id(4), user(2));
    assert_eq!(
        response,
        OutgoingMsg {
            msg: Message::QueryResponse {
                response: not_found(),
                id: MessageId::in_response_to(&id(4)),
                correlation_id: id(4),
            },
            section_source: false,
            dst: DstLocation::EndUser(user(2)),
            aggregation: Aggregation::NoAggregation,
        }
    );
    let error = build_client_error_response(CmdError::Data(ErrorMessage::FailedToDelete), id(4), user(2));
    assert_eq!(
        error,
        OutgoingMsg {
            msg: Message::CmdError {
                error: CmdError::Data(ErrorMessage::FailedToDelete),
                id: MessageId::in_response_to(&id(4)),
                correlation_id: id(4),
            },
            section_source: false,
            dst: DstLocation::EndUser(user(2)),
            aggregation: Aggregation::NoAggregation,
        }
    );
}

#[test]
fn messaging_plans_one_journey_for_each_target() {
    let messaging = Messaging::new(name(A), Prefix { bit_count: 1, name: name(0x80) });
    let reply = build_client_query_response(not_found(), id(4), user(2));
    assert_eq!(
        messaging.process(&NodeDuty::Send(reply)),
        vec![Itinerary {
            src: SrcLocation::Node(name(A)),
            dst: DstLocation::EndUser(user(2)),
            aggregation: Aggregation::NoAggregation,
        }]
    );
    let mut from_section = build_client_query_response(not_found(), id(4), user(2));
    from_section.section_source = true;
    from_section.dst = DstLocation::Section(name(C));
    from_section.aggregation = Aggregation::AtDestination;
    assert_eq!(
        messaging.process(&NodeDuty::Send(from_section)),
        vec![Itinerary {
            src: SrcLocation::Section(name(0x80)),
            dst: DstLocation::Section(name(C)),
            aggregation: Aggregation::AtDestination,
        }]
    );
    let fan_out = NodeDuty::SendToNodes {
        targets: set(&[name(C), name(B)]),
        msg: NodeMsg::NodeQuery {
            query: NodeQuery::Chunks { query: BlobRead::Get(chunk()), origin: user(1) },
            id: id(1),
        },
        aggregation: Aggregation::AtDestination,
    };
    assert_eq!(
        messaging.process(&fan_out),
        vec![
            Itinerary {
                src: SrcLocation::Node(name(A)),
                dst: DstLocation::Node(name(C)),
                aggregation: Aggregation::AtDestination,
            },
            Itinerary {
                src: SrcLocation::Node(name(A)),
                dst: DstLocation::Node(name(B)),
                aggregation: Aggregation::AtDestination,
            },
        ]
    );
    assert!(messaging.process(&NodeDuty::ProposeOffline(vec![name(B)])).is_empty());
    assert!(messaging.process(&NodeDuty::NoOp).is_empty());
}

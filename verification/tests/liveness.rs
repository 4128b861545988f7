use sn_node::data::{BlobAddress, PublicKey};
use sn_node::messages::{BlobWrite, EndUser, MessageId};
use sn_node::metadata::adult_liveness::AdultLiveness;
use sn_node::metadata::adult_ops::AdultOps;
use sn_node::metadata::neighbours::nearest_neighbours;
use sn_node::name::XorName;
use sn_node::name_set::NameSet;

fn name(first: u8) -> XorName {
    let mut bytes = [0u8; 32];
    bytes[0] = first;
    XorName(bytes)
}

fn id(n: u32) -> MessageId {
    let mut bytes = [0u8; 32];
    bytes[28..].copy_from_slice(&n.to_be_bytes());
    MessageId(XorName(bytes))
}

fn set(names: &[XorName]) -> NameSet {
    NameSet::from_vec(&names.to_vec())
}

fn user(n: u8) -> EndUser {
    EndUser { public_key: PublicKey::Ed25519([n; 32]), socket_id: name(n) }
}

fn address() -> BlobAddress {
    BlobAddress::Public(name(0x10))
}

const A: u8 = 0x80;
const B: u8 = 0x11;
const C: u8 = 0x12;
const D: u8 = 0x14;
const E: u8 = 0x18;
const F: u8 = 0x30;

fn sorted(mut names: Vec<XorName>) -> Vec<XorName> {
    names.sort();
    names
}

#[test]
fn new_tracker_tracks_nothing() {
    let tracker = AdultLiveness::new();
    assert_eq!(tracker.pending_op_count(&name(7)), 0);
    assert!(tracker.find_unresponsive_adults().is_empty());
    assert!(tracker.tracked_adults().is_empty());
    assert!(!tracker.is_pending(&id(1)));
    assert_eq!(tracker.closest_adults_to(&name(7)), None);
}

#[test]
fn write_completes_after_every_target_replied() {
    let mut tracker = AdultLiveness::new();
    let targets = [name(B), name(C), name(D), name(E)];
    assert!(tracker.new_write(id(1), Some(user(1)), address(), set(&targets)));
    for target in targets {
        assert_eq!(tracker.pending_op_count(&target), 1);
    }
    for (i, target) in targets.iter().enumerate() {
        assert!(tracker.is_pending(&id(1)));
        assert_eq!(
            tracker.record_adult_write_liveness(id(1), *target),
            Some((address(), Some(user(1))))
        );
        assert_eq!(tracker.is_pending(&id(1)), i < 3);
    }
    for target in targets {
        assert_eq!(tracker.pending_op_count(&target), 0);
    }
    assert_eq!(tracker.record_adult_write_liveness(id(1), name(B)), None);
}

#[test]
fn message_id_is_taken_up_once_while_under_way() {
    let mut tracker = AdultLiveness::new();
    assert!(tracker.new_write(id(1), None, address(), set(&[name(B), name(C)])));
    assert!(!tracker.new_write(id(1), None, address(), set(&[name(B), name(D)])));
    assert!(!tracker.new_read(id(1), address(), user(1), set(&[name(E)])));
    assert_eq!(tracker.pending_op_count(&name(B)), 1);
    assert_eq!(tracker.pending_op_count(&name(D)), 0);
    assert_eq!(tracker.pending_op_count(&name(E)), 0);
    assert_eq!(sorted(tracker.targets_of(&id(1)).unwrap()), vec![name(B), name(C)]);
    assert!(tracker.new_read(id(2), address(), user(1), set(&[name(B)])));
    assert_eq!(tracker.pending_op_count(&name(B)), 2);
}

#[test]
fn completed_message_id_is_taken_up_again() {
    let mut tracker = AdultLiveness::new();
    assert!(tracker.new_write(id(1), None, address(), set(&[name(B)])));
    tracker.remove_target(id(1), &name(B));
    assert!(!tracker.is_pending(&id(1)));
    assert!(tracker.new_write(id(1), None, address(), set(&[name(B)])));
    assert_eq!(tracker.pending_op_count(&name(B)), 1);
}

#[test]
fn operation_without_targets_stays_until_a_reply() {
    let mut tracker = AdultLiveness::new();
    assert!(tracker.new_write(id(1), None, address(), NameSet::new()));
    assert!(tracker.is_pending(&id(1)));
    assert!(!tracker.new_write(id(1), None, address(), set(&[name(B)])));
    tracker.remove_target(id(1), &name(B));
    assert!(!tracker.is_pending(&id(1)));
}

#[test]
fn pending_count_is_the_number_of_operations_waiting() {
    let mut tracker = AdultLiveness::new();
    assert!(tracker.new_write(id(1), None, address(), set(&[name(B), name(C)])));
    assert!(tracker.new_read(id(2), address(), user(1), set(&[name(B), name(D)])));
    assert!(tracker.new_read(id(3), address(), user(2), set(&[name(B)])));
    assert_eq!(tracker.pending_op_count(&name(B)), 3);
    assert_eq!(tracker.pending_op_count(&name(C)), 1);
    assert_eq!(tracker.pending_op_count(&name(D)), 1);
    tracker.remove_target(id(2), &name(B));
    assert_eq!(tracker.pending_op_count(&name(B)), 2);
    assert_eq!(tracker.targets_of(&id(2)), Some(vec![name(D)]));
    tracker.remove_target(id(3), &name(B));
    assert_eq!(tracker.pending_op_count(&name(B)), 1);
    assert!(!tracker.is_pending(&id(3)));
    tracker.retain_members_only(set(&[name(B), name(C)]));
    assert_eq!(tracker.pending_op_count(&name(B)), 1);
    assert_eq!(tracker.pending_op_count(&name(C)), 1);
    assert_eq!(tracker.pending_op_count(&name(D)), 0);
    assert!(!tracker.is_pending(&id(2)));
    assert!(tracker.is_pending(&id(1)));
}

#[test]
fn reply_never_takes_the_count_below_zero() {
    let mut tracker = AdultLiveness::new();
    assert!(tracker.new_write(id(1), None, address(), set(&[name(B)])));
    tracker.remove_target(id(9), &name(B));
    assert_eq!(tracker.pending_op_count(&name(B)), 0);
    assert!(tracker.is_pending(&id(1)));
    tracker.remove_target(id(9), &name(B));
    assert_eq!(tracker.pending_op_count(&name(B)), 0);
    tracker.remove_target(id(1), &name(B));
    assert!(!tracker.is_pending(&id(1)));
    assert_eq!(tracker.pending_op_count(&name(B)), 0);
}

#[test]
fn read_liveness_returns_the_read_and_nothing_for_a_write() {
    let mut tracker = AdultLiveness::new();
    assert!(tracker.new_read(id(1), address(), user(3), set(&[name(B), name(C)])));
    assert!(tracker.new_write(id(2), Some(user(4)), address(), set(&[name(B)])));
    assert_eq!(tracker.record_adult_read_liveness(id(1), name(B), true), Some((address(), user(3))));
    assert_eq!(tracker.record_adult_read_liveness(id(1), name(C), false), Some((address(), user(3))));
    assert_eq!(tracker.record_adult_read_liveness(id(1), name(C), true), None);
    assert_eq!(tracker.record_adult_read_liveness(id(2), name(B), true), None);
    assert!(!tracker.is_pending(&id(2)));
    assert!(tracker.new_write(id(3), None, address(), set(&[name(B)])));
    assert_eq!(tracker.record_adult_write_liveness(id(3), name(B)), Some((address(), None)));
    assert!(tracker.new_read(id(4), address(), user(3), set(&[name(B)])));
    assert_eq!(tracker.record_adult_write_liveness(id(4), name(B)), None);
}

#[test]
fn closest_adults_are_the_two_nearest_others() {
    let mut tracker = AdultLiveness::new();
    let all = [name(A), name(B), name(C), name(D), name(E), name(F)];
    assert!(tracker.new_write(id(1), None, address(), set(&all)));
    assert_eq!(sorted(tracker.tracked_adults()), sorted(all.to_vec()));
    assert_eq!(tracker.closest_adults_to(&name(B)), Some(vec![name(C), name(D)]));
    assert_eq!(tracker.closest_adults_to(&name(C)), Some(vec![name(B), name(D)]));
    assert_eq!(tracker.closest_adults_to(&name(D)), Some(vec![name(B), name(C)]));
    assert_eq!(tracker.closest_adults_to(&name(E)), Some(vec![name(B), name(C)]));
    assert_eq!(tracker.closest_adults_to(&name(F)), Some(vec![name(B), name(C)]));
    assert_eq!(tracker.closest_adults_to(&name(A)), Some(vec![name(B), name(C)]));
    tracker.recompute_closest_adults();
    assert_eq!(tracker.closest_adults_to(&name(A)), Some(vec![name(B), name(C)]));
}

#[test]
fn closest_adults_with_fewer_than_two_others() {
    let mut tracker = AdultLiveness::new();
    assert!(tracker.new_write(id(1), None, address(), set(&[name(B)])));
    assert_eq!(tracker.closest_adults_to(&name(B)), Some(vec![]));
    assert!(tracker.new_write(id(2), None, address(), set(&[name(C)])));
    assert_eq!(tracker.closest_adults_to(&name(B)), Some(vec![name(C)]));
    assert_eq!(tracker.closest_adults_to(&name(C)), Some(vec![name(B)]));
}

#[test]
fn nearest_neighbours_sorts_by_distance() {
    let adults = vec![name(A), name(F), name(E), name(D), name(C), name(B)];
    assert_eq!(nearest_neighbours(&name(B), &adults), vec![name(C), name(D)]);
    assert_eq!(nearest_neighbours(&name(0x31), &adults), vec![name(F), name(B)]);
    assert_eq!(nearest_neighbours(&name(B), &vec![name(B)]), Vec::<XorName>::new());
}

fn load(tracker: &mut AdultLiveness, next: &mut u32, adult: u8, count: u32) {
    for _ in 0..count {
        assert!(tracker.new_write(id(*next), None, address(), set(&[name(adult)])));
        *next += 1;
    }
}

#[test]
fn unresponsive_adult_is_flagged_above_both_thresholds() {
    let mut tracker = AdultLiveness::new();
    let mut next = 0;
    load(&mut tracker, &mut next, B, 120);
    load(&mut tracker, &mut next, C, 8);
    load(&mut tracker, &mut next, D, 9);
    assert_eq!(tracker.pending_op_count(&name(B)), 120);
    assert_eq!(tracker.closest_adults_to(&name(B)), Some(vec![name(C), name(D)]));
    assert_eq!(tracker.max_pending_of(&vec![name(C), name(D)]), 9);
    assert!(tracker.find_unresponsive_adults().is_empty());
    load(&mut tracker, &mut next, C, 3);
    load(&mut tracker, &mut next, D, 2);
    load(&mut tracker, &mut next, B, 20);
    assert_eq!(tracker.find_unresponsive_adults(), vec![(name(B), 140)]);
}

#[test]
fn ten_times_the_neighbours_is_not_enough() {
    let mut tracker = AdultLiveness::new();
    let mut next = 0;
    load(&mut tracker, &mut next, B, 110);
    load(&mut tracker, &mut next, C, 11);
    load(&mut tracker, &mut next, D, 11);
    assert!(tracker.find_unresponsive_adults().is_empty());
    load(&mut tracker, &mut next, B, 1);
    assert_eq!(tracker.find_unresponsive_adults(), vec![(name(B), 111)]);
}

#[test]
fn own_load_adds_and_neighbour_load_removes() {
    let mut tracker = AdultLiveness::new();
    let mut next = 0;
    load(&mut tracker, &mut next, B, 111);
    load(&mut tracker, &mut next, C, 11);
    load(&mut tracker, &mut next, D, 11);
    assert_eq!(tracker.find_unresponsive_adults(), vec![(name(B), 111)]);
    load(&mut tracker, &mut next, B, 5);
    assert_eq!(tracker.find_unresponsive_adults(), vec![(name(B), 116)]);
    load(&mut tracker, &mut next, C, 1);
    assert!(tracker.find_unresponsive_adults().is_empty());
    tracker.remove_target(id(next - 1), &name(C));
    assert_eq!(tracker.find_unresponsive_adults(), vec![(name(B), 116)]);
    for k in 0..6 {
        tracker.remove_target(id(k), &name(B));
    }
    assert!(tracker.find_unresponsive_adults().is_empty());
}

#[test]
fn neighbours_at_the_floor_hide_a_lagging_adult() {
    let mut tracker = AdultLiveness::new();
    let mut next = 0;
    load(&mut tracker, &mut next, B, 500);
    load(&mut tracker, &mut next, C, 10);
    load(&mut tracker, &mut next, D, 10);
    assert!(tracker.find_unresponsive_adults().is_empty());
    load(&mut tracker, &mut next, D, 1);
    assert_eq!(tracker.find_unresponsive_adults(), vec![(name(B), 500)]);
}

#[test]
fn section_churn_drops_the_adult_that_left() {
    let mut tracker = AdultLiveness::new();
    assert!(tracker.new_write(id(1), None, address(), set(&[name(B), name(C), name(D), name(E)])));
    assert!(tracker.new_write(id(2), None, address(), set(&[name(C)])));
    assert!(tracker.new_write(id(3), None, address(), set(&[name(A), name(F)])));
    tracker.retain_members_only(set(&[name(A), name(B), name(D), name(E), name(F)]));
    assert_eq!(sorted(tracker.targets_of(&id(1)).unwrap()), vec![name(B), name(D), name(E)]);
    assert!(!tracker.is_pending(&id(2)));
    assert_eq!(tracker.pending_op_count(&name(C)), 0);
    assert_eq!(tracker.closest_adults_to(&name(C)), None);
    assert_eq!(tracker.closest_adults_to(&name(B)), Some(vec![name(D), name(E)]));
    assert_eq!(
        sorted(tracker.tracked_adults()),
        sorted(vec![name(A), name(B), name(D), name(E), name(F)])
    );
    for target in [name(B), name(D), name(E)] {
        assert!(tracker.is_pending(&id(1)));
        tracker.remove_target(id(1), &target);
    }
    assert!(!tracker.is_pending(&id(1)));
    assert!(tracker.is_pending(&id(3)));
}

#[test]
fn churn_without_leavers_changes_nothing() {
    let mut tracker = AdultLiveness::new();
    assert!(tracker.new_write(id(1), None, address(), NameSet::new()));
    assert!(tracker.new_write(id(2), None, address(), set(&[name(B)])));
    tracker.retain_members_only(set(&[name(B), name(C)]));
    assert!(tracker.is_pending(&id(1)));
    assert!(tracker.is_pending(&id(2)));
    tracker.retain_members_only(set(&[name(C)]));
    assert!(!tracker.is_pending(&id(1)));
    assert!(!tracker.is_pending(&id(2)));
    assert!(tracker.tracked_adults().is_empty());
}

#[test]
fn adult_ops_keeps_the_command_of_a_write() {
    let mut ops = AdultOps::new();
    let command = BlobWrite::DeletePrivate(BlobAddress::Private(name(0x10)));
    assert!(ops.new_write(id(1), command.duplicate(), user(1), set(&[name(B), name(C)])));
    assert!(!ops.new_write(id(1), command.duplicate(), user(1), set(&[name(D)])));
    assert!(ops.new_read(id(2), address(), user(2), set(&[name(B)])));
    assert_eq!(ops.process_blob_write_result(id(1), name(B)), Some(command.duplicate()));
    assert_eq!(ops.process_blob_read_result(id(1), name(C)), None);
    assert_eq!(ops.process_blob_write_result(id(1), name(C)), None);
    assert_eq!(ops.process_blob_write_result(id(2), name(B)), None);
    assert!(ops.new_read(id(2), address(), user(2), set(&[name(B)])));
    assert_eq!(ops.process_blob_read_result(id(2), name(B)), Some((address(), user(2))));
    assert!(ops.find_unresponsive_adults().is_empty());
}

#[test]
fn adult_ops_reports_an_adult_six_behind() {
    let mut ops = AdultOps::new();
    let mut next = 0;
    for (adult, count) in [(B, 8), (C, 2), (D, 3)] {
        for _ in 0..count {
            assert!(ops.new_read(id(next), address(), user(1), set(&[name(adult)])));
            next += 1;
        }
    }
    assert!(ops.find_unresponsive_adults().is_empty());
    assert!(ops.new_read(id(next), address(), user(1), set(&[name(B)])));
    assert_eq!(ops.find_unresponsive_adults(), vec![(name(B), 9)]);
    ops.remove_target(id(0), name(B));
    assert!(ops.find_unresponsive_adults().is_empty());
    ops.recompute_closest_adults();
    assert!(ops.find_unresponsive_adults().is_empty());
}

#[test]
fn adult_ops_does_not_report_a_lone_adult() {
    let mut ops = AdultOps::new();
    for n in 0..20 {
        assert!(ops.new_read(id(n), address(), user(1), set(&[name(B)])));
    }
    assert!(ops.find_unresponsive_adults().is_empty());
}

use sn_node::data::{Blob, PrivateBlob, PublicBlob, PublicKey};
use sn_node::messages::MessageId;
use sn_node::name::XorName;
use sn_node::name_map::NameMap;
use sn_node::name_set::NameSet;
use sn_node::prefix::Prefix;
use std::cmp::Ordering;

fn name(first: u8) -> XorName {
    let mut bytes = [0u8; 32];
    bytes[0] = first;
    XorName(bytes)
}

fn name_ending(last: u8) -> XorName {
    let mut bytes = [0u8; 32];
    bytes[31] = last;
    XorName(bytes)
}

#[test]
fn cmp_distance_orders_by_xor() {
    assert_eq!(name_ending(42).cmp_distance(&name_ending(13), &name_ending(13)), Ordering::Equal);
    assert_eq!(name_ending(42).cmp_distance(&name_ending(44), &name_ending(45)), Ordering::Less);
    assert_eq!(name_ending(42).cmp_distance(&name_ending(45), &name_ending(44)), Ordering::Greater);
}

#[test]
fn cmp_distance_agrees_with_xor_name() {
    let samples = [0u8, 1, 2, 3, 0x10, 0x7f, 0x80, 0xfe, 0xff];
    for f in samples {
        for l in samples {
            for r in samples {
                let mut from = [f; 32];
                from[7] = l;
                let mut lhs = [l; 32];
                lhs[3] = r;
                let mut rhs = [r; 32];
                rhs[3] = f;
                let expected = xor_name::XorName(from)
                    .cmp_distance(&xor_name::XorName(lhs), &xor_name::XorName(rhs));
                assert_eq!(XorName(from).cmp_distance(&XorName(lhs), &XorName(rhs)), expected);
            }
        }
    }
}

#[test]
fn cmp_distance_looks_at_the_first_differing_byte() {
    let from = name(0x10);
    assert_eq!(from.cmp_distance(&name(0x11), &name(0x12)), Ordering::Less);
    assert_eq!(from.cmp_distance(&name(0x12), &name(0x11)), Ordering::Greater);
    assert_eq!(from.cmp_distance(&name(0x12), &name(0x12)), Ordering::Equal);
    let mut far = [0xffu8; 32];
    far[0] = 0x11;
    let mut near = [0u8; 32];
    near[0] = 0x12;
    assert_eq!(from.cmp_distance(&XorName(far), &XorName(near)), Ordering::Less);
}

#[test]
fn names_are_equal_when_all_bytes_are() {
    assert_eq!(name(1), name(1));
    assert_ne!(name(1), name(2));
    assert_ne!(name(1), name_ending(1));
    assert_eq!(MessageId(name(1)), MessageId(name(1)));
    assert_ne!(MessageId(name(1)), MessageId(name_ending(1)));
}

#[test]
fn name_set_holds_each_name_once() {
    let mut set = NameSet::new();
    assert!(set.is_empty());
    assert!(set.insert(name(1)));
    assert!(set.insert(name(2)));
    assert!(!set.insert(name(1)));
    assert_eq!(set.len(), 2);
    assert!(set.contains(&name(2)));
    assert!(!set.contains(&name(3)));
    assert!(set.remove(&name(1)));
    assert!(!set.remove(&name(1)));
    assert_eq!(set.to_vec(), vec![name(2)]);
}

#[test]
fn name_set_from_vec_drops_repetitions() {
    let set = NameSet::from_vec(&vec![name(3), name(1), name(3), name(2), name(1)]);
    assert_eq!(set.to_vec(), vec![name(3), name(1), name(2)]);
    let copy = set.duplicate();
    assert_eq!(copy.to_vec(), set.to_vec());
}

#[test]
fn name_set_union_and_intersection() {
    let mut left = NameSet::from_vec(&vec![name(1), name(2), name(3)]);
    let right = NameSet::from_vec(&vec![name(3), name(4)]);
    assert_eq!(left.intersection(&right).to_vec(), vec![name(3)]);
    assert!(right.intersection(&NameSet::new()).is_empty());
    left.extend(&right);
    assert_eq!(left.to_vec(), vec![name(1), name(2), name(3), name(4)]);
}

#[test]
fn prefix_matches_leading_bits() {
    let prefix = Prefix { bit_count: 3, name: name(0b1010_0000) };
    assert!(prefix.matches(&name(0b1010_0000)));
    assert!(prefix.matches(&name(0b1011_1111)));
    assert!(!prefix.matches(&name(0b1000_0000)));
    assert!(!prefix.matches(&name(0b0010_0000)));
    let empty = Prefix { bit_count: 0, name: name(0xff) };
    assert!(empty.matches(&name(0)));
    let whole = Prefix { bit_count: 256, name: name_ending(1) };
    assert!(whole.matches(&name_ending(1)));
    assert!(!whole.matches(&name_ending(0)));
    let more = Prefix { bit_count: 1000, name: name_ending(1) };
    assert!(more.matches(&name_ending(1)));
    assert!(!more.matches(&name_ending(3)));
}

#[test]
fn prefix_matches_agrees_with_xor_name() {
    let samples = [0u8, 1, 0x0f, 0x10, 0x55, 0x80, 0xaa, 0xf0, 0xff];
    for bit_count in [0usize, 1, 3, 7, 8, 9, 12, 16, 23, 24, 100, 248] {
        for a in samples {
            for b in samples {
                let mut first = [a; 32];
                first[1] = b;
                first[12] = a ^ b;
                let mut second = [a; 32];
                second[1] = a;
                second[12] = b;
                for (p, n) in [(first, second), (first, first), (second, first)] {
                    let expected =
                        xor_name::Prefix::new(bit_count, xor_name::XorName(p)).matches(&xor_name::XorName(n));
                    let prefix = Prefix { bit_count, name: XorName(p) };
                    assert_eq!(prefix.matches(&XorName(n)), expected);
                }
            }
        }
    }
}

#[test]
fn public_blob_address_is_the_digest_of_its_contents() {
    let value = "immutable data value".to_owned().into_bytes();
    let ours = PublicBlob::new(value.clone());
    let theirs = sn_data_types::PublicBlob::new(value.clone());
    assert!(ours.address().is_public());
    assert_eq!(ours.address().name().0, theirs.name().0);
    assert_eq!(ours.value(), &value);
    assert_ne!(ours.address().name().0[..], value[..]);
    let other = PublicBlob::new(vec![1, 2, 3]);
    assert_ne!(other.address().name(), ours.address().name());
}

#[test]
fn private_blob_address_is_the_digest_of_contents_and_owner() {
    let value = "immutable data value".to_owned().into_bytes();
    let key = threshold_crypto::SecretKey::random().public_key();
    let ours = PrivateBlob::new(value.clone(), PublicKey::Bls(key.to_bytes()));
    let theirs = sn_data_types::PrivateBlob::new(value.clone(), sn_data_types::PublicKey::from(key));
    assert!(ours.address().is_private());
    assert_eq!(ours.address().name().0, theirs.name().0);
    assert_eq!(ours.owner(), &PublicKey::Bls(key.to_bytes()));
    let public = PublicBlob::new(value);
    assert_ne!(public.address().name(), ours.address().name());
    let blob = Blob::Private(ours);
    assert!(blob.is_private());
    assert!(!blob.is_public());
    assert_eq!(blob.owner(), Some(&PublicKey::Bls(key.to_bytes())));
    assert_eq!(blob.duplicate(), blob);
}

#[test]
fn key_holder_is_the_first_32_bytes() {
    let bls = threshold_crypto::SecretKey::random().public_key();
    let expected: xor_name::XorName = sn_data_types::PublicKey::from(bls).into();
    assert_eq!(PublicKey::Bls(bls.to_bytes()).to_name().0, expected.0);
    let mut bytes = [0u8; 48];
    for (i, b) in bytes.iter_mut().enumerate() {
        *b = i as u8;
    }
    let holder = PublicKey::BlsShare(bytes).to_name();
    assert_eq!(holder.0[..], bytes[..32]);
    assert_eq!(PublicKey::Ed25519([7u8; 32]).to_name(), XorName([7u8; 32]));
    assert_eq!(PublicKey::Bls(bytes).to_bytes(), bytes.to_vec());
    assert_eq!(PublicKey::Ed25519([7u8; 32]).to_bytes(), vec![7u8; 32]);
}

#[test]
fn ed25519_key_holder_agrees_with_sn_data_types() {
    let secret = ed25519_dalek::SecretKey::from_bytes(&[5u8; 32]).unwrap();
    let public = ed25519_dalek::PublicKey::from(&secret);
    let expected: xor_name::XorName = sn_data_types::PublicKey::from(public).into();
    assert_eq!(PublicKey::Ed25519(public.to_bytes()).to_name().0, expected.0);
}

#[test]
fn public_keys_are_equal_when_kind_and_bytes_are() {
    assert_eq!(PublicKey::Bls([1u8; 48]), PublicKey::Bls([1u8; 48]));
    assert_ne!(PublicKey::Bls([1u8; 48]), PublicKey::BlsShare([1u8; 48]));
    assert_ne!(PublicKey::Bls([1u8; 48]), PublicKey::Bls([2u8; 48]));
    assert_ne!(PublicKey::Ed25519([1u8; 32]), PublicKey::Ed25519([2u8; 32]));
}

#[test]
fn response_id_agrees_with_sn_messaging() {
    let parent = [3u8; 32];
    let expected = sn_messaging::MessageId::in_response_to(&sn_messaging::MessageId::with(parent));
    let ours = MessageId::in_response_to(&MessageId(XorName(parent)));
    assert_eq!(&ours.0 .0, expected.as_ref());
    assert_ne!(ours, MessageId(XorName(parent)));
    let again = MessageId::in_response_to(&MessageId(XorName(parent)));
    assert_eq!(ours, again);
    assert_ne!(MessageId::in_response_to(&ours), ours);
}

#[test]
fn name_map_holds_one_value_for_each_key() {
    let mut map: NameMap<u32> = NameMap::new();
    assert_eq!(map.len(), 0);
    assert_eq!(map.get(&name(1)), None);
    map.insert(name(1), 10);
    map.insert(name(2), 20);
    map.insert(name(1), 11);
    assert_eq!(map.len(), 2);
    assert!(map.contains_key(&name(2)));
    assert!(!map.contains_key(&name(3)));
    assert_eq!(map.get(&name(1)), Some(&11));
    assert_eq!(map.index_of(&name(2)), Some(1));
    assert_eq!(map.key_at(0), name(1));
    assert_eq!(map.value_at(1), &20);
    assert_eq!(map.keys(), vec![name(1), name(2)]);
    assert_eq!(map.remove(&name(1)), Some(11));
    assert_eq!(map.remove(&name(1)), None);
    assert_eq!(map.keys(), vec![name(2)]);
    assert_eq!(map.get(&name(2)), Some(&20));
}

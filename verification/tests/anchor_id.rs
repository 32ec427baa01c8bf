use std::cmp::Ordering;

use amplify::Wrapper;
use bitcoin::hashes::{sha256, HashEngine};
use bp_dbc::{AnchorId, AnchorIdTag, MIDSTATE_ANCHOR_ID};
use commit_verify::tagged_hash;

fn sha256_of(data: &[u8]) -> [u8; 32] {
    let hash: sha256::Hash = bitcoin::hashes::Hash::hash(data);
    bitcoin::hashes::Hash::into_inner(hash)
}

/// SHA-256 of `data` under `tag`, computed from the tag itself.
fn tagged(tag: &[u8], data: &[u8]) -> [u8; 32] {
    let tag_hash = sha256_of(tag);
    let mut engine = sha256::HashEngine::default();
    engine.input(&tag_hash);
    engine.input(&tag_hash);
    engine.input(data);
    let hash: sha256::Hash = bitcoin::hashes::Hash::from_engine(engine);
    bitcoin::hashes::Hash::into_inner(hash)
}

#[test]
fn test_anchor_id_midstate() {
    let midstate = tagged_hash::Midstate::with(b"bp:dbc:anchor");
    assert_eq!(midstate.into_inner().into_inner(), MIDSTATE_ANCHOR_ID);
}

#[test]
fn tag_starts_from_the_midstate() {
    assert_eq!(AnchorIdTag::midstate(), MIDSTATE_ANCHOR_ID);
}

#[test]
fn commit_is_the_tagged_hash_of_the_message() {
    let msg = vec![1u8, 2, 3, 4, 5];
    assert_eq!(AnchorId::commit(&msg).to_bytes(), tagged(b"bp:dbc:anchor", &msg));
    let empty: Vec<u8> = vec![];
    assert_eq!(AnchorId::commit(&empty).to_bytes(), tagged(b"bp:dbc:anchor", &empty));
}

#[test]
fn commit_is_not_the_plain_hash_nor_the_message() {
    let msg = vec![7u8; 32];
    let id = AnchorId::commit(&msg).to_bytes();
    assert_ne!(id.to_vec(), msg);
    assert_ne!(id, sha256_of(&msg));
    assert_ne!(id, tagged(b"LNPBP4", &msg));
}

#[test]
fn commit_is_deterministic() {
    let msg = vec![9u8; 65];
    assert_eq!(AnchorId::commit(&msg), AnchorId::commit(&msg.clone()));
    assert_ne!(AnchorId::commit(&msg), AnchorId::commit(&vec![9u8; 64]));
}

#[test]
fn default_id_is_zero() {
    assert_eq!(AnchorId::default().to_bytes(), [0u8; 32]);
}

#[test]
fn ids_are_ordered_as_their_bytes() {
    let a = AnchorId::commit(&vec![1u8]);
    let b = AnchorId::commit(&vec![2u8]);
    let expected = a.to_bytes().cmp(&b.to_bytes());
    assert_ne!(expected, Ordering::Equal);
    assert_eq!(a.partial_cmp(&b), Some(expected));
    assert_eq!(a.cmp(&b), expected);
    assert_eq!(b.partial_cmp(&a), Some(expected.reverse()));
    assert_eq!(a.partial_cmp(&a), Some(Ordering::Equal));
    assert_eq!(a < b, expected == Ordering::Less);
    assert_eq!(a > b, expected == Ordering::Greater);
    assert!(a == a);
    assert!(a != b);
    assert!(AnchorId::default() <= a);
}

#[test]
fn commit_has_known_values() {
    assert_eq!(
        AnchorId::commit(&vec![]).to_bytes(),
        [
            193, 35, 119, 90, 158, 87, 39, 48, 167, 8, 78, 235, 19, 120, 62, 10, 250, 20, 108,
            153, 192, 125, 149, 62, 88, 5, 29, 182, 143, 36, 170, 111
        ]
    );
    assert_eq!(
        AnchorId::commit(&b"abc".to_vec()).to_bytes(),
        [
            28, 50, 0, 176, 106, 157, 181, 123, 30, 25, 167, 83, 13, 145, 115, 212, 133, 196, 125,
            194, 139, 177, 39, 157, 238, 92, 21, 0, 139, 116, 71, 150
        ]
    );
}

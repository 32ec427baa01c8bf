use std::cmp::Ordering;
use std::collections::BTreeMap;

use amplify::Wrapper;
use bitcoin::hashes::{sha256, HashEngine};
use bitcoin::{PackedLockTime, Script, Transaction, TxOut};
use bp_dbc::lnpbp4::{LeafNotKnown, UnrelatedProof};
use bp_dbc::{Anchor, AnchorId, MergeError, Proof, TapretError, TapretProof, VerifyError};
use commit_verify::lnpbp4::{MerkleBlock, MerkleProof, MerkleTree, MultiSource};
use commit_verify::{CommitConceal, ConsensusCommit, TryCommitVerify};
use strict_encoding::StrictDecode;

fn sha256_of(data: &[u8]) -> [u8; 32] {
    let hash: sha256::Hash = bitcoin::hashes::Hash::hash(data);
    bitcoin::hashes::Hash::into_inner(hash)
}

fn engine_message(bytes: [u8; 32]) -> commit_verify::lnpbp4::Message {
    bitcoin::hashes::Hash::from_inner(bytes)
}

fn protocol(n: u8) -> [u8; 32] {
    let mut id = [0x5au8; 32];
    id[0] = n;
    id
}

fn message(n: u8) -> [u8; 32] {
    sha256_of(&[n])
}

/// A tree of depth 3 with the leaves of protocols 1, 2 and 3.
fn tree() -> MerkleTree {
    let mut messages = BTreeMap::new();
    for n in 1u8..=3 {
        messages.insert(
            commit_verify::lnpbp4::ProtocolId::from_inner(protocol(n)),
            engine_message(message(n)),
        );
    }
    MerkleTree::try_commit(&MultiSource { min_depth: 3, messages }).unwrap()
}

fn anchor_of(tree: &MerkleTree) -> Anchor<MerkleBlock> {
    Anchor { txid: [0x77u8; 32], lnpbp4_proof: MerkleBlock::from(tree), dbc_proof: Proof::OpretFirst }
}

fn merkle_root_of(block: &MerkleBlock) -> [u8; 32] {
    bitcoin::hashes::Hash::into_inner(block.commit_conceal())
}

fn commitment_of(tree: &MerkleTree) -> [u8; 32] {
    bitcoin::hashes::Hash::into_inner(tree.consensus_commit().into_inner())
}

fn tx_with(scripts: Vec<Script>) -> Transaction {
    Transaction {
        version: 2,
        lock_time: PackedLockTime(0),
        input: vec![],
        output: scripts
            .into_iter()
            .map(|script_pubkey| TxOut { value: 0, script_pubkey })
            .collect(),
    }
}

fn no_engine(_: &TapretProof, _: &[u8; 32], _: Transaction) -> Result<bool, TapretError> {
    panic!("a direct-data commitment needs no script-path engine")
}

fn tagged(tag: &[u8], data: &[u8]) -> [u8; 32] {
    let tag_hash = sha256_of(tag);
    let mut engine = sha256::HashEngine::default();
    engine.input(&tag_hash);
    engine.input(&tag_hash);
    engine.input(data);
    let hash: sha256::Hash = bitcoin::hashes::Hash::from_engine(engine);
    bitcoin::hashes::Hash::into_inner(hash)
}

#[test]
fn commit_encoding_is_txid_proof_and_merkle_root() {
    let tree = tree();
    let anchor = anchor_of(&tree);
    let mut expected = vec![0x77u8; 32];
    expected.push(0);
    expected.extend_from_slice(&merkle_root_of(&anchor.lnpbp4_proof));
    assert_eq!(expected.len(), 65);
    assert_eq!(anchor.commit_encode(), expected);

    let mut anchor = anchor;
    anchor.dbc_proof = Proof::TapretFirst(TapretProof { encoded: vec![9, 8, 7] });
    let mut expected = vec![0x77u8; 32];
    expected.extend_from_slice(&[1, 9, 8, 7]);
    expected.extend_from_slice(&merkle_root_of(&anchor.lnpbp4_proof));
    assert_eq!(anchor.commit_encode(), expected);
}

#[test]
fn anchor_id_is_the_tagged_hash_of_the_commit_encoding() {
    let anchor = anchor_of(&tree());
    let encoded = anchor.commit_encode();
    assert_eq!(anchor.anchor_id().to_bytes(), tagged(b"bp:dbc:anchor", &encoded));
    assert_eq!(anchor.anchor_id(), AnchorId::commit(&encoded));
    assert_eq!(anchor.anchor_id(), anchor.clone().anchor_id());
}

#[test]
fn anchor_id_depends_on_txid_proof_and_root() {
    let tree = tree();
    let anchor = anchor_of(&tree);
    let mut other = anchor.clone();
    other.txid = [0x78u8; 32];
    assert_ne!(anchor.anchor_id(), other.anchor_id());
    let mut other = anchor.clone();
    other.dbc_proof = Proof::TapretFirst(TapretProof { encoded: vec![] });
    assert_ne!(anchor.anchor_id(), other.anchor_id());
    // another tree: the entropy differs, and with it the root
    assert_ne!(anchor.anchor_id(), anchor_of(&self::tree()).anchor_id());
}

#[test]
fn concealment_keeps_the_anchor_id() {
    let tree = tree();
    let anchor = anchor_of(&tree);
    let id = anchor.anchor_id();
    let subsets: Vec<Vec<[u8; 32]>> = vec![
        vec![],
        vec![protocol(1)],
        vec![protocol(2), protocol(3)],
        vec![protocol(1), protocol(2), protocol(3)],
    ];
    for kept in subsets {
        let mut concealed = anchor.clone();
        let mut engine_block = anchor.lnpbp4_proof.clone();
        engine_block
            .conceal_except(
                kept.iter()
                    .map(|p| commit_verify::lnpbp4::ProtocolId::from_inner(*p))
                    .collect::<Vec<_>>(),
            )
            .unwrap();
        assert_eq!(concealed.conceal_except(&kept), Ok(3 - kept.len()));
        assert_eq!(concealed.lnpbp4_proof, engine_block);
        assert_eq!(concealed.txid, anchor.txid);
        assert!(concealed.dbc_proof == anchor.dbc_proof);
        assert_eq!(concealed.anchor_id(), id);
        for n in 1u8..=3 {
            assert_eq!(
                concealed.to_merkle_proof(protocol(n)).is_ok(),
                kept.contains(&protocol(n))
            );
        }
    }
}

#[test]
fn concealment_returns_the_number_of_leaves_concealed() {
    let mut anchor = anchor_of(&tree());
    assert_eq!(anchor.conceal_except(&vec![protocol(1)]), Ok(2));
    // nothing is left to conceal
    let once = anchor.clone();
    assert_eq!(anchor.conceal_except(&vec![protocol(1)]), Ok(0));
    assert_eq!(anchor, once);
    // a protocol named twice is counted once
    let mut anchor = anchor_of(&self::tree());
    assert_eq!(anchor.conceal_except(&vec![protocol(2), protocol(3), protocol(2)]), Ok(1));
    assert_eq!(anchor.conceal_except(&vec![]), Ok(2));
    assert_eq!(anchor.conceal_except(&vec![]), Ok(0));
}

#[test]
fn concealment_fails_for_an_unknown_protocol() {
    let anchor = anchor_of(&tree());
    let id = anchor.anchor_id();
    let mut concealed = anchor.clone();
    assert_eq!(concealed.conceal_except(&vec![protocol(1), protocol(9)]), Err(LeafNotKnown));
    // a failure conceals nothing
    assert_eq!(concealed, anchor);
    assert_eq!(concealed.anchor_id(), id);
    // a concealed leaf is no longer known
    let mut concealed = anchor.clone();
    assert_eq!(concealed.conceal_except(&vec![protocol(1)]), Ok(2));
    let once = concealed.clone();
    assert_eq!(concealed.conceal_except(&vec![protocol(2)]), Err(LeafNotKnown));
    assert_eq!(concealed, once);
    assert_eq!(concealed.anchor_id(), id);
}

#[test]
fn blocks_of_the_tree_engine_are_usable() {
    let anchor = anchor_of(&tree());
    assert!(anchor.is_usable());
    let mut concealed = anchor.clone();
    concealed.conceal_except(&vec![protocol(3)]).unwrap();
    assert!(concealed.is_usable());
    let single = anchor.to_merkle_proof(protocol(3)).unwrap();
    assert!(single.to_merkle_block(protocol(3), message(3)).unwrap().is_usable());

    // a block without nodes is no cross-section of a tree
    let mut empty = anchor.clone();
    empty.lnpbp4_proof = MerkleBlock::default();
    assert!(!empty.is_usable());

    // the nodes that the tree engine collects from these two blocks are none
    let mut a = anchor.clone();
    a.conceal_except(&vec![protocol(2)]).unwrap();
    let mut b = anchor.clone();
    b.conceal_except(&vec![protocol(1), protocol(3)]).unwrap();
    a.lnpbp4_proof.merge_reveal(b.lnpbp4_proof).unwrap();
    assert!(!a.is_usable());
}

#[test]
fn single_proof_is_unrelated_exactly_at_another_place() {
    let anchor = anchor_of(&tree());
    let single = anchor.to_merkle_proof(protocol(1)).unwrap();
    for n in 0u8..=40 {
        // the place of a protocol is its first byte modulo the width 8
        let related = n % 8 == 1;
        for m in [1u8, 2, 77] {
            assert_eq!(single.convolve(protocol(n), message(m)).is_ok(), related);
            assert_eq!(single.anchor_id(protocol(n), message(m)).is_ok(), related);
            assert_eq!(single.to_merkle_block(protocol(n), message(m)).is_ok(), related);
            let verified = single.verify(protocol(n), message(m), tx_with(vec![]), no_engine);
            assert_eq!(verified == Err(VerifyError::Lnpbp4UnrelatedProtocol), !related);
        }
    }
}

#[test]
fn single_proof_reconstructs_the_root_of_the_tree() {
    let tree = tree();
    let anchor = anchor_of(&tree);
    for n in 1u8..=3 {
        let narrowed = anchor.to_merkle_proof(protocol(n)).unwrap();
        assert_eq!(narrowed.txid, anchor.txid);
        assert!(narrowed.dbc_proof == anchor.dbc_proof);
        assert_eq!(narrowed.convolve(protocol(n), message(n)), Ok(commitment_of(&tree)));
        assert_eq!(narrowed.anchor_id(protocol(n), message(n)), Ok(anchor.anchor_id()));
        let moved = anchor.clone().into_merkle_proof(protocol(n)).unwrap();
        assert_eq!(moved, narrowed);
    }
}

#[test]
fn single_proof_of_an_unknown_protocol_fails() {
    let anchor = anchor_of(&tree());
    assert_eq!(anchor.to_merkle_proof(protocol(4)), Err(LeafNotKnown));
    assert_eq!(anchor.clone().into_merkle_proof(protocol(4)), Err(LeafNotKnown));
}

#[test]
fn single_proof_is_unrelated_to_other_protocols() {
    let anchor = anchor_of(&tree());
    let narrowed = anchor.to_merkle_proof(protocol(1)).unwrap();
    assert_eq!(narrowed.convolve(protocol(2), message(2)), Err(UnrelatedProof));
    assert_eq!(narrowed.anchor_id(protocol(2), message(1)), Err(UnrelatedProof));
    assert_eq!(narrowed.to_merkle_block(protocol(3), message(1)), Err(UnrelatedProof));
    assert_eq!(narrowed.clone().into_merkle_block(protocol(3), message(1)), Err(UnrelatedProof));
}

#[test]
fn single_proof_with_another_message_gives_another_root() {
    let tree = tree();
    let anchor = anchor_of(&tree);
    let narrowed = anchor.to_merkle_proof(protocol(1)).unwrap();
    let convolved = narrowed.convolve(protocol(1), message(2)).unwrap();
    assert_ne!(convolved, commitment_of(&tree));
    assert_ne!(narrowed.anchor_id(protocol(1), message(2)), Ok(anchor.anchor_id()));
}

#[test]
fn single_proof_widens_to_a_block_with_one_leaf() {
    let anchor = anchor_of(&tree());
    let narrowed = anchor.to_merkle_proof(protocol(2)).unwrap();
    let widened = narrowed.to_merkle_block(protocol(2), message(2)).unwrap();
    let mut concealed = anchor.clone();
    concealed.conceal_except(&vec![protocol(2)]).unwrap();
    assert_eq!(widened, concealed);
    assert_eq!(widened.anchor_id(), anchor.anchor_id());
    assert_eq!(narrowed.clone().into_merkle_block(protocol(2), message(2)), Ok(widened.clone()));
    assert!(widened.to_merkle_proof(protocol(2)).is_ok());
    assert_eq!(widened.to_merkle_proof(protocol(1)), Err(LeafNotKnown));
}

#[test]
fn proof_of_sixteen_levels_belongs_to_no_tree() {
    for levels in [16u16, 17, 40] {
        let mut bytes = vec![0u8, 0];
        bytes.extend_from_slice(&levels.to_le_bytes());
        bytes.extend(std::iter::repeat(0x33u8).take(32 * levels as usize));
        let lnpbp4_proof = MerkleProof::strict_deserialize(&bytes).unwrap();
        assert_eq!(lnpbp4_proof.as_path().len(), levels as usize);
        let anchor = Anchor { txid: [1u8; 32], lnpbp4_proof, dbc_proof: Proof::OpretFirst };
        let zero = [0u8; 32];
        assert_eq!(anchor.convolve(zero, message(1)), Err(UnrelatedProof));
        assert_eq!(anchor.anchor_id(zero, message(1)), Err(UnrelatedProof));
        assert_eq!(anchor.to_merkle_block(zero, message(1)), Err(UnrelatedProof));
        assert_eq!(
            anchor.verify(zero, message(1), tx_with(vec![]), no_engine),
            Err(VerifyError::Lnpbp4UnrelatedProtocol)
        );
    }
}

#[test]
fn proof_of_fifteen_levels_is_convolved() {
    let mut bytes = vec![0u8, 0];
    bytes.extend_from_slice(&15u16.to_le_bytes());
    bytes.extend(std::iter::repeat(0x33u8).take(32 * 15));
    let lnpbp4_proof = MerkleProof::strict_deserialize(&bytes).unwrap();
    let expected = bitcoin::hashes::Hash::into_inner(
        lnpbp4_proof
            .convolve(
                commit_verify::lnpbp4::ProtocolId::from_inner([0u8; 32]),
                engine_message(message(1)),
            )
            .unwrap()
            .into_inner(),
    );
    let anchor = Anchor { txid: [1u8; 32], lnpbp4_proof, dbc_proof: Proof::OpretFirst };
    assert_eq!(anchor.convolve([0u8; 32], message(1)), Ok(expected));
    assert_eq!(anchor.convolve(protocol(1), message(1)), Err(UnrelatedProof));
}

#[test]
fn merge_reveals_the_leaves_of_both() {
    let anchor = anchor_of(&tree());
    let mut a = anchor.clone();
    a.conceal_except(&vec![protocol(1)]).unwrap();
    let mut b = anchor.clone();
    b.conceal_except(&vec![protocol(2)]).unwrap();
    let mut both = anchor.clone();
    both.conceal_except(&vec![protocol(1), protocol(2)]).unwrap();

    let merged = a.clone().merge_reveal(b.clone()).unwrap();
    assert_eq!(merged, both);
    assert_eq!(merged.anchor_id(), anchor.anchor_id());
    assert!(merged.to_merkle_proof(protocol(1)).is_ok());
    assert!(merged.to_merkle_proof(protocol(2)).is_ok());
    assert_eq!(merged.to_merkle_proof(protocol(3)), Err(LeafNotKnown));
}

#[test]
fn merge_returns_a_cross_section_or_nothing() {
    // the leaves of protocols 1, 2 and 3 stand at the places 1, 2 and 3
    let anchor = anchor_of(&tree());
    let mut a = anchor.clone();
    a.conceal_except(&vec![protocol(2)]).unwrap();
    let mut b = anchor.clone();
    b.conceal_except(&vec![protocol(1), protocol(3)]).unwrap();
    for merged in [a.clone().merge_reveal(b.clone()), b.clone().merge_reveal(a.clone())] {
        match merged {
            Ok(merged) => {
                assert_eq!(merged.anchor_id(), anchor.anchor_id());
                for n in 1u8..=3 {
                    let single = merged.to_merkle_proof(protocol(n)).unwrap();
                    assert_eq!(single.anchor_id(protocol(n), message(n)), Ok(anchor.anchor_id()));
                }
            }
            Err(mismatch) => assert_eq!(mismatch, MergeError::Lnpbp4Mismatch),
        }
    }
    // the tree engine walks these two blocks into nodes that are no
    // cross-section of the tree, which is refused
    assert_eq!(a.clone().merge_reveal(b.clone()), Err(MergeError::Lnpbp4Mismatch));
    assert_eq!(b.clone().merge_reveal(a.clone()), Err(MergeError::Lnpbp4Mismatch));
    let mut walked = a.lnpbp4_proof.clone();
    assert!(walked.merge_reveal(b.lnpbp4_proof.clone()).is_ok());
    assert_ne!(walked.into_iter().count(), 0);
}

#[test]
fn merge_is_commutative_and_idempotent() {
    let anchor = anchor_of(&tree());
    let mut a = anchor.clone();
    a.conceal_except(&vec![protocol(1)]).unwrap();
    let mut b = anchor.clone();
    b.conceal_except(&vec![protocol(3)]).unwrap();

    let ab = a.clone().merge_reveal(b.clone());
    let ba = b.clone().merge_reveal(a.clone());
    assert!(ab.is_ok());
    assert_eq!(ab, ba);
    assert_eq!(ab.unwrap().anchor_id(), a.anchor_id());
    assert_eq!(ba.unwrap().anchor_id(), a.anchor_id());

    assert_eq!(a.clone().merge_reveal(a.clone()), Ok(a.clone()));
    assert_eq!(anchor.clone().merge_reveal(anchor.clone()), Ok(anchor.clone()));
    assert_eq!(anchor.clone().merge_reveal(a.clone()), Ok(anchor.clone()));
    // merged the other way round the anchor reveals the same leaves, but it
    // has forgotten the entropy, as every concealed anchor has
    let widened = a.clone().merge_reveal(anchor.clone()).unwrap();
    assert_eq!(widened.anchor_id(), anchor.anchor_id());
    for n in 1u8..=3 {
        assert_eq!(widened.to_merkle_proof(protocol(n)), anchor.to_merkle_proof(protocol(n)));
    }
    assert_eq!(widened.lnpbp4_proof.entropy(), None);
}

#[test]
fn merge_rejects_mismatches_in_order() {
    let anchor = anchor_of(&tree());
    let unrelated = anchor_of(&tree());

    let mut other_tx = anchor.clone();
    other_tx.txid = [0x78u8; 32];
    assert_eq!(anchor.clone().merge_reveal(other_tx.clone()), Err(MergeError::TxidMismatch));

    let mut other_proof = anchor.clone();
    other_proof.dbc_proof = Proof::TapretFirst(TapretProof { encoded: vec![1] });
    assert_eq!(anchor.clone().merge_reveal(other_proof.clone()), Err(MergeError::ProofMismatch));
    assert_eq!(other_proof.clone().merge_reveal(anchor.clone()), Err(MergeError::ProofMismatch));
    let mut third = other_proof.clone();
    third.dbc_proof = Proof::TapretFirst(TapretProof { encoded: vec![2] });
    assert_eq!(third.merge_reveal(other_proof.clone()), Err(MergeError::ProofMismatch));

    assert_eq!(anchor.clone().merge_reveal(unrelated.clone()), Err(MergeError::Lnpbp4Mismatch));
    assert_eq!(unrelated.clone().merge_reveal(anchor.clone()), Err(MergeError::Lnpbp4Mismatch));

    // the transaction is compared first, the proof second, the trees last
    let mut all_differ = unrelated.clone();
    all_differ.txid = [0x78u8; 32];
    all_differ.dbc_proof = Proof::TapretFirst(TapretProof { encoded: vec![1] });
    assert_eq!(anchor.clone().merge_reveal(all_differ.clone()), Err(MergeError::TxidMismatch));
    all_differ.txid = anchor.txid;
    assert_eq!(anchor.clone().merge_reveal(all_differ), Err(MergeError::ProofMismatch));
}

#[test]
fn anchors_are_ordered_by_their_ids() {
    let a = anchor_of(&tree());
    let b = anchor_of(&tree());
    let expected = a.anchor_id().to_bytes().cmp(&b.anchor_id().to_bytes());
    assert_ne!(expected, Ordering::Equal);
    assert_eq!(a.cmp(&b), expected);
    assert_eq!(b.cmp(&a), expected.reverse());
    assert_eq!(a.partial_cmp(&b), Some(expected));
    // concealment changes the anchor but not its place
    let mut concealed = a.clone();
    concealed.conceal_except(&vec![protocol(1)]).unwrap();
    assert_ne!(concealed, a);
    assert_eq!(concealed.cmp(&a), Ordering::Equal);
    assert_eq!(concealed.cmp(&b), expected);
}

#[test]
fn single_proof_verifies_against_the_transaction() {
    let tree = tree();
    let anchor = anchor_of(&tree);
    let narrowed = anchor.to_merkle_proof(protocol(1)).unwrap();
    let commitment = commitment_of(&tree);
    let tx = tx_with(vec![Script::new_op_return(&commitment)]);

    assert_eq!(narrowed.verify(protocol(1), message(1), tx.clone(), no_engine), Ok(true));
    // another message under the right protocol is no error: it does not match
    assert_eq!(narrowed.verify(protocol(1), message(2), tx.clone(), no_engine), Ok(false));
    // another protocol is an error
    assert_eq!(
        narrowed.verify(protocol(2), message(2), tx.clone(), no_engine),
        Err(VerifyError::Lnpbp4UnrelatedProtocol)
    );
    // another transaction does not match
    let other = tx_with(vec![Script::new_op_return(&[0u8; 32])]);
    assert_eq!(narrowed.verify(protocol(1), message(1), other, no_engine), Ok(false));
    assert_eq!(narrowed.verify(protocol(1), message(1), tx_with(vec![]), no_engine), Ok(false));
}

#[test]
fn single_proof_hands_the_root_to_the_script_path_engine() {
    let tree = tree();
    let mut anchor = anchor_of(&tree);
    anchor.dbc_proof = Proof::TapretFirst(TapretProof { encoded: vec![4, 5, 6] });
    let narrowed = anchor.to_merkle_proof(protocol(3)).unwrap();
    let commitment = commitment_of(&tree);
    let tx = tx_with(vec![Script::new_op_return(&commitment)]);

    let answer = narrowed.verify(protocol(3), message(3), tx.clone(), |proof, root, given| {
        assert_eq!(proof.encoded, vec![4u8, 5, 6]);
        assert_eq!(root, &commitment);
        assert_eq!(given, tx);
        Ok(true)
    });
    assert_eq!(answer, Ok(true));
    assert_eq!(narrowed.verify(protocol(3), message(3), tx.clone(), |_, _, _| Ok(false)), Ok(false));

    let failure = TapretError { details: String::from("malformed proof") };
    let answer = narrowed.verify(protocol(3), message(3), tx.clone(), |_, _, _| Err(failure.clone()));
    assert_eq!(answer, Err(VerifyError::Tapret(failure)));

    // the engine is not asked about a proof of another protocol
    let answer = narrowed.verify(protocol(1), message(1), tx, |_, _, _| {
        panic!("the proof is unrelated")
    });
    assert_eq!(answer, Err(VerifyError::Lnpbp4UnrelatedProtocol));
}

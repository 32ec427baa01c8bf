//! Anchors: a transaction id, a commitment tree in one of its shapes, and
//! the proof of how the root of the tree was embedded into the transaction.

use vstd::prelude::*;
use commit_verify::lnpbp4::{MerkleBlock, MerkleProof};
use crate::anchor_id::{anchor_id_of, AnchorId};
use crate::cross_section::{
    block_revealed, count_leaves_outside, count_outside, is_merge_of, leaf_set, leaf_views,
    list_reveals, reveals_protocols, sound_leaves,
};
use crate::bytes::{
    bytes32_eq, bytes_eq, extend_bytes, extend_bytes32, CommitmentHash, Message, ProtocolId, Txid,
};
use crate::embedding::{proof_encoding, Proof, ProofView, TapretError, TapretProof};
use crate::lnpbp4::{
    block_commit_encode, block_conceal_except, block_depth, block_depth_value, block_leaf_list,
    block_leaves,
    block_merge_reveal, block_merkle_root, block_to_merkle_proof, block_usable, block_with,
    blocks_mergeable, leaves_within, merged_encoding, merged_root, proof_fits, proof_place,
    protocol_place, lnpbp4_commitment, proof_convolve,
    proof_depth, proof_merkle_root, proof_path, protocol_views, reveals, Leaf, LeafNotKnown,
    UnrelatedProof, LNPBP4_DEPTH_LIMIT,
};
use crate::tx::{first_op_return_carries, tx_output_scripts};

verus! {

/// Errors verifying anchors.
#[derive(Clone, Debug, PartialEq, Eq)]
pub enum VerifyError {
    /// Tapret commitment verification failure.
    Tapret(TapretError),
    /// LNPBP-4 invalid proof.
    Lnpbp4UnrelatedProtocol,
}

/// Error merging two [`Anchor`]s.
#[derive(Clone, Copy, Debug, PartialEq, Eq, Structural, PartialOrd, Ord, Hash)]
pub enum MergeError {
    /// Error merging two LNPBP-4 proofs, which are unrelated.
    Lnpbp4Mismatch,
    /// Anchors can't be merged since they have different witness
    /// transactions.
    TxidMismatch,
    /// Anchors can't be merged since they have different proofs.
    ProofMismatch,
}

/// Anchor is a data structure used in deterministic bitcoin commitments for
/// keeping information about the proof of the commitment in connection to the
/// transaction which contains the commitment, and multi-protocol merkle tree
/// as defined by LNPBP-4.
#[derive(Clone, Debug, PartialEq, Eq)]
pub struct Anchor<L> {
    /// Transaction containing deterministic bitcoin commitment.
    pub txid: Txid,
    /// Structured multi-protocol LNPBP-4 data the transaction commits to.
    pub lnpbp4_proof: L,
    /// Proof of the DBC commitment.
    pub dbc_proof: Proof,
}

/// The bytes an anchor commits to, in their fixed order: the transaction
/// id, the embedding proof, and the merkle root of the commitment tree.
pub open spec fn anchor_commitment(txid: Seq<u8>, dbc_proof: ProofView, merkle_root: Seq<u8>) -> Seq<u8> {
    txid + proof_encoding(dbc_proof) + merkle_root
}

/// The identifier of an anchor with the given transaction id, embedding
/// proof and merkle root.
pub open spec fn anchor_identity(txid: Seq<u8>, dbc_proof: ProofView, merkle_root: Seq<u8>) -> Seq<u8> {
    anchor_id_of(anchor_commitment(txid, dbc_proof, merkle_root))
}

/// What an anchor over a partially revealed tree is, as a mathematical
/// value.
pub struct BlockAnchorView {
    /// Bytes of the transaction id.
    pub txid: Seq<u8>,
    /// The embedding proof.
    pub dbc_proof: ProofView,
    /// Merkle root of the commitment tree.
    pub merkle_root: Seq<u8>,
    /// The leaves that are revealed.
    pub leaves: Set<Leaf>,
}

impl BlockAnchorView {
    /// The identifier of the anchor. The revealed leaves have no part in it.
    pub open spec fn identity(self) -> Seq<u8> {
        anchor_identity(self.txid, self.dbc_proof, self.merkle_root)
    }

    /// The anchor with every leaf concealed whose protocol is not among
    /// `protocols`.
    pub open spec fn conceal_except(self, protocols: Seq<Seq<u8>>) -> BlockAnchorView {
        BlockAnchorView { leaves: leaves_within(self.leaves, protocols), ..self }
    }

    /// The anchor that reveals the leaves of `other` too.
    pub open spec fn revealing(self, other: BlockAnchorView) -> BlockAnchorView {
        BlockAnchorView { leaves: self.leaves.union(other.leaves), ..self }
    }

    /// What merging `other` into the anchor gives, where `related` tells
    /// whether the tree engine accepts to merge the two trees. The
    /// transactions are compared first, then the embedding proofs.
    pub open spec fn merge_reveal(self, other: BlockAnchorView, related: bool) -> Result<
        BlockAnchorView,
        MergeError,
    > {
        if self.txid != other.txid {
            Err(MergeError::TxidMismatch)
        } else if self.dbc_proof != other.dbc_proof {
            Err(MergeError::ProofMismatch)
        } else if !related {
            Err(MergeError::Lnpbp4Mismatch)
        } else {
            Ok(self.revealing(other))
        }
    }
}

impl View for Anchor<MerkleBlock> {
    type V = BlockAnchorView;

    open spec fn view(&self) -> BlockAnchorView {
        BlockAnchorView {
            txid: self.txid@,
            dbc_proof: self.dbc_proof@,
            merkle_root: block_merkle_root(self.lnpbp4_proof),
            leaves: block_leaves(self.lnpbp4_proof),
        }
    }
}

/// The view of the anchor in the result of a merge.
pub open spec fn merged_view(merged: Result<Anchor<MerkleBlock>, MergeError>) -> Result<
    BlockAnchorView,
    MergeError,
> {
    match merged {
        Ok(anchor) => Ok(anchor@),
        Err(mismatch) => Err(mismatch),
    }
}

/// Merkle root that a single-leaf proof gives for a leaf. A proof as deep as
/// the depth limit or deeper belongs to no tree.
pub open spec fn reconstructed_root(path: MerkleProof, protocol: Seq<u8>, message: Seq<u8>) -> Option<
    Seq<u8>,
> {
    if proof_path(path).len() < LNPBP4_DEPTH_LIMIT {
        proof_merkle_root(path, protocol, message)
    } else {
        None
    }
}

/// What the verification of a single-leaf anchor returns once the engine of
/// script-path proofs has answered.
pub open spec fn verification_outcome(answer: Result<bool, TapretError>) -> Result<bool, VerifyError> {
    match answer {
        Ok(valid) => Ok(valid),
        Err(failure) => Err(VerifyError::Tapret(failure)),
    }
}

impl Anchor<MerkleBlock> {
    /// The tree engine can work on the block of the anchor.
    pub open spec fn usable(&self) -> bool {
        block_usable(self.lnpbp4_proof)
    }

    /// The bytes the anchor commits to.
    pub open spec fn commitment(&self) -> Seq<u8> {
        anchor_commitment(self.txid@, self.dbc_proof@, block_merkle_root(self.lnpbp4_proof))
    }

    /// The identifier of the anchor.
    pub open spec fn identity(&self) -> Seq<u8> {
        self@.identity()
    }

    /// `narrowed` is the single-leaf anchor of `protocol` taken from this
    /// anchor: it has the transaction and the embedding proof of this
    /// anchor, and its path leads every leaf that this anchor reveals for the
    /// protocol to the merkle root of this anchor.
    pub open spec fn narrows_to(&self, protocol: Seq<u8>, narrowed: Anchor<MerkleProof>) -> bool {
        &&& narrowed.txid@ == self.txid@
        &&& narrowed.dbc_proof@ == self.dbc_proof@
        &&& proof_path(narrowed.lnpbp4_proof).len() == block_depth(self.lnpbp4_proof)
        &&& proof_fits(narrowed.lnpbp4_proof, protocol)
        &&& forall|message: Seq<u8>| #[trigger]
            block_leaves(self.lnpbp4_proof).contains((protocol, message)) ==> reconstructed_root(
                narrowed.lnpbp4_proof,
                protocol,
                message,
            ) == Some(block_merkle_root(self.lnpbp4_proof))
    }

    /// Whether the tree engine can work on the block of the anchor: the
    /// tree is below the depth limit, and the nodes of the block are a
    /// cross-section of it.
    pub fn is_usable(&self) -> (ok: bool)
        ensures
            ok == self.usable(),
    {
        if block_depth_value(&self.lnpbp4_proof) >= LNPBP4_DEPTH_LIMIT {
            false
        } else {
            block_revealed(&self.lnpbp4_proof).is_some()
        }
    }

    /// The block that the tree engine makes of the blocks of two anchors is
    /// accepted as their merge: its nodes are a cross-section of the tree
    /// that reveals the leaves of both anchors, and no others, and it has the
    /// merkle root of this anchor.
    pub open spec fn merge_accepted(&self, other: Anchor<MerkleBlock>) -> bool {
        &&& sound_leaves(
            block_depth(self.lnpbp4_proof),
            merged_encoding(self.lnpbp4_proof, other.lnpbp4_proof),
        ) matches Some(leaves) && leaf_set(leaves) == self@.leaves.union(other@.leaves)
        &&& merged_root(self.lnpbp4_proof, other.lnpbp4_proof) == self@.merkle_root
    }

    /// Depth of the commitment tree of the anchor. The tree engine works on
    /// trees below the depth limit only.
    pub fn depth(&self) -> (depth: u8)
        ensures
            depth == block_depth(self.lnpbp4_proof),
    {
        block_depth_value(&self.lnpbp4_proof)
    }

    /// Encodes what the anchor commits to: the transaction id, the embedding
    /// proof, and the merkle root of the block. Which leaves the block
    /// reveals has no part in it.
    pub fn commit_encode(&self) -> (encoded: Vec<u8>)
        requires
            self.usable(),
        ensures
            encoded@ == self.commitment(),
            encoded@.len() == 64 + proof_encoding(self.dbc_proof@).len(),
            self.dbc_proof@ is OpretFirst ==> encoded@.len() == 65,
    {
        let mut encoded: Vec<u8> = Vec::new();
        extend_bytes32(&mut encoded, &self.txid);
        let dbc_proof = self.dbc_proof.strict_encode();
        extend_bytes(&mut encoded, &dbc_proof);
        let merkle_root = block_commit_encode(&self.lnpbp4_proof);
        extend_bytes(&mut encoded, &merkle_root);
        assert(encoded@ =~= self.commitment());
        encoded
    }

    /// Returns id of the anchor (commitment hash).
    pub fn anchor_id(&self) -> (id: AnchorId)
        requires
            self.usable(),
        ensures
            id@ == self.identity(),
    {
        let encoded = self.commit_encode();
        AnchorId::commit(&encoded)
    }

    /// Conceals all LNPBP-4 data except specific protocol and produces merkle
    /// proof anchor.
    pub fn to_merkle_proof(&self, protocol: ProtocolId) -> (narrowed: Result<
        Anchor<MerkleProof>,
        LeafNotKnown,
    >)
        requires
            self.usable(),
        ensures
            narrowed is Ok <==> reveals(self.lnpbp4_proof, protocol@),
            narrowed matches Ok(anchor) ==> self.narrows_to(protocol@, anchor),
    {
        match block_to_merkle_proof(&self.lnpbp4_proof, &protocol) {
            Ok(lnpbp4_proof) => Ok(
                Anchor { txid: self.txid, lnpbp4_proof, dbc_proof: self.dbc_proof.duplicate() },
            ),
            Err(unknown) => Err(unknown),
        }
    }

    /// Conceals all LNPBP-4 data except specific protocol and converts anchor
    /// into merkle proof anchor.
    pub fn into_merkle_proof(self, protocol: ProtocolId) -> (narrowed: Result<
        Anchor<MerkleProof>,
        LeafNotKnown,
    >)
        requires
            self.usable(),
        ensures
            narrowed is Ok <==> reveals(self.lnpbp4_proof, protocol@),
            narrowed matches Ok(anchor) ==> self.narrows_to(protocol@, anchor),
    {
        match block_to_merkle_proof(&self.lnpbp4_proof, &protocol) {
            Ok(lnpbp4_proof) => Ok(
                Anchor { txid: self.txid, lnpbp4_proof, dbc_proof: self.dbc_proof },
            ),
            Err(unknown) => Err(unknown),
        }
    }

    /// Conceals all LNPBP-4 data except specific protocols.
    ///
    /// Returns the number of leaves that were concealed: the revealed leaves
    /// whose protocol is not among `protocols`. Fails when one of the
    /// protocols has no revealed leaf, and then conceals nothing. The
    /// identifier of the anchor never changes.
    pub fn conceal_except(&mut self, protocols: &Vec<ProtocolId>) -> (concealed: Result<
        usize,
        LeafNotKnown,
    >)
        requires
            old(self).usable(),
        ensures
            concealed is Ok <==> forall|i: int|
                0 <= i < protocols@.len() ==> reveals(
                    old(self).lnpbp4_proof,
                    #[trigger] protocols@[i]@,
                ),
            concealed matches Ok(count) ==> count == count_outside(
                block_leaf_list(old(self).lnpbp4_proof),
                protocol_views(protocols@),
            ) && count == block_leaf_list(old(self).lnpbp4_proof).len() - block_leaf_list(
                final(self).lnpbp4_proof,
            ).len(),
            concealed is Ok ==> final(self)@ == old(self)@.conceal_except(protocol_views(protocols@)),
            concealed is Err ==> *final(self) == *old(self),
            final(self).usable(),
            final(self).identity() == old(self).identity(),
    {
        let list = match block_revealed(&self.lnpbp4_proof) {
            Some(list) => list,
            None => {
                return Err(LeafNotKnown);
            },
        };
        proof {
            let leaves = block_leaf_list(self.lnpbp4_proof);
            assert forall|protocol: Seq<u8>|
                reveals(self.lnpbp4_proof, protocol) == #[trigger] list_reveals(
                    leaves,
                    protocol,
                ) by {
                if reveals(self.lnpbp4_proof, protocol) {
                    let message = choose|message: Seq<u8>| #[trigger]
                        block_leaves(self.lnpbp4_proof).contains((protocol, message));
                    assert(leaves.contains((protocol, message)));
                }
                if list_reveals(leaves, protocol) {
                    let message = choose|message: Seq<u8>| #[trigger]
                        leaves.contains((protocol, message));
                    assert(block_leaves(self.lnpbp4_proof).contains((protocol, message)));
                }
            }
        }
        if !reveals_protocols(&list, protocols) {
            return Err(LeafNotKnown);
        }
        match block_conceal_except(&mut self.lnpbp4_proof, protocols) {
            Ok(_) => Ok(count_leaves_outside(&list, protocols)),
            Err(unknown) => Err(unknown),
        }
    }

    /// Merges two anchors keeping revealed data.
    ///
    /// The anchors must belong to one transaction and one embedding proof,
    /// which is checked in this order, and their trees must have one merkle
    /// root. The trees are merged by the tree engine, and what it returns is
    /// accepted only if it is a cross-section of the tree that reveals the
    /// leaves of both anchors and has the merkle root of both. The merged
    /// anchor has the identifier of both anchors. Every other outcome of the
    /// tree engine is reported as a mismatch of the trees, also where the
    /// two anchors are concealed forms of one tree that the tree engine
    /// fails to merge.
    pub fn merge_reveal(self, other: Anchor<MerkleBlock>) -> (merged: Result<
        Anchor<MerkleBlock>,
        MergeError,
    >)
        requires
            self.usable(),
            other.usable(),
        ensures
            merged_view(merged) == self@.merge_reveal(other@, merged is Ok),
            merged is Ok <==> (self.txid@ == other.txid@ && self.dbc_proof@ == other.dbc_proof@
                && self@.merkle_root == other@.merkle_root && blocks_mergeable(
                self.lnpbp4_proof,
                other.lnpbp4_proof,
            ) && self.merge_accepted(other)),
            merged matches Ok(anchor) ==> {
                &&& anchor.usable()
                &&& blocks_mergeable(self.lnpbp4_proof, other.lnpbp4_proof)
                &&& self@.merkle_root == other@.merkle_root
                &&& anchor.identity() == self.identity()
                &&& anchor.identity() == other.identity()
            },
            self@.merkle_root != other@.merkle_root ==> merged is Err,
            !blocks_mergeable(self.lnpbp4_proof, other.lnpbp4_proof) ==> merged is Err,
            self.txid@ == other.txid@ && self.dbc_proof@ == other.dbc_proof@ && other.lnpbp4_proof
                == self.lnpbp4_proof ==> (merged matches Ok(anchor) && anchor.lnpbp4_proof
                == self.lnpbp4_proof && anchor@ == self@),
    {
        if !bytes32_eq(&self.txid, &other.txid) {
            return Err(MergeError::TxidMismatch);
        }
        if self.dbc_proof != other.dbc_proof {
            return Err(MergeError::ProofMismatch);
        }
        let first = block_revealed(&self.lnpbp4_proof);
        let second = block_revealed(&other.lnpbp4_proof);
        let root = block_commit_encode(&self.lnpbp4_proof);
        let other_root = block_commit_encode(&other.lnpbp4_proof);
        if !bytes_eq(&root, &other_root) {
            return Err(MergeError::Lnpbp4Mismatch);
        }
        let Anchor { txid, lnpbp4_proof, dbc_proof } = self;
        let mut lnpbp4_proof = lnpbp4_proof;
        if block_merge_reveal(&mut lnpbp4_proof, other.lnpbp4_proof).is_err() {
            return Err(MergeError::Lnpbp4Mismatch);
        }
        match (first, second) {
            (Some(first), Some(second)) => {
                if !is_merge_of(&lnpbp4_proof, &root, &first, &second) {
                    proof {
                        if other.lnpbp4_proof == self.lnpbp4_proof {
                            assert(lnpbp4_proof == self.lnpbp4_proof);
                            assert(block_leaves(lnpbp4_proof) =~= block_leaves(
                                self.lnpbp4_proof,
                            ).union(block_leaves(self.lnpbp4_proof)));
                        }
                    }
                    return Err(MergeError::Lnpbp4Mismatch);
                }
                let anchor = Anchor { txid, lnpbp4_proof, dbc_proof };
                assert(anchor@ == self@.revealing(other@));
                assert(self@.leaves.union(self@.leaves) =~= self@.leaves);
                Ok(anchor)
            },
            _ => Err(MergeError::Lnpbp4Mismatch),
        }
    }
}

impl Anchor<MerkleProof> {
    /// The identifier of the anchor, for a leaf that the proof leads to the
    /// root.
    pub open spec fn identity(&self, protocol: Seq<u8>, message: Seq<u8>) -> Option<Seq<u8>> {
        match reconstructed_root(self.lnpbp4_proof, protocol, message) {
            Some(root) => Some(anchor_identity(self.txid@, self.dbc_proof@, root)),
            None => None,
        }
    }

    /// The commitment of the tree that the proof reconstructs from a leaf,
    /// if the proof was made for the protocol of the leaf.
    pub open spec fn commitment(&self, protocol: Seq<u8>, message: Seq<u8>) -> Option<Seq<u8>> {
        match reconstructed_root(self.lnpbp4_proof, protocol, message) {
            Some(root) => Some(lnpbp4_commitment(root)),
            None => None,
        }
    }

    /// Returns id of the anchor (commitment hash).
    pub fn anchor_id(&self, protocol_id: ProtocolId, message: Message) -> (id: Result<
        AnchorId,
        UnrelatedProof,
    >)
        ensures
            id is Ok <==> proof_fits(self.lnpbp4_proof, protocol_id@),
            match self.identity(protocol_id@, message@) {
                Some(identity) => id matches Ok(found) && found@ == identity,
                None => id is Err,
            },
    {
        match self.to_merkle_block(protocol_id, message) {
            Ok(anchor) => Ok(anchor.anchor_id()),
            Err(unrelated) => Err(unrelated),
        }
    }

    /// Reconstructs anchor containing merkle block.
    pub fn into_merkle_block(self, protocol_id: ProtocolId, message: Message) -> (widened: Result<
        Anchor<MerkleBlock>,
        UnrelatedProof,
    >)
        ensures
            widened is Ok <==> proof_fits(self.lnpbp4_proof, protocol_id@),
            match reconstructed_root(self.lnpbp4_proof, protocol_id@, message@) {
                Some(root) => widened matches Ok(anchor) && {
                    &&& anchor.txid@ == self.txid@
                    &&& anchor.dbc_proof@ == self.dbc_proof@
                    &&& anchor.usable()
                    &&& block_merkle_root(anchor.lnpbp4_proof) == root
                    &&& block_leaves(anchor.lnpbp4_proof) == set![(protocol_id@, message@)]
                },
                None => widened is Err,
            },
    {
        if proof_depth(&self.lnpbp4_proof) >= LNPBP4_DEPTH_LIMIT as usize {
            return Err(UnrelatedProof);
        }
        match block_with(&self.lnpbp4_proof, &protocol_id, &message) {
            Ok(lnpbp4_proof) => Ok(
                Anchor { txid: self.txid, lnpbp4_proof, dbc_proof: self.dbc_proof },
            ),
            Err(unrelated) => Err(unrelated),
        }
    }

    /// Reconstructs anchor containing merkle block.
    pub fn to_merkle_block(&self, protocol_id: ProtocolId, message: Message) -> (widened: Result<
        Anchor<MerkleBlock>,
        UnrelatedProof,
    >)
        ensures
            widened is Ok <==> proof_fits(self.lnpbp4_proof, protocol_id@),
            match reconstructed_root(self.lnpbp4_proof, protocol_id@, message@) {
                Some(root) => widened matches Ok(anchor) && {
                    &&& anchor.txid@ == self.txid@
                    &&& anchor.dbc_proof@ == self.dbc_proof@
                    &&& anchor.usable()
                    &&& block_merkle_root(anchor.lnpbp4_proof) == root
                    &&& block_leaves(anchor.lnpbp4_proof) == set![(protocol_id@, message@)]
                },
                None => widened is Err,
            },
    {
        if proof_depth(&self.lnpbp4_proof) >= LNPBP4_DEPTH_LIMIT as usize {
            return Err(UnrelatedProof);
        }
        match block_with(&self.lnpbp4_proof, &protocol_id, &message) {
            Ok(lnpbp4_proof) => Ok(
                Anchor { txid: self.txid, lnpbp4_proof, dbc_proof: self.dbc_proof.duplicate() },
            ),
            Err(unrelated) => Err(unrelated),
        }
    }

    /// Verifies that the anchor commits to the given message under the given
    /// protocol: reconstructs the commitment of the tree from the proof and
    /// the leaf.
    pub fn convolve(&self, protocol_id: ProtocolId, message: Message) -> (convolved: Result<
        CommitmentHash,
        UnrelatedProof,
    >)
        ensures
            convolved is Ok <==> proof_fits(self.lnpbp4_proof, protocol_id@),
            match self.commitment(protocol_id@, message@) {
                Some(expected) => convolved matches Ok(commitment) && commitment@ == expected,
                None => convolved is Err,
            },
    {
        if proof_depth(&self.lnpbp4_proof) >= LNPBP4_DEPTH_LIMIT as usize {
            return Err(UnrelatedProof);
        }
        proof_convolve(&self.lnpbp4_proof, &protocol_id, &message)
    }

    /// Verifies that the transaction commits to the anchor and the anchor
    /// commits to the given message under the given protocol.
    ///
    /// A proof made for another protocol is an error. Otherwise the
    /// commitment of the tree is reconstructed and looked for in the
    /// transaction: a direct-data commitment here, a script-path commitment
    /// by the engine `script_path`, whose failure is an error and whose
    /// answer is the result.
    pub fn verify<F>(
        &self,
        protocol_id: ProtocolId,
        message: Message,
        tx: bitcoin::Transaction,
        script_path: F,
    ) -> (valid: Result<bool, VerifyError>) where
        F: FnOnce(&TapretProof, &CommitmentHash, bitcoin::Transaction) -> Result<bool, TapretError>,

        requires
            self.dbc_proof matches Proof::TapretFirst(tapret) ==> forall|
                commitment: CommitmentHash,
            | #[trigger] script_path.requires((&tapret, &commitment, tx)),
        ensures
            (valid matches Err(VerifyError::Lnpbp4UnrelatedProtocol)) <==> !proof_fits(
                self.lnpbp4_proof,
                protocol_id@,
            ),
            match reconstructed_root(self.lnpbp4_proof, protocol_id@, message@) {
                None => valid == Err::<bool, VerifyError>(VerifyError::Lnpbp4UnrelatedProtocol),
                Some(root) => match self.dbc_proof {
                    Proof::OpretFirst => valid == Ok::<bool, VerifyError>(
                        first_op_return_carries(tx_output_scripts(tx), lnpbp4_commitment(root)),
                    ),
                    Proof::TapretFirst(tapret) => exists|
                        commitment: CommitmentHash,
                        answer: Result<bool, TapretError>,
                    |
                        commitment@ == lnpbp4_commitment(root) && #[trigger] script_path.ensures(
                            (&tapret, &commitment, tx),
                            answer,
                        ) && valid == verification_outcome(answer),
                },
            },
    {
        match self.convolve(protocol_id, message) {
            Err(_) => Err(VerifyError::Lnpbp4UnrelatedProtocol),
            Ok(commitment) => {
                let answer = self.dbc_proof.verify(&commitment, tx, script_path);
                match answer {
                    Ok(valid) => Ok(valid),
                    Err(failure) => Err(VerifyError::Tapret(failure)),
                }
            },
        }
    }
}

} // verus!

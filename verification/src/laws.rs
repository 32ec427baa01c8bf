//! What holds of anchors whatever their values are.

use vstd::prelude::*;
use commit_verify::lnpbp4::{MerkleBlock, MerkleProof};
use crate::anchor::{reconstructed_root, Anchor, BlockAnchorView, MergeError};
use crate::cross_section::{count_outside, lemma_none_outside};
use crate::lnpbp4::{
    block_leaf_list, block_leaves, block_merkle_root, leaves_within, lnpbp4_commitment, Leaf,
};

verus! {

/// The identifier of an anchor is a function of the transaction id, the
/// embedding proof and the merkle root alone: two anchors that agree in
/// these have one identifier, whichever leaves each of them reveals.
pub proof fn law_identity_is_determined(a: BlockAnchorView, b: BlockAnchorView)
    requires
        a.txid == b.txid,
        a.dbc_proof == b.dbc_proof,
        a.merkle_root == b.merkle_root,
    ensures
        a.identity() == b.identity(),
{
}

/// Concealing leaves never changes the identifier of an anchor, whatever
/// protocols are kept.
pub proof fn law_concealment_keeps_identity(anchor: BlockAnchorView, protocols: Seq<Seq<u8>>)
    ensures
        anchor.conceal_except(protocols).identity() == anchor.identity(),
        anchor.conceal_except(protocols).leaves.subset_of(anchor.leaves),
{
}

/// Merging is idempotent: an anchor merged with itself is the anchor.
pub proof fn law_merge_idempotent(anchor: BlockAnchorView)
    ensures
        anchor.merge_reveal(anchor, true) == Ok::<BlockAnchorView, MergeError>(anchor),
{
    assert(anchor.leaves.union(anchor.leaves) =~= anchor.leaves);
}

/// A merged anchor has the identifier of the anchor it was merged into.
pub proof fn law_merge_keeps_identity(a: BlockAnchorView, b: BlockAnchorView, related: bool)
    ensures
        a.merge_reveal(b, related) matches Ok(merged) ==> merged.identity() == a.identity(),
{
}

/// Merging two anchors in either order: the transactions and the embedding
/// proofs are compared alike in both orders, so that a mismatch of either is
/// reported in both; and where both merges succeed, which they do for trees
/// of one merkle root only, they give one anchor, whose identifier is that
/// of both anchors.
pub proof fn law_merge_orders_agree(
    a: BlockAnchorView,
    b: BlockAnchorView,
    first: Result<BlockAnchorView, MergeError>,
    second: Result<BlockAnchorView, MergeError>,
)
    requires
        first == a.merge_reveal(b, first is Ok),
        second == b.merge_reveal(a, second is Ok),
        first is Ok ==> a.merkle_root == b.merkle_root,
    ensures
        first matches Err(MergeError::TxidMismatch) <==> second matches Err(
            MergeError::TxidMismatch,
        ),
        first matches Err(MergeError::ProofMismatch) <==> second matches Err(
            MergeError::ProofMismatch,
        ),
        first is Ok && second is Ok ==> first == second,
        first matches Ok(merged) ==> merged.identity() == a.identity() && merged.identity()
            == b.identity(),
{
    assert(a.leaves.union(b.leaves) =~= b.leaves.union(a.leaves));
}

/// A second concealment conceals nothing: in a block that reveals no leaf
/// but leaves of `protocols`, no leaf is outside `protocols`.
pub proof fn law_second_concealment_conceals_nothing(
    block: MerkleBlock,
    leaves: Set<Leaf>,
    protocols: Seq<Seq<u8>>,
)
    requires
        block_leaves(block) == leaves_within(leaves, protocols),
    ensures
        count_outside(block_leaf_list(block), protocols) == 0,
{
    let list = block_leaf_list(block);
    assert forall|i: int| 0 <= i < list.len() implies protocols.contains((#[trigger] list[i]).0) by {
        assert(list.contains(list[i]));
        assert(block_leaves(block).contains(list[i]));
    }
    lemma_none_outside(list, protocols);
}

/// Merging rejects anchors of different transactions with `TxidMismatch`,
/// anchors of one transaction with different embedding proofs with
/// `ProofMismatch`, and anchors that agree in both but whose trees are
/// unrelated with `Lnpbp4Mismatch`.
pub proof fn law_merge_rejects_mismatch(a: BlockAnchorView, b: BlockAnchorView, related: bool)
    ensures
        a.txid != b.txid ==> a.merge_reveal(b, related) == Err::<BlockAnchorView, MergeError>(
            MergeError::TxidMismatch,
        ),
        a.txid == b.txid && a.dbc_proof != b.dbc_proof ==> a.merge_reveal(b, related) == Err::<
            BlockAnchorView,
            MergeError,
        >(MergeError::ProofMismatch),
        a.txid == b.txid && a.dbc_proof == b.dbc_proof && !related ==> a.merge_reveal(b, related)
            == Err::<BlockAnchorView, MergeError>(MergeError::Lnpbp4Mismatch),
        a.merge_reveal(b, related) is Ok <==> a.txid == b.txid && a.dbc_proof == b.dbc_proof
            && related,
{
}

/// Round trip: when a single-leaf anchor was narrowed from an anchor that
/// reveals the leaf, the proof leads the leaf back to the merkle root of
/// that anchor, so that the commitment it reconstructs is the commitment of
/// the tree and the identifier it gives is the identifier of that anchor.
pub proof fn law_single_proof_round_trip(
    origin: Anchor<MerkleBlock>,
    narrowed: Anchor<MerkleProof>,
    protocol: Seq<u8>,
    message: Seq<u8>,
)
    requires
        origin.narrows_to(protocol, narrowed),
        block_leaves(origin.lnpbp4_proof).contains((protocol, message)),
    ensures
        reconstructed_root(narrowed.lnpbp4_proof, protocol, message) == Some(
            block_merkle_root(origin.lnpbp4_proof),
        ),
        narrowed.commitment(protocol, message) == Some(
            lnpbp4_commitment(block_merkle_root(origin.lnpbp4_proof)),
        ),
        narrowed.identity(protocol, message) == Some(origin.identity()),
{
}

} // verus!

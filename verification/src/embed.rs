//! Embedding a commitment into a transaction container.

use vstd::prelude::*;
use commit_verify::lnpbp4::{MerkleBlock, MerkleTree};
use crate::anchor::Anchor;
use crate::cross_section::{leaf_set, leaf_views};
use crate::bytes::{CommitmentHash, Message, ProtocolId};
use crate::container::{
    output_view, psbt_clone, psbt_with_entropy, psbt_with_opret_commitment, psbt_with_output,
    psbt_with_script, psbt_is_opret_host, psbt_is_tapret_host, psbt_message_map,
    psbt_min_tree_depth, psbt_output, psbt_output_count, psbt_outputs, psbt_replace_output,
    psbt_set_entropy,
    psbt_set_opret_commitment, psbt_set_script, psbt_to_txid, psbt_txid, Lnpbp4KeyError,
    OpretKeyError, OutputView,
};
use crate::embedding::{Proof, ProofView, TapretError, TapretProof};
use crate::lnpbp4::{
    block_depth, block_leaves, block_merkle_root, block_sound, lnpbp4_commitment, tree_commit,
    tree_commitment, tree_depth, tree_entropy, tree_entropy_value, tree_into_block, tree_leaves,
    commit_depth, distinct_protocols, leaves_of, merkle_root_of, protocols_of, tree_merkle_root,
    tree_sound, Leaf,
    tree_with_entropy, Lnpbp4Error,
    ANCHOR_MIN_LNPBP4_DEPTH, LNPBP4_DEPTH_LIMIT,
};
use crate::tx::{new_op_return, op_return_script};

verus! {

/// Entropy of the trees that the static embedding builds.
pub const STATIC_ENTROPY: u64 = 1;

/// Errors embedding a commitment into a container.
#[derive(Clone, Debug, PartialEq, Eq)]
pub enum PsbtCommitError {
    /// No output of the container may host a commitment.
    CommitmentImpossible,
    /// A key of the host that the tree is built from is invalid, or the
    /// entropy of the tree cannot be recorded.
    Lnpbp4Key(Lnpbp4KeyError),
    /// The commitment cannot be recorded in the data-carrying host.
    OpretKey(OpretKeyError),
    /// The tree engine rejects the messages of the host.
    Lnpbp4(Lnpbp4Error),
    /// The script-path proof engine cannot rewrite the host.
    Tapret(TapretError),
    /// The tree cannot be built anew with the static entropy.
    StaticEntropy,
}

/// Errors restoring the container that a commitment was embedded into.
#[derive(Clone, Debug, PartialEq, Eq)]
pub enum PsbtVerifyError {
    /// The container has no output that could have been the host.
    Commit(PsbtCommitError),
    /// The script-path proof engine cannot restore the host.
    Tapret(TapretError),
}

/// Errors working with anchors.
#[derive(Clone, Debug, PartialEq, Eq)]
pub enum Error {
    /// Errors embedding LNPBP-4 commitment into PSBT.
    EmbedCommit(PsbtCommitError),
    /// Errors constructing LNPBP-4 commitment.
    Lnpbp4(Lnpbp4Error),
}

/// Empty type indicating that the message has to be taken from PSBT
/// proprietary keys.
#[derive(Clone, Copy, Debug, PartialEq, Eq, Structural, PartialOrd, Ord, Hash)]
pub struct PsbtEmbeddedMessage;

impl PsbtEmbeddedMessage {
    /// The message adds nothing to what is committed to.
    pub fn commit_encode(&self) -> (encoded: Vec<u8>)
        ensures
            encoded@ == Seq::<u8>::empty(),
    {
        Vec::new()
    }
}

/// The output that hosts a commitment, and the way it hosts it.
#[derive(Clone, Copy, Debug, PartialEq, Eq, Structural)]
pub enum Host {
    /// Position of a host of a script-path commitment.
    Tapret(usize),
    /// Position of a host of a direct-data commitment.
    Opret(usize),
}

impl Host {
    /// Position of the host among the outputs.
    pub open spec fn index(self) -> int {
        match self {
            Host::Tapret(index) => index as int,
            Host::Opret(index) => index as int,
        }
    }
}

/// No output before `end` may host a script-path commitment.
pub open spec fn no_tapret_host(outputs: Seq<OutputView>, end: int) -> bool {
    forall|j: int| 0 <= j < end && j < outputs.len() ==> !(#[trigger] outputs[j]).is_tapret_host()
}

/// No output before `end` may host a direct-data commitment.
pub open spec fn no_opret_host(outputs: Seq<OutputView>, end: int) -> bool {
    forall|j: int| 0 <= j < end && j < outputs.len() ==> !(#[trigger] outputs[j]).is_opret_host()
}

/// `host` is the output that a commitment goes into: the first host of a
/// script-path commitment or, where there is none, the first host of a
/// direct-data commitment.
pub open spec fn is_host(outputs: Seq<OutputView>, host: Host) -> bool {
    match host {
        Host::Tapret(index) => index < outputs.len() && outputs[index as int].is_tapret_host()
            && no_tapret_host(outputs, index as int),
        Host::Opret(index) => index < outputs.len() && outputs[index as int].is_opret_host()
            && no_opret_host(outputs, index as int) && no_tapret_host(outputs, outputs.len() as int),
    }
}

/// No output may host a commitment.
pub open spec fn no_host(outputs: Seq<OutputView>) -> bool {
    no_tapret_host(outputs, outputs.len() as int) && no_opret_host(outputs, outputs.len() as int)
}

/// The depth that the tree of an output has at least: the depth the output
/// asks for or, where it asks for none, the default.
pub open spec fn min_depth_of(output: OutputView) -> Result<u8, Lnpbp4KeyError> {
    match output.min_tree_depth() {
        Ok(Some(depth)) => Ok(depth),
        Ok(None) => Ok(ANCHOR_MIN_LNPBP4_DEPTH),
        Err(failure) => Err(failure),
    }
}

/// Finds the first output that may host a script-path commitment.
pub fn find_tapret_host(psbt: &psbt::Psbt) -> (found: Option<usize>)
    ensures
        match found {
            Some(index) => is_host(psbt_outputs(*psbt), Host::Tapret(index)),
            None => no_tapret_host(psbt_outputs(*psbt), psbt_outputs(*psbt).len() as int),
        },
{
    let count = psbt_output_count(psbt);
    let mut index: usize = 0;
    while index < count
        invariant
            index <= count,
            count == psbt_outputs(*psbt).len(),
            no_tapret_host(psbt_outputs(*psbt), index as int),
        decreases count - index,
    {
        if psbt_is_tapret_host(psbt, index) {
            return Some(index);
        }
        index += 1;
    }
    None
}

/// Finds the output that a commitment goes into.
pub fn find_host(psbt: &psbt::Psbt) -> (found: Option<Host>)
    ensures
        match found {
            Some(host) => is_host(psbt_outputs(*psbt), host),
            None => no_host(psbt_outputs(*psbt)),
        },
{
    if let Some(index) = find_tapret_host(psbt) {
        return Some(Host::Tapret(index));
    }
    let count = psbt_output_count(psbt);
    let mut index: usize = 0;
    while index < count
        invariant
            index <= count,
            count == psbt_outputs(*psbt).len(),
            no_tapret_host(psbt_outputs(*psbt), count as int),
            no_opret_host(psbt_outputs(*psbt), index as int),
        decreases count - index,
    {
        if psbt_is_opret_host(psbt, index) {
            return Some(Host::Opret(index));
        }
        index += 1;
    }
    None
}

/// A container has one host at most.
pub proof fn lemma_host_unique(outputs: Seq<OutputView>, a: Host, b: Host)
    requires
        is_host(outputs, a),
        is_host(outputs, b),
    ensures
        a == b,
        !no_host(outputs),
{
    match (a, b) {
        (Host::Tapret(i), Host::Tapret(j)) => {
            if i < j {
                assert(!outputs[i as int].is_tapret_host());
            } else if j < i {
                assert(!outputs[j as int].is_tapret_host());
            }
        },
        (Host::Opret(i), Host::Opret(j)) => {
            if i < j {
                assert(!outputs[i as int].is_opret_host());
            } else if j < i {
                assert(!outputs[j as int].is_opret_host());
            }
        },
        (Host::Tapret(i), Host::Opret(j)) => {
            assert(!outputs[i as int].is_tapret_host());
        },
        (Host::Opret(i), Host::Tapret(j)) => {
            assert(!outputs[j as int].is_tapret_host());
        },
    }
    assert(outputs[a.index()].is_tapret_host() || outputs[a.index()].is_opret_host());
}

/// The protocols of a list of leaves.
pub open spec fn leaf_protocols(leaves: Seq<Leaf>) -> Seq<Seq<u8>> {
    Seq::new(leaves.len(), |i: int| leaves[i].0)
}

/// What the tree engine gives for a list of leaves, a least depth and the
/// entropy asked for. Without a leaf and with a depth of zero it refuses
/// with `Empty`. Where it finds no depth for the protocols it refuses with
/// another error. Where it finds one, the tree is built: its merkle root
/// follows from its leaves, its depth and its entropy. A tree with a fixed
/// entropy cannot be built from more leaves than two bytes can count.
pub open spec fn tree_decision(
    leaves: Seq<Leaf>,
    min_depth: u8,
    fixed: Option<u64>,
    built: Result<MerkleTree, PsbtCommitError>,
) -> bool {
    if min_depth == 0 && leaves.len() == 0 {
        built == Err::<MerkleTree, PsbtCommitError>(PsbtCommitError::Lnpbp4(Lnpbp4Error::Empty))
    } else {
        match commit_depth(leaf_protocols(leaves), min_depth) {
            None => built matches Err(PsbtCommitError::Lnpbp4(failure)) && failure
                != Lnpbp4Error::Empty,
            Some(depth) => if fixed is Some && leaves.len() > 65535 {
                built == Err::<MerkleTree, PsbtCommitError>(PsbtCommitError::StaticEntropy)
            } else {
                built matches Ok(tree) && tree_sound(tree) && tree_leaves(tree) == leaf_set(leaves)
                    && tree_depth(tree) == depth && min_depth <= depth && depth <= 16 && (
                fixed matches Some(entropy) ==> tree_entropy(tree) == entropy) && tree_merkle_root(
                    tree,
                ) == merkle_root_of(leaf_set(leaves), depth, tree_entropy(tree))
            },
        }
    }
}

/// What building the tree of an output gives. An output whose messages or
/// depth cannot be read gives the key error. Every other output gives what
/// the tree engine gives for the leaves of the output, listed in the order
/// of their protocols, and the depth the output asks for.
pub open spec fn tree_outcome(
    output: OutputView,
    fixed: Option<u64>,
    built: Result<MerkleTree, PsbtCommitError>,
) -> bool {
    if !output.messages_valid() {
        built == Err::<MerkleTree, PsbtCommitError>(
            PsbtCommitError::Lnpbp4Key(Lnpbp4KeyError::InvalidKeyValue),
        )
    } else {
        match min_depth_of(output) {
            Err(failure) => built == Err::<MerkleTree, PsbtCommitError>(
                PsbtCommitError::Lnpbp4Key(failure),
            ),
            Ok(depth) => tree_decision(output.message_list(), depth, fixed, built),
        }
    }
}

/// Builds the commitment tree of the output at `index` from the messages
/// that the output declares, with the depth it asks for or the default
/// depth. The entropy of the tree is random, unless `fixed` names one.
pub fn build_tree(psbt: &psbt::Psbt, index: usize, fixed: Option<u64>) -> (built: Result<
    MerkleTree,
    PsbtCommitError,
>)
    requires
        index < psbt_outputs(*psbt).len(),
    ensures
        tree_outcome(psbt_outputs(*psbt)[index as int], fixed, built),
{
    let ghost output = psbt_outputs(*psbt)[index as int];
    let messages = match psbt_message_map(psbt, index) {
        Ok(messages) => messages,
        Err(failure) => {
            return Err(PsbtCommitError::Lnpbp4Key(failure));
        },
    };
    let min_depth = match psbt_min_tree_depth(psbt, index) {
        Ok(Some(depth)) => depth,
        Ok(None) => ANCHOR_MIN_LNPBP4_DEPTH,
        Err(failure) => {
            return Err(PsbtCommitError::Lnpbp4Key(failure));
        },
    };
    let built = match tree_commit(&messages, min_depth) {
        Err(failure) => Err(PsbtCommitError::Lnpbp4(failure)),
        Ok(tree) => match fixed {
            None => Ok(tree),
            Some(entropy) => match tree_with_entropy(&tree, entropy) {
                Some(pinned) => Ok(pinned),
                None => Err(PsbtCommitError::StaticEntropy),
            },
        },
    };
    proof {
        let leaves = leaf_views(messages@);
        assert(leaf_protocols(leaves) =~= protocols_of(messages@));
        assert(leaf_set(leaves) =~= leaves_of(messages@)) by {
            assert forall|leaf: Leaf| leaf_set(leaves).contains(leaf) implies leaves_of(
                messages@,
            ).contains(leaf) by {
                let i = choose|i: int| 0 <= i < leaves.len() && leaves[i] == leaf;
                assert(messages@[i].0@ == leaf.0 && messages@[i].1@ == leaf.1);
            }
            assert forall|leaf: Leaf| leaves_of(messages@).contains(leaf) implies leaf_set(
                leaves,
            ).contains(leaf) by {
                let i = choose|i: int|
                    0 <= i < messages@.len() && (#[trigger] messages@[i]).0@ == leaf.0
                        && messages@[i].1@ == leaf.1;
                assert(leaves[i] == leaf);
            }
        }
        assert(tree_decision(leaves, min_depth, fixed, built));
    }
    assert(min_depth_of(output) matches Ok(depth) && depth == min_depth);
    assert(tree_outcome(output, fixed, built));
    built
}

/// What embedding a commitment into a data-carrying host gives: the error,
/// if there is one, and the host as it is left. The script is replaced
/// first, then the commitment is recorded, then the entropy; the first step
/// that fails ends the embedding and leaves the steps before it done.
pub open spec fn opret_embedding(output: OutputView, commitment: Seq<u8>, entropy: u64) -> (
    Option<PsbtCommitError>,
    OutputView,
) {
    let scripted = output.with_script(op_return_script(commitment));
    match scripted.set_opret_commitment(commitment) {
        Err(failure) => (Some(PsbtCommitError::OpretKey(failure)), scripted),
        Ok(committed) => match committed.set_lnpbp4_entropy(entropy) {
            Err(failure) => (Some(PsbtCommitError::Lnpbp4Key(failure)), committed),
            Ok(recorded) => (None, recorded),
        },
    }
}

/// What embedding a commitment into a script-path host gives, for the
/// answer of the script-path proof engine: the error, if there is one, and
/// the host as it is left. A failure of the engine leaves the host as it
/// was; the rewritten host stays where the entropy cannot be recorded in
/// it.
pub open spec fn tapret_embedding(
    output: OutputView,
    answer: Result<(psbt::Output, TapretProof), TapretError>,
    entropy: u64,
) -> (Option<PsbtCommitError>, OutputView) {
    match answer {
        Err(failure) => (Some(PsbtCommitError::Tapret(failure)), output),
        Ok((rewritten, _)) => match output_view(rewritten).set_lnpbp4_entropy(entropy) {
            Err(failure) => (Some(PsbtCommitError::Lnpbp4Key(failure)), output_view(rewritten)),
            Ok(recorded) => (None, recorded),
        },
    }
}

/// The container that embedding a commitment into a data-carrying host
/// leaves: the container after the steps that were done.
pub open spec fn opret_container(
    before: psbt::Psbt,
    index: int,
    commitment: Seq<u8>,
    entropy: u64,
) -> psbt::Psbt {
    let output = psbt_outputs(before)[index];
    let scripted = psbt_with_script(before, index, op_return_script(commitment));
    match output.with_script(op_return_script(commitment)).set_opret_commitment(commitment) {
        Err(_) => scripted,
        Ok(committed) => match committed.set_lnpbp4_entropy(entropy) {
            Err(_) => psbt_with_opret_commitment(scripted, index, commitment),
            Ok(_) => psbt_with_entropy(
                psbt_with_opret_commitment(scripted, index, commitment),
                index,
                entropy,
            ),
        },
    }
}

/// The container that embedding a commitment into a script-path host leaves,
/// for the answer of the script-path proof engine.
pub open spec fn tapret_container(
    before: psbt::Psbt,
    index: int,
    answer: Result<(psbt::Output, TapretProof), TapretError>,
    entropy: u64,
) -> psbt::Psbt {
    match answer {
        Err(_) => before,
        Ok((rewritten, _)) => match output_view(rewritten).set_lnpbp4_entropy(entropy) {
            Err(_) => psbt_with_output(before, index, rewritten),
            Ok(_) => psbt_with_entropy(psbt_with_output(before, index, rewritten), index, entropy),
        },
    }
}

/// What embedding the commitment of `tree` into the host gives: `failure`
/// is the error, if there is one, `hosted` is the host as it is left,
/// `method` is the embedding proof, and `after` is the container as it is
/// left.
pub open spec fn host_embedding<F>(
    before: psbt::Psbt,
    after: psbt::Psbt,
    host: Host,
    tree: MerkleTree,
    script_path: F,
    failure: Option<PsbtCommitError>,
    hosted: OutputView,
    method: ProofView,
) -> bool where
    F: FnOnce(psbt::Output, &CommitmentHash) -> Result<(psbt::Output, TapretProof), TapretError>,
 {
    let output = psbt_outputs(before)[host.index()];
    let commitment = lnpbp4_commitment(tree_merkle_root(tree));
    let entropy = tree_entropy(tree);
    match host {
        Host::Opret(_) => (failure, hosted) == opret_embedding(output, commitment, entropy)
            && method == ProofView::OpretFirst && after == opret_container(
            before,
            host.index(),
            commitment,
            entropy,
        ),
        Host::Tapret(_) => exists|
            given: psbt::Output,
            root: CommitmentHash,
            answer: Result<(psbt::Output, TapretProof), TapretError>,
        |
            {
                &&& output_view(given) == output
                &&& root@ == commitment
                &&& #[trigger] script_path.ensures((given, &root), answer)
                &&& (failure, hosted) == tapret_embedding(output, answer, entropy)
                &&& after == tapret_container(before, host.index(), answer, entropy)
                &&& answer matches Ok((_, tapret)) ==> method == ProofView::TapretFirst(tapret@)
            },
    }
}

/// What embedding the commitment of a tree into the host of a container
/// returns and leaves in the container. Only the host changes. Without an
/// error the anchor holds the tree, the embedding proof, and the id that the
/// transaction has after the embedding.
pub open spec fn tree_embedded<F>(
    before: psbt::Psbt,
    host: Host,
    tree: MerkleTree,
    script_path: F,
    outcome: Result<Anchor<MerkleTree>, PsbtCommitError>,
    after: psbt::Psbt,
) -> bool where
    F: FnOnce(psbt::Output, &CommitmentHash) -> Result<(psbt::Output, TapretProof), TapretError>,
 {
    exists|failure: Option<PsbtCommitError>, hosted: OutputView, method: ProofView|
        {
            &&& #[trigger] host_embedding(
                before,
                after,
                host,
                tree,
                script_path,
                failure,
                hosted,
                method,
            )
            &&& psbt_outputs(after) == psbt_outputs(before).update(host.index(), hosted)
            &&& match failure {
                Some(error) => outcome == Err::<Anchor<MerkleTree>, PsbtCommitError>(error),
                None => outcome matches Ok(anchor) && anchor.lnpbp4_proof == tree
                    && anchor.dbc_proof@ == method && anchor.txid@ == psbt_txid(after),
            }
        }
}

/// What an embedding returns and leaves in the container.
///
/// Without a host it fails with `CommitmentImpossible` and leaves the
/// container as it is. With a host, the tree of the host is built first: a
/// failure to build it is the outcome, and the container stays as it is.
/// The tree that was built is embedded into the host.
pub open spec fn embedding_outcome<F>(
    before: psbt::Psbt,
    fixed: Option<u64>,
    script_path: F,
    outcome: Result<Anchor<MerkleTree>, PsbtCommitError>,
    after: psbt::Psbt,
) -> bool where
    F: FnOnce(psbt::Output, &CommitmentHash) -> Result<(psbt::Output, TapretProof), TapretError>,
 {
    let outputs = psbt_outputs(before);
    if no_host(outputs) {
        after == before && outcome == Err::<Anchor<MerkleTree>, PsbtCommitError>(
            PsbtCommitError::CommitmentImpossible,
        )
    } else {
        exists|host: Host, built: Result<MerkleTree, PsbtCommitError>|
            {
                &&& is_host(outputs, host)
                &&& #[trigger] tree_outcome(outputs[host.index()], fixed, built)
                &&& match built {
                    Err(failure) => after == before && outcome == Err::<
                        Anchor<MerkleTree>,
                        PsbtCommitError,
                    >(failure),
                    Ok(tree) => tree_embedded(before, host, tree, script_path, outcome, after),
                }
            }
    }
}

/// Embeds the commitment of a tree into the host of a container.
///
/// A script-path host is handed, with the commitment, to the engine
/// `script_path`, which rewrites it, records the commitment in it and
/// returns the proof; the rewritten host takes the place of the host. A
/// data-carrying host gets the script that carries the commitment, and the
/// commitment in its keys. The entropy of the tree is recorded in the host,
/// and the id of the transaction is taken last.
pub fn embed_tree<F>(psbt: &mut psbt::Psbt, host: Host, tree: MerkleTree, script_path: F) -> (outcome:
    Result<Anchor<MerkleTree>, PsbtCommitError>) where
    F: FnOnce(psbt::Output, &CommitmentHash) -> Result<(psbt::Output, TapretProof), TapretError>,

    requires
        is_host(psbt_outputs(*old(psbt)), host),
        tree_sound(tree),
        forall|output: psbt::Output, root: CommitmentHash| #[trigger]
            script_path.requires((output, &root)),
    ensures
        tree_embedded(*old(psbt), host, tree, script_path, outcome, *final(psbt)),
{
    let ghost before = psbt_outputs(*psbt);
    let ghost output = before[host.index()];
    let commitment = tree_commitment(&tree);
    let entropy = tree_entropy_value(&tree);
    match host {
        Host::Tapret(index) => {
            let given = psbt_output(psbt, index);
            let answer = script_path(given, &commitment);
            match answer {
                Err(failure) => {
                    proof {
                        let error = Some(PsbtCommitError::Tapret(failure));
                        assert(psbt_outputs(*psbt) =~= before.update(index as int, output));
                        assert(host_embedding(
                            *old(psbt),
                            *psbt,
                            host,
                            tree,
                            script_path,
                            error,
                            output,
                            ProofView::OpretFirst,
                        ));
                    }
                    Err(PsbtCommitError::Tapret(failure))
                },
                Ok((rewritten, tapret)) => {
                    let ghost method = ProofView::TapretFirst(tapret@);
                    let ghost (failure, hosted) = tapret_embedding(output, answer, entropy);
                    psbt_replace_output(psbt, index, rewritten);
                    match psbt_set_entropy(psbt, index, entropy) {
                        Err(error) => {
                            proof {
                                assert(psbt_outputs(*psbt) =~= before.update(index as int, hosted));
                                assert(host_embedding(
                                    *old(psbt),
                                    *psbt,
                                    host,
                                    tree,
                                    script_path,
                                    failure,
                                    hosted,
                                    method,
                                ));
                            }
                            Err(PsbtCommitError::Lnpbp4Key(error))
                        },
                        Ok(_) => {
                            let txid = psbt_to_txid(psbt);
                            proof {
                                assert(psbt_outputs(*psbt) =~= before.update(index as int, hosted));
                                assert(host_embedding(
                                    *old(psbt),
                                    *psbt,
                                    host,
                                    tree,
                                    script_path,
                                    failure,
                                    hosted,
                                    method,
                                ));
                            }
                            Ok(Anchor { txid, lnpbp4_proof: tree, dbc_proof: Proof::TapretFirst(tapret) })
                        },
                    }
                },
            }
        },
        Host::Opret(index) => {
            let ghost method = ProofView::OpretFirst;
            let ghost (failure, hosted) = opret_embedding(output, commitment@, entropy);
            let script = new_op_return(&commitment);
            psbt_set_script(psbt, index, script);
            match psbt_set_opret_commitment(psbt, index, &commitment) {
                Err(error) => {
                    proof {
                        assert(psbt_outputs(*psbt) =~= before.update(index as int, hosted));
                        assert(host_embedding(
                            *old(psbt),
                            *psbt,
                            host,
                            tree,
                            script_path,
                            failure,
                            hosted,
                            method,
                        ));
                    }
                    return Err(PsbtCommitError::OpretKey(error));
                },
                Ok(()) => {},
            }
            match psbt_set_entropy(psbt, index, entropy) {
                Err(error) => {
                    proof {
                        assert(psbt_outputs(*psbt) =~= before.update(index as int, hosted));
                        assert(host_embedding(
                            *old(psbt),
                            *psbt,
                            host,
                            tree,
                            script_path,
                            failure,
                            hosted,
                            method,
                        ));
                    }
                    Err(PsbtCommitError::Lnpbp4Key(error))
                },
                Ok(_) => {
                    let txid = psbt_to_txid(psbt);
                    proof {
                        assert(psbt_outputs(*psbt) =~= before.update(index as int, hosted));
                        assert(host_embedding(
                            *old(psbt),
                            *psbt,
                            host,
                            tree,
                            script_path,
                            failure,
                            hosted,
                            method,
                        ));
                    }
                    Ok(Anchor { txid, lnpbp4_proof: tree, dbc_proof: Proof::OpretFirst })
                },
            }
        },
    }
}

/// Embeds the commitment to the messages of the host into the container.
fn embed<F>(psbt: &mut psbt::Psbt, fixed: Option<u64>, script_path: F) -> (outcome: Result<
    Anchor<MerkleTree>,
    PsbtCommitError,
>) where
    F: FnOnce(psbt::Output, &CommitmentHash) -> Result<(psbt::Output, TapretProof), TapretError>,

    requires
        forall|output: psbt::Output, root: CommitmentHash| #[trigger]
            script_path.requires((output, &root)),
    ensures
        embedding_outcome(*old(psbt), fixed, script_path, outcome, *final(psbt)),
{
    let ghost before = psbt_outputs(*psbt);
    let host = match find_host(psbt) {
        Some(host) => host,
        None => {
            return Err(PsbtCommitError::CommitmentImpossible);
        },
    };
    let index = match host {
        Host::Tapret(index) => index,
        Host::Opret(index) => index,
    };
    proof {
        lemma_host_unique(before, host, host);
    }
    let built = build_tree(psbt, index, fixed);
    let ghost decided = built;
    proof {
        assert(host.index() == index as int);
        assert(tree_outcome(before[host.index()], fixed, decided));
    }
    match built {
        Err(failure) => Err(failure),
        Ok(tree) => embed_tree(psbt, host, tree, script_path),
    }
}

/// Embeds a commitment to the messages that the host output declares into
/// the container, with a tree of random entropy.
///
/// The host is the first output that may host a script-path commitment or,
/// where there is none, the first that may host a direct-data commitment.
/// The tree is built from the messages of the host, with the depth the host
/// asks for or the default depth. A script-path host is rewritten by the
/// engine `script_path`, which records the commitment in it and returns the
/// proof; a data-carrying host gets the script that carries the commitment,
/// and the commitment in its keys. The entropy of the tree is recorded in
/// the host, and the id of the transaction is taken last.
pub fn embed_commit<F>(psbt: &mut psbt::Psbt, msg: &PsbtEmbeddedMessage, script_path: F) -> (outcome:
    Result<Anchor<MerkleTree>, PsbtCommitError>) where
    F: FnOnce(psbt::Output, &CommitmentHash) -> Result<(psbt::Output, TapretProof), TapretError>,

    requires
        forall|output: psbt::Output, root: CommitmentHash| #[trigger]
            script_path.requires((output, &root)),
    ensures
        embedding_outcome(*old(psbt), None, script_path, outcome, *final(psbt)),
{
    embed(psbt, None, script_path)
}

/// Embeds a commitment as [`embed_commit`] does, with a tree whose entropy
/// is [`STATIC_ENTROPY`], so that everybody who knows the messages builds the
/// same tree.
pub fn embed_commit_static<F>(
    psbt: &mut psbt::Psbt,
    msg: &PsbtEmbeddedMessage,
    script_path: F,
) -> (outcome: Result<Anchor<MerkleTree>, PsbtCommitError>) where
    F: FnOnce(psbt::Output, &CommitmentHash) -> Result<(psbt::Output, TapretProof), TapretError>,

    requires
        forall|output: psbt::Output, root: CommitmentHash| #[trigger]
            script_path.requires((output, &root)),
    ensures
        embedding_outcome(*old(psbt), Some(STATIC_ENTROPY), script_path, outcome, *final(psbt)),
{
    embed(psbt, Some(STATIC_ENTROPY), script_path)
}

/// The anchor over the block that reveals all leaves of the tree of
/// `full`.
pub open spec fn reveals_all(full: Anchor<MerkleTree>, anchor: Anchor<MerkleBlock>) -> bool {
    &&& anchor.txid@ == full.txid@
    &&& anchor.dbc_proof@ == full.dbc_proof@
    &&& tree_depth(full.lnpbp4_proof) < LNPBP4_DEPTH_LIMIT ==> block_sound(anchor.lnpbp4_proof)
    &&& block_depth(anchor.lnpbp4_proof) == tree_depth(full.lnpbp4_proof)
    &&& tree_depth(full.lnpbp4_proof) < LNPBP4_DEPTH_LIMIT ==> block_leaves(anchor.lnpbp4_proof)
        == tree_leaves(full.lnpbp4_proof)
    &&& block_merkle_root(anchor.lnpbp4_proof) == tree_merkle_root(full.lnpbp4_proof)
}

/// What a commitment returns: the outcome of the embedding, with the tree of
/// the anchor turned into the block that reveals all of its leaves.
pub open spec fn commit_outcome<F>(
    before: psbt::Psbt,
    fixed: Option<u64>,
    script_path: F,
    outcome: Result<Anchor<MerkleBlock>, Error>,
    after: psbt::Psbt,
) -> bool where
    F: FnOnce(psbt::Output, &CommitmentHash) -> Result<(psbt::Output, TapretProof), TapretError>,
 {
    exists|embedding: Result<Anchor<MerkleTree>, PsbtCommitError>|
        {
            &&& #[trigger] embedding_outcome(before, fixed, script_path, embedding, after)
            &&& match embedding {
                Ok(full) => outcome matches Ok(anchor) && reveals_all(full, anchor),
                Err(failure) => outcome == Err::<Anchor<MerkleBlock>, Error>(
                    Error::EmbedCommit(failure),
                ),
            }
        }
}

/// Turns the outcome of an embedding into the outcome of a commitment.
fn reveal_all(embedding: Result<Anchor<MerkleTree>, PsbtCommitError>) -> (outcome: Result<
    Anchor<MerkleBlock>,
    Error,
>)
    requires
        embedding matches Ok(full) ==> tree_sound(full.lnpbp4_proof),
    ensures
        match embedding {
            Ok(full) => outcome matches Ok(anchor) && reveals_all(full, anchor),
            Err(failure) => outcome == Err::<Anchor<MerkleBlock>, Error>(
                Error::EmbedCommit(failure),
            ),
        },
{
    match embedding {
        Ok(full) => Ok(
            Anchor {
                txid: full.txid,
                lnpbp4_proof: tree_into_block(full.lnpbp4_proof),
                dbc_proof: full.dbc_proof,
            },
        ),
        Err(failure) => Err(Error::EmbedCommit(failure)),
    }
}

impl Anchor<MerkleBlock> {
    /// Convenience constructor for anchor, which also does embedding of
    /// LNPBP4 commitment into PSBT.
    pub fn commit<F>(psbt: &mut psbt::Psbt, script_path: F) -> (outcome: Result<
        Anchor<MerkleBlock>,
        Error,
    >) where
        F: FnOnce(psbt::Output, &CommitmentHash) -> Result<(psbt::Output, TapretProof), TapretError>,

        requires
            forall|output: psbt::Output, root: CommitmentHash| #[trigger]
                script_path.requires((output, &root)),
        ensures
            commit_outcome(*old(psbt), None, script_path, outcome, *final(psbt)),
    {
        let embedding = embed_commit(psbt, &PsbtEmbeddedMessage, script_path);
        reveal_all(embedding)
    }

    /// Static entropy version of the commit method.
    pub fn commit_static<F>(psbt: &mut psbt::Psbt, script_path: F) -> (outcome: Result<
        Anchor<MerkleBlock>,
        Error,
    >) where
        F: FnOnce(psbt::Output, &CommitmentHash) -> Result<(psbt::Output, TapretProof), TapretError>,

        requires
            forall|output: psbt::Output, root: CommitmentHash| #[trigger]
                script_path.requires((output, &root)),
        ensures
            commit_outcome(*old(psbt), Some(STATIC_ENTROPY), script_path, outcome, *final(psbt)),
    {
        let embedding = embed_commit_static(psbt, &PsbtEmbeddedMessage, script_path);
        reveal_all(embedding)
    }
}

impl Anchor<MerkleTree> {
    /// Restores the container as it was before the commitment of the anchor
    /// was embedded. The container that is given stays as it is.
    ///
    /// A direct-data commitment leaves nothing to restore: the container is
    /// returned as it is. For a script-path commitment the first output that
    /// may host one is handed, with the proof, to the engine `restore`, and
    /// the output it returns takes its place in a copy of the container, of
    /// which nothing else differs; without such an output the container
    /// cannot have been committed to.
    pub fn restore_original_container<F>(&self, psbt: &psbt::Psbt, restore: F) -> (restored: Result<
        psbt::Psbt,
        PsbtVerifyError,
    >) where F: FnOnce(&TapretProof, psbt::Output) -> Result<psbt::Output, TapretError>
        requires
            self.dbc_proof matches Proof::TapretFirst(tapret) ==> forall|output: psbt::Output| #[trigger]
                restore.requires((&tapret, output)),
        ensures
            match self.dbc_proof {
                Proof::OpretFirst => restored == Ok::<psbt::Psbt, PsbtVerifyError>(*psbt),
                Proof::TapretFirst(tapret) => if no_tapret_host(
                    psbt_outputs(*psbt),
                    psbt_outputs(*psbt).len() as int,
                ) {
                    restored == Err::<psbt::Psbt, PsbtVerifyError>(
                        PsbtVerifyError::Commit(PsbtCommitError::CommitmentImpossible),
                    )
                } else {
                    exists|index: usize, given: psbt::Output, answer: Result<psbt::Output, TapretError>|
                        #![trigger is_host(psbt_outputs(*psbt), Host::Tapret(index)), restore.ensures((&tapret, given), answer)]
                        {
                            &&& is_host(psbt_outputs(*psbt), Host::Tapret(index))
                            &&& output_view(given) == psbt_outputs(*psbt)[index as int]
                            &&& restore.ensures((&tapret, given), answer)
                            &&& match answer {
                                Ok(original) => restored matches Ok(container) && container
                                    == psbt_with_output(*psbt, index as int, original)
                                    && psbt_outputs(container) == psbt_outputs(*psbt).update(
                                    index as int,
                                    output_view(original),
                                ),
                                Err(failure) => restored == Err::<psbt::Psbt, PsbtVerifyError>(
                                    PsbtVerifyError::Tapret(failure),
                                ),
                            }
                        }
                },
            },
    {
        match &self.dbc_proof {
            Proof::OpretFirst => Ok(psbt_clone(psbt)),
            Proof::TapretFirst(tapret) => {
                let mut container = psbt_clone(psbt);
                match find_tapret_host(&container) {
                    None => Err(PsbtVerifyError::Commit(PsbtCommitError::CommitmentImpossible)),
                    Some(index) => {
                        let given = psbt_output(&container, index);
                        let answer = restore(tapret, given);
                        match answer {
                            Ok(original) => {
                                psbt_replace_output(&mut container, index, original);
                                Ok(container)
                            },
                            Err(failure) => Err(PsbtVerifyError::Tapret(failure)),
                        }
                    },
                }
            },
        }
    }
}

} // verus!

//! The multi-protocol commitment tree, in its three shapes.
//!
//! The tree is built, concealed, merged and proved by the `commit_verify`
//! crate. This module declares its types, names what the anchor logic needs
//! to know of their values, and holds one function per operation of the tree
//! that the anchor logic calls. The contracts of these functions are taken
//! from the source and the documentation of `commit_verify::lnpbp4`; Verus
//! does not check them.

use vstd::prelude::*;
use commit_verify::lnpbp4::{MerkleBlock, MerkleProof, MerkleTree, MultiSource};
use commit_verify::{CommitEncode, ConsensusCommit, TryCommitVerify};
use strict_encoding::{StrictDecode, StrictEncode};
use crate::bytes::{CommitmentHash, Message, ProtocolId};
use crate::cross_section::{count_outside, leaf_set, sound_leaves};
use crate::hash::sha256_from_midstate;

verus! {

#[verifier::external_type_specification]
#[verifier::external_body]
pub struct ExMerkleTree(MerkleTree);

#[verifier::external_type_specification]
#[verifier::external_body]
pub struct ExMerkleBlock(MerkleBlock);

#[verifier::external_type_specification]
#[verifier::external_body]
pub struct ExMerkleProof(MerkleProof);

/// Depth that commitment trees are given when nothing else is asked for.
pub const ANCHOR_MIN_LNPBP4_DEPTH: u8 = 3;

/// Depth from which on the tree engine can no longer reduce a partially
/// revealed tree to its root: the width of a tree must fit into 16 bits.
pub const LNPBP4_DEPTH_LIMIT: u8 = 16;

/// State of SHA-256 after the block made of the hash of the tag `LNPBP4`
/// taken twice.
pub const MIDSTATE_LNPBP4: [u8; 32] = [
    0x23, 0x4B, 0x4D, 0xBA, 0x22, 0x2A, 0x64, 0x1C, 0x7F, 0x74, 0xD5, 0xC9,
    0x80, 0x17, 0x36, 0x1A, 0x90, 0x76, 0x4F, 0xB3, 0xC2, 0xB1, 0xA1, 0x6F,
    0xDE, 0x28, 0x66, 0x89, 0xF1, 0xCC, 0x99, 0x3F,
];

/// The leaf set was rejected by the tree engine.
#[derive(Clone, Copy, Debug, PartialEq, Eq, Structural)]
pub enum Lnpbp4Error {
    /// No message and a depth of zero.
    Empty,
    /// More messages than a tree of the largest depth has leaves.
    TooManyMessages(usize),
    /// The protocols collide at every depth up to the largest.
    CantFitInMaxSlots,
}

/// A protocol has no revealed leaf in the tree.
#[derive(Clone, Copy, Debug, PartialEq, Eq, Structural)]
pub struct LeafNotKnown;

/// A proof does not belong to the protocol or tree it is used with.
#[derive(Clone, Copy, Debug, PartialEq, Eq, Structural)]
pub struct UnrelatedProof;

/// One leaf: the protocol and the message it commits to.
pub type Leaf = (Seq<u8>, Seq<u8>);

/// The tree is one that the engine built, so that its leaves have distinct
/// places.
pub uninterp spec fn tree_sound(tree: MerkleTree) -> bool;

/// Depth of the tree.
pub uninterp spec fn tree_depth(tree: MerkleTree) -> u8;

/// Number of the leaves of the tree.
pub uninterp spec fn tree_leaf_count(tree: MerkleTree) -> nat;

/// Depth of the tree that the engine builds for the protocols, listed in
/// their order, and a least depth, if it builds one: the least depth, from
/// the one asked for up to 16, at which the protocols have distinct places.
pub uninterp spec fn commit_depth(protocols: Seq<Seq<u8>>, min_depth: u8) -> Option<u8>;

/// Entropy from which the placeholders of the empty places are made.
pub uninterp spec fn tree_entropy(tree: MerkleTree) -> u64;

/// The leaves of the tree.
pub uninterp spec fn tree_leaves(tree: MerkleTree) -> Set<Leaf>;

/// Merkle root of the tree: the bytes of its commitment encoding.
pub uninterp spec fn tree_merkle_root(tree: MerkleTree) -> Seq<u8>;

/// Merkle root of the tree with the given leaves, depth and entropy: every
/// leaf is hashed at the place of its protocol, every other place holds a
/// placeholder hashed from the entropy, and neighbours are hashed in pairs
/// up to the root.
pub uninterp spec fn merkle_root_of(leaves: Set<Leaf>, depth: u8, entropy: u64) -> Seq<u8>;

/// The strict encoding of the block: its depth, its nodes from left to
/// right, and its entropy; the empty string for a block of more nodes than
/// the encoding can count.
pub uninterp spec fn block_encoding(block: MerkleBlock) -> Seq<u8>;

/// Place of the leaf of a protocol in a tree of the given depth.
pub uninterp spec fn protocol_place(protocol: Seq<u8>, depth: u8) -> int;

/// The block is a cross-section of a tree: its nodes, taken from left to
/// right, cover every place of the tree once, and every leaf stands at the
/// place of its protocol.
pub open spec fn block_sound(block: MerkleBlock) -> bool {
    sound_leaves(block_depth(block), block_encoding(block)) is Some
}

/// Depth of the tree that the block is a cross-section of.
pub uninterp spec fn block_depth(block: MerkleBlock) -> u8;

/// The leaves that the block reveals, from left to right.
pub open spec fn block_leaf_list(block: MerkleBlock) -> Seq<Leaf> {
    match sound_leaves(block_depth(block), block_encoding(block)) {
        Some(leaves) => leaves,
        None => Seq::empty(),
    }
}

/// The leaves that the block reveals.
pub open spec fn block_leaves(block: MerkleBlock) -> Set<Leaf> {
    leaf_set(block_leaf_list(block))
}

/// Merkle root of the block: the bytes of its commitment encoding, which
/// hold nothing of the block but the root.
pub uninterp spec fn block_merkle_root(block: MerkleBlock) -> Seq<u8>;

/// The engine accepts to merge the two blocks.
pub uninterp spec fn blocks_mergeable(block: MerkleBlock, other: MerkleBlock) -> bool;

/// The strict encoding of the block that the engine leaves in the receiver
/// when it has merged `other` into `block`.
pub uninterp spec fn merged_encoding(block: MerkleBlock, other: MerkleBlock) -> Seq<u8>;

/// The merkle root of the block that the engine leaves in the receiver when
/// it has merged `other` into `block`.
pub uninterp spec fn merged_root(block: MerkleBlock, other: MerkleBlock) -> Seq<u8>;

/// The hashing partners on the way from the leaf to the root.
pub uninterp spec fn proof_path(path: MerkleProof) -> Seq<Seq<u8>>;

/// The place of the leaf that the proof was made for.
pub uninterp spec fn proof_place(path: MerkleProof) -> int;

/// The proof was made for the place of the protocol, in a tree of less
/// levels than the depth limit.
pub open spec fn proof_fits(path: MerkleProof, protocol: Seq<u8>) -> bool {
    proof_path(path).len() < LNPBP4_DEPTH_LIMIT && protocol_place(
        protocol,
        proof_path(path).len() as u8,
    ) == proof_place(path)
}

/// Merkle root that the proof gives for a leaf, if the place of the protocol
/// is the place that the proof was made for.
pub uninterp spec fn proof_merkle_root(path: MerkleProof, protocol: Seq<u8>, message: Seq<u8>)
    -> Option<Seq<u8>>;

/// Commitment to a tree with the given merkle root.
pub open spec fn lnpbp4_commitment(merkle_root: Seq<u8>) -> Seq<u8> {
    sha256_from_midstate(MIDSTATE_LNPBP4@, merkle_root)
}

/// The leaves listed in `messages`.
pub open spec fn leaves_of(messages: Seq<(ProtocolId, Message)>) -> Set<Leaf> {
    Set::new(
        |leaf: Leaf|
            exists|i: int|
                0 <= i < messages.len() && (#[trigger] messages[i]).0@ == leaf.0
                    && messages[i].1@ == leaf.1,
    )
}

/// The protocols of a list of messages.
pub open spec fn protocols_of(messages: Seq<(ProtocolId, Message)>) -> Seq<Seq<u8>> {
    Seq::new(messages.len(), |i: int| messages[i].0@)
}

/// No protocol is listed twice.
pub open spec fn distinct_protocols(messages: Seq<(ProtocolId, Message)>) -> bool {
    forall|i: int, j: int|
        0 <= i < j < messages.len() ==> (#[trigger] messages[i]).0@ != (#[trigger] messages[j]).0@
}

/// The block reveals a leaf of `protocol`.
pub open spec fn reveals(block: MerkleBlock, protocol: Seq<u8>) -> bool {
    exists|message: Seq<u8>| #[trigger] block_leaves(block).contains((protocol, message))
}

/// The block can be handed to the engine: it is sound and not too deep.
pub open spec fn block_usable(block: MerkleBlock) -> bool {
    block_sound(block) && block_depth(block) < LNPBP4_DEPTH_LIMIT
}

/// The leaves of `leaves` whose protocol is among `protocols`.
pub open spec fn leaves_within(leaves: Set<Leaf>, protocols: Seq<Seq<u8>>) -> Set<Leaf> {
    leaves.filter(|leaf: Leaf| protocols.contains(leaf.0))
}

/// The byte strings of a list of protocols.
pub open spec fn protocol_views(protocols: Seq<ProtocolId>) -> Seq<Seq<u8>> {
    protocols.map_values(|protocol: ProtocolId| protocol@)
}

/// `MerkleTree::try_commit` on a `MultiSource` made of `messages` and
/// `min_depth`. The engine fails with `Empty` exactly when there is no
/// message and the depth is zero; otherwise it draws a random entropy and
/// looks for the least depth, from `min_depth` up to 16, at which the
/// protocols get distinct places. Whether it finds one depends on the
/// protocols and the depth alone. The tree it returns holds the messages as
/// they were given.
#[verifier::external_body]
pub(crate) fn tree_commit(messages: &Vec<(ProtocolId, Message)>, min_depth: u8) -> (built: Result<MerkleTree, Lnpbp4Error>)
    requires
        distinct_protocols(messages@),
    ensures
        built matches Err(Lnpbp4Error::Empty) <==> (min_depth == 0 && messages@.len() == 0),
        built is Ok <==> commit_depth(protocols_of(messages@), min_depth) is Some,
        built matches Ok(tree) ==> tree_sound(tree) && tree_leaves(tree) == leaves_of(messages@)
            && tree_leaf_count(tree) == messages@.len() && Some(tree_depth(tree)) == commit_depth(
            protocols_of(messages@),
            min_depth,
        ) && tree_depth(tree) >= min_depth && tree_depth(tree) <= 16 && tree_merkle_root(tree)
            == merkle_root_of(tree_leaves(tree), tree_depth(tree), tree_entropy(tree)),
{
    let messages = messages.iter().map(
        |(p, m)| (amplify::Wrapper::from_inner(*p), bitcoin::hashes::Hash::from_inner(*m)),
    ).collect();
    match MerkleTree::try_commit(&MultiSource { min_depth, messages }) {
        Ok(tree) => Ok(tree),
        Err(commit_verify::lnpbp4::Error::Empty) => Err(Lnpbp4Error::Empty),
        Err(commit_verify::lnpbp4::Error::TooManyMessages(n)) => Err(
            Lnpbp4Error::TooManyMessages(n),
        ),
        Err(commit_verify::lnpbp4::Error::CantFitInMaxSlots) => Err(Lnpbp4Error::CantFitInMaxSlots),
    }
}

/// `ConsensusCommit::consensus_commit` of a `MerkleTree`: the hash, under
/// the tag `LNPBP4`, of the commitment encoding of the tree, which is its
/// merkle root.
#[verifier::external_body]
pub(crate) fn tree_commitment(tree: &MerkleTree) -> (commitment: CommitmentHash)
    requires
        tree_sound(*tree),
    ensures
        commitment@ == lnpbp4_commitment(tree_merkle_root(*tree)),
{
    bitcoin::hashes::Hash::into_inner(amplify::Wrapper::into_inner(tree.consensus_commit()))
}

/// The getter `MerkleTree::entropy`.
#[verifier::external_body]
pub(crate) fn tree_entropy_value(tree: &MerkleTree) -> (entropy: u64)
    ensures
        entropy == tree_entropy(*tree),
{
    tree.entropy()
}

/// The tree with the depth and the messages of `tree` and with another
/// entropy. The crate builds trees with a random entropy only, so the parts
/// of the tree are put through its strict encoding: the depth, the entropy
/// and the messages are encoded one after the other, as the fields of a
/// `MerkleTree` are, and decoded as a `MerkleTree`. The encoding fails for
/// more messages than two bytes can count, and for nothing else. The places
/// of the leaves depend on the depth and the protocols alone, so that a
/// sound tree stays sound.
#[verifier::external_body]
pub(crate) fn tree_with_entropy(tree: &MerkleTree, entropy: u64) -> (pinned: Option<MerkleTree>)
    ensures
        pinned is Some <==> tree_leaf_count(*tree) <= 65535,
        pinned matches Some(other) ==> tree_entropy(other) == entropy && tree_depth(other)
            == tree_depth(*tree) && tree_leaves(other) == tree_leaves(*tree) && tree_leaf_count(
            other,
        ) == tree_leaf_count(*tree) && (tree_sound(*tree) ==> tree_sound(other)
            && tree_merkle_root(other) == merkle_root_of(
            tree_leaves(other),
            tree_depth(other),
            tree_entropy(other),
        )),
{
    let mut bytes: Vec<u8> = Vec::new();
    tree.depth().strict_encode(&mut bytes).ok()?;
    entropy.strict_encode(&mut bytes).ok()?;
    tree.messages().strict_encode(&mut bytes).ok()?;
    MerkleTree::strict_deserialize(bytes).ok()
}

/// `MerkleBlock::from` for a `MerkleTree`: the block that reveals every leaf
/// of the tree, each at the place of its protocol, and holds a placeholder
/// made from the entropy at every other place. It has the depth and the
/// merkle root of the tree. A tree of 16 levels gives a block of more nodes
/// than the strict encoding can count, of which the leaves cannot be read.
#[verifier::external_body]
pub(crate) fn tree_into_block(tree: MerkleTree) -> (block: MerkleBlock)
    requires
        tree_sound(tree),
    ensures
        tree_depth(tree) < LNPBP4_DEPTH_LIMIT ==> block_sound(block),
        block_depth(block) == tree_depth(tree),
        tree_depth(tree) < LNPBP4_DEPTH_LIMIT ==> block_leaves(block) == tree_leaves(tree),
        block_merkle_root(block) == tree_merkle_root(tree),
{
    MerkleBlock::from(tree)
}

/// The getter `MerkleBlock::depth`.
#[verifier::external_body]
pub(crate) fn block_depth_value(block: &MerkleBlock) -> (depth: u8)
    ensures
        depth == block_depth(*block),
{
    block.depth()
}

/// `CommitEncode::commit_encode` of a `MerkleBlock` into a buffer: the block
/// is concealed in full and the one node that is left, the root, is written
/// as its 32 bytes.
#[verifier::external_body]
pub(crate) fn block_commit_encode(block: &MerkleBlock) -> (encoded: Vec<u8>)
    requires
        block_usable(*block),
    ensures
        encoded@ == block_merkle_root(*block),
        encoded@.len() == 32,
{
    let mut encoded: Vec<u8> = Vec::new();
    block.commit_encode(&mut encoded);
    encoded
}

/// `MerkleBlock::to_merkle_proof`: conceals all leaves but the one of
/// `protocol` in a copy of the block and collects the remaining nodes, one
/// per level, as the path. It fails exactly when the block reveals no leaf of
/// the protocol. The proof it returns is a proof of inclusion of that leaf:
/// with the message of the leaf it leads to the merkle root of the block.
#[verifier::external_body]
pub(crate) fn block_to_merkle_proof(block: &MerkleBlock, protocol: &ProtocolId) -> (extracted:
    Result<MerkleProof, LeafNotKnown>)
    requires
        block_usable(*block),
    ensures
        extracted is Ok <==> reveals(*block, protocol@),
        extracted matches Ok(path) ==> proof_path(path).len() == block_depth(*block)
            && proof_place(path) == protocol_place(protocol@, block_depth(*block))
            && forall|message: Seq<u8>| #[trigger]
            block_leaves(*block).contains((protocol@, message)) ==> proof_merkle_root(
                path,
                protocol@,
                message,
            ) == Some(block_merkle_root(*block)),
{
    block.to_merkle_proof(amplify::Wrapper::from_inner(*protocol)).map_err(|_| LeafNotKnown)
}

/// `MerkleBlock::conceal_except`: replaces every revealed leaf whose protocol
/// is not listed by its hash, fails if a listed protocol has no revealed
/// leaf, and otherwise joins concealed neighbours as far as it can. The
/// leaves of the listed protocols stay where they are, so that the number
/// of revealed leaves drops by the number of leaves whose protocol is not
/// listed; the depth and the merkle root of the block do not change, whether
/// or not the call fails. The number it returns counts joined nodes too and
/// is not stated.
#[verifier::external_body]
pub(crate) fn block_conceal_except(block: &mut MerkleBlock, protocols: &Vec<ProtocolId>) -> (concealed:
    Result<usize, LeafNotKnown>)
    requires
        block_usable(*old(block)),
    ensures
        concealed is Ok <==> forall|i: int|
            0 <= i < protocols@.len() ==> reveals(*old(block), #[trigger] protocols@[i]@),
        block_sound(*final(block)),
        block_depth(*final(block)) == block_depth(*old(block)),
        block_merkle_root(*final(block)) == block_merkle_root(*old(block)),
        block_leaves(*final(block)) == leaves_within(
            block_leaves(*old(block)),
            protocol_views(protocols@),
        ),
        block_leaf_list(*final(block)).len() + count_outside(
            block_leaf_list(*old(block)),
            protocol_views(protocols@),
        ) == block_leaf_list(*old(block)).len(),
{
    let protocols: Vec<commit_verify::lnpbp4::ProtocolId> = protocols.iter().map(
        |p| amplify::Wrapper::from_inner(*p),
    ).collect();
    block.conceal_except(protocols).map_err(|_| LeafNotKnown)
}

/// `MerkleBlock::merge_reveal`: refuses two blocks whose commitments differ,
/// walks both cross-sections and assigns the nodes it has collected to the
/// receiver. The receiver changes only when the call succeeds, and its depth
/// never. The block that the walk leaves in the receiver depends on the two
/// blocks alone; nothing more is said of it: where the two blocks differ in
/// depth at neighbouring places its nodes may be no cross-section at all. A
/// block merged with an equal block is walked node by node and stays as it
/// is.
#[verifier::external_body]
pub(crate) fn block_merge_reveal(block: &mut MerkleBlock, other: MerkleBlock) -> (merged: Result<
    u16,
    UnrelatedProof,
>)
    requires
        block_usable(*old(block)),
        block_usable(other),
    ensures
        merged is Ok <==> blocks_mergeable(*old(block), other),
        merged is Ok ==> lnpbp4_commitment(block_merkle_root(*old(block))) == lnpbp4_commitment(
            block_merkle_root(other),
        ),
        merged is Err ==> *final(block) == *old(block),
        merged is Ok ==> block_encoding(*final(block)) == merged_encoding(*old(block), other)
            && block_merkle_root(*final(block)) == merged_root(*old(block), other),
        block_depth(*final(block)) == block_depth(*old(block)),
        other == *old(block) ==> merged is Ok && *final(block) == *old(block),
{
    block.merge_reveal(other).map_err(|_| UnrelatedProof)
}

/// `StrictEncode::strict_serialize` of a `MerkleBlock`. The encoding fails
/// for more nodes than two bytes can count, which a cross-section of a tree
/// of less than 16 levels never has.
#[verifier::external_body]
pub(crate) fn block_strict_serialize(block: &MerkleBlock) -> (encoded: Option<Vec<u8>>)
    ensures
        encoded matches Some(bytes) ==> bytes@ == block_encoding(*block),
        block_usable(*block) ==> encoded is Some,
{
    block.strict_serialize().ok()
}

/// `MerkleBlock::protocol_id_pos`: the place of the leaf of a protocol in a
/// tree of the depth of the block, which is the protocol, read as a number
/// with the lowest byte first, modulo the number of places.
#[verifier::external_body]
pub(crate) fn block_protocol_pos(block: &MerkleBlock, protocol: &ProtocolId) -> (place: u16)
    requires
        block_depth(*block) < LNPBP4_DEPTH_LIMIT,
    ensures
        place == protocol_place(protocol@, block_depth(*block)),
{
    block.protocol_id_pos(amplify::Wrapper::from_inner(*protocol))
}

/// Length of the slice that `MerkleProof::as_path` returns.
#[verifier::external_body]
pub(crate) fn proof_depth(path: &MerkleProof) -> (depth: usize)
    ensures
        depth == proof_path(*path).len(),
{
    path.as_path().len()
}

/// `MerkleBlock::with`: fails exactly when the place of `protocol` in a tree
/// of the depth of the proof is not the place the proof holds, whatever the
/// message is; otherwise builds the
/// block that reveals the one leaf and holds the nodes of the path around
/// it.
#[verifier::external_body]
pub(crate) fn block_with(path: &MerkleProof, protocol: &ProtocolId, message: &Message) -> (built:
    Result<MerkleBlock, UnrelatedProof>)
    requires
        proof_path(*path).len() < LNPBP4_DEPTH_LIMIT,
    ensures
        built is Ok <==> proof_merkle_root(*path, protocol@, message@) is Some,
        built is Ok <==> proof_fits(*path, protocol@),
        built matches Ok(block) ==> block_sound(block) && block_depth(block) == proof_path(
            *path,
        ).len() && Some(block_merkle_root(block)) == proof_merkle_root(
            *path,
            protocol@,
            message@,
        ) && block_leaves(block) == set![(protocol@, message@)],
{
    MerkleBlock::with(
        path,
        amplify::Wrapper::from_inner(*protocol),
        bitcoin::hashes::Hash::from_inner(*message),
    ).map_err(|_| UnrelatedProof)
}

/// `MerkleProof::convolve`: the commitment of the block that
/// `MerkleBlock::with` builds from the same arguments, and its failure when
/// that fails.
#[verifier::external_body]
pub(crate) fn proof_convolve(path: &MerkleProof, protocol: &ProtocolId, message: &Message) -> (convolved:
    Result<CommitmentHash, UnrelatedProof>)
    requires
        proof_path(*path).len() < LNPBP4_DEPTH_LIMIT,
    ensures
        convolved is Ok <==> proof_merkle_root(*path, protocol@, message@) is Some,
        convolved is Ok <==> proof_fits(*path, protocol@),
        convolved matches Ok(commitment) ==> proof_merkle_root(*path, protocol@, message@)
            matches Some(root) && commitment@ == lnpbp4_commitment(root),
{
    path.convolve(
        amplify::Wrapper::from_inner(*protocol),
        bitcoin::hashes::Hash::from_inner(*message),
    ).map(|c| bitcoin::hashes::Hash::into_inner(amplify::Wrapper::into_inner(c))).map_err(
        |_| UnrelatedProof,
    )
}

} // verus!

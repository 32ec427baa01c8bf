//! The transaction container that a commitment is embedded into.
//!
//! The container is a `psbt::Psbt`. Of each output the embedding looks at the
//! script and at the proprietary keys that mark it as a host of a commitment
//! and hold the messages to commit to. This module gives that part of an
//! output a mathematical form and holds one function per operation of the
//! `psbt` crate that the embedding calls, with a contract read off the source
//! of `psbt::commit`; Verus does not check these contracts.

use vstd::prelude::*;
use vstd::bytes::spec_u64_to_le_bytes;
use crate::bytes::{Message, ProtocolId, Txid};
use crate::bytes::lex_less;
use crate::cross_section::{leaf_set, leaf_views};
use crate::lnpbp4::{distinct_protocols, leaves_of, Leaf};
use crate::tx::is_op_return;

verus! {

#[verifier::external_type_specification]
#[verifier::external_body]
pub struct ExPsbt(psbt::Psbt);

#[verifier::external_type_specification]
#[verifier::external_body]
pub struct ExOutput(psbt::Output);

/// Errors processing LNPBP4-related proprietary PSBT keys and their values.
#[derive(Clone, Copy, Debug, PartialEq, Eq, Structural)]
pub enum Lnpbp4KeyError {
    /// The key contains invalid value.
    InvalidKeyValue,
    /// The key is already present, but has a different value.
    AlreadySet,
}

/// Errors processing opret-related proprietary PSBT keys and their values.
#[derive(Clone, Copy, Debug, PartialEq, Eq, Structural)]
pub enum OpretKeyError {
    /// Output already contains commitment; there must be a single commitment
    /// per output.
    OutputAlreadyHasCommitment,
    /// The output can't host a commitment since it does not contain
    /// OP_RETURN script.
    NonOpReturnOutput,
    /// The output is not marked to host opret commitments.
    OpretProhibited,
}

/// A proprietary key of a PSBT map.
pub struct KeyView {
    /// Prefix that names the application.
    pub prefix: Seq<u8>,
    /// Subtype of the key within the application.
    pub subtype: u8,
    /// Further bytes of the key.
    pub key: Seq<u8>,
}

/// What the embedding sees of an output of the container.
pub struct OutputView {
    /// Bytes of the script of the output.
    pub script: Seq<u8>,
    /// Proprietary keys of the output with their values.
    pub proprietary: Map<KeyView, Seq<u8>>,
}

/// The outputs of the container, in their order.
pub uninterp spec fn psbt_outputs(psbt: psbt::Psbt) -> Seq<OutputView>;

/// Id of the unsigned transaction that the container describes.
pub uninterp spec fn psbt_txid(psbt: psbt::Psbt) -> Seq<u8>;

/// The script and the proprietary keys of an output.
pub uninterp spec fn output_view(output: psbt::Output) -> OutputView;

/// The container with `output` in the place of its output at `index`; every
/// other output and every other field is as in `psbt`.
pub uninterp spec fn psbt_with_output(psbt: psbt::Psbt, index: int, output: psbt::Output)
    -> psbt::Psbt;

/// The container with `script` as the script of its output at `index`;
/// nothing else differs from `psbt`.
pub uninterp spec fn psbt_with_script(psbt: psbt::Psbt, index: int, script: Seq<u8>) -> psbt::Psbt;

/// The container after an opret commitment was recorded in its output at
/// `index`; nothing but the proprietary keys of that output differs from
/// `psbt`.
pub uninterp spec fn psbt_with_opret_commitment(psbt: psbt::Psbt, index: int, commitment: Seq<u8>)
    -> psbt::Psbt;

/// The container after the entropy was recorded in its output at `index`;
/// nothing but the proprietary keys of that output differs from `psbt`.
pub uninterp spec fn psbt_with_entropy(psbt: psbt::Psbt, index: int, entropy: u64) -> psbt::Psbt;

/// The leaves stand in the order of their protocols, none twice.
pub open spec fn sorted_leaves(leaves: Seq<Leaf>) -> bool {
    forall|i: int, j: int|
        0 <= i < j < leaves.len() ==> lex_less((#[trigger] leaves[i]).0, (#[trigger] leaves[j]).0)
}

/// The prefix `TAPRET`.
pub open spec fn tapret_prefix() -> Seq<u8> {
    seq![0x54u8, 0x41u8, 0x50u8, 0x52u8, 0x45u8, 0x54u8]
}

/// The prefix `OPRET`.
pub open spec fn opret_prefix() -> Seq<u8> {
    seq![0x4fu8, 0x50u8, 0x52u8, 0x45u8, 0x54u8]
}

/// The prefix `LNPBP4`.
pub open spec fn lnpbp4_prefix() -> Seq<u8> {
    seq![0x4cu8, 0x4eu8, 0x50u8, 0x42u8, 0x50u8, 0x34u8]
}

/// Key that marks an output as a host of a tapret commitment.
pub open spec fn tapret_host_key() -> KeyView {
    KeyView { prefix: tapret_prefix(), subtype: 0, key: Seq::empty() }
}

/// Key that marks an output as a host of an opret commitment.
pub open spec fn opret_host_key() -> KeyView {
    KeyView { prefix: opret_prefix(), subtype: 0, key: Seq::empty() }
}

/// Key that holds the commitment put into an opret output.
pub open spec fn opret_commitment_key() -> KeyView {
    KeyView { prefix: opret_prefix(), subtype: 1, key: Seq::empty() }
}

/// Key that holds the entropy of the commitment tree.
pub open spec fn entropy_key() -> KeyView {
    KeyView { prefix: lnpbp4_prefix(), subtype: 1, key: Seq::empty() }
}

/// Key that holds the least depth asked of the commitment tree.
pub open spec fn min_tree_depth_key() -> KeyView {
    KeyView { prefix: lnpbp4_prefix(), subtype: 2, key: Seq::empty() }
}

/// The key holds the message of the protocol named by its last part.
pub open spec fn is_message_key(key: KeyView) -> bool {
    key.prefix == lnpbp4_prefix() && key.subtype == 0
}

impl OutputView {
    /// The output may host a tapret commitment.
    pub open spec fn is_tapret_host(self) -> bool {
        self.proprietary.dom().contains(tapret_host_key())
    }

    /// The output may host an opret commitment: it is marked for it and its
    /// script is a data-carrying unspendable script.
    pub open spec fn is_opret_host(self) -> bool {
        self.proprietary.dom().contains(opret_host_key()) && is_op_return(self.script)
    }

    /// Every message key names a protocol of 32 bytes and holds a message
    /// of 32 bytes.
    pub open spec fn messages_valid(self) -> bool {
        forall|key: KeyView| #[trigger]
            self.proprietary.dom().contains(key) && is_message_key(key) ==> key.key.len() == 32
                && self.proprietary[key].len() == 32
    }

    /// The leaves that the message keys of the output declare.
    pub open spec fn message_leaves(self) -> Set<Leaf> {
        Set::new(
            |leaf: Leaf|
                exists|key: KeyView| #[trigger]
                    self.proprietary.dom().contains(key) && is_message_key(key) && key.key
                        == leaf.0 && self.proprietary[key] == leaf.1,
        )
    }

    /// The leaves that the message keys of the output declare, in the order
    /// of their protocols. There is one such list.
    pub open spec fn message_list(self) -> Seq<Leaf> {
        choose|list: Seq<Leaf>| sorted_leaves(list) && leaf_set(list) == self.message_leaves()
    }

    /// The least depth that the output asks of the commitment tree, if it
    /// asks for one; an error when the key holds no byte.
    pub open spec fn min_tree_depth(self) -> Result<Option<u8>, Lnpbp4KeyError> {
        if !self.proprietary.dom().contains(min_tree_depth_key()) {
            Ok(None)
        } else if self.proprietary[min_tree_depth_key()].len() == 0 {
            Err(Lnpbp4KeyError::InvalidKeyValue)
        } else {
            Ok(Some(self.proprietary[min_tree_depth_key()][0]))
        }
    }

    /// The output with another script.
    pub open spec fn with_script(self, script: Seq<u8>) -> OutputView {
        OutputView { script, ..self }
    }

    /// The output with a value put under a proprietary key.
    pub open spec fn with_key(self, key: KeyView, value: Seq<u8>) -> OutputView {
        OutputView { proprietary: self.proprietary.insert(key, value), ..self }
    }

    /// What recording an opret commitment in the output gives: the output
    /// must be an opret host without a commitment.
    pub open spec fn set_opret_commitment(self, commitment: Seq<u8>) -> Result<
        OutputView,
        OpretKeyError,
    > {
        if !self.is_opret_host() {
            Err(OpretKeyError::OpretProhibited)
        } else if self.proprietary.dom().contains(opret_commitment_key()) {
            Err(OpretKeyError::OutputAlreadyHasCommitment)
        } else {
            Ok(self.with_key(opret_commitment_key(), commitment))
        }
    }

    /// What recording the entropy of the tree in the output gives: an
    /// entropy that is there already must be the same.
    pub open spec fn set_lnpbp4_entropy(self, entropy: u64) -> Result<OutputView, Lnpbp4KeyError> {
        if !self.proprietary.dom().contains(entropy_key()) {
            Ok(self.with_key(entropy_key(), spec_u64_to_le_bytes(entropy)))
        } else if self.proprietary[entropy_key()] == spec_u64_to_le_bytes(entropy) {
            Ok(self)
        } else {
            Err(Lnpbp4KeyError::InvalidKeyValue)
        }
    }
}

/// Length of `psbt::Psbt::outputs`.
#[verifier::external_body]
pub(crate) fn psbt_output_count(psbt: &psbt::Psbt) -> (count: usize)
    ensures
        count == psbt_outputs(*psbt).len(),
{
    psbt.outputs.len()
}

/// `psbt::Output::is_tapret_host` of the output at `index`: whether the
/// proprietary key `TAPRET` with subtype 0 is present.
#[verifier::external_body]
pub(crate) fn psbt_is_tapret_host(psbt: &psbt::Psbt, index: usize) -> (host: bool)
    requires
        index < psbt_outputs(*psbt).len(),
    ensures
        host == psbt_outputs(*psbt)[index as int].is_tapret_host(),
{
    psbt.outputs[index].is_tapret_host()
}

/// `psbt::Output::is_opret_host` of the output at `index`: whether the
/// proprietary key `OPRET` with subtype 0 is present and the script is an
/// `OP_RETURN` script.
#[verifier::external_body]
pub(crate) fn psbt_is_opret_host(psbt: &psbt::Psbt, index: usize) -> (host: bool)
    requires
        index < psbt_outputs(*psbt).len(),
    ensures
        host == psbt_outputs(*psbt)[index as int].is_opret_host(),
{
    psbt.outputs[index].is_opret_host()
}

/// `psbt::Output::lnpbp4_message_map` of the output at `index`, as a list in
/// the order of the protocols, which is the order of their bytes: one entry
/// for every proprietary key `LNPBP4` with subtype 0. It fails if such a key
/// does not end in 32 bytes or does not hold 32 bytes.
#[verifier::external_body]
pub(crate) fn psbt_message_map(psbt: &psbt::Psbt, index: usize) -> (messages: Result<
    Vec<(ProtocolId, Message)>,
    Lnpbp4KeyError,
>)
    requires
        index < psbt_outputs(*psbt).len(),
    ensures
        messages is Ok <==> psbt_outputs(*psbt)[index as int].messages_valid(),
        messages matches Ok(list) ==> distinct_protocols(list@) && leaves_of(list@)
            == psbt_outputs(*psbt)[index as int].message_leaves() && leaf_views(list@)
            == psbt_outputs(*psbt)[index as int].message_list(),
        messages matches Err(failure) ==> failure == Lnpbp4KeyError::InvalidKeyValue,
{
    match psbt.outputs[index].lnpbp4_message_map() {
        Ok(map) => Ok(
            map.into_iter().map(
                |(p, m)| (amplify::Wrapper::into_inner(p), bitcoin::hashes::Hash::into_inner(m)),
            ).collect(),
        ),
        Err(psbt::commit::Lnpbp4KeyError::InvalidKeyValue) => Err(Lnpbp4KeyError::InvalidKeyValue),
        Err(psbt::commit::Lnpbp4KeyError::AlreadySet) => Err(Lnpbp4KeyError::AlreadySet),
    }
}

/// `psbt::Output::lnpbp4_min_tree_depth` of the output at `index`: the first
/// byte under the proprietary key `LNPBP4` with subtype 2, nothing where the
/// key is absent, and a failure where it holds no byte.
#[verifier::external_body]
pub(crate) fn psbt_min_tree_depth(psbt: &psbt::Psbt, index: usize) -> (depth: Result<
    Option<u8>,
    Lnpbp4KeyError,
>)
    requires
        index < psbt_outputs(*psbt).len(),
    ensures
        depth == psbt_outputs(*psbt)[index as int].min_tree_depth(),
{
    match psbt.outputs[index].lnpbp4_min_tree_depth() {
        Ok(depth) => Ok(depth),
        Err(psbt::commit::Lnpbp4KeyError::InvalidKeyValue) => Err(Lnpbp4KeyError::InvalidKeyValue),
        Err(psbt::commit::Lnpbp4KeyError::AlreadySet) => Err(Lnpbp4KeyError::AlreadySet),
    }
}

/// A clone of the container.
#[verifier::external_body]
pub(crate) fn psbt_clone(psbt: &psbt::Psbt) -> (copy: psbt::Psbt)
    ensures
        copy == *psbt,
{
    psbt.clone()
}

/// A clone of the output at `index`.
#[verifier::external_body]
pub(crate) fn psbt_output(psbt: &psbt::Psbt, index: usize) -> (output: psbt::Output)
    requires
        index < psbt_outputs(*psbt).len(),
    ensures
        output_view(output) == psbt_outputs(*psbt)[index as int],
{
    psbt.outputs[index].clone()
}

/// Puts `output` in the place of the output at `index`.
#[verifier::external_body]
pub(crate) fn psbt_replace_output(psbt: &mut psbt::Psbt, index: usize, output: psbt::Output)
    requires
        index < psbt_outputs(*old(psbt)).len(),
    ensures
        psbt_outputs(*final(psbt)) == psbt_outputs(*old(psbt)).update(
            index as int,
            output_view(output),
        ),
        *final(psbt) == psbt_with_output(*old(psbt), index as int, output),
{
    psbt.outputs[index] = output;
}

/// Assigns the script made of `script` to the output at `index`.
#[verifier::external_body]
pub(crate) fn psbt_set_script(psbt: &mut psbt::Psbt, index: usize, script: Vec<u8>)
    requires
        index < psbt_outputs(*old(psbt)).len(),
    ensures
        psbt_outputs(*final(psbt)) == psbt_outputs(*old(psbt)).update(
            index as int,
            psbt_outputs(*old(psbt))[index as int].with_script(script@),
        ),
        *final(psbt) == psbt_with_script(*old(psbt), index as int, script@),
{
    psbt.outputs[index].script = bitcoin::Script::from(script).into();
}

/// `psbt::Output::set_opret_commitment` on the output at `index`: refuses an
/// output that is no opret host or has a commitment already, and otherwise
/// puts the commitment under the proprietary key `OPRET` with subtype 1. A
/// refusal changes nothing.
#[verifier::external_body]
pub(crate) fn psbt_set_opret_commitment(
    psbt: &mut psbt::Psbt,
    index: usize,
    commitment: &[u8; 32],
) -> (set: Result<(), OpretKeyError>)
    requires
        index < psbt_outputs(*old(psbt)).len(),
    ensures
        match psbt_outputs(*old(psbt))[index as int].set_opret_commitment(commitment@) {
            Ok(output) => set is Ok && psbt_outputs(*final(psbt)) == psbt_outputs(
                *old(psbt),
            ).update(index as int, output) && *final(psbt) == psbt_with_opret_commitment(
                *old(psbt),
                index as int,
                commitment@,
            ),
            Err(failure) => set == Err::<(), OpretKeyError>(failure) && *final(psbt) == *old(psbt),
        },
{
    match psbt.outputs[index].set_opret_commitment(*commitment) {
        Ok(()) => Ok(()),
        Err(psbt::commit::OpretKeyError::OutputAlreadyHasCommitment) => Err(
            OpretKeyError::OutputAlreadyHasCommitment,
        ),
        Err(psbt::commit::OpretKeyError::NonOpReturnOutput) => Err(OpretKeyError::NonOpReturnOutput),
        Err(psbt::commit::OpretKeyError::OpretProhibited) => Err(OpretKeyError::OpretProhibited),
    }
}

/// `psbt::Output::set_lnpbp4_entropy` on the output at `index`: puts the
/// eight bytes of the entropy, lowest first, under the proprietary key
/// `LNPBP4` with subtype 1 and returns `true`; returns `false` where the key
/// holds these bytes already, and fails where it holds others. A failure
/// changes nothing.
#[verifier::external_body]
pub(crate) fn psbt_set_entropy(psbt: &mut psbt::Psbt, index: usize, entropy: u64) -> (set: Result<
    bool,
    Lnpbp4KeyError,
>)
    requires
        index < psbt_outputs(*old(psbt)).len(),
    ensures
        match psbt_outputs(*old(psbt))[index as int].set_lnpbp4_entropy(entropy) {
            Ok(output) => set is Ok && psbt_outputs(*final(psbt)) == psbt_outputs(
                *old(psbt),
            ).update(index as int, output) && *final(psbt) == psbt_with_entropy(
                *old(psbt),
                index as int,
                entropy,
            ),
            Err(failure) => set == Err::<bool, Lnpbp4KeyError>(failure) && *final(psbt) == *old(
                psbt,
            ),
        },
{
    match psbt.outputs[index].set_lnpbp4_entropy(entropy) {
        Ok(added) => Ok(added),
        Err(psbt::commit::Lnpbp4KeyError::InvalidKeyValue) => Err(Lnpbp4KeyError::InvalidKeyValue),
        Err(psbt::commit::Lnpbp4KeyError::AlreadySet) => Err(Lnpbp4KeyError::AlreadySet),
    }
}

/// `psbt::Psbt::to_txid`: the id of the unsigned transaction, as its 32
/// bytes.
#[verifier::external_body]
pub(crate) fn psbt_to_txid(psbt: &psbt::Psbt) -> (txid: Txid)
    ensures
        txid@ == psbt_txid(*psbt),
{
    bitcoin::hashes::Hash::into_inner(psbt.to_txid())
}

} // verus!

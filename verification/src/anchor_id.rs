//! The identifier of an anchor.

use vstd::prelude::*;
use std::cmp::Ordering;
use vstd::std_specs::cmp::{PartialEqSpecImpl, PartialOrdSpecImpl};
use commit_verify::lnpbp4::MerkleBlock;
use crate::anchor::Anchor;
use crate::bytes::{bytes32_compare, bytes32_eq, lex_order, ByteOrder};
use crate::hash::{sha256_from_midstate, tagged_sha256};

verus! {

/// State of SHA-256 after the block made of the hash of the tag
/// `bp:dbc:anchor` taken twice. Anchor identifiers are hashed from this
/// state, which keeps them apart from every hash made under another tag.
pub const MIDSTATE_ANCHOR_ID: [u8; 32] = [
    148, 72, 59, 59, 150, 173, 163, 140, 159, 237, 69, 118, 104, 132, 194, 110,
    250, 108, 1, 140, 74, 248, 152, 205, 70, 32, 184, 87, 20, 102, 127, 20,
];

/// Tag used for the [`AnchorId`] hash type.
pub struct AnchorIdTag;

impl AnchorIdTag {
    /// The state from which the hash engine of the tag starts.
    pub fn midstate() -> (state: [u8; 32])
        ensures
            state == MIDSTATE_ANCHOR_ID,
    {
        MIDSTATE_ANCHOR_ID
    }
}

/// Unique anchor identifier equivalent to the anchor commitment hash.
///
/// Identifiers are equal and ordered exactly as their 32 bytes are.
#[derive(Clone, Copy, Debug, Eq, Ord, Hash)]
pub struct AnchorId {
    bytes: [u8; 32],
}

impl View for AnchorId {
    type V = Seq<u8>;

    closed spec fn view(&self) -> Seq<u8> {
        self.bytes@
    }
}

/// The identifier that commits to `msg`.
pub open spec fn anchor_id_of(msg: Seq<u8>) -> Seq<u8> {
    sha256_from_midstate(MIDSTATE_ANCHOR_ID@, msg)
}

/// The order of two identifiers, which is the order of their bytes.
pub open spec fn id_order(a: Seq<u8>, b: Seq<u8>) -> Ordering {
    match lex_order(a, b) {
        ByteOrder::Less => Ordering::Less,
        ByteOrder::Equal => Ordering::Equal,
        ByteOrder::Greater => Ordering::Greater,
    }
}

impl AnchorId {
    /// Commits to a message: hashes it under the tag of anchor identifiers.
    pub fn commit(msg: &Vec<u8>) -> (id: AnchorId)
        ensures
            id@ == anchor_id_of(msg@),
    {
        let state = AnchorIdTag::midstate();
        AnchorId { bytes: tagged_sha256(&state, msg) }
    }

    /// The 32 bytes of the identifier.
    pub fn to_bytes(&self) -> (bytes: [u8; 32])
        ensures
            bytes@ == self@,
    {
        self.bytes
    }
}

impl Anchor<MerkleBlock> {
    /// Compares two anchors by their identifiers: anchors are ordered as
    /// their identifiers are, whatever leaves they reveal.
    pub fn cmp(&self, other: &Anchor<MerkleBlock>) -> (order: Ordering)
        requires
            self.usable(),
            other.usable(),
        ensures
            order == id_order(self.identity(), other.identity()),
    {
        match bytes32_compare(&self.anchor_id().bytes, &other.anchor_id().bytes) {
            ByteOrder::Less => Ordering::Less,
            ByteOrder::Equal => Ordering::Equal,
            ByteOrder::Greater => Ordering::Greater,
        }
    }

    /// Compares two anchors by their identifiers; the order is total.
    pub fn partial_cmp(&self, other: &Anchor<MerkleBlock>) -> (order: Option<Ordering>)
        requires
            self.usable(),
            other.usable(),
        ensures
            order == Some(id_order(self.identity(), other.identity())),
    {
        Some(self.cmp(other))
    }
}

impl Default for AnchorId {
    /// The identifier made of zero bytes.
    fn default() -> (id: AnchorId)
        ensures
            id@ == Seq::new(32, |i: int| 0u8),
    {
        let id = AnchorId { bytes: [0u8; 32] };
        assert(id@ =~= Seq::new(32, |i: int| 0u8));
        id
    }
}

impl PartialEq for AnchorId {
    fn eq(&self, other: &AnchorId) -> (same: bool) {
        bytes32_eq(&self.bytes, &other.bytes)
    }
}

impl PartialEqSpecImpl for AnchorId {
    open spec fn obeys_eq_spec() -> bool {
        true
    }

    open spec fn eq_spec(&self, other: &AnchorId) -> bool {
        self@ == other@
    }
}

impl PartialOrd for AnchorId {
    fn partial_cmp(&self, other: &AnchorId) -> (order: Option<Ordering>) {
        match bytes32_compare(&self.bytes, &other.bytes) {
            ByteOrder::Less => Some(Ordering::Less),
            ByteOrder::Equal => Some(Ordering::Equal),
            ByteOrder::Greater => Some(Ordering::Greater),
        }
    }
}

impl PartialOrdSpecImpl for AnchorId {
    open spec fn obeys_partial_cmp_spec() -> bool {
        true
    }

    open spec fn partial_cmp_spec(&self, other: &AnchorId) -> Option<Ordering> {
        Some(id_order(self@, other@))
    }
}

} // verus!

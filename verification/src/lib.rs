//! Deterministic bitcoin commitment anchors.
//!
//! An anchor binds a multi-protocol commitment tree to the bitcoin transaction
//! that carries its root, together with the proof of how the root was embedded
//! into that transaction. The identity of an anchor depends only on the
//! transaction id, the embedding proof and the merkle root of the tree, so
//! that concealing or revealing leaves never changes it.
//!
//! The commitment tree itself, the transaction types and the hash functions
//! come from the `commit_verify`, `bitcoin` and `psbt` crates. Every call into
//! them goes through a small function whose contract is taken on trust; the
//! anchor logic around those calls is verified against these contracts.

pub mod anchor;
pub mod anchor_id;
pub mod bytes;
pub mod container;
pub mod cross_section;
pub mod embed;
pub mod embedding;
pub mod hash;
pub mod laws;
pub mod lnpbp4;
pub mod tx;

pub use anchor::{Anchor, BlockAnchorView, MergeError, VerifyError};
pub use anchor_id::{AnchorId, AnchorIdTag, MIDSTATE_ANCHOR_ID};
pub use bytes::{CommitmentHash, Message, ProtocolId, Txid};
pub use container::{Lnpbp4KeyError, OpretKeyError};
pub use embed::{
    embed_commit, embed_commit_static, embed_tree, find_host, Error, Host, PsbtCommitError,
    PsbtEmbeddedMessage, PsbtVerifyError, STATIC_ENTROPY,
};
pub use embedding::{Proof, ProofView, TapretError, TapretProof};
pub use lnpbp4::{LeafNotKnown, Lnpbp4Error, UnrelatedProof, ANCHOR_MIN_LNPBP4_DEPTH};

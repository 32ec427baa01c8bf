//! The proof of how a commitment was embedded into a transaction.

use vstd::prelude::*;
use vstd::std_specs::cmp::PartialEqSpecImpl;
use crate::bytes::{bytes_eq, extend_bytes, CommitmentHash};
use crate::tx::{first_op_return_carries, tx_output_scripts, verify_op_return};

verus! {

/// Proof of a script-path (tapret) commitment, in its strict-encoded form.
///
/// The anchor logic never looks inside the proof: it stores it, compares it,
/// commits to its bytes and hands it to the script-path proof engine.
#[derive(Clone, Debug, Eq)]
pub struct TapretProof {
    /// Strict encoding of the proof.
    pub encoded: Vec<u8>,
}

impl View for TapretProof {
    type V = Seq<u8>;

    open spec fn view(&self) -> Seq<u8> {
        self.encoded@
    }
}

/// Failure reported by the script-path proof engine, which tells a malformed
/// proof from one that merely does not match.
#[derive(Clone, Debug, PartialEq, Eq)]
pub struct TapretError {
    /// What the engine found wrong with the proof.
    pub details: String,
}

/// Type and type-specific proof information of a deterministic bitcoin
/// commitment.
#[derive(Clone, Debug, Eq)]
#[non_exhaustive]
pub enum Proof {
    /// Commitment placed verbatim into the first data-carrying unspendable
    /// output; no extra-transaction proof is required.
    OpretFirst,
    /// Commitment placed into the script tree of the first taproot output,
    /// and the proof of it.
    TapretFirst(TapretProof),
}

/// What a [`Proof`] is, as a mathematical value.
pub enum ProofView {
    OpretFirst,
    TapretFirst(Seq<u8>),
}

impl View for Proof {
    type V = ProofView;

    open spec fn view(&self) -> ProofView {
        match self {
            Proof::OpretFirst => ProofView::OpretFirst,
            Proof::TapretFirst(tapret) => ProofView::TapretFirst(tapret@),
        }
    }
}

/// Strict encoding of an embedding proof: one byte with the position of the
/// variant, followed by the payload of the variant.
pub open spec fn proof_encoding(method: ProofView) -> Seq<u8> {
    match method {
        ProofView::OpretFirst => seq![0u8],
        ProofView::TapretFirst(payload) => seq![1u8] + payload,
    }
}

impl PartialEq for TapretProof {
    fn eq(&self, other: &TapretProof) -> (same: bool) {
        bytes_eq(&self.encoded, &other.encoded)
    }
}

impl PartialEqSpecImpl for TapretProof {
    open spec fn obeys_eq_spec() -> bool {
        true
    }

    open spec fn eq_spec(&self, other: &TapretProof) -> bool {
        self@ == other@
    }
}

impl PartialEq for Proof {
    /// Two proofs are equal when they use the same embedding method with
    /// the same proof data.
    fn eq(&self, other: &Proof) -> (same: bool) {
        match (self, other) {
            (Proof::OpretFirst, Proof::OpretFirst) => true,
            (Proof::TapretFirst(a), Proof::TapretFirst(b)) => bytes_eq(&a.encoded, &b.encoded),
            _ => false,
        }
    }
}

impl PartialEqSpecImpl for Proof {
    open spec fn obeys_eq_spec() -> bool {
        true
    }

    open spec fn eq_spec(&self, other: &Proof) -> bool {
        self@ == other@
    }
}

impl Proof {

    /// A proof equal to this one.
    pub fn duplicate(&self) -> (copy: Proof)
        ensures
            copy@ == self@,
    {
        match self {
            Proof::OpretFirst => Proof::OpretFirst,
            Proof::TapretFirst(tapret) => {
                let mut encoded: Vec<u8> = Vec::new();
                extend_bytes(&mut encoded, &tapret.encoded);
                assert(encoded@ =~= tapret.encoded@);
                Proof::TapretFirst(TapretProof { encoded })
            },
        }
    }

    /// Strict encoding of the proof.
    pub fn strict_encode(&self) -> (bytes: Vec<u8>)
        ensures
            bytes@ == proof_encoding(self@),
    {
        let mut bytes: Vec<u8> = Vec::new();
        match self {
            Proof::OpretFirst => {
                bytes.push(0u8);
            },
            Proof::TapretFirst(tapret) => {
                bytes.push(1u8);
                extend_bytes(&mut bytes, &tapret.encoded);
            },
        }
        assert(bytes@ =~= proof_encoding(self@));
        bytes
    }

    /// Verifies that the transaction `tx` commits to `msg` in the way this
    /// proof says.
    ///
    /// A direct-data commitment is checked here: the first data-carrying
    /// unspendable output decides, whether or not it matches. A script-path
    /// commitment is handed to the script-path proof engine `script_path`
    /// with the stored proof, the commitment and the transaction, and the
    /// answer of the engine is returned as it is, a failure included.
    pub fn verify<F>(&self, msg: &CommitmentHash, tx: bitcoin::Transaction, script_path: F) -> (valid:
        Result<bool, TapretError>) where
        F: FnOnce(&TapretProof, &CommitmentHash, bitcoin::Transaction) -> Result<bool, TapretError>,

        requires
            self matches Proof::TapretFirst(tapret) ==> script_path.requires((&tapret, msg, tx)),
        ensures
            match *self {
                Proof::OpretFirst => valid == Ok::<bool, TapretError>(
                    first_op_return_carries(tx_output_scripts(tx), msg@),
                ),
                Proof::TapretFirst(tapret) => script_path.ensures((&tapret, msg, tx), valid),
            },
    {
        match self {
            Proof::OpretFirst => Ok(verify_op_return(&tx, msg)),
            Proof::TapretFirst(tapret) => script_path(tapret, msg, tx),
        }
    }
}

} // verus!

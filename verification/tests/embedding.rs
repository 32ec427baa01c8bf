use bitcoin::{PackedLockTime, Script, Transaction, TxOut};
use bp_dbc::{Proof, TapretError, TapretProof};

fn tx_with(scripts: Vec<Script>) -> Transaction {
    Transaction {
        version: 2,
        lock_time: PackedLockTime(0),
        input: vec![],
        output: scripts
            .into_iter()
            .map(|script_pubkey| TxOut { value: 0, script_pubkey })
            .collect(),
    }
}

fn no_engine(_: &TapretProof, _: &[u8; 32], _: Transaction) -> Result<bool, TapretError> {
    panic!("a direct-data commitment needs no script-path engine")
}

fn p2wpkh() -> Script {
    let mut bytes = vec![0x00u8, 0x14];
    bytes.extend_from_slice(&[0x11u8; 20]);
    Script::from(bytes)
}

#[test]
fn opret_output_with_the_commitment_verifies() {
    let msg = [0xabu8; 32];
    let tx = tx_with(vec![p2wpkh(), Script::new_op_return(&msg)]);
    assert_eq!(Proof::OpretFirst.verify(&msg, tx, no_engine), Ok(true));
}

#[test]
fn opret_output_with_other_bytes_does_not_verify() {
    let msg = [0xabu8; 32];
    let tx = tx_with(vec![p2wpkh(), Script::new_op_return(&[0xacu8; 32])]);
    assert_eq!(Proof::OpretFirst.verify(&msg, tx, no_engine), Ok(false));
}

#[test]
fn transaction_without_opret_output_does_not_verify() {
    let msg = [0xabu8; 32];
    assert_eq!(Proof::OpretFirst.verify(&msg, tx_with(vec![p2wpkh()]), no_engine), Ok(false));
    assert_eq!(Proof::OpretFirst.verify(&msg, tx_with(vec![]), no_engine), Ok(false));
    assert_eq!(
        Proof::OpretFirst.verify(&msg, tx_with(vec![Script::new()]), no_engine),
        Ok(false)
    );
}

#[test]
fn only_the_first_opret_output_counts() {
    let msg = [0xabu8; 32];
    let other = Script::new_op_return(&[0x01u8; 32]);
    let right = Script::new_op_return(&msg);
    let tx = tx_with(vec![p2wpkh(), other.clone(), right.clone()]);
    assert_eq!(Proof::OpretFirst.verify(&msg, tx, no_engine), Ok(false));
    let tx = tx_with(vec![right, other]);
    assert_eq!(Proof::OpretFirst.verify(&msg, tx, no_engine), Ok(true));
}

#[test]
fn opret_output_must_carry_nothing_but_the_commitment() {
    let msg = [0xabu8; 32];
    let mut longer = Script::new_op_return(&msg).into_bytes();
    longer.push(0x00);
    assert_eq!(
        Proof::OpretFirst.verify(&msg, tx_with(vec![Script::from(longer)]), no_engine),
        Ok(false)
    );
    assert_eq!(
        Proof::OpretFirst.verify(&msg, tx_with(vec![Script::from(vec![0x6au8])]), no_engine),
        Ok(false)
    );
    let mut exact = vec![0x6au8, 0x20];
    exact.extend_from_slice(&msg);
    assert_eq!(
        Proof::OpretFirst.verify(&msg, tx_with(vec![Script::from(exact)]), no_engine),
        Ok(true)
    );
}

#[test]
fn tapret_proof_is_handed_to_the_engine() {
    let msg = [0x42u8; 32];
    let proof = Proof::TapretFirst(TapretProof { encoded: vec![1, 2, 3] });
    let tx = tx_with(vec![p2wpkh(), Script::new_op_return(&msg)]);
    let expected_tx = tx.clone();
    let answer = proof.verify(&msg, tx, |proof, commitment, tx| {
        assert_eq!(proof.encoded, vec![1u8, 2, 3]);
        assert_eq!(commitment, &[0x42u8; 32]);
        assert_eq!(tx, expected_tx);
        Ok(false)
    });
    assert_eq!(answer, Ok(false));
    let tx = tx_with(vec![p2wpkh()]);
    assert_eq!(proof.verify(&msg, tx, |_, _, _| Ok(true)), Ok(true));
}

#[test]
fn tapret_failure_is_not_turned_into_false() {
    let msg = [0x42u8; 32];
    let proof = Proof::TapretFirst(TapretProof { encoded: vec![] });
    let failure = TapretError { details: String::from("no taproot output") };
    let tx = tx_with(vec![Script::new_op_return(&msg)]);
    let answer = proof.verify(&msg, tx, |_, _, _| Err(failure.clone()));
    assert_eq!(answer, Err(failure));
}

#[test]
fn proof_encoding_is_discriminant_and_payload() {
    assert_eq!(Proof::OpretFirst.strict_encode(), vec![0u8]);
    let proof = Proof::TapretFirst(TapretProof { encoded: vec![0xde, 0xad] });
    assert_eq!(proof.strict_encode(), vec![1u8, 0xde, 0xad]);
    let proof = Proof::TapretFirst(TapretProof { encoded: vec![] });
    assert_eq!(proof.strict_encode(), vec![1u8]);
}

#[test]
fn proofs_are_equal_by_method_and_data() {
    let a = Proof::TapretFirst(TapretProof { encoded: vec![1, 2] });
    let b = Proof::TapretFirst(TapretProof { encoded: vec![1, 2] });
    let c = Proof::TapretFirst(TapretProof { encoded: vec![1, 3] });
    let d = Proof::TapretFirst(TapretProof { encoded: vec![1] });
    assert!(a == b);
    assert!(a != c);
    assert!(a != d);
    assert!(a != Proof::OpretFirst);
    assert!(Proof::OpretFirst == Proof::OpretFirst);
    assert!(a.duplicate() == a);
    assert!(Proof::OpretFirst.duplicate() == Proof::OpretFirst);
}

//! Transactions as the anchor logic sees them: a list of output scripts.

use vstd::prelude::*;

verus! {

#[verifier::external_type_specification]
#[verifier::external_body]
pub struct ExTransaction(bitcoin::Transaction);

/// Opcode that makes an output provably unspendable and lets it carry data.
pub const OP_RETURN: u8 = 0x6a;

/// Opcode that pushes the next 32 bytes onto the stack.
pub const OP_PUSHBYTES_32: u8 = 0x20;

/// The `script_pubkey` bytes of the outputs of a transaction, in output order.
pub uninterp spec fn tx_output_scripts(tx: bitcoin::Transaction) -> Seq<Seq<u8>>;

/// A script is a data-carrying unspendable script when it starts with
/// `OP_RETURN`.
pub open spec fn is_op_return(script: Seq<u8>) -> bool {
    script.len() > 0 && script[0] == OP_RETURN
}

/// The script that carries 32 bytes of data verbatim: `OP_RETURN`, a push of
/// 32 bytes, and the data.
pub open spec fn op_return_script(data: Seq<u8>) -> Seq<u8> {
    seq![OP_RETURN, OP_PUSHBYTES_32] + data
}

/// Whether the first data-carrying output of a transaction carries exactly
/// `data`. Outputs after the first data-carrying one are never looked at.
pub open spec fn first_op_return_carries(scripts: Seq<Seq<u8>>, data: Seq<u8>) -> bool {
    exists|i: int|
        0 <= i < scripts.len() && #[trigger] is_op_return(scripts[i]) && scripts[i]
            == op_return_script(data) && forall|j: int|
            0 <= j < i ==> !#[trigger] is_op_return(scripts[j])
}

/// Number of outputs of the transaction, which is the length of
/// `bitcoin::Transaction::output`.
#[verifier::external_body]
pub(crate) fn tx_output_count(tx: &bitcoin::Transaction) -> (count: usize)
    ensures
        count == tx_output_scripts(*tx).len(),
{
    tx.output.len()
}

/// Copy of the bytes of `bitcoin::Script::to_bytes` for the `script_pubkey` of
/// the output at `index`.
#[verifier::external_body]
pub(crate) fn tx_output_script(tx: &bitcoin::Transaction, index: usize) -> (script: Vec<u8>)
    requires
        index < tx_output_scripts(*tx).len(),
    ensures
        script@ == tx_output_scripts(*tx)[index as int],
{
    tx.output[index].script_pubkey.to_bytes()
}

/// `bitcoin::Script::is_op_return`: true exactly when the script is not empty
/// and its first byte is the `OP_RETURN` opcode.
#[verifier::external_body]
pub(crate) fn script_is_op_return(script: &Vec<u8>) -> (unspendable: bool)
    ensures
        unspendable == is_op_return(script@),
{
    bitcoin::Script::from(script.clone()).is_op_return()
}

/// `bitcoin::Script::new_op_return` for 32 bytes of data: the builder emits
/// `OP_RETURN`, then, for data shorter than 76 bytes, one byte holding the
/// length, then the data.
#[verifier::external_body]
pub(crate) fn new_op_return(data: &[u8; 32]) -> (script: Vec<u8>)
    ensures
        script@ == op_return_script(data@),
{
    bitcoin::Script::new_op_return(data).into_bytes()
}

/// Checks a direct-data commitment: finds the first output with a
/// data-carrying unspendable script and tells whether that script carries
/// exactly `commitment`. Later outputs are not considered even when the first
/// one does not match; without any such output the answer is `false`.
pub fn verify_op_return(tx: &bitcoin::Transaction, commitment: &[u8; 32]) -> (valid: bool)
    ensures
        valid == first_op_return_carries(tx_output_scripts(*tx), commitment@),
{
    let count = tx_output_count(tx);
    let mut index: usize = 0;
    while index < count
        invariant
            index <= count,
            count == tx_output_scripts(*tx).len(),
            forall|j: int| 0 <= j < index ==> !#[trigger] is_op_return(tx_output_scripts(*tx)[j]),
        decreases count - index,
    {
        let script = tx_output_script(tx, index);
        if script_is_op_return(&script) {
            let expected = new_op_return(commitment);
            let valid = crate::bytes::bytes_eq(&script, &expected);
            proof {
                let scripts = tx_output_scripts(*tx);
                let data = commitment@;
                if valid {
                    assert(is_op_return(scripts[index as int]));
                } else {
                    assert forall|i: int|
                        0 <= i < scripts.len() && #[trigger] is_op_return(scripts[i])
                            && scripts[i] == op_return_script(data) implies !(forall|j: int|
                        0 <= j < i ==> !#[trigger] is_op_return(scripts[j])) by {
                        if i < index {
                            assert(!is_op_return(scripts[i]));
                        } else if i > index {
                            assert(is_op_return(scripts[index as int]));
                        }
                    }
                }
            }
            return valid;
        }
        index += 1;
    }
    proof {
        let scripts = tx_output_scripts(*tx);
        assert forall|i: int| 0 <= i < scripts.len() implies !#[trigger] is_op_return(
            scripts[i],
        ) by {}
    }
    false
}

} // verus!

//! Tagged SHA-256.

use vstd::prelude::*;

verus! {

/// SHA-256 of `data` computed by an engine that starts from `midstate`, the
/// state reached after one 64-byte block that holds the hash of a tag twice.
pub uninterp spec fn sha256_from_midstate(midstate: Seq<u8>, data: Seq<u8>) -> Seq<u8>;

/// Feeds `data` to a `bitcoin::hashes::sha256::HashEngine` made by
/// `from_midstate` with a length of 64 bytes and returns the bytes of the
/// finished hash. The result is a function of the midstate and the data
/// alone.
#[verifier::external_body]
pub(crate) fn tagged_sha256(midstate: &[u8; 32], data: &Vec<u8>) -> (digest: [u8; 32])
    ensures
        digest@ == sha256_from_midstate(midstate@, data@),
{
    let start = bitcoin::hashes::sha256::Midstate::from_inner(*midstate);
    let mut engine = bitcoin::hashes::sha256::HashEngine::from_midstate(start, 64);
    bitcoin::hashes::HashEngine::input(&mut engine, data.as_slice());
    let hash: bitcoin::hashes::sha256::Hash = bitcoin::hashes::Hash::from_engine(engine);
    bitcoin::hashes::Hash::into_inner(hash)
}

} // verus!

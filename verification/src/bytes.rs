//! Fixed-width byte values and their comparison.

use vstd::prelude::*;

verus! {

/// Transaction id: the 32 bytes of the double SHA-256 in their internal
/// (consensus serialization) order.
pub type Txid = [u8; 32];

/// Identifier of a protocol that owns one leaf of a commitment tree.
pub type ProtocolId = [u8; 32];

/// Message that a protocol commits to: a SHA-256 hash value.
pub type Message = [u8; 32];

/// Commitment of a whole commitment tree: the tagged hash of its merkle root.
pub type CommitmentHash = [u8; 32];

/// How one byte string stands to another in the lexicographic order.
#[derive(Clone, Copy, Debug, PartialEq, Eq, Structural)]
pub enum ByteOrder {
    /// The first comes before the second.
    Less,
    /// Both hold the same bytes.
    Equal,
    /// The first comes after the second.
    Greater,
}

/// `a` comes before `b` in the lexicographic order of byte strings of one
/// length: at the first position where they differ `a` holds the smaller
/// byte.
pub open spec fn lex_less(a: Seq<u8>, b: Seq<u8>) -> bool {
    exists|i: int|
        0 <= i < a.len() && i < b.len() && #[trigger] a[i] < b[i] && forall|j: int|
            0 <= j < i ==> #[trigger] a[j] == b[j]
}

/// The place of `a` relative to `b` in the lexicographic order.
pub open spec fn lex_order(a: Seq<u8>, b: Seq<u8>) -> ByteOrder {
    if a == b {
        ByteOrder::Equal
    } else if lex_less(a, b) {
        ByteOrder::Less
    } else {
        ByteOrder::Greater
    }
}

/// Compares two 32-byte values lexicographically.
pub fn bytes32_compare(a: &[u8; 32], b: &[u8; 32]) -> (order: ByteOrder)
    ensures
        order == lex_order(a@, b@),
        order == ByteOrder::Greater <==> lex_less(b@, a@),
{
    let mut i: usize = 0;
    while i < 32
        invariant
            i <= 32,
            forall|j: int| 0 <= j < i ==> a@[j] == b@[j],
        decreases 32 - i,
    {
        if a[i] < b[i] {
            proof {
                lemma_first_difference(a@, b@, i as int);
            }
            return ByteOrder::Less;
        }
        if a[i] > b[i] {
            proof {
                lemma_first_difference(b@, a@, i as int);
            }
            return ByteOrder::Greater;
        }
        i += 1;
    }
    assert(a@ =~= b@);
    proof {
        lemma_lex_less_irreflexive(a@);
    }
    ByteOrder::Equal
}

/// When `a` and `b` agree before position `i` and `a` is smaller there, `a`
/// comes before `b`, and `b` does not come before `a`.
pub proof fn lemma_first_difference(a: Seq<u8>, b: Seq<u8>, i: int)
    requires
        0 <= i < a.len(),
        i < b.len(),
        a[i] < b[i],
        forall|j: int| 0 <= j < i ==> a[j] == b[j],
    ensures
        lex_less(a, b),
        !lex_less(b, a),
        a != b,
{
    assert(a[i] < b[i]);
    if lex_less(b, a) {
        let k = choose|k: int|
            0 <= k < b.len() && k < a.len() && #[trigger] b[k] < a[k] && forall|j: int|
                0 <= j < k ==> #[trigger] b[j] == a[j];
        if k < i {
            assert(a[k] == b[k]);
        } else if k > i {
            assert(b[i] == a[i]);
        }
    }
}

/// No byte string comes before itself.
pub proof fn lemma_lex_less_irreflexive(a: Seq<u8>)
    ensures
        !lex_less(a, a),
{
}

/// Whether two 32-byte values hold the same bytes.
pub fn bytes32_eq(a: &[u8; 32], b: &[u8; 32]) -> (same: bool)
    ensures
        same == (a@ == b@),
{
    let mut i: usize = 0;
    while i < 32
        invariant
            i <= 32,
            forall|j: int| 0 <= j < i ==> a@[j] == b@[j],
        decreases 32 - i,
    {
        if a[i] != b[i] {
            return false;
        }
        i += 1;
    }
    assert(a@ =~= b@);
    true
}

/// Whether two byte strings hold the same bytes.
pub fn bytes_eq(a: &Vec<u8>, b: &Vec<u8>) -> (same: bool)
    ensures
        same == (a@ == b@),
{
    if a.len() != b.len() {
        return false;
    }
    let mut i: usize = 0;
    while i < a.len()
        invariant
            i <= a.len(),
            a.len() == b.len(),
            forall|j: int| 0 <= j < i ==> a@[j] == b@[j],
        decreases a.len() - i,
    {
        if a[i] != b[i] {
            return false;
        }
        i += 1;
    }
    assert(a@ =~= b@);
    true
}

/// Appends all bytes of `tail` to `buf`.
pub fn extend_bytes(buf: &mut Vec<u8>, tail: &Vec<u8>)
    ensures
        final(buf)@ == old(buf)@ + tail@,
{
    let mut i: usize = 0;
    while i < tail.len()
        invariant
            i <= tail.len(),
            buf@ == old(buf)@ + tail@.subrange(0, i as int),
        decreases tail.len() - i,
    {
        buf.push(tail[i]);
        i += 1;
        assert(buf@ =~= old(buf)@ + tail@.subrange(0, i as int));
    }
    assert(tail@.subrange(0, tail.len() as int) =~= tail@);
}

/// Appends the 32 bytes of `tail` to `buf`.
pub fn extend_bytes32(buf: &mut Vec<u8>, tail: &[u8; 32])
    ensures
        final(buf)@ == old(buf)@ + tail@,
{
    let mut i: usize = 0;
    while i < 32
        invariant
            i <= 32,
            buf@ == old(buf)@ + tail@.subrange(0, i as int),
        decreases 32 - i,
    {
        buf.push(tail[i]);
        i += 1;
        assert(buf@ =~= old(buf)@ + tail@.subrange(0, i as int));
    }
    assert(tail@.subrange(0, 32) =~= tail@);
}

} // verus!

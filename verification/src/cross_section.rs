//! Reading the cross-section of a partially revealed tree.
//!
//! A block holds the nodes of a cross-section of its tree from left to
//! right. Its strict encoding is one byte for the depth, two bytes for the
//! number of nodes, lowest first, and the nodes: a concealed node is a zero
//! byte, its depth and the 32 bytes of its hash; a revealed leaf is a one
//! byte, the 32 bytes of the protocol and the 32 bytes of the message. The
//! functions here walk that encoding and tell whether the nodes cover every
//! place of the tree exactly once, with every leaf at the place of its
//! protocol.

use vstd::prelude::*;
use commit_verify::lnpbp4::MerkleBlock;
use crate::bytes::{bytes32_eq, bytes_eq, Message, ProtocolId};
use crate::lnpbp4::{
    block_commit_encode, block_depth, block_depth_value, block_leaf_list,
    block_leaves, block_merkle_root, block_protocol_pos, block_sound, block_strict_serialize,
    protocol_place, Leaf, LNPBP4_DEPTH_LIMIT,
};

verus! {

/// Number of places of a tree of the given depth.
pub open spec fn width(depth: nat) -> nat
    decreases depth,
{
    if depth == 0 {
        1
    } else {
        2 * width((depth - 1) as nat)
    }
}

/// A tree of 16 levels at most has 65536 places at most, and a deeper tree
/// has more places.
pub proof fn lemma_width_bounds(lower: nat, depth: nat)
    requires
        lower <= depth,
        depth <= 16,
    ensures
        1 <= width(lower) <= width(depth) <= 65536,
    decreases 16 - lower,
{
    reveal_with_fuel(width, 17);
    if lower < depth {
        lemma_width_bounds(lower + 1, depth);
    }
}

/// Computes the number of places of a tree.
pub fn tree_width(depth: u8) -> (places: u32)
    requires
        depth <= 16,
    ensures
        places == width(depth as nat),
{
    let mut places: u32 = 1;
    let mut level: u8 = 0;
    while level < depth
        invariant
            level <= depth,
            depth <= 16,
            places == width(level as nat),
        decreases depth - level,
    {
        proof {
            lemma_width_bounds(level as nat + 1, 16);
        }
        places = places * 2;
        level += 1;
    }
    places
}

/// The leaves, as pairs of byte strings, of a list of leaves.
pub open spec fn leaf_views(list: Seq<(ProtocolId, Message)>) -> Seq<Leaf> {
    Seq::new(list.len(), |i: int| (list[i].0@, list[i].1@))
}

/// Walks `remaining` nodes of an encoded cross-section from `pos` on, where
/// the nodes before cover the places before `place` and reveal the leaves
/// `found`. The walk gives the revealed leaves if every node stands at a
/// place that its size divides, every leaf stands at the place of its
/// protocol, and the nodes end at the last place of the tree.
pub open spec fn scan_nodes(
    bytes: Seq<u8>,
    pos: int,
    remaining: nat,
    depth: u8,
    place: int,
    found: Seq<Leaf>,
) -> Option<Seq<Leaf>>
    decreases remaining,
{
    if remaining == 0 {
        if place == width(depth as nat) {
            Some(found)
        } else {
            None
        }
    } else if pos < 0 || pos >= bytes.len() || place >= width(depth as nat) {
        None
    } else if bytes[pos] == 0 {
        if pos + 34 > bytes.len() || bytes[pos + 1] > depth {
            None
        } else {
            let span = width((depth - bytes[pos + 1]) as nat) as int;
            if place % span != 0 || place + span > width(depth as nat) {
                None
            } else {
                scan_nodes(bytes, pos + 34, (remaining - 1) as nat, depth, place + span, found)
            }
        }
    } else if bytes[pos] == 1 {
        if pos + 65 > bytes.len() {
            None
        } else {
            let protocol = bytes.subrange(pos + 1, pos + 33);
            let message = bytes.subrange(pos + 33, pos + 65);
            if protocol_place(protocol, depth) != place {
                None
            } else {
                scan_nodes(
                    bytes,
                    pos + 65,
                    (remaining - 1) as nat,
                    depth,
                    place + 1,
                    found.push((protocol, message)),
                )
            }
        }
    } else {
        None
    }
}

/// The leaves that an encoded block of the given depth reveals, if its nodes
/// are a cross-section of a tree of that depth.
pub open spec fn sound_leaves(depth: u8, bytes: Seq<u8>) -> Option<Seq<Leaf>> {
    if bytes.len() < 3 {
        None
    } else {
        scan_nodes(bytes, 3, (bytes[1] + 256 * bytes[2]) as nat, depth, 0, Seq::empty())
    }
}

/// Copies 32 bytes out of a byte string.
pub fn read32(bytes: &Vec<u8>, pos: usize) -> (value: [u8; 32])
    requires
        pos + 32 <= bytes.len(),
    ensures
        value@ == bytes@.subrange(pos as int, pos + 32),
{
    let mut value = [0u8; 32];
    let mut i: usize = 0;
    while i < 32
        invariant
            i <= 32,
            pos + 32 <= bytes.len(),
            forall|j: int| 0 <= j < i ==> value@[j] == bytes@[pos + j],
        decreases 32 - i,
    {
        value.set(i, bytes[pos + i]);
        i += 1;
    }
    assert(value@ =~= bytes@.subrange(pos as int, pos + 32));
    value
}

/// Reads the revealed leaves out of the encoding of a block, and tells
/// whether the nodes of the block are a cross-section of its tree.
pub fn revealed_leaves(block: &MerkleBlock, bytes: &Vec<u8>) -> (found: Option<
    Vec<(ProtocolId, Message)>,
>)
    requires
        block_depth(*block) < LNPBP4_DEPTH_LIMIT,
    ensures
        match sound_leaves(block_depth(*block), bytes@) {
            Some(leaves) => found matches Some(list) && leaf_views(list@) == leaves,
            None => found is None,
        },
{
    let depth = block_depth_value(block);
    if bytes.len() < 3 {
        return None;
    }
    let count: usize = bytes[1] as usize + 256 * (bytes[2] as usize);
    let places = tree_width(depth);
    let mut list: Vec<(ProtocolId, Message)> = Vec::new();
    let mut pos: usize = 3;
    let mut place: u32 = 0;
    let mut done: usize = 0;
    assert(leaf_views(list@) =~= Seq::<Leaf>::empty());
    while done < count
        invariant
            done <= count,
            depth == block_depth(*block),
            depth < 16,
            places == width(depth as nat),
            place <= places,
            pos <= bytes.len(),
            scan_nodes(bytes@, pos as int, (count - done) as nat, depth, place as int, leaf_views(list@))
                == sound_leaves(depth, bytes@),
        decreases count - done,
    {
        proof {
            lemma_width_bounds(0, depth as nat);
        }
        if pos >= bytes.len() || place >= places {
            return None;
        }
        let tag = bytes[pos];
        if tag == 0 {
            if bytes.len() - pos < 34 || bytes[pos + 1] > depth {
                return None;
            }
            proof {
                lemma_width_bounds((depth - bytes[pos + 1]) as nat, depth as nat);
            }
            let span = tree_width(depth - bytes[pos + 1]);
            if place % span != 0 || span > places - place {
                return None;
            }
            place = place + span;
            pos = pos + 34;
        } else if tag == 1 {
            if bytes.len() - pos < 65 {
                return None;
            }
            let protocol = read32(bytes, pos + 1);
            let message = read32(bytes, pos + 33);
            if block_protocol_pos(block, &protocol) as u32 != place {
                return None;
            }
            let ghost before = leaf_views(list@);
            list.push((protocol, message));
            assert(leaf_views(list@) =~= before.push((protocol@, message@)));
            place = place + 1;
            pos = pos + 65;
        } else {
            return None;
        }
        done += 1;
    }
    if place == places {
        Some(list)
    } else {
        None
    }
}

/// The set of the leaves of a list.
pub open spec fn leaf_set(leaves: Seq<Leaf>) -> Set<Leaf> {
    Set::new(|leaf: Leaf| leaves.contains(leaf))
}

/// Number of the leaves of a list whose protocol is not among
/// `protocols`.
pub open spec fn count_outside(leaves: Seq<Leaf>, protocols: Seq<Seq<u8>>) -> nat
    decreases leaves.len(),
{
    if leaves.len() == 0 {
        0
    } else if protocols.contains(leaves.last().0) {
        count_outside(leaves.drop_last(), protocols)
    } else {
        count_outside(leaves.drop_last(), protocols) + 1
    }
}

/// Where every leaf has its protocol among `protocols`, none is outside.
pub proof fn lemma_none_outside(leaves: Seq<Leaf>, protocols: Seq<Seq<u8>>)
    requires
        forall|i: int| 0 <= i < leaves.len() ==> protocols.contains((#[trigger] leaves[i]).0),
    ensures
        count_outside(leaves, protocols) == 0,
    decreases leaves.len(),
{
    if leaves.len() > 0 {
        assert(protocols.contains(leaves[leaves.len() - 1].0));
        lemma_none_outside(leaves.drop_last(), protocols);
    }
}

/// The leaves that a block reveals, from left to right; nothing for a block
/// whose nodes are no cross-section of its tree.
pub fn block_revealed(block: &MerkleBlock) -> (found: Option<Vec<(ProtocolId, Message)>>)
    requires
        block_depth(*block) < LNPBP4_DEPTH_LIMIT,
    ensures
        found is Some <==> block_sound(*block),
        found matches Some(list) ==> leaf_views(list@) == block_leaf_list(*block),
{
    match block_strict_serialize(block) {
        Some(bytes) => revealed_leaves(block, &bytes),
        None => None,
    }
}

/// Whether a protocol is in a list of protocols.
pub fn protocol_in(protocols: &Vec<ProtocolId>, protocol: &ProtocolId) -> (present: bool)
    ensures
        present == protocols@.map_values(|p: ProtocolId| p@).contains(protocol@),
{
    let ghost views = protocols@.map_values(|p: ProtocolId| p@);
    let mut i: usize = 0;
    while i < protocols.len()
        invariant
            i <= protocols.len(),
            views == protocols@.map_values(|p: ProtocolId| p@),
            forall|j: int| 0 <= j < i ==> views[j] != protocol@,
        decreases protocols.len() - i,
    {
        if bytes32_eq(&protocols[i], protocol) {
            assert(views[i as int] == protocol@);
            return true;
        }
        i += 1;
    }
    false
}

/// Counts the leaves of a list whose protocol is not among `protocols`.
pub fn count_leaves_outside(list: &Vec<(ProtocolId, Message)>, protocols: &Vec<ProtocolId>) -> (count:
    usize)
    ensures
        count == count_outside(leaf_views(list@), protocols@.map_values(|p: ProtocolId| p@)),
{
    let ghost views = leaf_views(list@);
    let ghost kept = protocols@.map_values(|p: ProtocolId| p@);
    let mut count: usize = 0;
    let mut i: usize = 0;
    while i < list.len()
        invariant
            i <= list.len(),
            views == leaf_views(list@),
            kept == protocols@.map_values(|p: ProtocolId| p@),
            count == count_outside(views.subrange(0, i as int), kept),
            count <= i,
        decreases list.len() - i,
    {
        let ghost next = views.subrange(0, i + 1);
        assert(next.drop_last() =~= views.subrange(0, i as int));
        assert(next.last() == views[i as int]);
        if !protocol_in(protocols, &list[i].0) {
            count += 1;
        }
        i += 1;
    }
    assert(views.subrange(0, list.len() as int) =~= views);
    count
}

/// A list of leaves holds a leaf of the protocol.
pub open spec fn list_reveals(leaves: Seq<Leaf>, protocol: Seq<u8>) -> bool {
    exists|message: Seq<u8>| #[trigger] leaves.contains((protocol, message))
}

/// Whether a list of leaves holds a leaf of the protocol.
pub fn reveals_protocol(list: &Vec<(ProtocolId, Message)>, protocol: &ProtocolId) -> (found: bool)
    ensures
        found == list_reveals(leaf_views(list@), protocol@),
{
    let ghost views = leaf_views(list@);
    let mut i: usize = 0;
    while i < list.len()
        invariant
            i <= list.len(),
            views == leaf_views(list@),
            forall|j: int| 0 <= j < i ==> (#[trigger] views[j]).0 != protocol@,
        decreases list.len() - i,
    {
        if bytes32_eq(&list[i].0, protocol) {
            assert(views[i as int] == (protocol@, list[i as int].1@));
            assert(views.contains((protocol@, list[i as int].1@)));
            return true;
        }
        i += 1;
    }
    assert(!list_reveals(views, protocol@)) by {
        if list_reveals(views, protocol@) {
            let message = choose|message: Seq<u8>| #[trigger] views.contains((protocol@, message));
            let j = choose|j: int| 0 <= j < views.len() && views[j] == (protocol@, message);
            assert(views[j].0 == protocol@);
        }
    }
    false
}

/// Whether a list of leaves holds a leaf of each of the protocols.
pub fn reveals_protocols(list: &Vec<(ProtocolId, Message)>, protocols: &Vec<ProtocolId>) -> (all:
    bool)
    ensures
        all == forall|i: int|
            0 <= i < protocols@.len() ==> list_reveals(
                leaf_views(list@),
                #[trigger] protocols@[i]@,
            ),
{
    let mut i: usize = 0;
    while i < protocols.len()
        invariant
            i <= protocols.len(),
            forall|j: int|
                0 <= j < i ==> list_reveals(leaf_views(list@), #[trigger] protocols@[j]@),
        decreases protocols.len() - i,
    {
        if !reveals_protocol(list, &protocols[i]) {
            return false;
        }
        i += 1;
    }
    true
}

/// Whether a leaf is in a list of leaves.
pub fn leaf_in(list: &Vec<(ProtocolId, Message)>, leaf: &(ProtocolId, Message)) -> (present: bool)
    ensures
        present == leaf_views(list@).contains((leaf.0@, leaf.1@)),
{
    let ghost views = leaf_views(list@);
    let mut i: usize = 0;
    while i < list.len()
        invariant
            i <= list.len(),
            views == leaf_views(list@),
            forall|j: int| 0 <= j < i ==> views[j] != (leaf.0@, leaf.1@),
        decreases list.len() - i,
    {
        if bytes32_eq(&list[i].0, &leaf.0) && bytes32_eq(&list[i].1, &leaf.1) {
            assert(views[i as int] == (leaf.0@, leaf.1@));
            return true;
        }
        i += 1;
    }
    false
}

/// Whether every leaf of `list` is in `first` or in `second`.
pub fn leaves_among(
    list: &Vec<(ProtocolId, Message)>,
    first: &Vec<(ProtocolId, Message)>,
    second: &Vec<(ProtocolId, Message)>,
) -> (within: bool)
    ensures
        within == leaf_set(leaf_views(list@)).subset_of(
            leaf_set(leaf_views(first@)).union(leaf_set(leaf_views(second@))),
        ),
{
    let ghost views = leaf_views(list@);
    let ghost both = leaf_set(leaf_views(first@)).union(leaf_set(leaf_views(second@)));
    let mut i: usize = 0;
    while i < list.len()
        invariant
            i <= list.len(),
            views == leaf_views(list@),
            both == leaf_set(leaf_views(first@)).union(leaf_set(leaf_views(second@))),
            forall|j: int| 0 <= j < i ==> both.contains(#[trigger] views[j]),
        decreases list.len() - i,
    {
        if !leaf_in(first, &list[i]) && !leaf_in(second, &list[i]) {
            assert(views[i as int] == (list[i as int].0@, list[i as int].1@));
            assert(leaf_set(views).contains(views[i as int]));
            assert(!both.contains(views[i as int]));
            return false;
        }
        assert(views[i as int] == (list[i as int].0@, list[i as int].1@));
        i += 1;
    }
    assert forall|leaf: Leaf| leaf_set(views).contains(leaf) implies both.contains(leaf) by {
        let j = choose|j: int| 0 <= j < views.len() && views[j] == leaf;
        assert(both.contains(views[j]));
    }
    true
}

/// Whether `merged` is the block that merging two blocks of one tree has to
/// give: a cross-section of the tree with the merkle root `root` that
/// reveals the leaves of `first` and of `second`, and no others.
pub fn is_merge_of(
    merged: &MerkleBlock,
    root: &Vec<u8>,
    first: &Vec<(ProtocolId, Message)>,
    second: &Vec<(ProtocolId, Message)>,
) -> (valid: bool)
    requires
        block_depth(*merged) < LNPBP4_DEPTH_LIMIT,
    ensures
        valid <==> (block_sound(*merged) && block_merkle_root(*merged) == root@ && block_leaves(
            *merged,
        ) == leaf_set(leaf_views(first@)).union(leaf_set(leaf_views(second@)))),
{
    let list = match block_revealed(merged) {
        Some(list) => list,
        None => {
            return false;
        },
    };
    let ghost found = leaf_set(leaf_views(list@));
    let ghost both = leaf_set(leaf_views(first@)).union(leaf_set(leaf_views(second@)));
    assert(block_leaves(*merged) =~= found);
    if !leaves_among(&list, first, second) || !leaves_among(first, &list, &list) || !leaves_among(
        second,
        &list,
        &list,
    ) {
        assert(found != both) by {
            if found == both {
                assert(found.subset_of(both));
                assert(leaf_set(leaf_views(first@)).subset_of(found.union(found)));
                assert(leaf_set(leaf_views(second@)).subset_of(found.union(found)));
            }
        }
        return false;
    }
    assert(found =~= both);
    let merged_root = block_commit_encode(merged);
    bytes_eq(&merged_root, root)
}

} // verus!

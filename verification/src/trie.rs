//! The trie-node model: decoding one raw Merkle-Patricia trie node (an
//! outside primitive) and traversing it with the remaining nibble path
//! (verified logic).

use vstd::prelude::*;

verus! {

/// What the proof decomposer reads of one decoded trie node: its variant,
/// its partial nibble path (extension and leaf), and which of the sixteen
/// children a branch holds, as a bit mask (bit `n` set means the child at
/// nibble `n` is present).
pub enum TrieNodeModel {
    EmptyRoot,
    Branch { child_mask: u16 },
    Extension { path: Vec<u8> },
    Leaf { path: Vec<u8> },
}

/// The shape of a decoded trie node, for contracts.
#[verifier::ext_equal]
pub enum TrieNodeShape {
    EmptyRoot,
    Branch { child_mask: u16 },
    Extension { path: Seq<u8> },
    Leaf { path: Seq<u8> },
}

impl View for TrieNodeModel {
    type V = TrieNodeShape;

    open spec fn view(&self) -> TrieNodeShape {
        match self {
            TrieNodeModel::EmptyRoot => TrieNodeShape::EmptyRoot,
            TrieNodeModel::Branch { child_mask } => TrieNodeShape::Branch {
                child_mask: *child_mask,
            },
            TrieNodeModel::Extension { path } => TrieNodeShape::Extension { path: path@ },
            TrieNodeModel::Leaf { path } => TrieNodeShape::Leaf { path: path@ },
        }
    }
}

/// What a given raw node byte string decodes to: a function of the bytes
/// alone, named rather than spelled out (the encoding is an outside
/// primitive). `None` is a byte string that is not a well-formed node.
pub uninterp spec fn decoded_node_of(bytes: Seq<u8>) -> Option<TrieNodeShape>;

/// Partial paths hold nibble values only, each below 16.
pub open spec fn node_shape_wf(n: TrieNodeShape) -> bool {
    match n {
        TrieNodeShape::Extension { path } => forall|i: int|
            0 <= i < path.len() ==> path[i] < 16,
        TrieNodeShape::Leaf { path } => forall|i: int| 0 <= i < path.len() ==> path[i] < 16,
        _ => true,
    }
}

/// The raw bytes carry a compact key too long for a trie path: they read
/// as an RLP list whose first element is a byte string of payload length
/// 34 or more, or of exactly 33 with an odd-length path flag (high nibble
/// 1 or 3). A 32-byte target key unpacks to at most 64 nibbles, so no
/// well-formed node has such a key; the node decoder's own capacity
/// checks abort on these byte strings instead of reporting them, so they
/// are screened out before it runs. Any byte string this holds of never
/// decodes as a node: the decoder rejects it on the flag or on the item
/// count where it does not abort.
pub open spec fn oversized_node_key(bytes: Seq<u8>) -> bool {
    &&& bytes.len() > 0
    &&& 0xc0 <= bytes[0]
    &&& {
        let p: int = if bytes[0] <= 0xf7 {
            1
        } else {
            1 + (bytes[0] - 0xf7)
        };
        &&& p < bytes.len()
        &&& 0x80 <= bytes[p] < 0xc0
        &&& if bytes[p] <= 0xb7 {
            let key_len: int = bytes[p] - 0x80;
            ||| key_len >= 34
            ||| (key_len == 33 && p + 1 < bytes.len() && (bytes[p + 1] & 0xf0 == 0x10 || bytes[p
                + 1] & 0xf0 == 0x30))
        } else if bytes[p] == 0xb8 {
            let key_len: int = if p + 1 < bytes.len() {
                bytes[p + 1] as int
            } else {
                0
            };
            ||| key_len >= 34
            ||| (key_len == 33 && p + 2 < bytes.len() && (bytes[p + 2] & 0xf0 == 0x10 || bytes[p
                + 2] & 0xf0 == 0x30))
        } else {
            true
        }
    }
}

/// Decide `oversized_node_key` by reading the two RLP headers.
pub(crate) fn check_oversized_node_key(bytes: &Vec<u8>) -> (r: bool)
    ensures
        r == oversized_node_key(bytes@),
{
    if bytes.len() == 0 || bytes[0] < 0xc0 {
        return false;
    }
    let p: usize = if bytes[0] <= 0xf7 {
        1
    } else {
        1 + (bytes[0] - 0xf7) as usize
    };
    if p >= bytes.len() || bytes[p] < 0x80 || bytes[p] >= 0xc0 {
        return false;
    }
    if bytes[p] <= 0xb7 {
        let key_len = bytes[p] - 0x80;
        if key_len >= 34 {
            return true;
        }
        key_len == 33 && p + 1 < bytes.len() && (bytes[p + 1] & 0xf0 == 0x10 || bytes[p + 1]
            & 0xf0 == 0x30)
    } else if bytes[p] == 0xb8 {
        let key_len = if p + 1 < bytes.len() {
            bytes[p + 1]
        } else {
            0
        };
        if key_len >= 34 {
            return true;
        }
        key_len == 33 && p + 2 < bytes.len() && (bytes[p + 2] & 0xf0 == 0x10 || bytes[p + 2]
            & 0xf0 == 0x30)
    } else {
        true
    }
}

/// What the decomposer holds a raw byte string to decode to: an
/// over-long compact key is no node; everything else is what the outside
/// decoder reads.
pub open spec fn node_model_of(bytes: Seq<u8>) -> Option<TrieNodeShape> {
    if oversized_node_key(bytes) {
        None
    } else {
        decoded_node_of(bytes)
    }
}

/// Relies on `alloy_trie::nodes::TrieNode::decode` (RLP) for parsing one
/// raw trie node; the partial path nibbles and the branch's child mask are
/// carried over unchanged. Its decoder unpacks each path byte into two
/// values below 16, which `node_shape_wf` records, and asserts — rather
/// than reports — a compact key beyond a trie path's 64-nibble capacity,
/// which the `requires` screens out.
#[verifier::external_body]
pub(crate) fn decode_trie_node(bytes: &Vec<u8>) -> (r: Option<TrieNodeModel>)
    requires
        !oversized_node_key(bytes@),
    ensures
        match r {
            Some(n) => decoded_node_of(bytes@) == Some(n@) && node_shape_wf(n@),
            None => decoded_node_of(bytes@) is None,
        },
{
    match <alloy_trie::nodes::TrieNode as alloy_rlp::Decodable>::decode(&mut bytes.as_slice()) {
        Err(_) => None,
        Ok(alloy_trie::nodes::TrieNode::EmptyRoot) => Some(TrieNodeModel::EmptyRoot),
        Ok(alloy_trie::nodes::TrieNode::Branch(b)) => Some(TrieNodeModel::Branch {
            child_mask: b.state_mask.get(),
        }),
        Ok(alloy_trie::nodes::TrieNode::Extension(e)) => Some(TrieNodeModel::Extension {
            path: e.key.to_vec(),
        }),
        Ok(alloy_trie::nodes::TrieNode::Leaf(l)) => Some(TrieNodeModel::Leaf {
            path: l.key.to_vec(),
        }),
    }
}

/// Decode one raw trie node, screening out the byte strings the outside
/// decoder would abort on: those are no nodes.
pub(crate) fn decode_node(bytes: &Vec<u8>) -> (r: Option<TrieNodeModel>)
    ensures
        match r {
            Some(n) => node_model_of(bytes@) == Some(n@) && node_shape_wf(n@),
            None => node_model_of(bytes@) is None,
        },
{
    if check_oversized_node_key(bytes) {
        None
    } else {
        decode_trie_node(bytes)
    }
}

/// One traversal step: how a node consumed the remaining path.
pub enum TraversalStep {
    /// The node consumed a prefix; this much of the path remains.
    Continue { remaining: Vec<u8> },
    /// The node's value is the target's: the whole path is consumed.
    ValueReached,
    /// The node does not continue the path: the proof does not match the key.
    Mismatch,
}

/// The shape of a traversal step, for contracts.
#[verifier::ext_equal]
pub enum TraversalStepShape {
    Continue { remaining: Seq<u8> },
    ValueReached,
    Mismatch,
}

impl View for TraversalStep {
    type V = TraversalStepShape;

    open spec fn view(&self) -> TraversalStepShape {
        match self {
            TraversalStep::Continue { remaining } => TraversalStepShape::Continue {
                remaining: remaining@,
            },
            TraversalStep::ValueReached => TraversalStepShape::ValueReached,
            TraversalStep::Mismatch => TraversalStepShape::Mismatch,
        }
    }
}

/// A branch holds a child at nibble `nib`.
pub open spec fn branch_has_child(child_mask: u16, nib: u8) -> bool {
    nib < 16 && (child_mask >> (nib as u16)) & 1 == 1
}

/// How one node consumes the remaining nibble path.
///
/// A leaf must consume it exactly; an extension must find its own partial
/// path — never empty — as a prefix and passes the rest on; a branch
/// consumes one nibble, owed a present child there; everything else fails
/// the traversal. A continuation therefore always hands back a strictly
/// shorter remaining suffix, as `lemma_traverse_continue_shrinks` states.
pub open spec fn traverse_spec(node: TrieNodeShape, remaining: Seq<u8>) -> TraversalStepShape {
    match node {
        TrieNodeShape::EmptyRoot => TraversalStepShape::Mismatch,
        TrieNodeShape::Branch { child_mask } => if remaining.len() > 0 && branch_has_child(
            child_mask,
            remaining[0],
        ) {
            TraversalStepShape::Continue { remaining: remaining.skip(1) }
        } else {
            TraversalStepShape::Mismatch
        },
        TrieNodeShape::Extension { path } => if 0 < path.len() <= remaining.len()
            && remaining.take(path.len() as int) == path {
            TraversalStepShape::Continue { remaining: remaining.skip(path.len() as int) }
        } else {
            TraversalStepShape::Mismatch
        },
        TrieNodeShape::Leaf { path } => if remaining == path {
            TraversalStepShape::ValueReached
        } else {
            TraversalStepShape::Mismatch
        },
    }
}

/// Traverse one decoded node with the remaining nibble path.
pub fn traverse_node(node: &TrieNodeModel, remaining: &Vec<u8>) -> (r: TraversalStep)
    ensures
        r@ == traverse_spec(node@, remaining@),
{
    match node {
        TrieNodeModel::EmptyRoot => TraversalStep::Mismatch,
        TrieNodeModel::Branch { child_mask } => {
            if remaining.len() > 0 && remaining[0] < 16 && (*child_mask >> (remaining[0] as u16))
                & 1 == 1 {
                let rest = crate::nibbles::copy_range(remaining, 1, remaining.len());
                assert(rest@ =~= remaining@.skip(1));
                TraversalStep::Continue { remaining: rest }
            } else {
                TraversalStep::Mismatch
            }
        },
        TrieNodeModel::Extension { path } => {
            if 0 < path.len() && path.len() <= remaining.len() {
                let head = crate::nibbles::copy_range(remaining, 0, path.len());
                assert(head@ =~= remaining@.take(path@.len() as int));
                if crate::nibbles::bytes_eq(&head, path) {
                    let rest = crate::nibbles::copy_range(remaining, path.len(), remaining.len());
                    assert(rest@ =~= remaining@.skip(path@.len() as int));
                    TraversalStep::Continue { remaining: rest }
                } else {
                    TraversalStep::Mismatch
                }
            } else {
                TraversalStep::Mismatch
            }
        },
        TrieNodeModel::Leaf { path } => {
            if crate::nibbles::bytes_eq(remaining, path) {
                TraversalStep::ValueReached
            } else {
                TraversalStep::Mismatch
            }
        },
    }
}

/// A continuation strictly shrinks the remaining path, and what is left
/// is a suffix of it: the consumed prefix strictly grows at every step of
/// a proof walk.
pub proof fn lemma_traverse_continue_shrinks(node: TrieNodeShape, remaining: Seq<u8>)
    ensures
        traverse_spec(node, remaining) matches TraversalStepShape::Continue {
            remaining: r,
        } ==> r.len() < remaining.len() && crate::nibbles::is_suffix_of(r, remaining),
{
    match traverse_spec(node, remaining) {
        TraversalStepShape::Continue { remaining: r } => {
            assert(r =~= remaining.skip(remaining.len() - r.len()));
        },
        _ => {},
    }
}

} // verus!

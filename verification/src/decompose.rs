//! The trie-proof decomposer: walk one root-to-leaf proof for one target
//! key and merge one record per node into the shared output set, with the
//! consumed nibble path and the minimal root-to-node proof slice.

use vstd::prelude::*;
use crate::nibbles::{
    nibbles_of, is_suffix_of, consumed_prefix, byte_seqs_view, unpack_nibbles, strip_suffix,
    clone_bytes, copy_byte_seq_range, clone_byte_seqs,
};
use crate::hashing::{keccak_of, keccak};
use crate::trie::{
    TrieNodeModel, TraversalStep, TraversalStepShape, node_model_of, decode_node, traverse_spec,
    traverse_node,
};
use crate::content::{
    StateContentKey, StateContentValue, StateKeyShape, StateValueShape, StateRecordShape,
    StateContent, merge_record, merge_records, lemma_merge_records_concat,
};

verus! {

/// What kind of trie one proof belongs to, with the material every record
/// of that proof carries.
pub enum ProofContext {
    /// The account trie: records carry the block hash.
    Account { block_hash: Vec<u8> },
    /// One contract's storage trie: records carry the hashed account
    /// address, the account's own proof and the block hash.
    Storage { address_hash: Vec<u8>, account_proof: Vec<Vec<u8>>, block_hash: Vec<u8> },
}

/// The shape of a proof context, for contracts.
#[verifier::ext_equal]
pub enum ProofContextShape {
    Account { block_hash: Seq<u8> },
    Storage { address_hash: Seq<u8>, account_proof: Seq<Seq<u8>>, block_hash: Seq<u8> },
}

impl View for ProofContext {
    type V = ProofContextShape;

    open spec fn view(&self) -> ProofContextShape {
        match self {
            ProofContext::Account { block_hash } => ProofContextShape::Account {
                block_hash: block_hash@,
            },
            ProofContext::Storage { address_hash, account_proof, block_hash } => (
            ProofContextShape::Storage {
                address_hash: address_hash@,
                account_proof: byte_seqs_view(account_proof@),
                block_hash: block_hash@,
            }),
        }
    }
}

/// A structural fault found while walking one proof.
#[derive(Debug)]
pub enum ProofError {
    /// The remaining path was no longer a suffix of the full key path.
    RemainingNotSuffix { node_index: usize },
    /// The raw node bytes do not decode as a trie node.
    UndecodableNode { node_index: usize },
    /// The node does not continue the traversal: the proof does not match
    /// the target key.
    UnexpectedTraversal { node_index: usize },
}

/// The shape of a structural fault, for contracts.
#[verifier::ext_equal]
pub enum ProofErrorShape {
    RemainingNotSuffix { node_index: int },
    UndecodableNode { node_index: int },
    UnexpectedTraversal { node_index: int },
}

impl View for ProofError {
    type V = ProofErrorShape;

    open spec fn view(&self) -> ProofErrorShape {
        match self {
            ProofError::RemainingNotSuffix { node_index } => ProofErrorShape::RemainingNotSuffix {
                node_index: *node_index as int,
            },
            ProofError::UndecodableNode { node_index } => ProofErrorShape::UndecodableNode {
                node_index: *node_index as int,
            },
            ProofError::UnexpectedTraversal { node_index } => (
            ProofErrorShape::UnexpectedTraversal { node_index: *node_index as int }),
        }
    }
}

/// The key of the record for a node found at `path` in this context's trie.
pub open spec fn record_key_shape(
    ctx: ProofContextShape,
    node_hash: Seq<u8>,
    path: Seq<u8>,
) -> StateKeyShape {
    match ctx {
        ProofContextShape::Account { .. } => StateKeyShape::AccountTrieNode { node_hash, path },
        ProofContextShape::Storage { address_hash, .. } => (
        StateKeyShape::ContractStorageTrieNode { address_hash, node_hash, path }),
    }
}

/// The value of the record whose proof slice is `slice`.
pub open spec fn record_value_shape(
    ctx: ProofContextShape,
    slice: Seq<Seq<u8>>,
) -> StateValueShape {
    match ctx {
        ProofContextShape::Account { block_hash } => StateValueShape::AccountTrieNodeWithProof {
            proof: slice,
            block_hash,
        },
        ProofContextShape::Storage { address_hash, account_proof, block_hash } => (
        StateValueShape::ContractStorageTrieNodeWithProof {
            storage_proof: slice,
            account_proof,
            block_hash,
        }),
    }
}

/// The record emitted for the node at proof index `i`, reached with
/// `remaining` yet to be traversed: its key holds the node's hash and the
/// consumed path, its value the proof slice up to and including the node.
pub open spec fn record_shape_at(
    ctx: ProofContextShape,
    full: Seq<u8>,
    proof: Seq<Seq<u8>>,
    i: int,
    remaining: Seq<u8>,
) -> StateRecordShape {
    StateRecordShape {
        key: record_key_shape(ctx, keccak_of(proof[i]), consumed_prefix(full, remaining)),
        value: record_value_shape(ctx, proof.take(i + 1)),
    }
}

/// What one decomposition yields: the records emitted, in proof order, and
/// the structural fault that stopped it, if one did.
#[verifier::ext_equal]
pub ghost struct DecompositionShape {
    pub records: Seq<StateRecordShape>,
    pub error: Option<ProofErrorShape>,
}

/// The decomposition from proof index `i` on, with `remaining` the nibble
/// suffix not yet consumed. One record per node; a fault at a node keeps
/// that node's record (when its path bookkeeping was still sound) and
/// stops the walk.
pub open spec fn decompose_from(
    ctx: ProofContextShape,
    full: Seq<u8>,
    proof: Seq<Seq<u8>>,
    i: int,
    remaining: Seq<u8>,
) -> DecompositionShape
    decreases proof.len() - i,
{
    if i < 0 || i >= proof.len() {
        DecompositionShape { records: Seq::empty(), error: None }
    } else if !is_suffix_of(remaining, full) {
        DecompositionShape {
            records: Seq::empty(),
            error: Some(ProofErrorShape::RemainingNotSuffix { node_index: i }),
        }
    } else {
        let rec = record_shape_at(ctx, full, proof, i, remaining);
        match node_model_of(proof[i]) {
            None => DecompositionShape {
                records: seq![rec],
                error: Some(ProofErrorShape::UndecodableNode { node_index: i }),
            },
            Some(node) => match traverse_spec(node, remaining) {
                TraversalStepShape::Continue { remaining: next } => {
                    let rest = decompose_from(ctx, full, proof, i + 1, next);
                    DecompositionShape { records: seq![rec] + rest.records, error: rest.error }
                },
                TraversalStepShape::ValueReached => {
                    let rest = decompose_from(ctx, full, proof, i + 1, Seq::empty());
                    DecompositionShape { records: seq![rec] + rest.records, error: rest.error }
                },
                TraversalStepShape::Mismatch => DecompositionShape {
                    records: seq![rec],
                    error: Some(ProofErrorShape::UnexpectedTraversal { node_index: i }),
                },
            },
        }
    }
}

/// The decomposition of one whole proof for one target key: records start
/// at the root with the empty consumed path.
pub open spec fn decomposition_of(
    ctx: ProofContextShape,
    target: Seq<u8>,
    proof: Seq<Seq<u8>>,
) -> DecompositionShape {
    decompose_from(ctx, nibbles_of(target), proof, 0, nibbles_of(target))
}

/// Build the record key for one node.
fn build_key(ctx: &ProofContext, node_hash: Vec<u8>, path: Vec<u8>) -> (r: StateContentKey)
    ensures
        r@ == record_key_shape(ctx@, node_hash@, path@),
{
    match ctx {
        ProofContext::Account { .. } => StateContentKey::AccountTrieNode { node_hash, path },
        ProofContext::Storage { address_hash, .. } => StateContentKey::ContractStorageTrieNode {
            address_hash: clone_bytes(address_hash),
            node_hash,
            path,
        },
    }
}

/// Build the record value for one proof slice.
fn build_value(ctx: &ProofContext, slice: Vec<Vec<u8>>) -> (r: StateContentValue)
    ensures
        r@ == record_value_shape(ctx@, byte_seqs_view(slice@)),
{
    match ctx {
        ProofContext::Account { block_hash } => StateContentValue::AccountTrieNodeWithProof {
            proof: slice,
            block_hash: clone_bytes(block_hash),
        },
        ProofContext::Storage { address_hash: _, account_proof, block_hash } => (
        StateContentValue::ContractStorageTrieNodeWithProof {
            storage_proof: slice,
            account_proof: clone_byte_seqs(account_proof),
            block_hash: clone_bytes(block_hash),
        }),
    }
}

/// Decompose one `(target key, proof)` pair into the shared output set.
///
/// Walks the proof root-first. For each node it computes the consumed
/// nibble prefix, hashes the raw node, and merges one record — first
/// writer wins — whose proof slice is the nodes up to and including this
/// one. A structural fault stops the walk and is handed back; records
/// merged before the fault stay, exactly as `decompose_from` lays down.
pub fn decompose_trie_proof(
    target: &Vec<u8>,
    proof: &Vec<Vec<u8>>,
    ctx: &ProofContext,
    out: &mut StateContent,
) -> (r: Result<(), ProofError>)
    requires
        old(out).wf(),
    ensures
        final(out).wf(),
        final(out)@ == merge_records(
            old(out)@,
            decomposition_of(ctx@, target@, byte_seqs_view(proof@)).records,
        ),
        match r {
            Ok(()) => decomposition_of(ctx@, target@, byte_seqs_view(proof@)).error is None,
            Err(e) => decomposition_of(ctx@, target@, byte_seqs_view(proof@)).error == Some(e@),
        },
{
    let nib = unpack_nibbles(target);
    let mut remaining = clone_bytes(&nib);
    let ghost full = nib@;
    let ghost pview = byte_seqs_view(proof@);
    let ghost orig = out@;
    let ghost whole = decompose_from(ctx@, full, pview, 0, full);
    let mut i: usize = 0;
    while i < proof.len()
        invariant
            out.wf(),
            orig == old(out)@,
            i <= proof@.len(),
            nib@ == full,
            full == nibbles_of(target@),
            pview == byte_seqs_view(proof@),
            pview.len() == proof@.len(),
            whole == decompose_from(ctx@, full, pview, 0, full),
            merge_records(out@, decompose_from(ctx@, full, pview, i as int, remaining@).records)
                == merge_records(orig, whole.records),
            decompose_from(ctx@, full, pview, i as int, remaining@).error == whole.error,
        decreases proof@.len() - i,
    {
        let ghost future = decompose_from(ctx@, full, pview, i as int, remaining@);
        let path = match strip_suffix(&nib, &remaining) {
            Some(path) => path,
            None => {
                assert(future.records =~= Seq::<StateRecordShape>::empty());
                return Err(ProofError::RemainingNotSuffix { node_index: i });
            },
        };
        let ghost rec = record_shape_at(ctx@, full, pview, i as int, remaining@);
        let node_hash = keccak(&proof[i]);
        assert(pview[i as int] == proof@[i as int]@);
        let key = build_key(ctx, node_hash, path);
        let slice = copy_byte_seq_range(proof, 0, i + 1);
        assert(byte_seqs_view(slice@) =~= pview.take(i + 1));
        let value = build_value(ctx, slice);
        assert(key@ == rec.key);
        assert(value@ == rec.value);
        let ghost before = out@;
        out.insert_if_absent(key, value);
        proof {
            assert(out@ == merge_record(before, rec));
            assert(merge_records(before, seq![rec]) == merge_records(
                merge_record(before, rec),
                seq![rec].drop_first(),
            ));
            assert(seq![rec].drop_first() =~= Seq::<StateRecordShape>::empty());
        }
        let step = match decode_node(&proof[i]) {
            None => {
                assert(future.records =~= seq![rec]);
                return Err(ProofError::UndecodableNode { node_index: i });
            },
            Some(node) => traverse_node(&node, &remaining),
        };
        match step {
            TraversalStep::Continue { remaining: next } => {
                proof {
                    let rest = decompose_from(ctx@, full, pview, i + 1, next@);
                    assert(future.records == seq![rec] + rest.records);
                    assert(future.error == rest.error);
                    lemma_merge_records_concat(before, seq![rec], rest.records);
                    assert(merge_records(out@, rest.records) == merge_records(
                        orig,
                        whole.records,
                    ));
                }
                remaining = next;
            },
            TraversalStep::ValueReached => {
                proof {
                    let rest = decompose_from(ctx@, full, pview, i + 1, Seq::empty());
                    assert(future.records == seq![rec] + rest.records);
                    assert(future.error == rest.error);
                    lemma_merge_records_concat(before, seq![rec], rest.records);
                }
                remaining = Vec::new();
                assert(remaining@ =~= Seq::<u8>::empty());
            },
            TraversalStep::Mismatch => {
                assert(future.records =~= seq![rec]);
                return Err(ProofError::UnexpectedTraversal { node_index: i });
            },
        }
        i = i + 1;
    }
    assert(decompose_from(ctx@, full, pview, i as int, remaining@).records =~= Seq::<
        StateRecordShape,
    >::empty());
    Ok(())
}

} // verus!

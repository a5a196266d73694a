//! End-to-end tests of the trie-proof decomposition: records, paths,
//! proof slices, deduplication, and the failure modes.
//!
//! The trie nodes are written by hand as minimal RLP so that the real
//! node decoder sees well-formed (or deliberately broken) input.

use portal_state_network::assemble::{create_history_content, create_state_content, StateError};
use portal_state_network::content::{
    HistoryContentKey, HistoryContentValue, StateContent, StateContentKey, StateContentValue,
};
use portal_state_network::decompose::{decompose_trie_proof, ProofContext, ProofError};
use portal_state_network::nibbles::unpack_nibbles;
use portal_state_network::types::{AccountState, BlockData, StorageItem};

fn be_len(n: usize) -> Vec<u8> {
    let mut v = n.to_be_bytes().to_vec();
    while v.first() == Some(&0) {
        v.remove(0);
    }
    v
}

/// RLP-encode one byte string.
fn rlp_bytes(payload: &[u8]) -> Vec<u8> {
    if payload.len() == 1 && payload[0] < 0x80 {
        return payload.to_vec();
    }
    let mut out = Vec::new();
    if payload.len() <= 55 {
        out.push(0x80 + payload.len() as u8);
    } else {
        let len_bytes = be_len(payload.len());
        out.push(0xb7 + len_bytes.len() as u8);
        out.extend_from_slice(&len_bytes);
    }
    out.extend_from_slice(payload);
    out
}

/// Wrap already-encoded items into an RLP list.
fn rlp_list(items: &[Vec<u8>]) -> Vec<u8> {
    let payload: Vec<u8> = items.iter().flatten().copied().collect();
    let mut out = Vec::new();
    if payload.len() <= 55 {
        out.push(0xc0 + payload.len() as u8);
    } else {
        let len_bytes = be_len(payload.len());
        out.push(0xf7 + len_bytes.len() as u8);
        out.extend_from_slice(&len_bytes);
    }
    out.extend_from_slice(&payload);
    out
}

/// Hex-prefix encode a nibble path for a leaf or extension node.
fn hex_prefix(nibbles: &[u8], is_leaf: bool) -> Vec<u8> {
    let flag: u8 = if is_leaf { 0x20 } else { 0x00 };
    let mut out = Vec::new();
    if nibbles.len() % 2 == 0 {
        out.push(flag);
        for pair in nibbles.chunks(2) {
            out.push(pair[0] * 16 + pair[1]);
        }
    } else {
        out.push(flag | 0x10 | nibbles[0]);
        for pair in nibbles[1..].chunks(2) {
            out.push(pair[0] * 16 + pair[1]);
        }
    }
    out
}

/// A leaf node consuming `path` with the given value.
fn leaf_node(path: &[u8], value: &[u8]) -> Vec<u8> {
    rlp_list(&[rlp_bytes(&hex_prefix(path, true)), rlp_bytes(value)])
}

/// An extension node consuming `path`, pointing at a 32-byte child hash.
fn extension_node(path: &[u8], child_hash: &[u8]) -> Vec<u8> {
    rlp_list(&[rlp_bytes(&hex_prefix(path, false)), rlp_bytes(child_hash)])
}

/// A branch node with a 32-byte child hash in every one of the 16 slots.
fn full_branch_node() -> Vec<u8> {
    let mut items: Vec<Vec<u8>> = (0..16u8).map(|i| rlp_bytes(&[i; 32])).collect();
    items.push(rlp_bytes(&[]));
    rlp_list(&items)
}

fn keccak(bytes: &[u8]) -> Vec<u8> {
    alloy_primitives::keccak256(bytes).to_vec()
}

fn nibbles_of(bytes: &[u8]) -> Vec<u8> {
    let mut out = Vec::new();
    for b in bytes {
        out.push(b >> 4);
        out.push(b & 0x0f);
    }
    out
}

/// An account with no code and no storage, behind the given proof.
fn plain_account(address: [u8; 20], proof: Vec<Vec<u8>>) -> AccountState {
    AccountState {
        address: address.to_vec(),
        account_proof: proof,
        balance: vec![0; 32],
        code_hash: vec![0; 32],
        code: None,
        nonce: 0,
        storage_hash: vec![0; 32],
        storage_proof: Vec::new(),
    }
}

fn block_with_accounts(accounts: Vec<AccountState>) -> BlockData {
    BlockData {
        header: vec![0xaa, 0xbb, 0xcc],
        header_accumulator_proof: (0u8..15).map(|i| vec![i; 32]).collect(),
        state: accounts,
    }
}

/// A three-node inclusion proof for the given 32-byte target hash:
/// branch, then extension over two nibbles, then a leaf for the rest.
fn three_node_proof(target_hash: &[u8]) -> Vec<Vec<u8>> {
    let path = nibbles_of(target_hash);
    let root = full_branch_node();
    let ext = extension_node(&path[1..3], &[7u8; 32]);
    let leaf = leaf_node(&path[3..], &[0x01]);
    vec![root, ext, leaf]
}

#[test]
fn nibble_unpacking() {
    let n = unpack_nibbles(&vec![0xab, 0x05, 0xf0]);
    assert_eq!(n, vec![0x0a, 0x0b, 0x00, 0x05, 0x0f, 0x00]);
    assert_eq!(unpack_nibbles(&Vec::new()), Vec::<u8>::new());
}

#[test]
fn history_content_of_header_only_block() {
    let block = block_with_accounts(Vec::new());
    let (key, value) = create_history_content(&block);
    let HistoryContentKey::BlockHeaderWithProof { block_hash } = key;
    assert_eq!(block_hash, keccak(&[0xaa, 0xbb, 0xcc]));
    let HistoryContentValue::BlockHeaderWithProof { header, accumulator_proof } = value;
    assert_eq!(header, vec![0xaa, 0xbb, 0xcc]);
    assert_eq!(accumulator_proof.len(), 15);
    assert_eq!(accumulator_proof[3], vec![3u8; 32]);
    let state = create_state_content(&block).unwrap();
    assert_eq!(state.records.len(), 0);
}

#[test]
fn three_node_account_proof_yields_three_records() {
    let address = [0x11u8; 20];
    let address_hash = keccak(&address);
    let proof = three_node_proof(&address_hash);
    let block = block_with_accounts(vec![plain_account(address, proof.clone())]);
    let state = create_state_content(&block).unwrap();
    assert_eq!(state.records.len(), 3);
    let full_path = nibbles_of(&address_hash);
    let expected_paths: [&[u8]; 3] = [&[], &full_path[0..1], &full_path[0..3]];
    for (i, (key, value)) in state.records.iter().enumerate() {
        let StateContentKey::AccountTrieNode { node_hash, path } = key else {
            panic!("expected an account trie node key");
        };
        assert_eq!(node_hash, &keccak(&proof[i]));
        assert_eq!(path.as_slice(), expected_paths[i]);
        let StateContentValue::AccountTrieNodeWithProof { proof: slice, block_hash } = value
        else {
            panic!("expected an account trie node value");
        };
        assert_eq!(slice.len(), i + 1);
        assert_eq!(slice.as_slice(), &proof[0..=i]);
        assert_eq!(block_hash, &keccak(&[0xaa, 0xbb, 0xcc]));
    }
}

#[test]
fn decomposition_is_deterministic() {
    let address = [0x22u8; 20];
    let address_hash = keccak(&address);
    let proof = three_node_proof(&address_hash);
    let block = block_with_accounts(vec![plain_account(address, proof)]);
    let first = create_state_content(&block).unwrap();
    let second = create_state_content(&block).unwrap();
    assert_eq!(first.records.len(), second.records.len());
    for ((k1, v1), (k2, v2)) in first.records.iter().zip(second.records.iter()) {
        assert_eq!(format!("{k1:?}"), format!("{k2:?}"));
        assert_eq!(format!("{v1:?}"), format!("{v2:?}"));
    }
}

#[test]
fn shared_root_is_emitted_once() {
    let root = full_branch_node();
    let a1 = plain_account([0x33u8; 20], vec![root.clone()]);
    let a2 = plain_account([0x44u8; 20], vec![root.clone()]);
    let block = block_with_accounts(vec![a1, a2]);
    let state = create_state_content(&block).unwrap();
    assert_eq!(state.records.len(), 1);
    let (key, value) = &state.records[0];
    let StateContentKey::AccountTrieNode { node_hash, path } = key else {
        panic!("expected an account trie node key");
    };
    assert_eq!(node_hash, &keccak(&root));
    assert!(path.is_empty());
    let StateContentValue::AccountTrieNodeWithProof { proof: slice, .. } = value else {
        panic!("expected an account trie node value");
    };
    assert_eq!(slice.as_slice(), &[root]);
}

#[test]
fn code_hash_mismatch_fails_whole_assembly() {
    let address = [0x55u8; 20];
    let address_hash = keccak(&address);
    let mut account = plain_account(address, three_node_proof(&address_hash));
    account.code = Some(vec![0x60, 0x60, 0x60]);
    account.code_hash = vec![0u8; 32];
    let block = block_with_accounts(vec![account]);
    let result = create_state_content(&block);
    assert!(matches!(result, Err(StateError::CodeHashMismatch { account_index: 0 })));
}

#[test]
fn matching_code_hash_emits_bytecode_record() {
    let address = [0x66u8; 20];
    let address_hash = keccak(&address);
    let code = vec![0x60, 0x60, 0x60];
    let mut account = plain_account(address, three_node_proof(&address_hash));
    account.code_hash = keccak(&code);
    account.code = Some(code.clone());
    let block = block_with_accounts(vec![account]);
    let state = create_state_content(&block).unwrap();
    assert_eq!(state.records.len(), 4);
    let (key, value) = &state.records[3];
    let StateContentKey::ContractBytecode { address_hash: ah, code_hash } = key else {
        panic!("expected a bytecode key");
    };
    assert_eq!(ah, &address_hash);
    assert_eq!(code_hash, &keccak(&code));
    let StateContentValue::ContractBytecodeWithProof { code: c, account_proof, block_hash } =
        value
    else {
        panic!("expected a bytecode value");
    };
    assert_eq!(c, &code);
    assert_eq!(account_proof.len(), 3);
    assert_eq!(block_hash, &keccak(&[0xaa, 0xbb, 0xcc]));
}

#[test]
fn storage_items_emit_storage_records() {
    let address = [0x77u8; 20];
    let address_hash = keccak(&address);
    let slot_key = vec![0u8; 32];
    let storage = StorageItem {
        key: slot_key,
        value: vec![9u8; 32],
        proof: vec![full_branch_node()],
    };
    let mut account = plain_account(address, vec![full_branch_node()]);
    account.storage_proof = vec![storage];
    let block = block_with_accounts(vec![account]);
    let state = create_state_content(&block).unwrap();
    assert_eq!(state.records.len(), 2);
    let (key, value) = &state.records[1];
    let StateContentKey::ContractStorageTrieNode { address_hash: ah, node_hash, path } = key
    else {
        panic!("expected a storage trie node key");
    };
    assert_eq!(ah, &address_hash);
    assert_eq!(node_hash, &keccak(&full_branch_node()));
    assert!(path.is_empty());
    let StateContentValue::ContractStorageTrieNodeWithProof {
        storage_proof,
        account_proof,
        ..
    } = value
    else {
        panic!("expected a storage trie node value");
    };
    assert_eq!(storage_proof.len(), 1);
    assert_eq!(account_proof.len(), 1);
}

#[test]
fn mismatching_second_node_is_rejected() {
    let address = [0x88u8; 20];
    let root = full_branch_node();
    // A leaf whose partial path cannot match the 63 remaining nibbles.
    let bad_leaf = leaf_node(&[0x0f, 0x0f], &[0x01]);
    let block = block_with_accounts(vec![plain_account(address, vec![root, bad_leaf])]);
    let result = create_state_content(&block);
    assert!(matches!(
        result,
        Err(StateError::AccountProof {
            account_index: 0,
            error: ProofError::UnexpectedTraversal { node_index: 1 },
        })
    ));
}

#[test]
fn undecodable_node_is_rejected() {
    let address = [0x99u8; 20];
    let block = block_with_accounts(vec![plain_account(address, vec![vec![0x01, 0x02]])]);
    let result = create_state_content(&block);
    assert!(matches!(
        result,
        Err(StateError::AccountProof {
            account_index: 0,
            error: ProofError::UndecodableNode { node_index: 0 },
        })
    ));
}

#[test]
fn failed_proof_keeps_earlier_merged_records() {
    let good_address = [0xaau8; 20];
    let good_hash = keccak(&good_address);
    let good_proof = three_node_proof(&good_hash);
    let mut out = StateContent::new();
    let ctx = ProofContext::Account { block_hash: vec![1u8; 32] };
    decompose_trie_proof(&good_hash, &good_proof, &ctx, &mut out).unwrap();
    assert_eq!(out.records.len(), 3);

    let bad_address = [0xbbu8; 20];
    let bad_hash = keccak(&bad_address);
    let bad_proof = vec![full_branch_node(), leaf_node(&[0x0f, 0x0f], &[0x01])];
    let result = decompose_trie_proof(&bad_hash, &bad_proof, &ctx, &mut out);
    assert!(matches!(
        result,
        Err(ProofError::UnexpectedTraversal { node_index: 1 })
    ));
    // The three earlier records are untouched. The bad proof contributed
    // only its sound prefix before the fault was found, and its root —
    // identical to the good proof's root — deduplicated away.
    assert_eq!(out.records.len(), 4);
    for i in 0..3 {
        let StateContentKey::AccountTrieNode { node_hash, .. } = &out.records[i].0 else {
            panic!("expected an account trie node key");
        };
        assert_eq!(node_hash, &keccak(&good_proof[i]));
    }
}

#[test]
fn storage_proof_fault_reports_item_index() {
    let address = [0xccu8; 20];
    let storage = StorageItem {
        key: vec![2u8; 32],
        value: vec![0u8; 32],
        proof: vec![vec![0x01, 0x02]],
    };
    let mut account = plain_account(address, vec![full_branch_node()]);
    account.storage_proof = vec![storage];
    let block = block_with_accounts(vec![account]);
    let result = create_state_content(&block);
    assert!(matches!(
        result,
        Err(StateError::StorageProof {
            account_index: 0,
            storage_index: 0,
            error: ProofError::UndecodableNode { node_index: 0 },
        })
    ));
}

#[test]
fn oversized_compact_key_is_rejected_not_decoded() {
    // A two-item list whose first item is a 40-byte string with a leaf
    // flag: no trie path is that long, and the decoder's own capacity
    // check would abort on it, so the library screens it out as
    // undecodable before the decoder runs.
    let mut long_key = vec![0x20u8];
    long_key.extend(std::iter::repeat(0xab).take(39));
    let bad = rlp_list(&[rlp_bytes(&long_key), rlp_bytes(&[0x01])]);
    let block = block_with_accounts(vec![plain_account([0xddu8; 20], vec![bad])]);
    let result = create_state_content(&block);
    assert!(matches!(
        result,
        Err(StateError::AccountProof {
            account_index: 0,
            error: ProofError::UndecodableNode { node_index: 0 },
        })
    ));

    // The odd-flag variant of exactly 33 bytes claims 65 nibbles.
    let mut odd_key = vec![0x31u8];
    odd_key.extend(std::iter::repeat(0xab).take(32));
    let bad = rlp_list(&[rlp_bytes(&odd_key), rlp_bytes(&[0x01])]);
    let block = block_with_accounts(vec![plain_account([0xeeu8; 20], vec![bad])]);
    let result = create_state_content(&block);
    assert!(matches!(
        result,
        Err(StateError::AccountProof {
            account_index: 0,
            error: ProofError::UndecodableNode { node_index: 0 },
        })
    ));
}

#[test]
fn full_length_leaf_path_still_decodes() {
    // A single leaf consuming all 64 nibbles — a 33-byte even-flag
    // compact key, the longest well-formed one — decodes and terminates
    // the walk.
    let address = [0xffu8; 20];
    let address_hash = keccak(&address);
    let leaf = leaf_node(&nibbles_of(&address_hash), &[0x01]);
    let block = block_with_accounts(vec![plain_account(address, vec![leaf.clone()])]);
    let state = create_state_content(&block).unwrap();
    assert_eq!(state.records.len(), 1);
    let StateContentKey::AccountTrieNode { node_hash, path } = &state.records[0].0 else {
        panic!("expected an account trie node key");
    };
    assert_eq!(node_hash, &keccak(&leaf));
    assert!(path.is_empty());
}

#[test]
fn empty_extension_path_does_not_continue() {
    // An extension with an empty partial path would consume nothing; the
    // traversal refuses it, since a continuation must shorten the
    // remaining path.
    let root = full_branch_node();
    let idle_ext = extension_node(&[], &[7u8; 32]);
    let block =
        block_with_accounts(vec![plain_account([0x12u8; 20], vec![root, idle_ext])]);
    let result = create_state_content(&block);
    assert!(matches!(
        result,
        Err(StateError::AccountProof {
            account_index: 0,
            error: ProofError::UnexpectedTraversal { node_index: 1 },
        })
    ));
}

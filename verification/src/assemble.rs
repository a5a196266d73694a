//! The content assembler: drive the decomposer across a whole block
//! snapshot and produce the history record and the merged state record set.

use vstd::prelude::*;
use crate::nibbles::{byte_seqs_view, bytes_eq, clone_bytes, clone_byte_seqs};
use crate::hashing::{keccak_of, keccak};
use crate::content::{
    StateContentKey, StateContentValue, StateKeyShape, StateValueShape, StateRecordShape,
    StateContent, HistoryContentKey, HistoryContentValue, HistoryKeyShape, HistoryValueShape,
    merge_record, merge_records,
};
use crate::decompose::{
    ProofContext, ProofContextShape, ProofError, ProofErrorShape, decomposition_of,
    decompose_trie_proof,
};
use crate::types::{BlockData, BlockDataShape, AccountState, AccountStateShape, StorageItemShape};

verus! {

/// Why assembling a snapshot failed, with the account (and storage item)
/// it failed at.
#[derive(Debug)]
pub enum StateError {
    /// An account's own inclusion proof is structurally broken.
    AccountProof { account_index: usize, error: ProofError },
    /// A storage slot's inclusion proof is structurally broken.
    StorageProof { account_index: usize, storage_index: usize, error: ProofError },
    /// The account's bytecode does not hash to its declared code hash:
    /// the snapshot itself is corrupt.
    CodeHashMismatch { account_index: usize },
}

/// The shape of an assembly failure, for contracts.
#[verifier::ext_equal]
pub enum StateErrorShape {
    AccountProof { account_index: int, error: ProofErrorShape },
    StorageProof { account_index: int, storage_index: int, error: ProofErrorShape },
    CodeHashMismatch { account_index: int },
}

impl View for StateError {
    type V = StateErrorShape;

    open spec fn view(&self) -> StateErrorShape {
        match self {
            StateError::AccountProof { account_index, error } => StateErrorShape::AccountProof {
                account_index: *account_index as int,
                error: error@,
            },
            StateError::StorageProof { account_index, storage_index, error } => (
            StateErrorShape::StorageProof {
                account_index: *account_index as int,
                storage_index: *storage_index as int,
                error: error@,
            }),
            StateError::CodeHashMismatch { account_index } => StateErrorShape::CodeHashMismatch {
                account_index: *account_index as int,
            },
        }
    }
}

/// What assembling part of a snapshot yields: the record set so far and
/// the failure that stopped it, if one did.
#[verifier::ext_equal]
pub ghost struct AssemblyShape {
    pub records: Seq<StateRecordShape>,
    pub error: Option<StateErrorShape>,
}

/// The bytecode record of an account, keyed by hashed address and code hash.
pub open spec fn bytecode_record_shape(
    address_hash: Seq<u8>,
    code: Seq<u8>,
    code_hash: Seq<u8>,
    account_proof: Seq<Seq<u8>>,
    block_hash: Seq<u8>,
) -> StateRecordShape {
    StateRecordShape {
        key: StateKeyShape::ContractBytecode { address_hash, code_hash },
        value: StateValueShape::ContractBytecodeWithProof { code, account_proof, block_hash },
    }
}

/// Merge the records of one account's storage items from item `j` on.
/// Each item's trie is walked for the hashed slot key; the first
/// structural fault stops the whole assembly.
pub open spec fn merge_storage_items(
    recs: Seq<StateRecordShape>,
    items: Seq<StorageItemShape>,
    j: int,
    account_index: int,
    address_hash: Seq<u8>,
    account_proof: Seq<Seq<u8>>,
    block_hash: Seq<u8>,
) -> AssemblyShape
    decreases items.len() - j,
{
    if j < 0 || j >= items.len() {
        AssemblyShape { records: recs, error: None }
    } else {
        let d = decomposition_of(
            ProofContextShape::Storage { address_hash, account_proof, block_hash },
            keccak_of(items[j].key),
            items[j].proof,
        );
        let merged = merge_records(recs, d.records);
        match d.error {
            Some(e) => AssemblyShape {
                records: merged,
                error: Some(
                    StateErrorShape::StorageProof {
                        account_index,
                        storage_index: j,
                        error: e,
                    },
                ),
            },
            None => merge_storage_items(
                merged,
                items,
                j + 1,
                account_index,
                address_hash,
                account_proof,
                block_hash,
            ),
        }
    }
}

/// Merge one account's records: its account-trie proof records, then —
/// once the declared code hash is checked against the bytecode — its
/// bytecode record, then its storage records.
pub open spec fn assemble_account(
    recs: Seq<StateRecordShape>,
    acc: AccountStateShape,
    account_index: int,
    block_hash: Seq<u8>,
) -> AssemblyShape {
    let address_hash = keccak_of(acc.address);
    let d = decomposition_of(
        ProofContextShape::Account { block_hash },
        address_hash,
        acc.account_proof,
    );
    let merged = merge_records(recs, d.records);
    match d.error {
        Some(e) => AssemblyShape {
            records: merged,
            error: Some(StateErrorShape::AccountProof { account_index, error: e }),
        },
        None => match acc.code {
            Some(code) => if keccak_of(code) != acc.code_hash {
                AssemblyShape {
                    records: merged,
                    error: Some(StateErrorShape::CodeHashMismatch { account_index }),
                }
            } else {
                merge_storage_items(
                    merge_record(
                        merged,
                        bytecode_record_shape(
                            address_hash,
                            code,
                            acc.code_hash,
                            acc.account_proof,
                            block_hash,
                        ),
                    ),
                    acc.storage_proof,
                    0,
                    account_index,
                    address_hash,
                    acc.account_proof,
                    block_hash,
                )
            },
            None => merge_storage_items(
                merged,
                acc.storage_proof,
                0,
                account_index,
                address_hash,
                acc.account_proof,
                block_hash,
            ),
        },
    }
}

/// Merge the records of the accounts from index `i` on, in order.
pub open spec fn assemble_state(
    accounts: Seq<AccountStateShape>,
    i: int,
    recs: Seq<StateRecordShape>,
    block_hash: Seq<u8>,
) -> AssemblyShape
    decreases accounts.len() - i,
{
    if i < 0 || i >= accounts.len() {
        AssemblyShape { records: recs, error: None }
    } else {
        let a = assemble_account(recs, accounts[i], i, block_hash);
        match a.error {
            Some(e) => a,
            None => assemble_state(accounts, i + 1, a.records, block_hash),
        }
    }
}

/// The state content of a whole snapshot: every account processed in
/// order into one shared record set, first writer wins.
pub open spec fn state_content_of(b: BlockDataShape) -> AssemblyShape {
    assemble_state(b.state, 0, Seq::empty(), keccak_of(b.header))
}

/// The state of an account's assembly after its own proof, code check and
/// storage items up to `j`, continued over the remaining accounts.
pub open spec fn assemble_from_storage(b: BlockDataShape, i: int, j: int, recs: Seq<
    StateRecordShape,
>) -> AssemblyShape {
    let a = merge_storage_items(
        recs,
        b.state[i].storage_proof,
        j,
        i,
        keccak_of(b.state[i].address),
        b.state[i].account_proof,
        keccak_of(b.header),
    );
    match a.error {
        Some(e) => a,
        None => assemble_state(b.state, i + 1, a.records, keccak_of(b.header)),
    }
}

/// The one history record: the header with its accumulator proof, keyed
/// by the block hash. No decomposition takes place.
pub fn create_history_content(block_data: &BlockData) -> (r: (
    HistoryContentKey,
    HistoryContentValue,
))
    requires
        block_data@.wf(),
    ensures
        r.0@ == (HistoryKeyShape::BlockHeaderWithProof {
            block_hash: keccak_of(block_data@.header),
        }),
        r.1@ == (HistoryValueShape::BlockHeaderWithProof {
            header: block_data@.header,
            accumulator_proof: block_data@.header_accumulator_proof,
        }),
{
    let block_hash = keccak(&block_data.header);
    let key = HistoryContentKey::BlockHeaderWithProof { block_hash };
    let value = HistoryContentValue::BlockHeaderWithProof {
        header: clone_bytes(&block_data.header),
        accumulator_proof: clone_byte_seqs(&block_data.header_accumulator_proof),
    };
    (key, value)
}

/// Decompose a whole snapshot into its state record set.
///
/// Accounts are processed in order; a structural fault in any proof, or a
/// bytecode hash that belies its declared code hash, fails the whole
/// assembly and no record set is handed out.
pub fn create_state_content(block_data: &BlockData) -> (r: Result<StateContent, StateError>)
    requires
        block_data@.wf(),
    ensures
        match r {
            Ok(s) => s.wf() && state_content_of(block_data@).error is None && s@
                == state_content_of(block_data@).records,
            Err(e) => state_content_of(block_data@).error == Some(e@),
        },
{
    let ghost b = block_data@;
    let ghost bh = keccak_of(b.header);
    let block_hash = keccak(&block_data.header);
    let mut result = StateContent::new();
    let mut i: usize = 0;
    assert(b.state =~= block_data.state@.map_values(|a: AccountState| a@));
    while i < block_data.state.len()
        invariant
            result.wf(),
            b == block_data@,
            bh == keccak_of(b.header),
            block_hash@ == bh,
            i <= block_data.state@.len(),
            b.state.len() == block_data.state@.len(),
            state_content_of(b) == assemble_state(b.state, i as int, result@, bh),
        decreases block_data.state@.len() - i,
    {
        let acc = &block_data.state[i];
        assert(acc@ == b.state[i as int]);
        let address_hash = keccak(&acc.address);
        let ctx = ProofContext::Account { block_hash: clone_bytes(&block_hash) };
        match decompose_trie_proof(&address_hash, &acc.account_proof, &ctx, &mut result) {
            Ok(()) => {},
            Err(e) => {
                return Err(StateError::AccountProof { account_index: i, error: e });
            },
        }
        match &acc.code {
            Some(code) => {
                let computed = keccak(code);
                if !bytes_eq(&computed, &acc.code_hash) {
                    return Err(StateError::CodeHashMismatch { account_index: i });
                }
                let key = StateContentKey::ContractBytecode {
                    address_hash: clone_bytes(&address_hash),
                    code_hash: clone_bytes(&acc.code_hash),
                };
                let value = StateContentValue::ContractBytecodeWithProof {
                    code: clone_bytes(code),
                    account_proof: clone_byte_seqs(&acc.account_proof),
                    block_hash: clone_bytes(&block_hash),
                };
                assert(key@ == bytecode_record_shape(
                    keccak_of(b.state[i as int].address),
                    b.state[i as int].code->0,
                    b.state[i as int].code_hash,
                    b.state[i as int].account_proof,
                    bh,
                ).key);
                result.insert_if_absent(key, value);
            },
            None => {},
        }
        assert(state_content_of(b) == assemble_from_storage(b, i as int, 0, result@));
        let mut j: usize = 0;
        while j < acc.storage_proof.len()
            invariant
                result.wf(),
                b == block_data@,
                bh == keccak_of(b.header),
                block_hash@ == bh,
                i < b.state.len(),
                b.state.len() == block_data.state@.len(),
                acc == &block_data.state@[i as int],
                acc@ == b.state[i as int],
                address_hash@ == keccak_of(b.state[i as int].address),
                j <= acc.storage_proof@.len(),
                acc.storage_proof@.len() == b.state[i as int].storage_proof.len(),
                state_content_of(b) == assemble_from_storage(b, i as int, j as int, result@),
            decreases acc.storage_proof@.len() - j,
        {
            let item = &acc.storage_proof[j];
            assert(item@ == b.state[i as int].storage_proof[j as int]);
            let target = keccak(&item.key);
            let sctx = ProofContext::Storage {
                address_hash: clone_bytes(&address_hash),
                account_proof: clone_byte_seqs(&acc.account_proof),
                block_hash: clone_bytes(&block_hash),
            };
            match decompose_trie_proof(&target, &item.proof, &sctx, &mut result) {
                Ok(()) => {},
                Err(e) => {
                    return Err(
                        StateError::StorageProof {
                            account_index: i,
                            storage_index: j,
                            error: e,
                        },
                    );
                },
            }
            j = j + 1;
        }
        i = i + 1;
    }
    Ok(result)
}

} // verus!

//! The block snapshot model: one block's header material and the flat
//! list of account states with their trie proofs, held as plain values.

use vstd::prelude::*;
use crate::nibbles::byte_seqs_view;

verus! {

/// The run configuration: which block to decompose and which client
/// endpoint receives the records.
pub struct Args {
    pub block: u64,
    pub trin_client: String,
}

/// One storage slot with its inclusion proof in the contract's storage trie.
pub struct StorageItem {
    /// The 32-byte big-endian slot key.
    pub key: Vec<u8>,
    /// The 32-byte big-endian slot value.
    pub value: Vec<u8>,
    /// Raw trie nodes, storage-trie root first.
    pub proof: Vec<Vec<u8>>,
}

/// The shape of a storage item, for contracts.
#[verifier::ext_equal]
pub ghost struct StorageItemShape {
    pub key: Seq<u8>,
    pub value: Seq<u8>,
    pub proof: Seq<Seq<u8>>,
}

impl StorageItemShape {
    /// The slot key and value are 256-bit: 32 bytes each, big-endian.
    pub open spec fn wf(&self) -> bool {
        self.key.len() == 32 && self.value.len() == 32
    }
}

impl View for StorageItem {
    type V = StorageItemShape;

    open spec fn view(&self) -> StorageItemShape {
        StorageItemShape {
            key: self.key@,
            value: self.value@,
            proof: byte_seqs_view(self.proof@),
        }
    }
}

/// One account's state in the snapshot, with its inclusion proof in the
/// account trie, its optional bytecode and its storage slots.
pub struct AccountState {
    /// The 20-byte account address.
    pub address: Vec<u8>,
    /// Raw trie nodes, account-trie root first.
    pub account_proof: Vec<Vec<u8>>,
    /// The 32-byte big-endian account balance.
    pub balance: Vec<u8>,
    /// The declared 32-byte hash of the account's bytecode.
    pub code_hash: Vec<u8>,
    /// The raw bytecode, when the account carries one.
    pub code: Option<Vec<u8>>,
    pub nonce: u64,
    /// The 32-byte root hash of the account's storage trie.
    pub storage_hash: Vec<u8>,
    pub storage_proof: Vec<StorageItem>,
}

/// The shape of an account state, for contracts.
#[verifier::ext_equal]
pub ghost struct AccountStateShape {
    pub address: Seq<u8>,
    pub account_proof: Seq<Seq<u8>>,
    pub balance: Seq<u8>,
    pub code_hash: Seq<u8>,
    pub code: Option<Seq<u8>>,
    pub nonce: u64,
    pub storage_hash: Seq<u8>,
    pub storage_proof: Seq<StorageItemShape>,
}

impl AccountStateShape {
    /// A 20-byte address, 32-byte hashes and balance, well-formed slots.
    pub open spec fn wf(&self) -> bool {
        &&& self.address.len() == 20
        &&& self.balance.len() == 32
        &&& self.code_hash.len() == 32
        &&& self.storage_hash.len() == 32
        &&& forall|i: int| 0 <= i < self.storage_proof.len() ==> self.storage_proof[i].wf()
    }
}

impl View for AccountState {
    type V = AccountStateShape;

    open spec fn view(&self) -> AccountStateShape {
        AccountStateShape {
            address: self.address@,
            account_proof: byte_seqs_view(self.account_proof@),
            balance: self.balance@,
            code_hash: self.code_hash@,
            code: match self.code {
                Some(c) => Some(c@),
                None => None,
            },
            nonce: self.nonce,
            storage_hash: self.storage_hash@,
            storage_proof: self.storage_proof@.map_values(|s: StorageItem| s@),
        }
    }
}

/// One block's snapshot: the raw encoded header, the pass-through
/// accumulator proof, and the account states.
pub struct BlockData {
    /// The raw encoded header; its digest is the block hash.
    pub header: Vec<u8>,
    /// Fifteen 32-byte digests, passed through verbatim.
    pub header_accumulator_proof: Vec<Vec<u8>>,
    pub state: Vec<AccountState>,
}

/// The shape of a block snapshot, for contracts.
#[verifier::ext_equal]
pub ghost struct BlockDataShape {
    pub header: Seq<u8>,
    pub header_accumulator_proof: Seq<Seq<u8>>,
    pub state: Seq<AccountStateShape>,
}

impl BlockDataShape {
    /// A fixed-size accumulator proof — exactly fifteen 32-byte digests —
    /// and well-formed account states.
    pub open spec fn wf(&self) -> bool {
        &&& self.header_accumulator_proof.len() == 15
        &&& forall|i: int|
            0 <= i < self.header_accumulator_proof.len()
                ==> self.header_accumulator_proof[i].len() == 32
        &&& forall|i: int| 0 <= i < self.state.len() ==> self.state[i].wf()
    }
}

impl View for BlockData {
    type V = BlockDataShape;

    open spec fn view(&self) -> BlockDataShape {
        BlockDataShape {
            header: self.header@,
            header_accumulator_proof: byte_seqs_view(self.header_accumulator_proof@),
            state: self.state@.map_values(|a: AccountState| a@),
        }
    }
}

} // verus!

//! The library's stated laws: determinism of decomposition, completeness
//! over the input proofs, minimality of proof slices, and prefix sharing
//! under the first-writer-wins merge.

use vstd::prelude::*;
use crate::hashing::keccak_of;
use crate::content::{
    StateKeyShape, StateValueShape, StateRecordShape, has_key, distinct_keys, value_for, key_index,
    merge_record, merge_records, lemma_merge_record_keys, lemma_merge_records_keys,
    lemma_merge_records_wf, lemma_merge_records_first_wins,
};
use crate::decompose::{ProofContextShape, decompose_from, decomposition_of, record_shape_at};
use crate::trie::TraversalStepShape;
use crate::types::BlockDataShape;
use crate::assemble::{merge_storage_items, assemble_account, assemble_state, state_content_of};

verus! {

/// The node hash a record's key carries (trie-node records only).
pub open spec fn key_node_hash(k: StateKeyShape) -> Seq<u8> {
    match k {
        StateKeyShape::AccountTrieNode { node_hash, .. } => node_hash,
        StateKeyShape::ContractStorageTrieNode { node_hash, .. } => node_hash,
        StateKeyShape::ContractBytecode { code_hash, .. } => code_hash,
    }
}

/// The proof slice a record's value carries (trie-node records only).
pub open spec fn value_slice(v: StateValueShape) -> Seq<Seq<u8>> {
    match v {
        StateValueShape::AccountTrieNodeWithProof { proof, .. } => proof,
        StateValueShape::ContractStorageTrieNodeWithProof { storage_proof, .. } => storage_proof,
        StateValueShape::ContractBytecodeWithProof { .. } => Seq::empty(),
    }
}

/// Determinism: what the decomposition yields — the history record's
/// parts and the whole state record set — is a function of the snapshot's
/// contents alone, so two runs over equal snapshots are byte-identical.
pub proof fn lemma_decomposition_deterministic(a: BlockDataShape, b: BlockDataShape)
    requires
        a == b,
    ensures
        state_content_of(a) == state_content_of(b),
        keccak_of(a.header) == keccak_of(b.header),
{
}

/// The record at offset `k` of a decomposition's output run.
pub open spec fn nth_record(
    ctx: ProofContextShape,
    full: Seq<u8>,
    proof: Seq<Seq<u8>>,
    i: int,
    remaining: Seq<u8>,
    k: int,
) -> StateRecordShape {
    decompose_from(ctx, full, proof, i, remaining).records[k]
}

/// Completeness and minimality of one proof's decomposition: a walk that
/// found no fault emits exactly one record per proof node, in proof
/// order; the record of the node at index `k` carries that node's hash in
/// its key, and its value's proof slice is exactly the nodes up to and
/// including `k` — length `k + 1`.
pub proof fn lemma_decompose_from_complete(
    ctx: ProofContextShape,
    full: Seq<u8>,
    proof: Seq<Seq<u8>>,
    i: int,
    remaining: Seq<u8>,
)
    requires
        0 <= i <= proof.len(),
        decompose_from(ctx, full, proof, i, remaining).error is None,
    ensures
        decompose_from(ctx, full, proof, i, remaining).records.len() == proof.len() - i,
        forall|k: int|
            0 <= k < proof.len() - i ==> key_node_hash(
                #[trigger] nth_record(ctx, full, proof, i, remaining, k).key,
            ) == keccak_of(proof[i + k]) && value_slice(
                nth_record(ctx, full, proof, i, remaining, k).value,
            ) == proof.take(i + k + 1) && value_slice(
                nth_record(ctx, full, proof, i, remaining, k).value,
            ).len() == i + k + 1,
    decreases proof.len() - i,
{
    let out = decompose_from(ctx, full, proof, i, remaining);
    if i < proof.len() {
        let rec = record_shape_at(ctx, full, proof, i, remaining);
        assert(key_node_hash(rec.key) == keccak_of(proof[i]));
        assert(value_slice(rec.value) == proof.take(i + 1));
        match crate::trie::node_model_of(proof[i]) {
            None => {},
            Some(node) => {
                match crate::trie::traverse_spec(node, remaining) {
                    TraversalStepShape::Continue { remaining: next } => {
                        lemma_decompose_from_complete(ctx, full, proof, i + 1, next);
                        let rest = decompose_from(ctx, full, proof, i + 1, next);
                        assert(out.records == seq![rec] + rest.records);
                        assert(nth_record(ctx, full, proof, i, remaining, 0) == rec);
                        assert(forall|k: int|
                            1 <= k < out.records.len() ==> #[trigger] nth_record(
                                ctx,
                                full,
                                proof,
                                i,
                                remaining,
                                k,
                            ) == nth_record(ctx, full, proof, i + 1, next, k - 1));
                    },
                    TraversalStepShape::ValueReached => {
                        lemma_decompose_from_complete(ctx, full, proof, i + 1, Seq::empty());
                        let rest = decompose_from(ctx, full, proof, i + 1, Seq::empty());
                        assert(out.records == seq![rec] + rest.records);
                        assert(nth_record(ctx, full, proof, i, remaining, 0) == rec);
                        assert(forall|k: int|
                            1 <= k < out.records.len() ==> #[trigger] nth_record(
                                ctx,
                                full,
                                proof,
                                i,
                                remaining,
                                k,
                            ) == nth_record(ctx, full, proof, i + 1, Seq::empty(), k - 1));
                    },
                    TraversalStepShape::Mismatch => {},
                }
            },
        }
    }
}

/// The decomposition of one storage item's proof, as merged for account
/// `account_index`.
pub open spec fn storage_decomposition(
    items: Seq<crate::types::StorageItemShape>,
    sj: int,
    address_hash: Seq<u8>,
    account_proof: Seq<Seq<u8>>,
    block_hash: Seq<u8>,
) -> crate::decompose::DecompositionShape {
    decomposition_of(
        ProofContextShape::Storage { address_hash, account_proof, block_hash },
        keccak_of(items[sj].key),
        items[sj].proof,
    )
}

/// The decomposition of one account's own inclusion proof.
pub open spec fn account_decomposition(
    accounts: Seq<crate::types::AccountStateShape>,
    ai: int,
    block_hash: Seq<u8>,
) -> crate::decompose::DecompositionShape {
    decomposition_of(
        ProofContextShape::Account { block_hash },
        keccak_of(accounts[ai].address),
        accounts[ai].account_proof,
    )
}

/// Every key held stays held across a storage-item merge.
pub proof fn lemma_merge_storage_items_monotone(
    recs: Seq<StateRecordShape>,
    items: Seq<crate::types::StorageItemShape>,
    j: int,
    account_index: int,
    address_hash: Seq<u8>,
    account_proof: Seq<Seq<u8>>,
    block_hash: Seq<u8>,
    k: StateKeyShape,
)
    requires
        has_key(recs, k),
    ensures
        has_key(
            merge_storage_items(
                recs,
                items,
                j,
                account_index,
                address_hash,
                account_proof,
                block_hash,
            ).records,
            k,
        ),
    decreases items.len() - j,
{
    if 0 <= j < items.len() {
        let d = decomposition_of(
            ProofContextShape::Storage { address_hash, account_proof, block_hash },
            keccak_of(items[j].key),
            items[j].proof,
        );
        lemma_merge_records_keys(recs, d.records, k);
        if d.error is None {
            lemma_merge_storage_items_monotone(
                merge_records(recs, d.records),
                items,
                j + 1,
                account_index,
                address_hash,
                account_proof,
                block_hash,
                k,
            );
        }
    }
}

/// Every key held stays held across one account's merge.
pub proof fn lemma_assemble_account_monotone(
    recs: Seq<StateRecordShape>,
    acc: crate::types::AccountStateShape,
    account_index: int,
    block_hash: Seq<u8>,
    k: StateKeyShape,
)
    requires
        has_key(recs, k),
    ensures
        has_key(assemble_account(recs, acc, account_index, block_hash).records, k),
{
    let address_hash = keccak_of(acc.address);
    let d = decomposition_of(
        ProofContextShape::Account { block_hash },
        address_hash,
        acc.account_proof,
    );
    lemma_merge_records_keys(recs, d.records, k);
    let merged = merge_records(recs, d.records);
    if d.error is None {
        match acc.code {
            Some(code) => {
                if keccak_of(code) == acc.code_hash {
                    let rec = crate::assemble::bytecode_record_shape(
                        address_hash,
                        code,
                        acc.code_hash,
                        acc.account_proof,
                        block_hash,
                    );
                    lemma_merge_record_keys(merged, rec, k);
                    lemma_merge_storage_items_monotone(
                        merge_record(merged, rec),
                        acc.storage_proof,
                        0,
                        account_index,
                        address_hash,
                        acc.account_proof,
                        block_hash,
                        k,
                    );
                }
            },
            None => {
                lemma_merge_storage_items_monotone(
                    merged,
                    acc.storage_proof,
                    0,
                    account_index,
                    address_hash,
                    acc.account_proof,
                    block_hash,
                    k,
                );
            },
        }
    }
}

/// Every key held stays held across the remaining accounts' merges.
pub proof fn lemma_assemble_state_monotone(
    accounts: Seq<crate::types::AccountStateShape>,
    i: int,
    recs: Seq<StateRecordShape>,
    block_hash: Seq<u8>,
    k: StateKeyShape,
)
    requires
        has_key(recs, k),
    ensures
        has_key(assemble_state(accounts, i, recs, block_hash).records, k),
    decreases accounts.len() - i,
{
    if 0 <= i < accounts.len() {
        let a = assemble_account(recs, accounts[i], i, block_hash);
        lemma_assemble_account_monotone(recs, accounts[i], i, block_hash, k);
        if a.error is None {
            lemma_assemble_state_monotone(accounts, i + 1, a.records, block_hash, k);
        }
    }
}

/// A storage-item merge keeps the set free of doubled keys.
pub proof fn lemma_merge_storage_items_wf(
    recs: Seq<StateRecordShape>,
    items: Seq<crate::types::StorageItemShape>,
    j: int,
    account_index: int,
    address_hash: Seq<u8>,
    account_proof: Seq<Seq<u8>>,
    block_hash: Seq<u8>,
)
    requires
        distinct_keys(recs),
    ensures
        distinct_keys(
            merge_storage_items(
                recs,
                items,
                j,
                account_index,
                address_hash,
                account_proof,
                block_hash,
            ).records,
        ),
    decreases items.len() - j,
{
    if 0 <= j < items.len() {
        let d = storage_decomposition(items, j, address_hash, account_proof, block_hash);
        lemma_merge_records_wf(recs, d.records);
        if d.error is None {
            lemma_merge_storage_items_wf(
                merge_records(recs, d.records),
                items,
                j + 1,
                account_index,
                address_hash,
                account_proof,
                block_hash,
            );
        }
    }
}

/// One account's merge keeps the set free of doubled keys.
pub proof fn lemma_assemble_account_wf(
    recs: Seq<StateRecordShape>,
    acc: crate::types::AccountStateShape,
    account_index: int,
    block_hash: Seq<u8>,
)
    requires
        distinct_keys(recs),
    ensures
        distinct_keys(assemble_account(recs, acc, account_index, block_hash).records),
{
    let address_hash = keccak_of(acc.address);
    let d = decomposition_of(
        ProofContextShape::Account { block_hash },
        address_hash,
        acc.account_proof,
    );
    lemma_merge_records_wf(recs, d.records);
    let merged = merge_records(recs, d.records);
    if d.error is None {
        match acc.code {
            Some(code) => {
                if keccak_of(code) == acc.code_hash {
                    let rec = crate::assemble::bytecode_record_shape(
                        address_hash,
                        code,
                        acc.code_hash,
                        acc.account_proof,
                        block_hash,
                    );
                    assert(distinct_keys(merge_record(merged, rec)));
                    lemma_merge_storage_items_wf(
                        merge_record(merged, rec),
                        acc.storage_proof,
                        0,
                        account_index,
                        address_hash,
                        acc.account_proof,
                        block_hash,
                    );
                }
            },
            None => {
                lemma_merge_storage_items_wf(
                    merged,
                    acc.storage_proof,
                    0,
                    account_index,
                    address_hash,
                    acc.account_proof,
                    block_hash,
                );
            },
        }
    }
}

/// The whole assembly keeps the set free of doubled keys: every key of
/// the output backs exactly one record.
pub proof fn lemma_assemble_state_wf(
    accounts: Seq<crate::types::AccountStateShape>,
    i: int,
    recs: Seq<StateRecordShape>,
    block_hash: Seq<u8>,
)
    requires
        distinct_keys(recs),
    ensures
        distinct_keys(assemble_state(accounts, i, recs, block_hash).records),
    decreases accounts.len() - i,
{
    if 0 <= i < accounts.len() {
        lemma_assemble_account_wf(recs, accounts[i], i, block_hash);
        let a = assemble_account(recs, accounts[i], i, block_hash);
        if a.error is None {
            lemma_assemble_state_wf(accounts, i + 1, a.records, block_hash);
        }
    }
}

/// A key already held keeps its value across a storage-item merge.
pub proof fn lemma_merge_storage_items_value(
    recs: Seq<StateRecordShape>,
    items: Seq<crate::types::StorageItemShape>,
    j: int,
    account_index: int,
    address_hash: Seq<u8>,
    account_proof: Seq<Seq<u8>>,
    block_hash: Seq<u8>,
    k: StateKeyShape,
)
    requires
        distinct_keys(recs),
        has_key(recs, k),
    ensures
        value_for(
            merge_storage_items(
                recs,
                items,
                j,
                account_index,
                address_hash,
                account_proof,
                block_hash,
            ).records,
            k,
        ) == value_for(recs, k),
    decreases items.len() - j,
{
    if 0 <= j < items.len() {
        let d = storage_decomposition(items, j, address_hash, account_proof, block_hash);
        lemma_merge_records_first_wins(recs, d.records, k);
        lemma_merge_records_wf(recs, d.records);
        lemma_merge_records_keys(recs, d.records, k);
        if d.error is None {
            lemma_merge_storage_items_value(
                merge_records(recs, d.records),
                items,
                j + 1,
                account_index,
                address_hash,
                account_proof,
                block_hash,
                k,
            );
        }
    }
}

/// A key held once the account's own proof is merged keeps its value
/// through the account's bytecode and storage merges.
pub proof fn lemma_assemble_account_value(
    recs: Seq<StateRecordShape>,
    acc: crate::types::AccountStateShape,
    account_index: int,
    block_hash: Seq<u8>,
    k: StateKeyShape,
)
    requires
        distinct_keys(recs),
        has_key(
            merge_records(
                recs,
                decomposition_of(
                    ProofContextShape::Account { block_hash },
                    keccak_of(acc.address),
                    acc.account_proof,
                ).records,
            ),
            k,
        ),
    ensures
        ({
            let d = decomposition_of(
                ProofContextShape::Account { block_hash },
                keccak_of(acc.address),
                acc.account_proof,
            );
            d.error is None ==> value_for(
                assemble_account(recs, acc, account_index, block_hash).records,
                k,
            ) == value_for(merge_records(recs, d.records), k)
        }),
{
    let address_hash = keccak_of(acc.address);
    let d = decomposition_of(
        ProofContextShape::Account { block_hash },
        address_hash,
        acc.account_proof,
    );
    lemma_merge_records_wf(recs, d.records);
    let merged = merge_records(recs, d.records);
    if d.error is None {
        match acc.code {
            Some(code) => {
                if keccak_of(code) == acc.code_hash {
                    let rec = crate::assemble::bytecode_record_shape(
                        address_hash,
                        code,
                        acc.code_hash,
                        acc.account_proof,
                        block_hash,
                    );
                    lemma_merge_records_first_wins(merged, seq![rec], k);
                    let one = seq![rec];
                    assert(one[0] == rec);
                    assert(one.drop_first() =~= Seq::<StateRecordShape>::empty());
                    assert(merge_records(merge_record(merged, rec), one.drop_first())
                        == merge_record(merged, rec));
                    assert(merge_records(merged, one) == merge_record(merged, rec));
                    assert(distinct_keys(merge_record(merged, rec)));
                    lemma_merge_record_keys(merged, rec, k);
                    lemma_merge_storage_items_value(
                        merge_record(merged, rec),
                        acc.storage_proof,
                        0,
                        account_index,
                        address_hash,
                        acc.account_proof,
                        block_hash,
                        k,
                    );
                }
            },
            None => {
                lemma_merge_storage_items_value(
                    merged,
                    acc.storage_proof,
                    0,
                    account_index,
                    address_hash,
                    acc.account_proof,
                    block_hash,
                    k,
                );
            },
        }
    }
}

/// A key already held keeps its value across the remaining accounts.
pub proof fn lemma_assemble_state_value(
    accounts: Seq<crate::types::AccountStateShape>,
    i: int,
    recs: Seq<StateRecordShape>,
    block_hash: Seq<u8>,
    k: StateKeyShape,
)
    requires
        distinct_keys(recs),
        has_key(recs, k),
    ensures
        value_for(assemble_state(accounts, i, recs, block_hash).records, k) == value_for(recs, k),
    decreases accounts.len() - i,
{
    if 0 <= i < accounts.len() {
        let d = decomposition_of(
            ProofContextShape::Account { block_hash },
            keccak_of(accounts[i].address),
            accounts[i].account_proof,
        );
        lemma_merge_records_keys(recs, d.records, k);
        lemma_merge_records_first_wins(recs, d.records, k);
        lemma_assemble_account_value(recs, accounts[i], i, block_hash, k);
        lemma_assemble_account_wf(recs, accounts[i], i, block_hash);
        lemma_assemble_account_monotone(recs, accounts[i], i, block_hash, k);
        let a = assemble_account(recs, accounts[i], i, block_hash);
        if a.error is None {
            lemma_assemble_state_value(accounts, i + 1, a.records, block_hash, k);
        }
    }
}

/// The first writer of a key sets its value.
pub proof fn lemma_merge_records_first_value(
    s: Seq<StateRecordShape>,
    recs: Seq<StateRecordShape>,
    k: StateKeyShape,
)
    requires
        distinct_keys(s),
        !has_key(s, k),
        recs.len() > 0,
        recs[0].key == k,
    ensures
        has_key(merge_records(s, recs), k),
        value_for(merge_records(s, recs), k) == recs[0].value,
{
    let s2 = merge_record(s, recs[0]);
    assert(s2 == s.push(recs[0]));
    assert(s2[s.len() as int].key == k);
    assert(distinct_keys(s2));
    let i = key_index(s2, k);
    assert(0 <= i < s2.len() && s2[i].key == k);
    if i != s.len() {
        assert(s[i].key == k);
        assert(false);
    }
    assert(value_for(s2, k) == recs[0].value);
    lemma_merge_records_first_wins(s2, recs.drop_first(), k);
    lemma_merge_records_keys(s2, recs.drop_first(), k);
    assert(merge_records(s, recs) == merge_records(s2, recs.drop_first()));
}

/// Completeness of one account's merge: its own proof decomposed without
/// fault, and each of its records' keys is held in the account's result.
pub proof fn lemma_assemble_account_complete(
    recs: Seq<StateRecordShape>,
    accounts: Seq<crate::types::AccountStateShape>,
    ai: int,
    block_hash: Seq<u8>,
)
    requires
        0 <= ai < accounts.len(),
        assemble_account(recs, accounts[ai], ai, block_hash).error is None,
    ensures
        account_decomposition(accounts, ai, block_hash).error is None,
        forall|ni: int|
            0 <= ni < account_decomposition(accounts, ai, block_hash).records.len() ==> has_key(
                assemble_account(recs, accounts[ai], ai, block_hash).records,
                #[trigger] account_decomposition(accounts, ai, block_hash).records[ni].key,
            ),
{
    let acc = accounts[ai];
    let address_hash = keccak_of(acc.address);
    let d = account_decomposition(accounts, ai, block_hash);
    assert(d == decomposition_of(
        ProofContextShape::Account { block_hash },
        address_hash,
        acc.account_proof,
    ));
    let merged = merge_records(recs, d.records);
    assert forall|ni: int| 0 <= ni < d.records.len() implies has_key(
        assemble_account(recs, accounts[ai], ai, block_hash).records,
        #[trigger] d.records[ni].key,
    ) by {
        let k = d.records[ni].key;
        lemma_merge_records_keys(recs, d.records, k);
        match acc.code {
            Some(code) => {
                if keccak_of(code) == acc.code_hash {
                    let rec = crate::assemble::bytecode_record_shape(
                        address_hash,
                        code,
                        acc.code_hash,
                        acc.account_proof,
                        block_hash,
                    );
                    lemma_merge_record_keys(merged, rec, k);
                    lemma_merge_storage_items_monotone(
                        merge_record(merged, rec),
                        acc.storage_proof,
                        0,
                        ai,
                        address_hash,
                        acc.account_proof,
                        block_hash,
                        k,
                    );
                }
            },
            None => {
                lemma_merge_storage_items_monotone(
                    merged,
                    acc.storage_proof,
                    0,
                    ai,
                    address_hash,
                    acc.account_proof,
                    block_hash,
                    k,
                );
            },
        }
    }
}

/// Completeness over a snapshot's account proofs: after an assembly that
/// reported no fault, every account's proof decomposed without fault and
/// each of its per-node record keys is held in the final set — with
/// `distinct_keys`, by exactly one record.
pub proof fn lemma_assemble_state_complete(
    accounts: Seq<crate::types::AccountStateShape>,
    i: int,
    recs: Seq<StateRecordShape>,
    block_hash: Seq<u8>,
)
    requires
        0 <= i,
        assemble_state(accounts, i, recs, block_hash).error is None,
    ensures
        forall|ai: int|
            i <= ai < accounts.len() ==> (#[trigger] account_decomposition(
                accounts,
                ai,
                block_hash,
            )).error is None,
        forall|ai: int, ni: int|
            i <= ai < accounts.len() && 0 <= ni < account_decomposition(
                accounts,
                ai,
                block_hash,
            ).records.len() ==> has_key(
                assemble_state(accounts, i, recs, block_hash).records,
                #[trigger] account_decomposition(accounts, ai, block_hash).records[ni].key,
            ),
    decreases accounts.len() - i,
{
    if 0 <= i < accounts.len() {
        let a = assemble_account(recs, accounts[i], i, block_hash);
        assert(a.error is None);
        assert(assemble_state(accounts, i, recs, block_hash) == assemble_state(
            accounts,
            i + 1,
            a.records,
            block_hash,
        ));
        lemma_assemble_account_complete(recs, accounts, i, block_hash);
        lemma_assemble_state_complete(accounts, i + 1, a.records, block_hash);
        let d = account_decomposition(accounts, i, block_hash);
        assert forall|ni: int| 0 <= ni < d.records.len() implies has_key(
            assemble_state(accounts, i, recs, block_hash).records,
            #[trigger] d.records[ni].key,
        ) by {
            lemma_assemble_state_monotone(
                accounts,
                i + 1,
                a.records,
                block_hash,
                d.records[ni].key,
            );
        }
    }
}

/// Completeness of storage merges from item `j` on: each item's proof
/// decomposed without fault and each of its record keys is held.
pub proof fn lemma_merge_storage_items_complete(
    recs: Seq<StateRecordShape>,
    items: Seq<crate::types::StorageItemShape>,
    j: int,
    account_index: int,
    address_hash: Seq<u8>,
    account_proof: Seq<Seq<u8>>,
    block_hash: Seq<u8>,
)
    requires
        0 <= j,
        merge_storage_items(
            recs,
            items,
            j,
            account_index,
            address_hash,
            account_proof,
            block_hash,
        ).error is None,
    ensures
        forall|sj: int|
            j <= sj < items.len() ==> (#[trigger] storage_decomposition(
                items,
                sj,
                address_hash,
                account_proof,
                block_hash,
            )).error is None,
        forall|sj: int, ni: int|
            j <= sj < items.len() && 0 <= ni < storage_decomposition(
                items,
                sj,
                address_hash,
                account_proof,
                block_hash,
            ).records.len() ==> has_key(
                merge_storage_items(
                    recs,
                    items,
                    j,
                    account_index,
                    address_hash,
                    account_proof,
                    block_hash,
                ).records,
                #[trigger] storage_decomposition(
                    items,
                    sj,
                    address_hash,
                    account_proof,
                    block_hash,
                ).records[ni].key,
            ),
    decreases items.len() - j,
{
    if 0 <= j < items.len() {
        let d = storage_decomposition(items, j, address_hash, account_proof, block_hash);
        let merged = merge_records(recs, d.records);
        assert(d.error is None);
        assert(merge_storage_items(
            recs,
            items,
            j,
            account_index,
            address_hash,
            account_proof,
            block_hash,
        ) == merge_storage_items(
            merged,
            items,
            j + 1,
            account_index,
            address_hash,
            account_proof,
            block_hash,
        ));
        lemma_merge_storage_items_complete(
            merged,
            items,
            j + 1,
            account_index,
            address_hash,
            account_proof,
            block_hash,
        );
        assert forall|ni: int| 0 <= ni < d.records.len() implies has_key(
            merge_storage_items(
                recs,
                items,
                j,
                account_index,
                address_hash,
                account_proof,
                block_hash,
            ).records,
            #[trigger] d.records[ni].key,
        ) by {
            lemma_merge_records_keys(recs, d.records, d.records[ni].key);
            lemma_merge_storage_items_monotone(
                merged,
                items,
                j + 1,
                account_index,
                address_hash,
                account_proof,
                block_hash,
                d.records[ni].key,
            );
        }
    }
}

/// Completeness of one account's storage merges: every storage item's
/// proof decomposed without fault and each of its record keys is held in
/// the account's result.
pub proof fn lemma_assemble_account_storage_complete(
    recs: Seq<StateRecordShape>,
    accounts: Seq<crate::types::AccountStateShape>,
    ai: int,
    block_hash: Seq<u8>,
)
    requires
        0 <= ai < accounts.len(),
        assemble_account(recs, accounts[ai], ai, block_hash).error is None,
    ensures
        forall|sj: int|
            0 <= sj < accounts[ai].storage_proof.len() ==> (#[trigger] storage_decomposition(
                accounts[ai].storage_proof,
                sj,
                keccak_of(accounts[ai].address),
                accounts[ai].account_proof,
                block_hash,
            )).error is None,
        forall|sj: int, ni: int|
            0 <= sj < accounts[ai].storage_proof.len() && 0 <= ni < storage_decomposition(
                accounts[ai].storage_proof,
                sj,
                keccak_of(accounts[ai].address),
                accounts[ai].account_proof,
                block_hash,
            ).records.len() ==> has_key(
                assemble_account(recs, accounts[ai], ai, block_hash).records,
                #[trigger] storage_decomposition(
                    accounts[ai].storage_proof,
                    sj,
                    keccak_of(accounts[ai].address),
                    accounts[ai].account_proof,
                    block_hash,
                ).records[ni].key,
            ),
{
    let acc = accounts[ai];
    let address_hash = keccak_of(acc.address);
    let d = decomposition_of(
        ProofContextShape::Account { block_hash },
        address_hash,
        acc.account_proof,
    );
    assert(d.error is None);
    let merged = merge_records(recs, d.records);
    match acc.code {
        Some(code) => {
            if keccak_of(code) == acc.code_hash {
                let rec = crate::assemble::bytecode_record_shape(
                    address_hash,
                    code,
                    acc.code_hash,
                    acc.account_proof,
                    block_hash,
                );
                lemma_merge_storage_items_complete(
                    merge_record(merged, rec),
                    acc.storage_proof,
                    0,
                    ai,
                    address_hash,
                    acc.account_proof,
                    block_hash,
                );
            }
        },
        None => {
            lemma_merge_storage_items_complete(
                merged,
                acc.storage_proof,
                0,
                ai,
                address_hash,
                acc.account_proof,
                block_hash,
            );
        },
    }
}

/// Completeness over a snapshot's storage proofs: after an assembly that
/// reported no fault, every storage item's proof decomposed without fault
/// and each of its per-node record keys is held in the final set.
pub proof fn lemma_assemble_state_storage_complete(
    accounts: Seq<crate::types::AccountStateShape>,
    i: int,
    recs: Seq<StateRecordShape>,
    block_hash: Seq<u8>,
)
    requires
        0 <= i,
        assemble_state(accounts, i, recs, block_hash).error is None,
    ensures
        forall|ai: int, sj: int|
            i <= ai < accounts.len() && 0 <= sj < accounts[ai].storage_proof.len() ==> (
            #[trigger] storage_decomposition(
                accounts[ai].storage_proof,
                sj,
                keccak_of(accounts[ai].address),
                accounts[ai].account_proof,
                block_hash,
            )).error is None,
        forall|ai: int, sj: int, ni: int|
            i <= ai < accounts.len() && 0 <= sj < accounts[ai].storage_proof.len() && 0 <= ni
                < storage_decomposition(
                accounts[ai].storage_proof,
                sj,
                keccak_of(accounts[ai].address),
                accounts[ai].account_proof,
                block_hash,
            ).records.len() ==> has_key(
                assemble_state(accounts, i, recs, block_hash).records,
                #[trigger] storage_decomposition(
                    accounts[ai].storage_proof,
                    sj,
                    keccak_of(accounts[ai].address),
                    accounts[ai].account_proof,
                    block_hash,
                ).records[ni].key,
            ),
    decreases accounts.len() - i,
{
    if 0 <= i < accounts.len() {
        let a = assemble_account(recs, accounts[i], i, block_hash);
        assert(a.error is None);
        assert(assemble_state(accounts, i, recs, block_hash) == assemble_state(
            accounts,
            i + 1,
            a.records,
            block_hash,
        ));
        lemma_assemble_account_storage_complete(recs, accounts, i, block_hash);
        lemma_assemble_state_storage_complete(accounts, i + 1, a.records, block_hash);
        assert forall|sj: int, ni: int|
            0 <= sj < accounts[i].storage_proof.len() && 0 <= ni < storage_decomposition(
                accounts[i].storage_proof,
                sj,
                keccak_of(accounts[i].address),
                accounts[i].account_proof,
                block_hash,
            ).records.len() implies has_key(
            assemble_state(accounts, i, recs, block_hash).records,
            #[trigger] storage_decomposition(
                accounts[i].storage_proof,
                sj,
                keccak_of(accounts[i].address),
                accounts[i].account_proof,
                block_hash,
            ).records[ni].key,
        ) by {
            lemma_assemble_state_monotone(
                accounts,
                i + 1,
                a.records,
                block_hash,
                storage_decomposition(
                    accounts[i].storage_proof,
                    sj,
                    keccak_of(accounts[i].address),
                    accounts[i].account_proof,
                    block_hash,
                ).records[ni].key,
            );
        }
    }
}

/// Completeness of the whole decomposition: after a successful assembly,
/// every raw node of every proof in the snapshot — account proofs and
/// storage proofs alike — backs a record whose key is held in the output
/// set; and since the set's keys are distinct, exactly one record backs
/// each such key.
pub proof fn lemma_snapshot_completeness(b: BlockDataShape)
    requires
        state_content_of(b).error is None,
    ensures
        distinct_keys(state_content_of(b).records),
        forall|ai: int|
            0 <= ai < b.state.len() ==> (#[trigger] account_decomposition(
                b.state,
                ai,
                keccak_of(b.header),
            )).error is None,
        forall|ai: int, ni: int|
            0 <= ai < b.state.len() && 0 <= ni < account_decomposition(
                b.state,
                ai,
                keccak_of(b.header),
            ).records.len() ==> has_key(
                state_content_of(b).records,
                #[trigger] account_decomposition(b.state, ai, keccak_of(b.header)).records[ni].key,
            ),
        forall|ai: int, sj: int|
            0 <= ai < b.state.len() && 0 <= sj < b.state[ai].storage_proof.len() ==> (
            #[trigger] storage_decomposition(
                b.state[ai].storage_proof,
                sj,
                keccak_of(b.state[ai].address),
                b.state[ai].account_proof,
                keccak_of(b.header),
            )).error is None,
        forall|ai: int, sj: int, ni: int|
            0 <= ai < b.state.len() && 0 <= sj < b.state[ai].storage_proof.len() && 0 <= ni
                < storage_decomposition(
                b.state[ai].storage_proof,
                sj,
                keccak_of(b.state[ai].address),
                b.state[ai].account_proof,
                keccak_of(b.header),
            ).records.len() ==> has_key(
                state_content_of(b).records,
                #[trigger] storage_decomposition(
                    b.state[ai].storage_proof,
                    sj,
                    keccak_of(b.state[ai].address),
                    b.state[ai].account_proof,
                    keccak_of(b.header),
                ).records[ni].key,
            ),
{
    let bh = keccak_of(b.header);
    let empty = Seq::<StateRecordShape>::empty();
    lemma_assemble_state_wf(b.state, 0, empty, bh);
    lemma_assemble_state_complete(b.state, 0, empty, bh);
    lemma_assemble_state_storage_complete(b.state, 0, empty, bh);
}

/// Prefix sharing: when the first account's proof and a later account's
/// proof begin with the identical root node, the assembled set holds the
/// root's record under one key — the root's hash with the empty path —
/// and its value is the first account's one-node proof slice; since the
/// set's keys are distinct, no second record stands for that root.
pub proof fn lemma_shared_root_single_record(b: BlockDataShape, other: int)
    requires
        state_content_of(b).error is None,
        b.state.len() > 0,
        b.state[0].account_proof.len() > 0,
        0 < other < b.state.len(),
        b.state[other].account_proof.len() > 0,
        b.state[other].account_proof[0] == b.state[0].account_proof[0],
    ensures
        ({
            let root = b.state[0].account_proof[0];
            let key = StateKeyShape::AccountTrieNode {
                node_hash: keccak_of(root),
                path: Seq::empty(),
            };
            &&& distinct_keys(state_content_of(b).records)
            &&& has_key(state_content_of(b).records, key)
            &&& value_for(state_content_of(b).records, key)
                == (StateValueShape::AccountTrieNodeWithProof {
                proof: seq![root],
                block_hash: keccak_of(b.header),
            })
        }),
{
    let bh = keccak_of(b.header);
    let root = b.state[0].account_proof[0];
    let key = StateKeyShape::AccountTrieNode { node_hash: keccak_of(root), path: Seq::empty() };
    let empty = Seq::<StateRecordShape>::empty();
    lemma_assemble_state_wf(b.state, 0, empty, bh);
    let acc = b.state[0];
    let address_hash = keccak_of(acc.address);
    let full = crate::nibbles::nibbles_of(address_hash);
    let d = decomposition_of(ProofContextShape::Account { block_hash: bh }, address_hash, acc.account_proof);
    let a0 = assemble_account(empty, acc, 0, bh);
    assert(a0.error is None);
    assert(d.error is None);
    lemma_decompose_from_complete(
        ProofContextShape::Account { block_hash: bh },
        full,
        acc.account_proof,
        0,
        full,
    );
    let rec0 = record_shape_at(
        ProofContextShape::Account { block_hash: bh },
        full,
        acc.account_proof,
        0,
        full,
    );
    assert(d.records[0] == rec0);
    assert(crate::nibbles::consumed_prefix(full, full) =~= Seq::<u8>::empty());
    assert(rec0.key == key);
    assert(acc.account_proof.take(1) =~= seq![root]);
    assert(rec0.value == (StateValueShape::AccountTrieNodeWithProof {
        proof: seq![root],
        block_hash: bh,
    }));
    lemma_merge_records_first_value(empty, d.records, key);
    let merged = merge_records(empty, d.records);
    lemma_merge_records_wf(empty, d.records);
    lemma_assemble_account_value(empty, acc, 0, bh, key);
    assert(value_for(a0.records, key) == rec0.value);
    lemma_assemble_account_wf(empty, acc, 0, bh);
    lemma_assemble_account_monotone_from_merged(empty, acc, 0, bh, key);
    assert(has_key(a0.records, key));
    lemma_assemble_state_value(b.state, 1, a0.records, bh, key);
    lemma_assemble_state_monotone(b.state, 1, a0.records, bh, key);
    assert(state_content_of(b).records == assemble_state(b.state, 1, a0.records, bh).records);
}

/// Every key held once the account's own proof is merged stays held
/// through the account's remaining merges.
pub proof fn lemma_assemble_account_monotone_from_merged(
    recs: Seq<StateRecordShape>,
    acc: crate::types::AccountStateShape,
    account_index: int,
    block_hash: Seq<u8>,
    k: StateKeyShape,
)
    requires
        decomposition_of(
            ProofContextShape::Account { block_hash },
            keccak_of(acc.address),
            acc.account_proof,
        ).error is None,
        has_key(
            merge_records(
                recs,
                decomposition_of(
                    ProofContextShape::Account { block_hash },
                    keccak_of(acc.address),
                    acc.account_proof,
                ).records,
            ),
            k,
        ),
    ensures
        has_key(assemble_account(recs, acc, account_index, block_hash).records, k),
{
    let address_hash = keccak_of(acc.address);
    let d = decomposition_of(
        ProofContextShape::Account { block_hash },
        address_hash,
        acc.account_proof,
    );
    let merged = merge_records(recs, d.records);
    match acc.code {
        Some(code) => {
            if keccak_of(code) == acc.code_hash {
                let rec = crate::assemble::bytecode_record_shape(
                    address_hash,
                    code,
                    acc.code_hash,
                    acc.account_proof,
                    block_hash,
                );
                lemma_merge_record_keys(merged, rec, k);
                lemma_merge_storage_items_monotone(
                    merge_record(merged, rec),
                    acc.storage_proof,
                    0,
                    account_index,
                    address_hash,
                    acc.account_proof,
                    block_hash,
                    k,
                );
            }
        },
        None => {
            lemma_merge_storage_items_monotone(
                merged,
                acc.storage_proof,
                0,
                account_index,
                address_hash,
                acc.account_proof,
                block_hash,
                k,
            );
        },
    }
}

/// One record some account of the snapshot emits: a node record of the
/// account's own proof, a node record of one of its storage items'
/// proofs, or its bytecode record.
pub open spec fn account_emits(
    accounts: Seq<crate::types::AccountStateShape>,
    ai: int,
    block_hash: Seq<u8>,
    rec: StateRecordShape,
) -> bool {
    ||| exists|ni: int|
        0 <= ni < account_decomposition(accounts, ai, block_hash).records.len()
            && #[trigger] account_decomposition(accounts, ai, block_hash).records[ni] == rec
    ||| exists|sj: int, ni: int|
        0 <= sj < accounts[ai].storage_proof.len() && 0 <= ni < storage_decomposition(
            accounts[ai].storage_proof,
            sj,
            keccak_of(accounts[ai].address),
            accounts[ai].account_proof,
            block_hash,
        ).records.len() && #[trigger] storage_decomposition(
            accounts[ai].storage_proof,
            sj,
            keccak_of(accounts[ai].address),
            accounts[ai].account_proof,
            block_hash,
        ).records[ni] == rec
    ||| (accounts[ai].code matches Some(code) && keccak_of(code) == accounts[ai].code_hash && rec
        == crate::assemble::bytecode_record_shape(
        keccak_of(accounts[ai].address),
        code,
        accounts[ai].code_hash,
        accounts[ai].account_proof,
        block_hash,
    ))
}

/// A single merge invents nothing: what it holds was held or was the
/// merged record.
pub proof fn lemma_merge_record_origin(
    s: Seq<StateRecordShape>,
    rec: StateRecordShape,
    x: StateRecordShape,
)
    requires
        merge_record(s, rec).contains(x),
    ensures
        s.contains(x) || x == rec,
{
    if !s.contains(x) {
        let s2 = merge_record(s, rec);
        let i = choose|i: int| 0 <= i < s2.len() && s2[i] == x;
        if has_key(s, rec.key) {
            assert(s[i] == x);
        } else {
            assert(s2 == s.push(rec));
            if i < s.len() {
                assert(s[i] == x);
            } else {
                assert(x == rec);
            }
        }
    }
}

/// A run of merges invents nothing: what it holds was held or was merged.
pub proof fn lemma_merge_records_origin(
    s: Seq<StateRecordShape>,
    recs: Seq<StateRecordShape>,
    x: StateRecordShape,
)
    requires
        merge_records(s, recs).contains(x),
    ensures
        s.contains(x) || recs.contains(x),
    decreases recs.len(),
{
    if recs.len() > 0 {
        let s2 = merge_record(s, recs[0]);
        lemma_merge_records_origin(s2, recs.drop_first(), x);
        if s2.contains(x) {
            lemma_merge_record_origin(s, recs[0], x);
            if x == recs[0] {
                assert(recs[0] == x);
            }
        } else {
            let i = choose|i: int|
                0 <= i < recs.drop_first().len() && recs.drop_first()[i] == x;
            assert(recs[i + 1] == x);
        }
    }
}

/// The storage merges invent nothing: what they hold was held or comes
/// from some storage item's decomposition.
pub proof fn lemma_merge_storage_items_origin(
    recs: Seq<StateRecordShape>,
    items: Seq<crate::types::StorageItemShape>,
    j: int,
    account_index: int,
    address_hash: Seq<u8>,
    account_proof: Seq<Seq<u8>>,
    block_hash: Seq<u8>,
    x: StateRecordShape,
)
    requires
        0 <= j,
        merge_storage_items(
            recs,
            items,
            j,
            account_index,
            address_hash,
            account_proof,
            block_hash,
        ).records.contains(x),
    ensures
        recs.contains(x) || exists|sj: int, ni: int|
            j <= sj < items.len() && 0 <= ni < storage_decomposition(
                items,
                sj,
                address_hash,
                account_proof,
                block_hash,
            ).records.len() && #[trigger] storage_decomposition(
                items,
                sj,
                address_hash,
                account_proof,
                block_hash,
            ).records[ni] == x,
    decreases items.len() - j,
{
    if j < items.len() {
        let d = storage_decomposition(items, j, address_hash, account_proof, block_hash);
        let merged = merge_records(recs, d.records);
        if d.error is None {
            lemma_merge_storage_items_origin(
                merged,
                items,
                j + 1,
                account_index,
                address_hash,
                account_proof,
                block_hash,
                x,
            );
        }
        if merged.contains(x) && !recs.contains(x) {
            lemma_merge_records_origin(recs, d.records, x);
            let ni = choose|ni: int| 0 <= ni < d.records.len() && d.records[ni] == x;
            assert(storage_decomposition(items, j, address_hash, account_proof, block_hash)
                .records[ni] == x);
        }
    }
}

/// One account's merge invents nothing: what it holds was held or is one
/// of the account's own emissions.
pub proof fn lemma_assemble_account_origin(
    recs: Seq<StateRecordShape>,
    accounts: Seq<crate::types::AccountStateShape>,
    ai: int,
    block_hash: Seq<u8>,
    x: StateRecordShape,
)
    requires
        0 <= ai < accounts.len(),
        assemble_account(recs, accounts[ai], ai, block_hash).records.contains(x),
    ensures
        recs.contains(x) || account_emits(accounts, ai, block_hash, x),
{
    let acc = accounts[ai];
    let address_hash = keccak_of(acc.address);
    let d = account_decomposition(accounts, ai, block_hash);
    assert(d == decomposition_of(
        ProofContextShape::Account { block_hash },
        address_hash,
        acc.account_proof,
    ));
    let merged = merge_records(recs, d.records);
    if d.error is None {
        match acc.code {
            Some(code) => {
                if keccak_of(code) == acc.code_hash {
                    let brec = crate::assemble::bytecode_record_shape(
                        address_hash,
                        code,
                        acc.code_hash,
                        acc.account_proof,
                        block_hash,
                    );
                    let base = merge_record(merged, brec);
                    lemma_merge_storage_items_origin(
                        base,
                        acc.storage_proof,
                        0,
                        ai,
                        address_hash,
                        acc.account_proof,
                        block_hash,
                        x,
                    );
                    if base.contains(x) {
                        lemma_merge_record_origin(merged, brec, x);
                    }
                }
            },
            None => {
                lemma_merge_storage_items_origin(
                    merged,
                    acc.storage_proof,
                    0,
                    ai,
                    address_hash,
                    acc.account_proof,
                    block_hash,
                    x,
                );
            },
        }
    }
    if merged.contains(x) && !recs.contains(x) {
        lemma_merge_records_origin(recs, d.records, x);
        let ni = choose|ni: int| 0 <= ni < d.records.len() && d.records[ni] == x;
        assert(account_decomposition(accounts, ai, block_hash).records[ni] == x);
    }
}

/// The whole assembly invents nothing: what it holds was held or is some
/// account's emission.
pub proof fn lemma_assemble_state_origin(
    accounts: Seq<crate::types::AccountStateShape>,
    i: int,
    recs: Seq<StateRecordShape>,
    block_hash: Seq<u8>,
    x: StateRecordShape,
)
    requires
        0 <= i,
        assemble_state(accounts, i, recs, block_hash).records.contains(x),
    ensures
        recs.contains(x) || exists|ai: int|
            i <= ai < accounts.len() && #[trigger] account_emits(accounts, ai, block_hash, x),
    decreases accounts.len() - i,
{
    if i < accounts.len() {
        let a = assemble_account(recs, accounts[i], i, block_hash);
        if a.error is None {
            lemma_assemble_state_origin(accounts, i + 1, a.records, block_hash, x);
        }
        if a.records.contains(x) && !recs.contains(x) {
            lemma_assemble_account_origin(recs, accounts, i, block_hash, x);
            assert(account_emits(accounts, i, block_hash, x));
        }
    }
}

/// No record is invented: every record of the decomposition's output —
/// whether or not the assembly succeeded — is one some account of the
/// snapshot emits: a node record of its own proof or of one of its
/// storage items' proofs, or its bytecode record. Together with
/// `lemma_snapshot_completeness`, the output's records are exactly the
/// merged emissions of the snapshot's proofs.
pub proof fn lemma_snapshot_nothing_invented(b: BlockDataShape)
    ensures
        forall|x: StateRecordShape|
            #[trigger] state_content_of(b).records.contains(x) ==> exists|ai: int|
                0 <= ai < b.state.len() && #[trigger] account_emits(
                    b.state,
                    ai,
                    keccak_of(b.header),
                    x,
                ),
{
    let bh = keccak_of(b.header);
    let empty = Seq::<StateRecordShape>::empty();
    assert forall|x: StateRecordShape| #[trigger] state_content_of(b).records.contains(
        x,
    ) implies exists|ai: int|
        0 <= ai < b.state.len() && #[trigger] account_emits(b.state, ai, bh, x) by {
        lemma_assemble_state_origin(b.state, 0, empty, bh, x);
        assert(!empty.contains(x));
    }
}

} // verus!

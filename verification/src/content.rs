//! Content-addressed records: the key and value variants the decomposition
//! emits, and the record set with its first-writer-wins merge rule.

use vstd::prelude::*;
use crate::nibbles::{byte_seqs_view, bytes_eq};

verus! {

/// A state-network content key: the address of one record.
#[derive(Debug)]
pub enum StateContentKey {
    AccountTrieNode { node_hash: Vec<u8>, path: Vec<u8> },
    ContractBytecode { address_hash: Vec<u8>, code_hash: Vec<u8> },
    ContractStorageTrieNode { address_hash: Vec<u8>, node_hash: Vec<u8>, path: Vec<u8> },
}

/// The shape of a state content key, for contracts.
#[verifier::ext_equal]
pub enum StateKeyShape {
    AccountTrieNode { node_hash: Seq<u8>, path: Seq<u8> },
    ContractBytecode { address_hash: Seq<u8>, code_hash: Seq<u8> },
    ContractStorageTrieNode { address_hash: Seq<u8>, node_hash: Seq<u8>, path: Seq<u8> },
}

impl View for StateContentKey {
    type V = StateKeyShape;

    open spec fn view(&self) -> StateKeyShape {
        match self {
            StateContentKey::AccountTrieNode { node_hash, path } => StateKeyShape::AccountTrieNode {
                node_hash: node_hash@,
                path: path@,
            },
            StateContentKey::ContractBytecode { address_hash, code_hash } => (
            StateKeyShape::ContractBytecode {
                address_hash: address_hash@,
                code_hash: code_hash@,
            }),
            StateContentKey::ContractStorageTrieNode { address_hash, node_hash, path } => (
            StateKeyShape::ContractStorageTrieNode {
                address_hash: address_hash@,
                node_hash: node_hash@,
                path: path@,
            }),
        }
    }
}

/// A state-network content value: the payload matching one key.
#[derive(Debug)]
pub enum StateContentValue {
    AccountTrieNodeWithProof { proof: Vec<Vec<u8>>, block_hash: Vec<u8> },
    ContractBytecodeWithProof { code: Vec<u8>, account_proof: Vec<Vec<u8>>, block_hash: Vec<u8> },
    ContractStorageTrieNodeWithProof {
        storage_proof: Vec<Vec<u8>>,
        account_proof: Vec<Vec<u8>>,
        block_hash: Vec<u8>,
    },
}

/// The shape of a state content value, for contracts.
#[verifier::ext_equal]
pub enum StateValueShape {
    AccountTrieNodeWithProof { proof: Seq<Seq<u8>>, block_hash: Seq<u8> },
    ContractBytecodeWithProof { code: Seq<u8>, account_proof: Seq<Seq<u8>>, block_hash: Seq<u8> },
    ContractStorageTrieNodeWithProof {
        storage_proof: Seq<Seq<u8>>,
        account_proof: Seq<Seq<u8>>,
        block_hash: Seq<u8>,
    },
}

impl View for StateContentValue {
    type V = StateValueShape;

    open spec fn view(&self) -> StateValueShape {
        match self {
            StateContentValue::AccountTrieNodeWithProof { proof, block_hash } => (
            StateValueShape::AccountTrieNodeWithProof {
                proof: byte_seqs_view(proof@),
                block_hash: block_hash@,
            }),
            StateContentValue::ContractBytecodeWithProof { code, account_proof, block_hash } => (
            StateValueShape::ContractBytecodeWithProof {
                code: code@,
                account_proof: byte_seqs_view(account_proof@),
                block_hash: block_hash@,
            }),
            StateContentValue::ContractStorageTrieNodeWithProof {
                storage_proof,
                account_proof,
                block_hash,
            } => (StateValueShape::ContractStorageTrieNodeWithProof {
                storage_proof: byte_seqs_view(storage_proof@),
                account_proof: byte_seqs_view(account_proof@),
                block_hash: block_hash@,
            }),
        }
    }
}

/// One record: a key and its payload.
#[verifier::ext_equal]
pub ghost struct StateRecordShape {
    pub key: StateKeyShape,
    pub value: StateValueShape,
}

/// The record set holds a record with this key.
pub open spec fn has_key(s: Seq<StateRecordShape>, k: StateKeyShape) -> bool {
    exists|i: int| 0 <= i < s.len() && s[i].key == k
}

/// No two records share a key.
pub open spec fn distinct_keys(s: Seq<StateRecordShape>) -> bool {
    forall|i: int, j: int| 0 <= i < j < s.len() ==> s[i].key != s[j].key
}

/// The index of the record with key `k`.
pub open spec fn key_index(s: Seq<StateRecordShape>, k: StateKeyShape) -> int {
    choose|i: int| 0 <= i < s.len() && s[i].key == k
}

/// The value stored against key `k`.
pub open spec fn value_for(s: Seq<StateRecordShape>, k: StateKeyShape) -> StateValueShape {
    s[key_index(s, k)].value
}

/// Merge one record into the set: the first writer of a key wins, a later
/// record for the same key is dropped.
pub open spec fn merge_record(s: Seq<StateRecordShape>, rec: StateRecordShape) -> Seq<
    StateRecordShape,
> {
    if has_key(s, rec.key) {
        s
    } else {
        s.push(rec)
    }
}

/// Merge a run of records into the set, in order, first writer wins.
pub open spec fn merge_records(s: Seq<StateRecordShape>, recs: Seq<StateRecordShape>) -> Seq<
    StateRecordShape,
>
    decreases recs.len(),
{
    if recs.len() == 0 {
        s
    } else {
        merge_records(merge_record(s, recs[0]), recs.drop_first())
    }
}

/// The set of emitted state records, in insertion order, each key held once.
pub struct StateContent {
    pub records: Vec<(StateContentKey, StateContentValue)>,
}

impl View for StateContent {
    type V = Seq<StateRecordShape>;

    open spec fn view(&self) -> Seq<StateRecordShape> {
        self.records@.map_values(
            |r: (StateContentKey, StateContentValue)| StateRecordShape { key: r.0@, value: r.1@ },
        )
    }
}

/// State content keys compare by their shapes.
pub fn state_key_eq(a: &StateContentKey, b: &StateContentKey) -> (r: bool)
    ensures
        r == (a@ == b@),
{
    match (a, b) {
        (
            StateContentKey::AccountTrieNode { node_hash: nh_a, path: p_a },
            StateContentKey::AccountTrieNode { node_hash: nh_b, path: p_b },
        ) => bytes_eq(nh_a, nh_b) && bytes_eq(p_a, p_b),
        (
            StateContentKey::ContractBytecode { address_hash: ah_a, code_hash: ch_a },
            StateContentKey::ContractBytecode { address_hash: ah_b, code_hash: ch_b },
        ) => bytes_eq(ah_a, ah_b) && bytes_eq(ch_a, ch_b),
        (
            StateContentKey::ContractStorageTrieNode { address_hash: ah_a, node_hash: nh_a, path: p_a },
            StateContentKey::ContractStorageTrieNode { address_hash: ah_b, node_hash: nh_b, path: p_b },
        ) => bytes_eq(ah_a, ah_b) && bytes_eq(nh_a, nh_b) && bytes_eq(p_a, p_b),
        _ => false,
    }
}

impl StateContent {
    /// No two records of the set share a key.
    pub open spec fn wf(&self) -> bool {
        distinct_keys(self@)
    }

    /// The empty record set.
    pub fn new() -> (r: Self)
        ensures
            r@ == Seq::<StateRecordShape>::empty(),
            r.wf(),
    {
        let r = StateContent { records: Vec::new() };
        assert(r@ =~= Seq::<StateRecordShape>::empty());
        r
    }

    /// The number of records held.
    pub fn len(&self) -> (n: usize)
        ensures
            n == self@.len(),
    {
        self.records.len()
    }

    /// The set holds a record with this key.
    pub fn contains_key(&self, key: &StateContentKey) -> (r: bool)
        ensures
            r == has_key(self@, key@),
    {
        let mut i: usize = 0;
        while i < self.records.len()
            invariant
                i <= self.records.len(),
                forall|j: int| 0 <= j < i ==> self@[j].key != key@,
            decreases self.records.len() - i,
        {
            if state_key_eq(&self.records[i].0, key) {
                assert(self@[i as int].key == key@);
                return true;
            }
            i = i + 1;
        }
        false
    }

    /// Insert the record unless its key is already held: first writer wins.
    pub fn insert_if_absent(&mut self, key: StateContentKey, value: StateContentValue)
        requires
            old(self).wf(),
        ensures
            final(self).wf(),
            final(self)@ == merge_record(old(self)@, StateRecordShape { key: key@, value: value@ }),
    {
        if !self.contains_key(&key) {
            let ghost before = self@;
            self.records.push((key, value));
            assert(self@ =~= before.push(StateRecordShape { key: key@, value: value@ }));
        }
    }
}

/// Merging a run of records record by record is merging the concatenation.
pub proof fn lemma_merge_records_concat(
    s: Seq<StateRecordShape>,
    a: Seq<StateRecordShape>,
    b: Seq<StateRecordShape>,
)
    ensures
        merge_records(s, a + b) == merge_records(merge_records(s, a), b),
    decreases a.len(),
{
    if a.len() == 0 {
        assert(a + b =~= b);
        assert(merge_records(s, a) == s);
    } else {
        assert((a + b).drop_first() =~= a.drop_first() + b);
        lemma_merge_records_concat(merge_record(s, a[0]), a.drop_first(), b);
    }
}

/// A single merge holds key `k` exactly when the set did or the record carries it.
pub proof fn lemma_merge_record_keys(
    s: Seq<StateRecordShape>,
    rec: StateRecordShape,
    k: StateKeyShape,
)
    ensures
        has_key(merge_record(s, rec), k) <==> has_key(s, k) || rec.key == k,
{
    let s2 = merge_record(s, rec);
    if has_key(s, k) {
        let w = choose|i: int| 0 <= i < s.len() && s[i].key == k;
        assert(s2[w].key == k);
    }
    if rec.key == k && !has_key(s, k) {
        assert(s2[s.len() as int].key == k);
    }
    if has_key(s2, k) && !has_key(s, k) {
        let w = choose|i: int| 0 <= i < s2.len() && s2[i].key == k;
        assert(s2 == s.push(rec));
        if w < s.len() {
            assert(s[w].key == k);
        } else {
            assert(s2[w] == rec);
        }
    }
}

/// The merge keeps every key already held and adds every merged key.
pub proof fn lemma_merge_records_keys(
    s: Seq<StateRecordShape>,
    recs: Seq<StateRecordShape>,
    k: StateKeyShape,
)
    ensures
        has_key(merge_records(s, recs), k) <==> has_key(s, k) || exists|i: int|
            0 <= i < recs.len() && recs[i].key == k,
    decreases recs.len(),
{
    if recs.len() > 0 {
        lemma_merge_record_keys(s, recs[0], k);
        lemma_merge_records_keys(merge_record(s, recs[0]), recs.drop_first(), k);
        assert(forall|i: int| 0 <= i < recs.drop_first().len() ==> recs.drop_first()[i] == recs[i
            + 1]);
        if exists|i: int| 0 <= i < recs.len() && recs[i].key == k {
            let i = choose|i: int| 0 <= i < recs.len() && recs[i].key == k;
            if i > 0 {
                assert(recs.drop_first()[i - 1].key == k);
            }
        }
    }
}

/// The merge keeps the set's well-formedness: no key is ever doubled.
pub proof fn lemma_merge_records_wf(s: Seq<StateRecordShape>, recs: Seq<StateRecordShape>)
    requires
        distinct_keys(s),
    ensures
        distinct_keys(merge_records(s, recs)),
    decreases recs.len(),
{
    if recs.len() > 0 {
        assert(distinct_keys(merge_record(s, recs[0])));
        lemma_merge_records_wf(merge_record(s, recs[0]), recs.drop_first());
    }
}

/// A history-network content key: the address of the one header record.
pub enum HistoryContentKey {
    BlockHeaderWithProof { block_hash: Vec<u8> },
}

/// The shape of a history content key, for contracts.
#[verifier::ext_equal]
pub enum HistoryKeyShape {
    BlockHeaderWithProof { block_hash: Seq<u8> },
}

impl View for HistoryContentKey {
    type V = HistoryKeyShape;

    open spec fn view(&self) -> HistoryKeyShape {
        match self {
            HistoryContentKey::BlockHeaderWithProof { block_hash } => (
            HistoryKeyShape::BlockHeaderWithProof { block_hash: block_hash@ }),
        }
    }
}

/// A history-network content value: the header with its pre-merge
/// accumulator inclusion proof, passed through verbatim.
pub enum HistoryContentValue {
    BlockHeaderWithProof { header: Vec<u8>, accumulator_proof: Vec<Vec<u8>> },
}

/// The shape of a history content value, for contracts.
#[verifier::ext_equal]
pub enum HistoryValueShape {
    BlockHeaderWithProof { header: Seq<u8>, accumulator_proof: Seq<Seq<u8>> },
}

impl View for HistoryContentValue {
    type V = HistoryValueShape;

    open spec fn view(&self) -> HistoryValueShape {
        match self {
            HistoryContentValue::BlockHeaderWithProof { header, accumulator_proof } => (
            HistoryValueShape::BlockHeaderWithProof {
                header: header@,
                accumulator_proof: byte_seqs_view(accumulator_proof@),
            }),
        }
    }
}

/// First writer wins: a key already held keeps its value across any merge.
pub proof fn lemma_merge_records_first_wins(
    s: Seq<StateRecordShape>,
    recs: Seq<StateRecordShape>,
    k: StateKeyShape,
)
    requires
        distinct_keys(s),
        has_key(s, k),
    ensures
        value_for(merge_records(s, recs), k) == value_for(s, k),
    decreases recs.len(),
{
    if recs.len() > 0 {
        let s2 = merge_record(s, recs[0]);
        assert(distinct_keys(s2));
        lemma_merge_record_keys(s, recs[0], k);
        assert(has_key(s2, k));
        lemma_merge_records_first_wins(s2, recs.drop_first(), k);
        let i = key_index(s, k);
        let i2 = key_index(s2, k);
        assert(0 <= i < s.len() && s[i].key == k);
        assert(0 <= i2 < s2.len() && s2[i2].key == k);
        if !has_key(s, recs[0].key) {
            assert(s2 == s.push(recs[0]));
            if i2 == s.len() {
                assert(s2[i2].key == recs[0].key);
                assert(false);
            }
        }
        assert(s2[i2] == s[i2]);
        if i != i2 {
            assert(s[i].key == s[i2].key);
            assert(false);
        }
        assert(value_for(s2, k) == value_for(s, k));
    }
}

} // verus!

//! Nibble-path arithmetic: unpacking a key into nibbles, and the
//! suffix/prefix bookkeeping the proof decomposer relies on.

use vstd::prelude::*;

verus! {

/// The nibble sequence of a byte string: each byte contributes its high
/// nibble and then its low nibble, so a 32-byte key yields 64 nibbles.
pub open spec fn nibbles_of(bytes: Seq<u8>) -> Seq<u8> {
    Seq::new(
        bytes.len() * 2,
        |i: int| if i % 2 == 0 { bytes[i / 2] / 16 } else { bytes[i / 2] % 16 },
    )
}

/// `suffix` is a suffix of `full`.
pub open spec fn is_suffix_of(suffix: Seq<u8>, full: Seq<u8>) -> bool {
    suffix.len() <= full.len() && suffix == full.skip(full.len() - suffix.len())
}

/// The prefix of `full` left after stripping the suffix `suffix`:
/// the nibbles already consumed when `suffix` remains to be traversed.
pub open spec fn consumed_prefix(full: Seq<u8>, suffix: Seq<u8>) -> Seq<u8> {
    full.take(full.len() - suffix.len())
}

/// Unpack a key into its nibble path, two nibbles per byte, high first.
pub fn unpack_nibbles(key: &Vec<u8>) -> (r: Vec<u8>)
    ensures
        r@ == nibbles_of(key@),
{
    let mut r: Vec<u8> = Vec::new();
    let mut i: usize = 0;
    while i < key.len()
        invariant
            i <= key.len(),
            r@.len() == 2 * i,
            forall|j: int| 0 <= j < r@.len() ==> r@[j] == nibbles_of(key@)[j],
        decreases key.len() - i,
    {
        r.push(key[i] / 16);
        r.push(key[i] % 16);
        i = i + 1;
    }
    assert(r@ =~= nibbles_of(key@));
    r
}

/// Copy the bytes of `v` between `start` (inclusive) and `end` (exclusive).
pub fn copy_range(v: &Vec<u8>, start: usize, end: usize) -> (r: Vec<u8>)
    requires
        start <= end <= v@.len(),
    ensures
        r@ == v@.subrange(start as int, end as int),
{
    let mut r: Vec<u8> = Vec::new();
    let mut i: usize = start;
    while i < end
        invariant
            start <= i <= end <= v@.len(),
            r@ == v@.subrange(start as int, i as int),
        decreases end - i,
    {
        r.push(v[i]);
        assert(r@ =~= v@.subrange(start as int, i + 1));
        i = i + 1;
    }
    r
}

/// Byte-string equality.
pub fn bytes_eq(a: &Vec<u8>, b: &Vec<u8>) -> (r: bool)
    ensures
        r == (a@ == b@),
{
    if a.len() != b.len() {
        return false;
    }
    let mut i: usize = 0;
    while i < a.len()
        invariant
            i <= a.len(),
            a@.len() == b@.len(),
            forall|j: int| 0 <= j < i ==> a@[j] == b@[j],
        decreases a.len() - i,
    {
        if a[i] != b[i] {
            return false;
        }
        i = i + 1;
    }
    assert(a@ =~= b@);
    true
}

/// If `remaining` is a suffix of `full`, hand back the consumed prefix;
/// otherwise report the mismatch.
pub fn strip_suffix(full: &Vec<u8>, remaining: &Vec<u8>) -> (r: Option<Vec<u8>>)
    ensures
        match r {
            Some(p) => is_suffix_of(remaining@, full@) && p@ == consumed_prefix(
                full@,
                remaining@,
            ),
            None => !is_suffix_of(remaining@, full@),
        },
{
    if remaining.len() > full.len() {
        return None;
    }
    let offset = full.len() - remaining.len();
    let mut i: usize = 0;
    while i < remaining.len()
        invariant
            i <= remaining.len(),
            offset + remaining@.len() == full@.len(),
            offset + remaining@.len() <= usize::MAX,
            offset == full@.len() - remaining@.len(),
            forall|j: int| 0 <= j < i ==> full@[offset + j] == remaining@[j],
        decreases remaining.len() - i,
    {
        if full[offset + i] != remaining[i] {
            assert(full@.skip(offset as int)[i as int] != remaining@[i as int]);
            return None;
        }
        i = i + 1;
    }
    assert(remaining@ =~= full@.skip(full@.len() - remaining@.len()));
    Some(copy_range(full, 0, offset))
}

/// Clone a byte string.
pub fn clone_bytes(v: &Vec<u8>) -> (r: Vec<u8>)
    ensures
        r@ == v@,
{
    copy_range(v, 0, v.len())
}

/// The byte-string contents of a vector of byte strings, as a sequence of
/// sequences. Contracts over proofs (ordered raw trie nodes) speak of this.
pub open spec fn byte_seqs_view(s: Seq<Vec<u8>>) -> Seq<Seq<u8>> {
    s.map_values(|v: Vec<u8>| v@)
}

/// Clone a sequence of byte strings, such as a proof.
pub fn clone_byte_seqs(v: &Vec<Vec<u8>>) -> (r: Vec<Vec<u8>>)
    ensures
        byte_seqs_view(r@) == byte_seqs_view(v@),
{
    let mut r: Vec<Vec<u8>> = Vec::new();
    let mut i: usize = 0;
    while i < v.len()
        invariant
            i <= v.len(),
            r@.len() == i,
            forall|j: int| 0 <= j < i ==> r@[j]@ == v@[j]@,
        decreases v.len() - i,
    {
        r.push(clone_bytes(&v[i]));
        i = i + 1;
    }
    assert(byte_seqs_view(r@) =~= byte_seqs_view(v@));
    r
}

/// Copy the byte strings of `v` between `start` (inclusive) and `end`
/// (exclusive): the proof slice `v[0..end]` when `start` is zero.
pub fn copy_byte_seq_range(v: &Vec<Vec<u8>>, start: usize, end: usize) -> (r: Vec<Vec<u8>>)
    requires
        start <= end <= v@.len(),
    ensures
        byte_seqs_view(r@) == byte_seqs_view(v@).subrange(start as int, end as int),
{
    let mut r: Vec<Vec<u8>> = Vec::new();
    let mut i: usize = start;
    while i < end
        invariant
            start <= i <= end <= v@.len(),
            r@.len() == i - start,
            forall|j: int| 0 <= j < r@.len() ==> r@[j]@ == v@[start + j]@,
        decreases end - i,
    {
        r.push(clone_bytes(&v[i]));
        i = i + 1;
    }
    assert(byte_seqs_view(r@) =~= byte_seqs_view(v@).subrange(start as int, end as int));
    r
}

} // verus!

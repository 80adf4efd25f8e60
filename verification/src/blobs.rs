//! How segment tables live in the object store, and the helpers that encode
//! and decode them.
//!
//! A segment keeps two blobs: its document-id table (one word per row,
//! immutable) and its deletion bitset (one word per row, `0` or `1`, replaced
//! wholesale whenever tombstones are added).

use vstd::prelude::*;

use crate::error::BuildError;
use crate::previous_segments::{count_trues, MutableFragmentedSegmentMetadata};
use crate::segment::{seg_like, FragmentedVectorSegment};

verus! {

/// The bitset a blob of words encodes: a row is tombstoned when its word is
/// one.
pub open spec fn blob_bits(blob: Seq<u64>) -> Seq<bool> {
    Seq::new(blob.len(), |i: int| blob[i] == 1)
}

/// Whether `key` holds a well-formed bitset blob of `n` rows: every word is
/// zero or one.
pub open spec fn bits_wellformed(contents: Seq<Seq<u64>>, key: u64, n: int) -> bool {
    &&& key < contents.len()
    &&& contents[key as int].len() == n
    &&& forall|i: int| 0 <= i < n ==> #[trigger] contents[key as int][i] <= 1
}

/// Whether the store holds both of a segment descriptor's blobs, with the
/// row counts and the tombstone count the descriptor claims.
pub open spec fn seg_loadable(contents: Seq<Seq<u64>>, seg: FragmentedVectorSegment) -> bool {
    &&& seg.ids_key < contents.len()
    &&& contents[seg.ids_key as int].len() == seg.num_vectors
    &&& bits_wellformed(contents, seg.bitset_key, seg.num_vectors as int)
    &&& count_trues(blob_bits(contents[seg.bitset_key as int])) == seg.num_deleted
}

/// The document-id table of a loadable segment.
pub open spec fn loaded_ids(contents: Seq<Seq<u64>>, seg: FragmentedVectorSegment) -> Seq<u64> {
    contents[seg.ids_key as int]
}

/// The deletion bitset of a loadable segment.
pub open spec fn loaded_bits(contents: Seq<Seq<u64>>, seg: FragmentedVectorSegment) -> Seq<bool> {
    blob_bits(contents[seg.bitset_key as int])
}

/// Whether a working-set entry is backed by the store: its id table is the
/// blob its descriptor points at, and, while unmodified, so is its bitset.
/// Uploading the working set relies on this to leave untouched segments
/// byte-identical.
pub open spec fn entry_backed(
    contents: Seq<Seq<u64>>,
    m: MutableFragmentedSegmentMetadata,
) -> bool {
    &&& m.original.ids_key < contents.len()
    &&& contents[m.original.ids_key as int] == m.doc_ids@
    &&& (!m.is_modified ==> bits_wellformed(
        contents,
        m.original.bitset_key,
        m.original.num_vectors as int,
    ) && blob_bits(contents[m.original.bitset_key as int]) == m.deleted@)
}

/// Whether `next` holds every blob of `prev` unchanged, under the same key:
/// the store is append-only, so every write only extends it.
pub open spec fn store_extends(prev: Seq<Seq<u64>>, next: Seq<Seq<u64>>) -> bool {
    &&& prev.len() <= next.len()
    &&& forall|i: int| 0 <= i < prev.len() ==> prev[i] == #[trigger] next[i]
}

/// A segment loadable from a store is loadable from every extension of it,
/// with the same tables.
pub proof fn lemma_loadable_extends(
    prev: Seq<Seq<u64>>,
    next: Seq<Seq<u64>>,
    seg: FragmentedVectorSegment,
)
    requires
        seg_loadable(prev, seg),
        store_extends(prev, next),
    ensures
        seg_loadable(next, seg),
        loaded_ids(next, seg) == loaded_ids(prev, seg),
        loaded_bits(next, seg) == loaded_bits(prev, seg),
{
    assert(next[seg.ids_key as int] == prev[seg.ids_key as int]);
    assert(next[seg.bitset_key as int] == prev[seg.bitset_key as int]);
}

/// A bitset with no set entry counts zero.
pub proof fn lemma_count_trues_all_false(bits: Seq<bool>)
    requires
        forall|i: int| 0 <= i < bits.len() ==> !bits[i],
    ensures
        count_trues(bits) == 0,
    decreases bits.len(),
{
    if bits.len() > 0 {
        lemma_count_trues_all_false(bits.drop_last());
    }
}

/// Two bitsets where one implies the other pointwise and the counts agree
/// are equal.
pub proof fn lemma_count_trues_pointwise_equal(a: Seq<bool>, b: Seq<bool>)
    requires
        a.len() == b.len(),
        forall|i: int| 0 <= i < a.len() ==> (a[i] ==> b[i]),
        count_trues(a) == count_trues(b),
    ensures
        a == b,
    decreases a.len(),
{
    if a.len() > 0 {
        crate::previous_segments::lemma_count_trues_monotone(a.drop_last(), b.drop_last());
        if a.last() == b.last() {
            lemma_count_trues_pointwise_equal(a.drop_last(), b.drop_last());
            assert(a =~= a.drop_last().push(a.last()));
            assert(b =~= b.drop_last().push(b.last()));
        } else {
            assert(!a.last() && b.last());
            assert(count_trues(a.drop_last()) == count_trues(b.drop_last()) + 1);
            assert(false);
        }
    } else {
        assert(a =~= b);
    }
}

/// A fresh copy of a word table.
pub fn copy_words(words: &Vec<u64>) -> (r: Vec<u64>)
    ensures
        r@ == words@,
{
    let mut out: Vec<u64> = Vec::new();
    let n = words.len();
    let mut i: usize = 0;
    while i < n
        invariant
            i <= n,
            n == words@.len(),
            out@ == words@.take(i as int),
        decreases n - i,
    {
        out.push(words[i]);
        proof {
            assert(out@ =~= words@.take(i + 1));
        }
        i = i + 1;
    }
    proof {
        assert(words@.take(n as int) =~= words@);
    }
    out
}

/// A field-for-field copy of a segment descriptor.
pub fn clone_segment(seg: &FragmentedVectorSegment) -> (r: FragmentedVectorSegment)
    ensures
        seg_like(r, *seg),
{
    FragmentedVectorSegment {
        id: seg.id.clone(),
        num_vectors: seg.num_vectors,
        num_deleted: seg.num_deleted,
        size_bytes: seg.size_bytes,
        ids_key: seg.ids_key,
        bitset_key: seg.bitset_key,
    }
}

/// Decodes a bitset blob; a word above one means the blob is corrupt and the
/// download fails.
pub fn decode_bitset(blob: &Vec<u64>) -> (r: Result<Vec<bool>, BuildError>)
    ensures
        match r {
            Ok(bits) => (forall|i: int| 0 <= i < blob@.len() ==> #[trigger] blob@[i] <= 1)
                && bits@ == blob_bits(blob@),
            Err(e) => e == BuildError::StorageIO && !(forall|i: int|
                0 <= i < blob@.len() ==> #[trigger] blob@[i] <= 1),
        },
{
    let mut out: Vec<bool> = Vec::new();
    let n = blob.len();
    let mut i: usize = 0;
    while i < n
        invariant
            i <= n,
            n == blob@.len(),
            out@.len() == i,
            forall|j: int| 0 <= j < i ==> #[trigger] blob@[j] <= 1,
            forall|j: int| 0 <= j < i ==> #[trigger] out@[j] == (blob@[j] == 1),
        decreases n - i,
    {
        if blob[i] > 1 {
            return Err(BuildError::StorageIO);
        }
        out.push(blob[i] == 1);
        i = i + 1;
    }
    proof {
        assert(out@ =~= blob_bits(blob@));
    }
    Ok(out)
}

/// Encodes a live bitset as a blob of zero and one words.
pub fn encode_bitset(bits: &Vec<bool>) -> (r: Vec<u64>)
    ensures
        r@.len() == bits@.len(),
        forall|i: int| 0 <= i < r@.len() ==> #[trigger] r@[i] <= 1,
        blob_bits(r@) == bits@,
{
    let mut out: Vec<u64> = Vec::new();
    let n = bits.len();
    let mut i: usize = 0;
    while i < n
        invariant
            i <= n,
            n == bits@.len(),
            out@.len() == i,
            forall|j: int| 0 <= j < i ==> #[trigger] out@[j] <= 1,
            forall|j: int| 0 <= j < i ==> ((#[trigger] out@[j] == 1) <==> bits@[j]),
        decreases n - i,
    {
        out.push(if bits[i] {
            1
        } else {
            0
        });
        i = i + 1;
    }
    proof {
        assert(blob_bits(out@) =~= bits@);
    }
    out
}

/// Counts the set entries of a live bitset.
pub fn count_true_bits(bits: &Vec<bool>) -> (r: u64)
    ensures
        r == count_trues(bits@),
{
    let mut count: u64 = 0;
    let n = bits.len();
    let mut i: usize = 0;
    while i < n
        invariant
            i <= n,
            n == bits@.len(),
            count == count_trues(bits@.take(i as int)),
            count <= i,
        decreases n - i,
    {
        proof {
            assert(bits@.take(i + 1).drop_last() =~= bits@.take(i as int));
        }
        if bits[i] {
            count = count + 1;
        }
        i = i + 1;
    }
    proof {
        assert(bits@.take(n as int) =~= bits@);
    }
    count
}

} // verus!

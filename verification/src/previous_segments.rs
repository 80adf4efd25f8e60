//! The mutable working set of previously uploaded segments used during one
//! build cycle: each entry pairs a segment descriptor with its live deletion
//! bitset, so documents can be tombstoned without rewriting segment data.

use vstd::prelude::*;

use crate::segment::{seg_like, FragmentedVectorSegment};

verus! {

/// How many entries of a bitset are set.
pub open spec fn count_trues(bits: Seq<bool>) -> int
    decreases bits.len(),
{
    if bits.len() == 0 {
        0
    } else {
        count_trues(bits.drop_last()) + if bits.last() {
            1int
        } else {
            0int
        }
    }
}

/// A bitset never has more set entries than entries.
pub proof fn lemma_count_trues_bounds(bits: Seq<bool>)
    ensures
        0 <= count_trues(bits) <= bits.len(),
    decreases bits.len(),
{
    if bits.len() > 0 {
        lemma_count_trues_bounds(bits.drop_last());
    }
}

/// Setting entries can only grow the count: a bitset that implies another
/// pointwise has at least as many set entries.
pub proof fn lemma_count_trues_monotone(a: Seq<bool>, b: Seq<bool>)
    requires
        a.len() == b.len(),
        forall|i: int| 0 <= i < a.len() ==> (a[i] ==> b[i]),
    ensures
        count_trues(a) <= count_trues(b),
    decreases a.len(),
{
    if a.len() > 0 {
        lemma_count_trues_monotone(a.drop_last(), b.drop_last());
    }
}

/// The bitset after marking every row whose document id is `doc_id`.
pub open spec fn spec_marked(bits: Seq<bool>, ids: Seq<u64>, doc_id: u64) -> Seq<bool> {
    Seq::new(bits.len(), |i: int| bits[i] || ids[i] == doc_id)
}

/// Marking a document twice is a no-op: the second marking changes nothing.
pub proof fn lemma_mark_deleted_idempotent(bits: Seq<bool>, ids: Seq<u64>, doc_id: u64)
    requires
        bits.len() == ids.len(),
    ensures
        spec_marked(spec_marked(bits, ids, doc_id), ids, doc_id) == spec_marked(bits, ids, doc_id),
{
    assert(spec_marked(spec_marked(bits, ids, doc_id), ids, doc_id) =~= spec_marked(
        bits,
        ids,
        doc_id,
    ));
}

/// Marking a document never clears a tombstone: the count never decreases.
pub proof fn lemma_mark_deleted_monotone(bits: Seq<bool>, ids: Seq<u64>, doc_id: u64)
    requires
        bits.len() == ids.len(),
    ensures
        count_trues(bits) <= count_trues(spec_marked(bits, ids, doc_id)),
{
    lemma_count_trues_monotone(bits, spec_marked(bits, ids, doc_id));
}

/// One previously uploaded segment materialized for mutation: the immutable
/// descriptor plus its live document-id table and deletion bitset.
#[derive(Clone, Debug)]
pub struct MutableFragmentedSegmentMetadata {
    /// The descriptor the segment was downloaded from.
    pub original: FragmentedVectorSegment,
    /// Document id of each row of the segment, in layout order.
    pub doc_ids: Vec<u64>,
    /// Which rows are tombstoned; starts as the persisted bitset.
    pub deleted: Vec<bool>,
    /// Whether any tombstone was added since download.
    pub is_modified: bool,
}

impl MutableFragmentedSegmentMetadata {
    /// Well-formedness: the tables match the descriptor's row count, the
    /// tombstones only ever grow past the persisted count, and an unmodified
    /// bitset still has exactly the persisted count.
    pub open spec fn wf(self) -> bool {
        &&& self.doc_ids@.len() == self.original.num_vectors
        &&& self.deleted@.len() == self.original.num_vectors
        &&& self.original.num_deleted <= count_trues(self.deleted@)
        &&& (!self.is_modified ==> count_trues(self.deleted@) == self.original.num_deleted)
    }

    /// Tombstones every row holding `doc_id`; rows already tombstoned and
    /// segments not holding the document are left as they are.
    pub fn maybe_delete(&mut self, doc_id: u64)
        requires
            old(self).wf(),
        ensures
            final(self).wf(),
            seg_like(final(self).original, old(self).original),
            final(self).doc_ids@ == old(self).doc_ids@,
            final(self).deleted@ == spec_marked(old(self).deleted@, old(self).doc_ids@, doc_id),
            final(self).is_modified == (old(self).is_modified || count_trues(final(self).deleted@)
                > count_trues(old(self).deleted@)),
    {
        let ghost bits0 = self.deleted@;
        let ghost ids = self.doc_ids@;
        let ghost modified0 = self.is_modified;
        let n = self.doc_ids.len();
        let mut i: usize = 0;
        while i < n
            invariant
                n == ids.len(),
                i <= n,
                self.original == old(self).original,
                self.doc_ids@ == ids,
                bits0 == old(self).deleted@,
                modified0 == old(self).is_modified,
                self.deleted@.len() == bits0.len(),
                bits0.len() == ids.len(),
                forall|j: int|
                    0 <= j < i ==> self.deleted@[j] == (bits0[j] || ids[j] == doc_id),
                forall|j: int| i <= j < n ==> self.deleted@[j] == bits0[j],
                self.is_modified == (modified0 || count_trues(self.deleted@.take(i as int))
                    > count_trues(bits0.take(i as int))),
            decreases n - i,
        {
            let ghost pre = self.deleted@;
            proof {
                assert(pre.take(i + 1).drop_last() =~= pre.take(i as int));
                assert(bits0.take(i + 1).drop_last() =~= bits0.take(i as int));
                assert(pre.take(i + 1).last() == pre[i as int]);
                assert(bits0.take(i + 1).last() == bits0[i as int]);
                lemma_count_trues_monotone(bits0.take(i as int), pre.take(i as int));
            }
            if self.doc_ids[i] == doc_id && !self.deleted[i] {
                self.deleted.set(i, true);
                self.is_modified = true;
                proof {
                    assert(self.deleted@ == pre.update(i as int, true));
                    assert(self.deleted@.take(i + 1).drop_last() =~= pre.take(i as int));
                    assert(self.deleted@.take(i + 1).last() == true);
                    assert(count_trues(self.deleted@.take(i + 1)) == count_trues(
                        pre.take(i as int),
                    ) + 1);
                    assert(!bits0[i as int]);
                    assert(count_trues(bits0.take(i + 1)) == count_trues(bits0.take(i as int)));
                    assert(count_trues(self.deleted@.take(i + 1)) > count_trues(
                        bits0.take(i + 1),
                    ));
                }
            } else {
                proof {
                    assert(count_trues(self.deleted@.take(i + 1)) > count_trues(bits0.take(i + 1))
                        <==> count_trues(self.deleted@.take(i as int)) > count_trues(
                        bits0.take(i as int),
                    ));
                }
            }
            i = i + 1;
        }
        proof {
            assert(self.deleted@ =~= spec_marked(bits0, ids, doc_id));
            assert(self.deleted@.take(n as int) =~= self.deleted@);
            assert(bits0.take(n as int) =~= bits0);
            lemma_count_trues_monotone(bits0, self.deleted@);
        }
    }

    /// The live tombstone count.
    pub open spec fn deleted_count(self) -> int {
        count_trues(self.deleted@)
    }
}

/// The working set of all previously uploaded segments of one index,
/// exclusively owned by one build cycle.
#[derive(Clone, Debug)]
pub struct PreviousVectorSegments(pub Vec<MutableFragmentedSegmentMetadata>);

impl PreviousVectorSegments {
    /// Well-formedness of every entry.
    pub open spec fn wf(self) -> bool {
        forall|j: int| 0 <= j < self.0@.len() ==> (#[trigger] self.0@[j]).wf()
    }

    /// Tombstones `doc_id` in every segment that holds it; a no-op for
    /// segments that do not, and for rows already tombstoned.
    pub fn maybe_delete_document(&mut self, doc_id: u64)
        requires
            old(self).wf(),
        ensures
            final(self).wf(),
            final(self).0@.len() == old(self).0@.len(),
            forall|j: int|
                0 <= j < old(self).0@.len() ==> {
                    &&& seg_like(
                        (#[trigger] final(self).0@[j]).original,
                        old(self).0@[j].original,
                    )
                    &&& final(self).0@[j].doc_ids@ == old(self).0@[j].doc_ids@
                    &&& final(self).0@[j].deleted@ == spec_marked(
                        old(self).0@[j].deleted@,
                        old(self).0@[j].doc_ids@,
                        doc_id,
                    )
                    &&& final(self).0@[j].is_modified == (old(self).0@[j].is_modified
                        || count_trues(final(self).0@[j].deleted@) > count_trues(
                        old(self).0@[j].deleted@,
                    ))
                },
    {
        let ghost orig = self.0@;
        let n = self.0.len();
        let mut out: Vec<MutableFragmentedSegmentMetadata> = Vec::new();
        while self.0.len() > 0
            invariant
                n == orig.len(),
                out@.len() + self.0@.len() == n,
                self.0@ == orig.subrange(out@.len() as int, n as int),
                forall|k: int| 0 <= k < n ==> (#[trigger] orig[k]).wf(),
                forall|k: int| 0 <= k < out@.len() ==> (#[trigger] out@[k]).wf(),
                forall|k: int|
                    0 <= k < out@.len() ==> {
                        &&& seg_like((#[trigger] out@[k]).original, orig[k].original)
                        &&& out@[k].doc_ids@ == orig[k].doc_ids@
                        &&& out@[k].deleted@ == spec_marked(
                            orig[k].deleted@,
                            orig[k].doc_ids@,
                            doc_id,
                        )
                        &&& out@[k].is_modified == (orig[k].is_modified || count_trues(
                            out@[k].deleted@,
                        ) > count_trues(orig[k].deleted@))
                    },
            decreases self.0@.len(),
        {
            let ghost done = out@.len() as int;
            let mut entry = self.0.remove(0);
            proof {
                assert(entry == orig[done]);
                assert(self.0@ =~= orig.subrange(done + 1, n as int));
            }
            entry.maybe_delete(doc_id);
            out.push(entry);
        }
        self.0 = out;
    }

    /// How many segments the working set holds.
    pub fn len(&self) -> (r: usize)
        ensures
            r == self.0@.len(),
    {
        self.0.len()
    }
}

} // verus!

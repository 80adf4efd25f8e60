//! The vector index kind: the concrete operations the generic build engine
//! needs from an index kind, specialized to fragmented vector segments.

use vstd::prelude::*;

use crate::blobs::{
    blob_bits, clone_segment, copy_words, count_true_bits, decode_bitset, encode_bitset,
    entry_backed, lemma_count_trues_all_false, lemma_loadable_extends, loaded_bits, loaded_ids,
    seg_loadable, store_extends,
};
use crate::config::{DeveloperVectorIndexConfig, IndexConfig, QdrantSchema, TabletIndexMetadata};
use crate::error::BuildError;
use crate::previous_segments::{
    count_trues, lemma_count_trues_bounds, lemma_count_trues_monotone, spec_marked,
    MutableFragmentedSegmentMetadata, PreviousVectorSegments,
};
use crate::segment::{seg_like, FragmentedVectorSegment};
use crate::state::{
    SearchOnDiskState, SearchSnapshot, VectorIndexSnapshotData, VectorIndexState,
};
use crate::storage::ObjectStore;

verus! {

/// Which kind of search index an engine instance serves.
#[derive(Clone, Copy, Debug, PartialEq, Eq, Structural)]
pub enum SearchType {
    /// Full-text search.
    Text,
    /// Vector search.
    Vector,
}

/// One entry of the document change log: a revision either supersedes the
/// document with a new vector or deletes it.
#[derive(Clone, Copy, Debug, PartialEq, Eq, Structural)]
pub struct DocumentRevision {
    /// The document the revision is about.
    pub document_id: u64,
    /// Whether the revision carries a new vector; a revision without one is
    /// a deletion.
    pub has_value: bool,
}

/// Policy knobs for building one new segment.
#[derive(Clone, Copy, Debug)]
pub struct BuildVectorIndexArgs {
    /// The maximum segment size at which it is reasonable to answer queries
    /// by scanning every vector individually; below it the new segment is
    /// left as a flat layout, above it an indexed structure is built.
    pub full_scan_threshold_bytes: usize,
}

/// The in-memory result of building one new segment, before upload.
#[derive(Clone, Debug)]
pub struct VectorDiskSegmentValues {
    /// The fresh segment's identifier.
    pub id: String,
    /// Document ids laid out in the segment, each exactly once.
    pub doc_ids: Vec<u64>,
    /// Whether an indexed structure was built rather than a flat layout.
    pub indexed: bool,
    /// Estimated on-disk footprint in bytes.
    pub size_bytes: u64,
}

/// Whether any revision of the stream is about `id`. Every such document is
/// tombstoned in the previous segments that hold it, because the revision
/// either deletes it or supersedes the copy those segments hold.
pub open spec fn stream_touches(revs: Seq<DocumentRevision>, id: u64) -> bool {
    exists|k: int| 0 <= k < revs.len() && (#[trigger] revs[k]).document_id == id
}

/// A segment bitset after tombstoning every document the stream touches.
pub open spec fn stream_marked(
    bits: Seq<bool>,
    ids: Seq<u64>,
    revs: Seq<DocumentRevision>,
) -> Seq<bool> {
    Seq::new(bits.len(), |i: int| bits[i] || stream_touches(revs, ids[i]))
}

/// The documents the new segment must hold: those whose latest revision in
/// the stream carries a value.
pub open spec fn merged_ids(revs: Seq<DocumentRevision>) -> Set<u64>
    decreases revs.len(),
{
    if revs.len() == 0 {
        Set::empty()
    } else {
        let prefix = merged_ids(revs.drop_last());
        if revs.last().has_value {
            prefix.insert(revs.last().document_id)
        } else {
            prefix.remove(revs.last().document_id)
        }
    }
}

/// Tombstoning one more revision's document extends the stream marking by
/// that revision.
pub proof fn lemma_stream_marked_step(
    bits: Seq<bool>,
    ids: Seq<u64>,
    revs: Seq<DocumentRevision>,
    k: int,
)
    requires
        bits.len() == ids.len(),
        0 <= k < revs.len(),
    ensures
        spec_marked(stream_marked(bits, ids, revs.take(k)), ids, revs[k].document_id)
            == stream_marked(bits, ids, revs.take(k + 1)),
{
    let lhs = spec_marked(stream_marked(bits, ids, revs.take(k)), ids, revs[k].document_id);
    let rhs = stream_marked(bits, ids, revs.take(k + 1));
    assert forall|i: int| 0 <= i < bits.len() implies lhs[i] == rhs[i] by {
        if stream_touches(revs.take(k), ids[i]) {
            let w = choose|j: int|
                0 <= j < revs.take(k).len() && (#[trigger] revs.take(k)[j]).document_id == ids[i];
            assert(revs.take(k + 1)[w].document_id == ids[i]);
        }
        if ids[i] == revs[k].document_id {
            assert(revs.take(k + 1)[k].document_id == ids[i]);
        }
        if stream_touches(revs.take(k + 1), ids[i]) {
            let w = choose|j: int|
                0 <= j < revs.take(k + 1).len() && (#[trigger] revs.take(k + 1)[j]).document_id
                    == ids[i];
            if w < k {
                assert(revs.take(k)[w].document_id == ids[i]);
            }
        }
    }
    assert(lhs =~= rhs);
}

/// The merged document set after one more revision.
pub proof fn lemma_merged_ids_step(revs: Seq<DocumentRevision>, k: int)
    requires
        0 <= k < revs.len(),
    ensures
        merged_ids(revs.take(k + 1)) == if revs[k].has_value {
            merged_ids(revs.take(k)).insert(revs[k].document_id)
        } else {
            merged_ids(revs.take(k)).remove(revs[k].document_id)
        },
{
    assert(revs.take(k + 1).drop_last() =~= revs.take(k));
    assert(revs.take(k + 1).last() == revs[k]);
}

/// Whether a word table holds `x`.
fn contains_id(v: &Vec<u64>, x: u64) -> (r: bool)
    ensures
        r == v@.contains(x),
{
    let n = v.len();
    let mut i: usize = 0;
    while i < n
        invariant
            i <= n,
            n == v@.len(),
            forall|j: int| 0 <= j < i ==> v@[j] != x,
        decreases n - i,
    {
        if v[i] == x {
            return true;
        }
        i = i + 1;
    }
    false
}

/// Removes the one occurrence of `x` from a duplicate-free table, if any.
fn remove_id(v: &mut Vec<u64>, x: u64)
    requires
        old(v)@.no_duplicates(),
    ensures
        final(v)@.no_duplicates(),
        final(v)@.len() <= old(v)@.len(),
        forall|y: u64| final(v)@.contains(y) <==> (old(v)@.contains(y) && y != x),
{
    let n = v.len();
    let mut i: usize = 0;
    while i < n
        invariant
            i <= n,
            n == v@.len(),
            v@ == old(v)@,
            v@.no_duplicates(),
            forall|j: int| 0 <= j < i ==> v@[j] != x,
        decreases n - i,
    {
        if v[i] == x {
            let ghost pre = v@;
            v.remove(i);
            proof {
                let r = pre.remove(i as int);
                pre.remove_ensures(i as int);
                assert(v@ == r);
                assert forall|y: u64| v@.contains(y) implies (pre.contains(y) && y != x) by {
                    let w = choose|j: int| 0 <= j < v@.len() && v@[j] == y;
                    if w < i as int {
                        assert(r[w] == pre[w]);
                        assert(pre[w] != pre[i as int]);
                    } else {
                        assert(r[w] == pre[w + 1]);
                        assert(pre[w + 1] != pre[i as int]);
                    }
                    assert(pre.contains(y));
                }
                assert forall|y: u64| pre.contains(y) && y != x implies v@.contains(y) by {
                    let w = choose|j: int| 0 <= j < pre.len() && pre[j] == y;
                    if w < i as int {
                        assert(r[w] == pre[w]);
                        assert(v@[w] == y);
                    } else {
                        assert(w != i as int);
                        assert(r[w - 1] == pre[w]);
                        assert(v@[w - 1] == y);
                    }
                }
                assert forall|p: int, q: int| 0 <= p < q < v@.len() implies v@[p] != v@[q] by {
                    let p2 = if p < i as int {
                        p
                    } else {
                        p + 1
                    };
                    let q2 = if q < i as int {
                        q
                    } else {
                        q + 1
                    };
                    assert(r[p] == pre[p2]);
                    assert(r[q] == pre[q2]);
                }
                assert(v@.no_duplicates());
            }
            return ;
        }
        i = i + 1;
    }
    proof {
        assert(!v@.contains(x));
    }
}

/// One index's entry in the database snapshot the scheduler consults.
#[derive(Clone, Debug)]
pub struct IndexRegistryEntry {
    /// The index's identifier.
    pub index_id: u64,
    /// Whether the index is enabled for serving.
    pub enabled: bool,
    /// The index's persisted lifecycle state.
    pub state: VectorIndexState,
}

/// The part of a database snapshot this engine reads: the vector index
/// registry.
#[derive(Clone, Debug)]
pub struct DbSnapshot {
    /// All vector indexes, in registry order.
    pub vector_indexes: Vec<IndexRegistryEntry>,
}

/// Sum that stops at the largest representable size.
pub open spec fn sat_add(a: u64, b: u64) -> u64 {
    if a + b <= u64::MAX {
        (a + b) as u64
    } else {
        u64::MAX
    }
}

/// Total on-disk bytes of a segment list, saturating.
pub open spec fn spec_segments_size(segs: Seq<FragmentedVectorSegment>) -> u64
    decreases segs.len(),
{
    if segs.len() == 0 {
        0
    } else {
        sat_add(spec_segments_size(segs.drop_last()), segs.last().size_bytes)
    }
}

/// Size of a backfilled index: the byte total of its snapshot's segments.
/// An index still backfilling reports nothing; a snapshot in an older,
/// opaque format reports zero.
pub open spec fn spec_backfilled_size(state: VectorIndexState) -> Option<u64> {
    match state {
        VectorIndexState::Backfilling(_) => None,
        VectorIndexState::Backfilled(s) => spec_snapshot_size(s.data),
        VectorIndexState::SnapshottedAt(s) => spec_snapshot_size(s.data),
    }
}

/// Size of a snapshot's data.
pub open spec fn spec_snapshot_size(data: VectorIndexSnapshotData) -> Option<u64> {
    match data {
        VectorIndexSnapshotData::MultiSegment(v) => Some(spec_segments_size(v@)),
        VectorIndexSnapshotData::Unknown(_) => Some(0),
    }
}

/// What `get_index_sizes` returns: one pair per enabled, backfilled index,
/// in registry order.
pub open spec fn spec_index_sizes(entries: Seq<IndexRegistryEntry>) -> Seq<(u64, u64)>
    decreases entries.len(),
{
    if entries.len() == 0 {
        Seq::empty()
    } else {
        let p = spec_index_sizes(entries.drop_last());
        let e = entries.last();
        if e.enabled {
            match spec_backfilled_size(e.state) {
                Some(sz) => p.push((e.index_id, sz)),
                None => p,
            }
        } else {
            p
        }
    }
}

/// Total on-disk bytes of a segment list, saturating at the largest
/// representable size.
pub fn segments_size(segs: &Vec<FragmentedVectorSegment>) -> (r: u64)
    ensures
        r == spec_segments_size(segs@),
{
    let mut sum: u64 = 0;
    let n = segs.len();
    let mut i: usize = 0;
    while i < n
        invariant
            i <= n,
            n == segs@.len(),
            sum == spec_segments_size(segs@.take(i as int)),
        decreases n - i,
    {
        proof {
            assert(segs@.take(i + 1).drop_last() =~= segs@.take(i as int));
            assert(segs@.take(i + 1).last() == segs@[i as int]);
        }
        let sz = segs[i].size_bytes;
        sum = if sum <= u64::MAX - sz {
            sum + sz
        } else {
            u64::MAX
        };
        i = i + 1;
    }
    proof {
        assert(segs@.take(n as int) =~= segs@);
    }
    sum
}

/// The vector index kind.
#[derive(Clone, Debug)]
pub struct VectorSearchIndex;

impl VectorSearchIndex {
    /// Derives the build schema from a developer config.
    pub fn new_schema(config: &DeveloperVectorIndexConfig) -> (r: QdrantSchema)
        ensures
            r.dimension == config.dimensions,
    {
        QdrantSchema::new(config)
    }

    /// Estimated on-disk size of one document's vector; every document of a
    /// schema costs the same.
    pub fn estimate_document_size(schema: &QdrantSchema, _doc: &DocumentRevision) -> (r: u64)
        ensures
            r == schema.spec_vector_size(),
    {
        schema.estimate_vector_size()
    }

    /// Whether a snapshot was written by the current engine version; if not,
    /// the next build must start from no previous segments.
    pub fn is_version_current(snapshot: &SearchSnapshot<FragmentedVectorSegment>) -> (r: bool)
        ensures
            r == (snapshot.data is MultiSegment),
    {
        snapshot.data.is_version_current()
    }

    /// Which kind this is.
    pub fn search_type() -> (r: SearchType)
        ensures
            r == SearchType::Vector,
    {
        SearchType::Vector
    }

    /// The byte size of every index that is both backfilled and enabled, in
    /// registry order, for the scheduler's build prioritization.
    pub fn get_index_sizes(snapshot: &DbSnapshot) -> (r: Vec<(u64, u64)>)
        ensures
            r@ == spec_index_sizes(snapshot.vector_indexes@),
    {
        let mut out: Vec<(u64, u64)> = Vec::new();
        let n = snapshot.vector_indexes.len();
        let ghost entries = snapshot.vector_indexes@;
        let mut i: usize = 0;
        while i < n
            invariant
                i <= n,
                n == entries.len(),
                entries == snapshot.vector_indexes@,
                out@ == spec_index_sizes(entries.take(i as int)),
            decreases n - i,
        {
            proof {
                assert(entries.take(i + 1).drop_last() =~= entries.take(i as int));
                assert(entries.take(i + 1).last() == entries[i as int]);
            }
            let e = &snapshot.vector_indexes[i];
            if e.enabled {
                match &e.state {
                    VectorIndexState::Backfilling(_) => {},
                    VectorIndexState::Backfilled(s) => match &s.data {
                        VectorIndexSnapshotData::MultiSegment(v) => {
                            let sz = segments_size(v);
                            out.push((e.index_id, sz));
                        },
                        VectorIndexSnapshotData::Unknown(_) => {
                            out.push((e.index_id, 0));
                        },
                    },
                    VectorIndexState::SnapshottedAt(s) => match &s.data {
                        VectorIndexSnapshotData::MultiSegment(v) => {
                            let sz = segments_size(v);
                            out.push((e.index_id, sz));
                        },
                        VectorIndexSnapshotData::Unknown(_) => {
                            out.push((e.index_id, 0));
                        },
                    },
                }
            }
            i = i + 1;
        }
        proof {
            assert(entries.take(n as int) =~= entries);
        }
        out
    }

    /// Splits a persisted record into developer config and working state;
    /// fails when the record no longer describes a vector index.
    pub fn extract_metadata(metadata: TabletIndexMetadata) -> (r: Result<
        (DeveloperVectorIndexConfig, SearchOnDiskState<FragmentedVectorSegment>),
        BuildError,
    >)
        ensures
            match r {
                Ok(p) => metadata.config matches IndexConfig::Vector { developer_config, on_disk_state }
                    && p.0 == developer_config && p.1 == SearchOnDiskState::spec_from_persisted(
                    on_disk_state,
                ),
                Err(e) => e == BuildError::IndexKindChanged && !(metadata.config is Vector),
            },
    {
        match metadata.config {
            IndexConfig::Vector { developer_config, on_disk_state } => Ok(
                (developer_config, SearchOnDiskState::from_persisted(on_disk_state)),
            ),
            _ => Err(BuildError::IndexKindChanged),
        }
    }

    /// Reassembles a persisted record from developer config and working
    /// state; fails exactly when the state holds single-segment data.
    pub fn new_index_config(
        developer_config: DeveloperVectorIndexConfig,
        new_state: SearchOnDiskState<FragmentedVectorSegment>,
    ) -> (r: Result<IndexConfig, BuildError>)
        ensures
            r == match new_state.spec_to_persisted() {
                Ok(st) => Ok(
                    IndexConfig::Vector { developer_config, on_disk_state: st },
                ),
                Err(e) => Err::<IndexConfig, BuildError>(e),
            },
    {
        match new_state.to_persisted() {
            Ok(on_disk_state) => Ok(IndexConfig::Vector { developer_config, on_disk_state }),
            Err(e) => Err(e),
        }
    }

    /// Materializes the working set for the given descriptors from the
    /// object store. Fails with [`BuildError::StorageIO`] exactly when some
    /// descriptor's blobs are missing or malformed.
    pub fn download_previous_segments(
        store: &ObjectStore,
        segments: &Vec<FragmentedVectorSegment>,
    ) -> (r: Result<PreviousVectorSegments, BuildError>)
        ensures
            match r {
                Ok(prev) => {
                    &&& forall|j: int|
                        0 <= j < segments@.len() ==> seg_loadable(
                            store.contents(),
                            #[trigger] segments@[j],
                        )
                    &&& prev.0@.len() == segments@.len()
                    &&& prev.wf()
                    &&& forall|j: int|
                        0 <= j < segments@.len() ==> {
                            &&& seg_like((#[trigger] prev.0@[j]).original, segments@[j])
                            &&& prev.0@[j].doc_ids@ == loaded_ids(store.contents(), segments@[j])
                            &&& prev.0@[j].deleted@ == loaded_bits(store.contents(), segments@[j])
                            &&& !prev.0@[j].is_modified
                            &&& entry_backed(store.contents(), prev.0@[j])
                        }
                },
                Err(e) => e == BuildError::StorageIO && !(forall|j: int|
                    0 <= j < segments@.len() ==> seg_loadable(
                        store.contents(),
                        #[trigger] segments@[j],
                    )),
            },
    {
        let mut out: Vec<MutableFragmentedSegmentMetadata> = Vec::new();
        let n = segments.len();
        let mut j: usize = 0;
        while j < n
            invariant
                j <= n,
                n == segments@.len(),
                out@.len() == j,
                forall|k: int|
                    0 <= k < j ==> seg_loadable(store.contents(), #[trigger] segments@[k]),
                forall|k: int|
                    0 <= k < j ==> {
                        &&& (#[trigger] out@[k]).wf()
                        &&& seg_like(out@[k].original, segments@[k])
                        &&& out@[k].doc_ids@ == loaded_ids(store.contents(), segments@[k])
                        &&& out@[k].deleted@ == loaded_bits(store.contents(), segments@[k])
                        &&& !out@[k].is_modified
                        &&& entry_backed(store.contents(), out@[k])
                    },
            decreases n - j,
        {
            let seg = &segments[j];
            let ids_blob = match store.download(seg.ids_key) {
                Ok(b) => b,
                Err(_) => {
                    return Err(BuildError::StorageIO);
                },
            };
            if ids_blob.len() != seg.num_vectors as usize {
                return Err(BuildError::StorageIO);
            }
            let bits_blob = match store.download(seg.bitset_key) {
                Ok(b) => b,
                Err(_) => {
                    return Err(BuildError::StorageIO);
                },
            };
            if bits_blob.len() != seg.num_vectors as usize {
                return Err(BuildError::StorageIO);
            }
            let bits = match decode_bitset(bits_blob) {
                Ok(b) => b,
                Err(_) => {
                    return Err(BuildError::StorageIO);
                },
            };
            let count = count_true_bits(&bits);
            if count != seg.num_deleted as u64 {
                return Err(BuildError::StorageIO);
            }
            let entry = MutableFragmentedSegmentMetadata {
                original: clone_segment(seg),
                doc_ids: copy_words(ids_blob),
                deleted: bits,
                is_modified: false,
            };
            out.push(entry);
            j = j + 1;
        }
        Ok(PreviousVectorSegments(out))
    }

    /// Uploads the working set's bitsets, returning the updated descriptors
    /// in the same order. Untouched segments keep their descriptor
    /// field-for-field; touched ones point at a freshly uploaded bitset and
    /// carry the new tombstone count. Existing blobs are never overwritten.
    pub fn upload_previous_segments(
        store: &mut ObjectStore,
        segments: PreviousVectorSegments,
    ) -> (r: Vec<FragmentedVectorSegment>)
        requires
            segments.wf(),
            forall|j: int|
                0 <= j < segments.0@.len() ==> entry_backed(
                    old(store).contents(),
                    #[trigger] segments.0@[j],
                ),
        ensures
            store_extends(old(store).contents(), final(store).contents()),
            r@.len() == segments.0@.len(),
            forall|j: int|
                0 <= j < segments.0@.len() ==> {
                    let m = #[trigger] segments.0@[j];
                    &&& r@[j].id@ == m.original.id@
                    &&& r@[j].num_vectors == m.original.num_vectors
                    &&& r@[j].size_bytes == m.original.size_bytes
                    &&& r@[j].ids_key == m.original.ids_key
                    &&& r@[j].num_deleted == count_trues(m.deleted@)
                    &&& seg_loadable(final(store).contents(), r@[j])
                    &&& loaded_ids(final(store).contents(), r@[j]) == m.doc_ids@
                    &&& loaded_bits(final(store).contents(), r@[j]) == m.deleted@
                    &&& (!m.is_modified ==> seg_like(r@[j], m.original))
                },
    {
        let ghost contents0 = store.contents();
        let ghost entries = segments.0@;
        let n = segments.0.len();
        let mut rest = segments.0;
        let mut out: Vec<FragmentedVectorSegment> = Vec::new();
        while rest.len() > 0
            invariant
                n == entries.len(),
                out@.len() + rest@.len() == n,
                rest@ == entries.subrange(out@.len() as int, n as int),
                forall|k: int| 0 <= k < n ==> (#[trigger] entries[k]).wf(),
                forall|k: int| 0 <= k < n ==> entry_backed(contents0, #[trigger] entries[k]),
                store_extends(contents0, store.contents()),
                forall|k: int|
                    0 <= k < out@.len() ==> {
                        let m = #[trigger] entries[k];
                        &&& out@[k].id@ == m.original.id@
                        &&& out@[k].num_vectors == m.original.num_vectors
                        &&& out@[k].size_bytes == m.original.size_bytes
                        &&& out@[k].ids_key == m.original.ids_key
                        &&& out@[k].num_deleted == count_trues(m.deleted@)
                        &&& seg_loadable(store.contents(), out@[k])
                        &&& loaded_ids(store.contents(), out@[k]) == m.doc_ids@
                        &&& loaded_bits(store.contents(), out@[k]) == m.deleted@
                        &&& (!m.is_modified ==> seg_like(out@[k], m.original))
                    },
            decreases rest@.len(),
        {
            let ghost done = out@.len() as int;
            let ghost pre_contents = store.contents();
            let m = rest.remove(0);
            proof {
                assert(m == entries[done]);
                assert(rest@ =~= entries.subrange(done + 1, n as int));
                assert(entries[done].wf());
                lemma_count_trues_bounds(m.deleted@);
            }
            let descriptor = if m.is_modified {
                let blob = encode_bitset(&m.deleted);
                let count = count_true_bits(&m.deleted);
                let ghost bv = blob@;
                let key = store.upload(blob);
                proof {
                    assert(store.contents() == pre_contents.push(bv));
                    assert forall|k2: int|
                        0 <= k2 < pre_contents.len() implies pre_contents[k2]
                        == #[trigger] store.contents()[k2] by {
                        assert(pre_contents.push(bv)[k2] == pre_contents[k2]);
                    }
                    assert(store.contents()[key as int] == bv);
                }
                FragmentedVectorSegment {
                    id: m.original.id,
                    num_vectors: m.original.num_vectors,
                    num_deleted: count as u32,
                    size_bytes: m.original.size_bytes,
                    ids_key: m.original.ids_key,
                    bitset_key: key,
                }
            } else {
                m.original
            };
            proof {
                assert(store_extends(pre_contents, store.contents()));
                assert(store_extends(contents0, store.contents()));
                assert forall|k: int|
                    0 <= k < done implies seg_loadable(store.contents(), out@[k]) && loaded_ids(
                    store.contents(),
                    out@[k],
                ) == (#[trigger] entries[k]).doc_ids@ && loaded_bits(store.contents(), out@[k])
                    == entries[k].deleted@ by {
                    assert((#[trigger] entries[k]).wf());
                    assert(seg_loadable(pre_contents, out@[k]));
                    lemma_loadable_extends(pre_contents, store.contents(), out@[k]);
                }
                let m0 = entries[done];
                assert(entry_backed(contents0, m0));
                assert(store.contents()[m0.original.ids_key as int] == contents0[m0.original.ids_key
                    as int]);
                if !m0.is_modified {
                    assert(store.contents()[m0.original.bitset_key as int]
                        == contents0[m0.original.bitset_key as int]);
                }
                lemma_count_trues_bounds(m0.deleted@);
            }
            out.push(descriptor);
        }
        proof {
            assert(entries.subrange(n as int, n as int).len() == 0);
        }
        out
    }

    /// Uploads a freshly built segment's tables and returns its descriptor:
    /// all rows live, tombstone count zero.
    pub fn upload_new_segment(store: &mut ObjectStore, new_segment: VectorDiskSegmentValues) -> (r:
        FragmentedVectorSegment)
        requires
            new_segment.doc_ids@.len() <= u32::MAX,
        ensures
            store_extends(old(store).contents(), final(store).contents()),
            r.id@ == new_segment.id@,
            r.num_vectors == new_segment.doc_ids@.len(),
            r.num_deleted == 0,
            r.size_bytes == new_segment.size_bytes,
            seg_loadable(final(store).contents(), r),
            loaded_ids(final(store).contents(), r) == new_segment.doc_ids@,
            loaded_bits(final(store).contents(), r) == Seq::new(
                new_segment.doc_ids@.len(),
                |i: int| false,
            ),
    {
        let n = new_segment.doc_ids.len();
        let ghost ids = new_segment.doc_ids@;
        let mut zeros: Vec<u64> = Vec::new();
        let mut i: usize = 0;
        while i < n
            invariant
                i <= n,
                zeros@.len() == i,
                forall|j: int| 0 <= j < i ==> #[trigger] zeros@[j] == 0,
            decreases n - i,
        {
            zeros.push(0);
            i = i + 1;
        }
        let ghost contents0 = store.contents();
        let ghost zeros_view = zeros@;
        let ids_key = store.upload(new_segment.doc_ids);
        let ghost contents1 = store.contents();
        let bitset_key = store.upload(zeros);
        proof {
            assert(contents1 == contents0.push(ids));
            assert(store.contents() == contents1.push(zeros_view));
            assert(store.contents()[ids_key as int] == ids);
            assert(store.contents()[bitset_key as int] == zeros_view);
            assert forall|k2: int|
                0 <= k2 < contents0.len() implies contents0[k2] == #[trigger] store.contents()[k2]
                by {
                assert(contents1[k2] == contents0.push(ids)[k2]);
                assert(store.contents()[k2] == contents1.push(zeros_view)[k2]);
            }
            lemma_count_trues_all_false(blob_bits(store.contents()[bitset_key as int]));
            assert(blob_bits(store.contents()[bitset_key as int]) =~= Seq::new(
                ids.len(),
                |i: int| false,
            ));
        }
        FragmentedVectorSegment {
            id: new_segment.id,
            num_vectors: n as u32,
            num_deleted: 0,
            size_bytes: new_segment.size_bytes,
            ids_key,
            bitset_key,
        }
    }

    /// Merges the change stream into the index's working data: every touched
    /// document is tombstoned in the previous segments that hold it, and the
    /// documents whose latest revision carries a value become one new
    /// segment. Returns nothing when only deletions remain, so a pure-delete
    /// cycle writes no new segment.
    ///
    /// Whether the new segment gets an indexed structure or a flat layout is
    /// decided here: flat exactly when the estimated size stays at or below
    /// the full-scan threshold.
    pub fn build_disk_index(
        schema: &QdrantSchema,
        revisions: &Vec<DocumentRevision>,
        previous_segments: &mut PreviousVectorSegments,
        args: BuildVectorIndexArgs,
        new_segment_id: String,
    ) -> (r: Option<VectorDiskSegmentValues>)
        requires
            old(previous_segments).wf(),
        ensures
            final(previous_segments).wf(),
            final(previous_segments).0@.len() == old(previous_segments).0@.len(),
            forall|j: int|
                0 <= j < old(previous_segments).0@.len() ==> {
                    let m0 = #[trigger] old(previous_segments).0@[j];
                    let m1 = final(previous_segments).0@[j];
                    &&& seg_like(m1.original, m0.original)
                    &&& m1.doc_ids@ == m0.doc_ids@
                    &&& m1.deleted@ == stream_marked(m0.deleted@, m0.doc_ids@, revisions@)
                    &&& m1.is_modified == (m0.is_modified || count_trues(m1.deleted@)
                        > count_trues(m0.deleted@))
                },
            match r {
                None => merged_ids(revisions@) =~= Set::<u64>::empty(),
                Some(n) => {
                    &&& 0 < n.doc_ids@.len() <= revisions@.len()
                    &&& n.doc_ids@.no_duplicates()
                    &&& (forall|x: u64|
                        merged_ids(revisions@).contains(x) <==> n.doc_ids@.contains(x))
                    &&& n.id@ == new_segment_id@
                    &&& n.size_bytes == if n.doc_ids@.len() * schema.spec_vector_size()
                        <= u64::MAX {
                        (n.doc_ids@.len() * schema.spec_vector_size()) as u64
                    } else {
                        u64::MAX
                    }
                    &&& n.indexed == (n.doc_ids@.len() * schema.spec_vector_size()
                        > args.full_scan_threshold_bytes)
                },
            },
    {
        let ghost entries0 = previous_segments.0@;
        let nrev = revisions.len();
        let mut memtable: Vec<u64> = Vec::new();
        let mut k: usize = 0;
        while k < nrev
            invariant
                k <= nrev,
                nrev == revisions@.len(),
                previous_segments.wf(),
                previous_segments.0@.len() == entries0.len(),
                forall|j: int| 0 <= j < entries0.len() ==> (#[trigger] entries0[j]).wf(),
                memtable@.no_duplicates(),
                memtable@.len() <= k,
                forall|x: u64|
                    merged_ids(revisions@.take(k as int)).contains(x) <==> memtable@.contains(x),
                forall|j: int|
                    0 <= j < entries0.len() ==> {
                        let m0 = #[trigger] entries0[j];
                        let m1 = previous_segments.0@[j];
                        &&& seg_like(m1.original, m0.original)
                        &&& m1.doc_ids@ == m0.doc_ids@
                        &&& m1.deleted@ == stream_marked(
                            m0.deleted@,
                            m0.doc_ids@,
                            revisions@.take(k as int),
                        )
                        &&& m1.is_modified == (m0.is_modified || count_trues(m1.deleted@)
                            > count_trues(m0.deleted@))
                    },
            decreases nrev - k,
        {
            let rev = revisions[k];
            let ghost mid = previous_segments.0@;
            previous_segments.maybe_delete_document(rev.document_id);
            proof {
                assert forall|j: int| 0 <= j < entries0.len() implies {
                    let m0 = #[trigger] entries0[j];
                    let m1 = previous_segments.0@[j];
                    &&& seg_like(m1.original, m0.original)
                    &&& m1.doc_ids@ == m0.doc_ids@
                    &&& m1.deleted@ == stream_marked(
                        m0.deleted@,
                        m0.doc_ids@,
                        revisions@.take(k + 1),
                    )
                    &&& m1.is_modified == (m0.is_modified || count_trues(m1.deleted@)
                        > count_trues(m0.deleted@))
                } by {
                    let m0 = entries0[j];
                    let mm = mid[j];
                    let m1 = previous_segments.0@[j];
                    lemma_stream_marked_step(m0.deleted@, m0.doc_ids@, revisions@, k as int);
                    assert(m1.deleted@ == spec_marked(mm.deleted@, mm.doc_ids@, rev.document_id));
                    lemma_count_trues_monotone(
                        m0.deleted@,
                        stream_marked(m0.deleted@, m0.doc_ids@, revisions@.take(k as int)),
                    );
                    lemma_count_trues_monotone(mm.deleted@, m1.deleted@);
                }
            }
            let ghost pre_mem = memtable@;
            if rev.has_value {
                if !contains_id(&memtable, rev.document_id) {
                    memtable.push(rev.document_id);
                    proof {
                        assert forall|p: int, q: int|
                            0 <= p < q < memtable@.len() implies memtable@[p] != memtable@[q] by {
                            if q == pre_mem.len() as int {
                                assert(memtable@[p] == pre_mem[p]);
                                assert(pre_mem.contains(pre_mem[p]));
                                assert(memtable@[q] == rev.document_id);
                            }
                        }
                        assert(memtable@.no_duplicates());
                        assert forall|x: u64|
                            memtable@.contains(x) <==> (pre_mem.contains(x) || x
                                == rev.document_id) by {
                            if memtable@.contains(x) {
                                let w = choose|j: int|
                                    0 <= j < memtable@.len() && memtable@[j] == x;
                                if w < pre_mem.len() as int {
                                    assert(pre_mem[w] == x);
                                    assert(pre_mem.contains(x));
                                }
                            }
                            if pre_mem.contains(x) {
                                let w = choose|j: int| 0 <= j < pre_mem.len() && pre_mem[j] == x;
                                assert(memtable@[w] == x);
                            }
                            assert(memtable@[pre_mem.len() as int] == rev.document_id);
                        }
                    }
                } else {
                    proof {
                        assert(pre_mem.contains(rev.document_id));
                    }
                }
            } else {
                remove_id(&mut memtable, rev.document_id);
            }
            proof {
                lemma_merged_ids_step(revisions@, k as int);
                assert forall|x: u64|
                    merged_ids(revisions@.take(k + 1)).contains(x)
                        <==> memtable@.contains(x) by {
                    assert(merged_ids(revisions@.take(k as int)).contains(x)
                        <==> pre_mem.contains(x));
                }
            }
            k = k + 1;
        }
        proof {
            assert(revisions@.take(nrev as int) =~= revisions@);
        }
        if memtable.len() == 0 {
            proof {
                assert forall|x: u64| !merged_ids(revisions@).contains(x) by {
                    assert(!memtable@.contains(x));
                }
            }
            return None;
        }
        let len = memtable.len();
        let est = schema.estimate_vector_size();
        let (size_bytes, indexed) = match (len as u64).checked_mul(est) {
            Some(total) => (total, total > args.full_scan_threshold_bytes as u64),
            None => (u64::MAX, true),
        };
        Some(
            VectorDiskSegmentValues {
                id: new_segment_id,
                doc_ids: memtable,
                indexed,
                size_bytes,
            },
        )
    }
}

} // verus!

//! The build pipeline: one cycle reconciles the document change log against
//! an index's persisted state and publishes a new consistent record.
//!
//! A cycle runs: extract the vector config → check the snapshot's engine
//! version → materialize previous segments → merge the change stream
//! (tombstones into previous segments, inserts into one new segment) →
//! upload → fold statistics → transition the lifecycle state → publish by
//! compare-and-swap. The only durable metadata write is the final swap, so
//! every failure leaves the persisted index state untouched.

use vstd::prelude::*;

use crate::blobs::{
    lemma_count_trues_pointwise_equal, loaded_bits, loaded_ids, seg_loadable, store_extends,
};
use crate::config::{
    DeveloperVectorIndexConfig, IndexConfig, TabletIndexMetadata, VECTOR_COORDINATE_BYTES,
};
use crate::error::BuildError;
use crate::previous_segments::count_trues;
use crate::segment::{seg_like, FragmentedVectorSegment, VectorStatistics};
use crate::state::{BackfillState, SearchOnDiskState, SearchSnapshot, SnapshotData, VectorIndexState};
use crate::storage::{IndexMetadataStore, ObjectStore};
use crate::vector_index::{
    merged_ids, stream_marked, BuildVectorIndexArgs, DocumentRevision, VectorSearchIndex,
};

verus! {

/// The segment list a build starts from: a backfill's accumulated segments,
/// a current-version snapshot's segments, or nothing when the snapshot was
/// written by another engine version and must be rebuilt from scratch.
pub open spec fn spec_effective_segments(state: SearchOnDiskState<FragmentedVectorSegment>) -> Seq<
    FragmentedVectorSegment,
> {
    match state {
        SearchOnDiskState::Backfilling(b) => b.segments@,
        SearchOnDiskState::Backfilled(s) => spec_snapshot_segments(s.data),
        SearchOnDiskState::SnapshottedAt(s) => spec_snapshot_segments(s.data),
    }
}

/// The segments a working snapshot's data holds, when its version is
/// current.
pub open spec fn spec_snapshot_segments(data: SnapshotData<FragmentedVectorSegment>) -> Seq<
    FragmentedVectorSegment,
> {
    match data {
        SnapshotData::MultiSegment(v) => v@,
        _ => Seq::empty(),
    }
}

/// The timestamp a backfill is building towards, if the state is a
/// backfill.
pub open spec fn spec_backfill_ts(state: SearchOnDiskState<FragmentedVectorSegment>) -> Option<
    u64,
> {
    match state {
        SearchOnDiskState::Backfilling(b) => b.backfill_snapshot_ts,
        _ => None,
    }
}

/// The vector configuration a persisted record holds, if it still describes
/// a vector index.
pub open spec fn spec_vector_config(m: TabletIndexMetadata) -> Option<
    (DeveloperVectorIndexConfig, VectorIndexState),
> {
    match m.config {
        IndexConfig::Vector { developer_config, on_disk_state } => Some(
            (developer_config, on_disk_state),
        ),
        _ => None,
    }
}

/// The working state an observed record describes, when it is a vector
/// index.
pub open spec fn spec_observed_working(observed: TabletIndexMetadata) -> SearchOnDiskState<
    FragmentedVectorSegment,
> {
    SearchOnDiskState::spec_from_persisted(spec_vector_config(observed).unwrap().1)
}

/// The segments a cycle over the observed record starts from.
pub open spec fn spec_observed_segments(observed: TabletIndexMetadata) -> Seq<
    FragmentedVectorSegment,
> {
    spec_effective_segments(spec_observed_working(observed))
}

/// The backfill cursor of the observed record, if it is backfilling.
pub open spec fn spec_old_cursor(observed: TabletIndexMetadata) -> Option<u64> {
    match spec_vector_config(observed) {
        Some(p) => match p.1 {
            VectorIndexState::Backfilling(b) => b.cursor,
            _ => None,
        },
        None => None,
    }
}

/// Whether every segment the cycle starts from can be materialized from the
/// store.
pub open spec fn all_loadable(
    c: Seq<Seq<u64>>,
    segs: Seq<FragmentedVectorSegment>,
) -> bool {
    forall|j: int| 0 <= j < segs.len() ==> seg_loadable(c, #[trigger] segs[j])
}

/// Whether the stream leaves nothing for a new segment: no document's
/// latest revision carries a value.
pub open spec fn no_new_data(revs: Seq<DocumentRevision>) -> bool {
    forall|x: u64| !merged_ids(revs).contains(x)
}

/// Cursor order, where an absent cursor precedes every cursor.
pub open spec fn cursor_leq(a: Option<u64>, b: Option<u64>) -> bool {
    match a {
        None => true,
        Some(x) => match b {
            Some(y) => x <= y,
            None => false,
        },
    }
}

/// How one previous segment's descriptor comes out of a cycle: identity,
/// row count, data table and size unchanged; the bitset extended by exactly
/// the documents the stream touches; and, when nothing was tombstoned, the
/// descriptor untouched field for field.
pub open spec fn updated_prev_ok(
    c0: Seq<Seq<u64>>,
    c_f: Seq<Seq<u64>>,
    s0: FragmentedVectorSegment,
    s1: FragmentedVectorSegment,
    revs: Seq<DocumentRevision>,
) -> bool {
    let ids = loaded_ids(c0, s0);
    let bits1 = stream_marked(loaded_bits(c0, s0), ids, revs);
    &&& s1.id@ == s0.id@
    &&& s1.num_vectors == s0.num_vectors
    &&& s1.size_bytes == s0.size_bytes
    &&& s1.ids_key == s0.ids_key
    &&& s1.num_deleted == count_trues(bits1)
    &&& seg_loadable(c_f, s1)
    &&& loaded_ids(c_f, s1) == ids
    &&& loaded_bits(c_f, s1) == bits1
    &&& (bits1 == loaded_bits(c0, s0) ==> seg_like(s1, s0))
}

/// How a cycle's new segment looks: the caller's fresh id, no tombstones,
/// exactly the stream's surviving documents laid out once each, and the
/// size-estimate policy applied.
pub open spec fn new_seg_ok(
    c_f: Seq<Seq<u64>>,
    s: FragmentedVectorSegment,
    revs: Seq<DocumentRevision>,
    new_id: Seq<char>,
    vsize: u64,
) -> bool {
    &&& s.id@ == new_id
    &&& s.num_deleted == 0
    &&& 0 < s.num_vectors
    &&& seg_loadable(c_f, s)
    &&& loaded_ids(c_f, s).no_duplicates()
    &&& (forall|x: u64| loaded_ids(c_f, s).contains(x) <==> merged_ids(revs).contains(x))
    &&& loaded_bits(c_f, s) == Seq::new(s.num_vectors as nat, |i: int| false)
    &&& s.size_bytes == if s.num_vectors * vsize <= u64::MAX {
        (s.num_vectors * vsize) as u64
    } else {
        u64::MAX
    }
}

/// How a whole cycle's segment list relates to what it started from: every
/// previous segment updated in place and in order, plus one new segment at
/// the end exactly when the stream left documents to lay out.
pub open spec fn cycle_segments_ok(
    c0: Seq<Seq<u64>>,
    c_f: Seq<Seq<u64>>,
    segs0: Seq<FragmentedVectorSegment>,
    revs: Seq<DocumentRevision>,
    new_id: Seq<char>,
    vsize: u64,
    segs_f: Seq<FragmentedVectorSegment>,
) -> bool {
    &&& store_extends(c0, c_f)
    &&& segs_f.len() == segs0.len() + if no_new_data(revs) {
        0int
    } else {
        1int
    }
    &&& forall|j: int|
        0 <= j < segs0.len() ==> updated_prev_ok(c0, c_f, #[trigger] segs0[j], segs_f[j], revs)
    &&& (!no_new_data(revs) ==> new_seg_ok(c_f, segs_f.last(), revs, new_id, vsize))
}

/// The lifecycle transition of one successful cycle: a backfill that has
/// not drained the log stays backfilling with an advanced cursor; a drained
/// backfill becomes a complete snapshot awaiting promotion; every build on
/// top of a complete snapshot serves a fresh snapshot.
pub open spec fn next_state_ok(
    old_state: SearchOnDiskState<FragmentedVectorSegment>,
    new_state: SearchOnDiskState<FragmentedVectorSegment>,
    segs: Seq<FragmentedVectorSegment>,
    log_drained: bool,
    new_cursor: u64,
    new_ts: u64,
) -> bool {
    match old_state {
        SearchOnDiskState::Backfilling(b0) => if !log_drained {
            match new_state {
                SearchOnDiskState::Backfilling(b1) => b1.segments@ == segs && b1.cursor == Some(
                    new_cursor,
                ) && b1.backfill_snapshot_ts == b0.backfill_snapshot_ts,
                _ => false,
            }
        } else {
            match new_state {
                SearchOnDiskState::Backfilled(s) => s.ts == new_ts && fresh_snapshot_data(
                    s.data,
                    segs,
                ),
                _ => false,
            }
        },
        _ => match new_state {
            SearchOnDiskState::SnapshottedAt(s) => s.ts == new_ts && fresh_snapshot_data(
                s.data,
                segs,
            ),
            _ => false,
        },
    }
}

/// Whether snapshot data is exactly the given multi-segment list.
pub open spec fn fresh_snapshot_data(
    data: SnapshotData<FragmentedVectorSegment>,
    segs: Seq<FragmentedVectorSegment>,
) -> bool {
    match data {
        SnapshotData::MultiSegment(v) => v@ == segs,
        _ => false,
    }
}

/// The tombstone count a previous segment carries once the stream is
/// applied to it.
pub open spec fn spec_marked_count(
    c0: Seq<Seq<u64>>,
    s0: FragmentedVectorSegment,
    revs: Seq<DocumentRevision>,
) -> int {
    count_trues(stream_marked(loaded_bits(c0, s0), loaded_ids(c0, s0), revs))
}

/// The statistics a previous segment reports after the cycle, from the
/// store contents and the stream alone.
pub open spec fn spec_prev_statistics(
    c0: Seq<Seq<u64>>,
    s0: FragmentedVectorSegment,
    revs: Seq<DocumentRevision>,
) -> Result<VectorStatistics, BuildError> {
    if spec_marked_count(c0, s0, revs) <= s0.num_vectors {
        Ok(
            VectorStatistics {
                num_vectors: s0.num_vectors,
                non_deleted_vectors: (s0.num_vectors - spec_marked_count(c0, s0, revs)) as u64,
            },
        )
    } else {
        Err(BuildError::StatisticsAggregationFailure)
    }
}

/// The statistics fold over the updated previous segments, from inputs
/// alone.
pub open spec fn spec_prev_aggregate(
    c0: Seq<Seq<u64>>,
    segs0: Seq<FragmentedVectorSegment>,
    revs: Seq<DocumentRevision>,
) -> Result<VectorStatistics, BuildError>
    decreases segs0.len(),
{
    if segs0.len() == 0 {
        Ok(VectorStatistics { num_vectors: 0, non_deleted_vectors: 0 })
    } else {
        VectorStatistics::spec_add(
            spec_prev_aggregate(c0, segs0.drop_last(), revs),
            spec_prev_statistics(c0, segs0.last(), revs),
        )
    }
}

/// The statistics a whole cycle reports, from inputs alone: the fold over
/// the updated previous segments, plus the fresh segment's documents when
/// the stream leaves any.
pub open spec fn spec_cycle_statistics(
    c0: Seq<Seq<u64>>,
    segs0: Seq<FragmentedVectorSegment>,
    revs: Seq<DocumentRevision>,
) -> Result<VectorStatistics, BuildError> {
    if no_new_data(revs) {
        spec_prev_aggregate(c0, segs0, revs)
    } else {
        VectorStatistics::spec_add(
            spec_prev_aggregate(c0, segs0, revs),
            Ok(
                VectorStatistics {
                    num_vectors: merged_ids(revs).len() as u32,
                    non_deleted_vectors: merged_ids(revs).len() as u64,
                },
            ),
        )
    }
}

/// A fold over descriptors whose statistics agree pointwise with the
/// closed-form previous-segment statistics agrees with their fold.
proof fn lemma_prev_fold(
    c0: Seq<Seq<u64>>,
    segs0: Seq<FragmentedVectorSegment>,
    revs: Seq<DocumentRevision>,
    a: Seq<FragmentedVectorSegment>,
)
    requires
        a.len() == segs0.len(),
        forall|j: int|
            0 <= j < a.len() ==> (#[trigger] a[j]).spec_statistics() == spec_prev_statistics(
                c0,
                segs0[j],
                revs,
            ),
    ensures
        spec_aggregate(a) == spec_prev_aggregate(c0, segs0, revs),
    decreases a.len(),
{
    if a.len() > 0 {
        lemma_prev_fold(c0, segs0.drop_last(), revs, a.drop_last());
    }
}

/// The statistics of a cycle's outcome are a function of its inputs: the
/// fold over the published segment list equals the closed form.
pub proof fn lemma_cycle_statistics(
    c0: Seq<Seq<u64>>,
    c_f: Seq<Seq<u64>>,
    segs0: Seq<FragmentedVectorSegment>,
    revs: Seq<DocumentRevision>,
    new_id: Seq<char>,
    vsize: u64,
    segs_f: Seq<FragmentedVectorSegment>,
)
    requires
        all_loadable(c0, segs0),
        cycle_segments_ok(c0, c_f, segs0, revs, new_id, vsize, segs_f),
    ensures
        spec_aggregate(segs_f) == spec_cycle_statistics(c0, segs0, revs),
{
    let prev_part = if no_new_data(revs) {
        segs_f
    } else {
        segs_f.drop_last()
    };
    assert(prev_part.len() == segs0.len());
    assert forall|j: int|
        0 <= j < prev_part.len() implies (#[trigger] prev_part[j]).spec_statistics()
        == spec_prev_statistics(c0, segs0[j], revs) by {
        assert(updated_prev_ok(c0, c_f, segs0[j], segs_f[j], revs));
        assert(seg_loadable(c0, segs0[j]));
        let bits1 = stream_marked(
            loaded_bits(c0, segs0[j]),
            loaded_ids(c0, segs0[j]),
            revs,
        );
        crate::previous_segments::lemma_count_trues_bounds(bits1);
    }
    lemma_prev_fold(c0, segs0, revs, prev_part);
    if !no_new_data(revs) {
        let new_seg = segs_f.last();
        assert(new_seg_ok(c_f, new_seg, revs, new_id, vsize));
        let ids = loaded_ids(c_f, new_seg);
        ids.unique_seq_to_set();
        assert(ids.to_set() =~= merged_ids(revs));
        assert(merged_ids(revs).len() == ids.len());
        assert(new_seg.spec_statistics() == Ok::<VectorStatistics, BuildError>(
            VectorStatistics {
                num_vectors: merged_ids(revs).len() as u32,
                non_deleted_vectors: merged_ids(revs).len() as u64,
            },
        ));
        assert(segs_f.drop_last() == prev_part);
    }
}

/// The lifecycle state machine admits no other moves: from `Backfilling`
/// only `Backfilling` — with the same or an advanced cursor — or
/// `Backfilled` is reachable; from `Backfilled` and `SnapshottedAt` only
/// `SnapshottedAt`; and no transition reaches `Backfilling` from a
/// non-backfilling state.
pub proof fn lemma_state_machine_reachability(
    old_state: SearchOnDiskState<FragmentedVectorSegment>,
    new_state: SearchOnDiskState<FragmentedVectorSegment>,
    segs: Seq<FragmentedVectorSegment>,
    log_drained: bool,
    new_cursor: u64,
    new_ts: u64,
)
    requires
        next_state_ok(old_state, new_state, segs, log_drained, new_cursor, new_ts),
        old_state matches SearchOnDiskState::Backfilling(b0) ==> cursor_leq(
            b0.cursor,
            Some(new_cursor),
        ),
    ensures
        old_state is Backfilling ==> (new_state is Backfilling || new_state is Backfilled),
        !(old_state is Backfilling) ==> new_state is SnapshottedAt,
        new_state is Backfilling ==> old_state is Backfilling,
        match (old_state, new_state) {
            (
                SearchOnDiskState::Backfilling(b0),
                SearchOnDiskState::Backfilling(b1),
            ) => cursor_leq(b0.cursor, b1.cursor),
            _ => true,
        },
{
}

/// A cycle over an empty change stream is a no-op on the data: the segment
/// list comes out field-for-field identical and the statistics unchanged;
/// only cursor and timestamp advance.
pub proof fn lemma_noop_cycle_preserves_segments(
    c0: Seq<Seq<u64>>,
    c_f: Seq<Seq<u64>>,
    segs0: Seq<FragmentedVectorSegment>,
    new_id: Seq<char>,
    vsize: u64,
    segs_f: Seq<FragmentedVectorSegment>,
)
    requires
        cycle_segments_ok(c0, c_f, segs0, Seq::empty(), new_id, vsize, segs_f),
    ensures
        segs_f.len() == segs0.len(),
        forall|j: int| 0 <= j < segs0.len() ==> seg_like(#[trigger] segs_f[j], segs0[j]),
        spec_aggregate(segs_f) == spec_aggregate(segs0),
{
    let revs = Seq::<DocumentRevision>::empty();
    assert(no_new_data(revs));
    assert forall|j: int| 0 <= j < segs0.len() implies seg_like(
        #[trigger] segs_f[j],
        segs0[j],
    ) by {
        let ids = loaded_ids(c0, segs0[j]);
        let bits0 = loaded_bits(c0, segs0[j]);
        assert(updated_prev_ok(c0, c_f, segs0[j], segs_f[j], revs));
        assert(stream_marked(bits0, ids, revs) =~= bits0);
    }
    lemma_aggregate_congruence(segs_f, segs0);
}

/// Tombstones only accumulate: across any build cycle, a previous
/// segment's persisted tombstone count never decreases.
pub proof fn lemma_tombstones_monotone_across_cycle(
    c0: Seq<Seq<u64>>,
    c_f: Seq<Seq<u64>>,
    s0: FragmentedVectorSegment,
    s1: FragmentedVectorSegment,
    revs: Seq<DocumentRevision>,
)
    requires
        seg_loadable(c0, s0),
        updated_prev_ok(c0, c_f, s0, s1, revs),
    ensures
        s1.num_deleted >= s0.num_deleted,
{
    let ids = loaded_ids(c0, s0);
    let bits0 = loaded_bits(c0, s0);
    crate::previous_segments::lemma_count_trues_monotone(
        bits0,
        stream_marked(bits0, ids, revs),
    );
}

/// Statistics are computed from descriptor fields alone, so field-for-field
/// equal segment lists fold to the same statistics.
pub proof fn lemma_aggregate_congruence(
    a: Seq<FragmentedVectorSegment>,
    b: Seq<FragmentedVectorSegment>,
)
    requires
        a.len() == b.len(),
        forall|j: int| 0 <= j < a.len() ==> seg_like(#[trigger] a[j], b[j]),
    ensures
        spec_aggregate(a) == spec_aggregate(b),
    decreases a.len(),
{
    if a.len() > 0 {
        lemma_aggregate_congruence(a.drop_last(), b.drop_last());
        assert(seg_like(a.last(), b.last()));
        assert(a.last().spec_statistics() == b.last().spec_statistics());
    }
}

/// What folding statistics over a segment list yields.
pub open spec fn spec_aggregate(segs: Seq<FragmentedVectorSegment>) -> Result<
    VectorStatistics,
    BuildError,
>
    decreases segs.len(),
{
    if segs.len() == 0 {
        Ok(VectorStatistics { num_vectors: 0, non_deleted_vectors: 0 })
    } else {
        VectorStatistics::spec_add(
            spec_aggregate(segs.drop_last()),
            segs.last().spec_statistics(),
        )
    }
}

/// Folds every segment's statistics; any segment's failure, or an overflow,
/// fails the whole aggregation.
pub fn aggregate_statistics(segments: &Vec<FragmentedVectorSegment>) -> (r: Result<
    VectorStatistics,
    BuildError,
>)
    ensures
        r == spec_aggregate(segments@),
{
    let mut acc: Result<VectorStatistics, BuildError> = Ok(
        VectorStatistics { num_vectors: 0, non_deleted_vectors: 0 },
    );
    let n = segments.len();
    let mut i: usize = 0;
    while i < n
        invariant
            i <= n,
            n == segments@.len(),
            acc == spec_aggregate(segments@.take(i as int)),
        decreases n - i,
    {
        proof {
            assert(segments@.take(i + 1).drop_last() =~= segments@.take(i as int));
            assert(segments@.take(i + 1).last() == segments@[i as int]);
        }
        acc = VectorStatistics::add(acc, segments[i].statistics());
        i = i + 1;
    }
    proof {
        assert(segments@.take(n as int) =~= segments@);
    }
    acc
}

/// From a working state, the segments to build from plus what the
/// transition at the end of the cycle needs to know.
fn segments_to_build_from(state: SearchOnDiskState<FragmentedVectorSegment>) -> (r: (
    Vec<FragmentedVectorSegment>,
    bool,
    Option<u64>,
))
    ensures
        r.0@ == spec_effective_segments(state),
        r.1 == (state is Backfilling),
        r.2 == spec_backfill_ts(state),
{
    match state {
        SearchOnDiskState::Backfilling(b) => (b.segments, true, b.backfill_snapshot_ts),
        SearchOnDiskState::Backfilled(s) => match s.data {
            SnapshotData::MultiSegment(v) => (v, false, None),
            _ => (Vec::new(), false, None),
        },
        SearchOnDiskState::SnapshottedAt(s) => match s.data {
            SnapshotData::MultiSegment(v) => (v, false, None),
            _ => (Vec::new(), false, None),
        },
    }
}

/// Composes the working state a successful cycle persists.
fn build_next_state(
    was_backfilling: bool,
    backfill_ts: Option<u64>,
    segments: Vec<FragmentedVectorSegment>,
    log_drained: bool,
    new_cursor: u64,
    new_ts: u64,
) -> (r: SearchOnDiskState<FragmentedVectorSegment>)
    ensures
        if was_backfilling && !log_drained {
            match r {
                SearchOnDiskState::Backfilling(b1) => b1.segments@ == segments@ && b1.cursor
                    == Some(new_cursor) && b1.backfill_snapshot_ts == backfill_ts,
                _ => false,
            }
        } else if was_backfilling {
            match r {
                SearchOnDiskState::Backfilled(s) => s.ts == new_ts && fresh_snapshot_data(
                    s.data,
                    segments@,
                ),
                _ => false,
            }
        } else {
            match r {
                SearchOnDiskState::SnapshottedAt(s) => s.ts == new_ts && fresh_snapshot_data(
                    s.data,
                    segments@,
                ),
                _ => false,
            }
        },
{
    if was_backfilling && !log_drained {
        SearchOnDiskState::Backfilling(
            BackfillState {
                segments,
                cursor: Some(new_cursor),
                backfill_snapshot_ts: backfill_ts,
            },
        )
    } else if was_backfilling {
        SearchOnDiskState::Backfilled(
            SearchSnapshot { ts: new_ts, data: SnapshotData::MultiSegment(segments) },
        )
    } else {
        SearchOnDiskState::SnapshottedAt(
            SearchSnapshot { ts: new_ts, data: SnapshotData::MultiSegment(segments) },
        )
    }
}

/// Runs one full build cycle for the index whose record the caller observed
/// at `observed_version`, merging `revisions` (the ordered change log since
/// the last cursor) and publishing the outcome by compare-and-swap.
///
/// On success the persisted record holds the transitioned state over the
/// cycle's segment list, and the returned statistics are that list's fold.
/// Every failure leaves the metadata record untouched; blobs already
/// uploaded stay in the store as harmless orphans.
pub fn run_build_cycle(
    meta_store: &mut IndexMetadataStore,
    store: &mut ObjectStore,
    observed_version: u64,
    observed: TabletIndexMetadata,
    revisions: &Vec<DocumentRevision>,
    log_drained: bool,
    new_cursor: u64,
    new_ts: u64,
    args: BuildVectorIndexArgs,
    new_segment_id: String,
) -> (r: Result<VectorStatistics, BuildError>)
    requires
        old(meta_store).version < u64::MAX,
        revisions@.len() <= u32::MAX,
        cursor_leq(spec_old_cursor(observed), Some(new_cursor)),
    ensures
        store_extends(old(store).contents(), final(store).contents()),
        match r {
            Ok(stats) => ({
                let dev = spec_vector_config(observed).unwrap().0;
                let w = spec_observed_working(observed);
                let segs0 = spec_observed_segments(observed);
                let vsize = (dev.dimensions as u64 * VECTOR_COORDINATE_BYTES) as u64;
                &&& spec_vector_config(observed) is Some
                &&& all_loadable(old(store).contents(), segs0)
                &&& observed_version == old(meta_store).version
                &&& final(meta_store).version == old(meta_store).version + 1
                &&& final(meta_store).record.config matches IndexConfig::Vector {
                    developer_config: d2,
                    on_disk_state: p2,
                } && d2 == dev && ({
                    let w2 = SearchOnDiskState::spec_from_persisted(p2);
                    let segs_f = spec_effective_segments(w2);
                    &&& next_state_ok(w, w2, segs_f, log_drained, new_cursor, new_ts)
                    &&& cycle_segments_ok(
                        old(store).contents(),
                        final(store).contents(),
                        segs0,
                        revisions@,
                        new_segment_id@,
                        vsize,
                        segs_f,
                    )
                    &&& Ok::<VectorStatistics, BuildError>(stats) == spec_aggregate(segs_f)
                    &&& Ok::<VectorStatistics, BuildError>(stats) == spec_cycle_statistics(
                        old(store).contents(),
                        segs0,
                        revisions@,
                    )
                })
            }),
            Err(e) => {
                &&& *final(meta_store) == *old(meta_store)
                &&& (e == BuildError::IndexKindChanged <==> spec_vector_config(observed) is None)
                &&& (e == BuildError::StorageIO <==> (spec_vector_config(observed) is Some
                    && !all_loadable(old(store).contents(), spec_observed_segments(observed))))
                &&& (e == BuildError::StatisticsAggregationFailure <==> (spec_vector_config(
                    observed,
                ) is Some && all_loadable(old(store).contents(), spec_observed_segments(observed))
                    && spec_cycle_statistics(
                    old(store).contents(),
                    spec_observed_segments(observed),
                    revisions@,
                ) is Err))
                &&& (e == BuildError::WriteConflict <==> (spec_vector_config(observed) is Some
                    && all_loadable(old(store).contents(), spec_observed_segments(observed))
                    && spec_cycle_statistics(
                    old(store).contents(),
                    spec_observed_segments(observed),
                    revisions@,
                ) is Ok && observed_version != old(meta_store).version))
                &&& (e == BuildError::IndexKindChanged || e == BuildError::StorageIO || e
                    == BuildError::StatisticsAggregationFailure || e == BuildError::WriteConflict)
            },
        },
{
    let ghost c0 = store.contents();
    let (developer_config, working) = match VectorSearchIndex::extract_metadata(observed) {
        Ok(p) => p,
        Err(e) => {
            return Err(e);
        },
    };
    let ghost w = working;
    let (segments0, was_backfilling, backfill_ts) = segments_to_build_from(working);
    let ghost segs0 = segments0@;
    let mut previous = match VectorSearchIndex::download_previous_segments(store, &segments0) {
        Ok(p) => p,
        Err(e) => {
            return Err(e);
        },
    };
    let ghost downloaded = previous.0@;
    let schema = VectorSearchIndex::new_schema(&developer_config);
    let new_segment = VectorSearchIndex::build_disk_index(
        &schema,
        revisions,
        &mut previous,
        args,
        new_segment_id,
    );
    proof {
        assert forall|j: int|
            0 <= j < segs0.len() implies crate::blobs::entry_backed(
            c0,
            #[trigger] previous.0@[j],
        ) by {
            let m0 = downloaded[j];
            let m1 = previous.0@[j];
            assert(m1.doc_ids@ == m0.doc_ids@);
            if !m1.is_modified {
                crate::previous_segments::lemma_count_trues_monotone(m0.deleted@, m1.deleted@);
                lemma_count_trues_pointwise_equal(m0.deleted@, m1.deleted@);
            }
        }
    }
    let mut segments_f = VectorSearchIndex::upload_previous_segments(store, previous);
    let ghost c1 = store.contents();
    let ghost had_new = !(new_segment is None);
    match new_segment {
        Some(ns) => {
            proof {
                assert(ns.doc_ids@.contains(ns.doc_ids@[0]));
                assert(merged_ids(revisions@).contains(ns.doc_ids@[0]));
                assert(!no_new_data(revisions@));
            }
            let seg = VectorSearchIndex::upload_new_segment(store, ns);
            segments_f.push(seg);
        },
        None => {
            proof {
                assert forall|x: u64| !merged_ids(revisions@).contains(x) by {
                    assert(merged_ids(revisions@) =~= Set::<u64>::empty());
                }
                assert(no_new_data(revisions@));
            }
        },
    }
    proof {
        assert(store_extends(c0, store.contents()));
        assert forall|j: int|
            0 <= j < segs0.len() implies updated_prev_ok(
            c0,
            store.contents(),
            #[trigger] segs0[j],
            segments_f@[j],
            revisions@,
        ) by {
            let m0 = downloaded[j];
            let ids = loaded_ids(c0, segs0[j]);
            let bits0 = loaded_bits(c0, segs0[j]);
            let bits1 = stream_marked(bits0, ids, revisions@);
            assert(seg_loadable(c1, segments_f@[j]));
            if had_new {
                crate::blobs::lemma_loadable_extends(c1, store.contents(), segments_f@[j]);
            }
            if bits1 == bits0 {
                crate::previous_segments::lemma_count_trues_monotone(bits0, bits1);
            }
        }
        if !had_new {
            assert forall|x: u64| !merged_ids(revisions@).contains(x) by {}
        }
        assert(segments_f@.len() == segs0.len() + if no_new_data(revisions@) {
            0int
        } else {
            1int
        });
        if had_new {
            assert(new_seg_ok(
                store.contents(),
                segments_f@.last(),
                revisions@,
                new_segment_id@,
                (developer_config.dimensions as u64 * VECTOR_COORDINATE_BYTES) as u64,
            ));
        }
        assert(cycle_segments_ok(
            c0,
            store.contents(),
            segs0,
            revisions@,
            new_segment_id@,
            (developer_config.dimensions as u64 * VECTOR_COORDINATE_BYTES) as u64,
            segments_f@,
        ));
        lemma_cycle_statistics(
            c0,
            store.contents(),
            segs0,
            revisions@,
            new_segment_id@,
            (developer_config.dimensions as u64 * VECTOR_COORDINATE_BYTES) as u64,
            segments_f@,
        );
    }
    let stats = match aggregate_statistics(&segments_f) {
        Ok(s) => s,
        Err(_) => {
            return Err(BuildError::StatisticsAggregationFailure);
        },
    };
    let ghost segs_f = segments_f@;
    let new_working = build_next_state(
        was_backfilling,
        backfill_ts,
        segments_f,
        log_drained,
        new_cursor,
        new_ts,
    );
    proof {
        assert(next_state_ok(w, new_working, segs_f, log_drained, new_cursor, new_ts));
        assert(new_working.spec_to_persisted() is Ok);
    }
    let ghost new_working_ghost = new_working;
    let new_config = match VectorSearchIndex::new_index_config(developer_config, new_working) {
        Ok(c) => c,
        Err(_) => {
            proof {
                assert(false);
            }
            return Err(BuildError::SchemaViolation);
        },
    };
    proof {
        let p2 = new_working_ghost.spec_to_persisted().unwrap();
        assert(SearchOnDiskState::spec_from_persisted(p2) == new_working_ghost);
    }
    let new_record = TabletIndexMetadata { config: new_config };
    match meta_store.compare_and_swap(observed_version, new_record) {
        Ok(()) => Ok(stats),
        Err(e) => Err(e),
    }
}

} // verus!

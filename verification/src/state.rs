//! Lifecycle state of one index, in its persisted and working forms.
//!
//! The persisted form (`VectorIndexState`) is what the metadata store holds
//! for a vector index; the working form (`SearchOnDiskState`) is what the
//! build pipeline manipulates, and is generic over the segment descriptor so
//! other index kinds can share it. Converting persisted to working is total;
//! converting back fails when a working snapshot holds a representation that
//! is structurally invalid for a fragmented index kind.

use vstd::prelude::*;

use crate::error::BuildError;
use crate::segment::FragmentedVectorSegment;

verus! {

/// Persisted progress of an index that has not finished its first build.
#[derive(Clone, Debug)]
pub struct VectorIndexBackfillState {
    /// Segments written by completed backfill cycles, in build order.
    pub segments: Vec<FragmentedVectorSegment>,
    /// Position in the document log up to which backfill has progressed;
    /// absent before the first cycle.
    pub cursor: Option<u64>,
    /// Logical timestamp the backfill is building towards; absent before the
    /// first cycle.
    pub backfill_snapshot_ts: Option<u64>,
}

/// Persisted on-disk data of one complete vector index snapshot.
#[derive(Clone, Debug)]
pub enum VectorIndexSnapshotData {
    /// A snapshot written by an older engine version; kept opaque so that it
    /// round-trips unharmed. A build treats it as having no usable segments.
    Unknown(Vec<u8>),
    /// The current layout: an ordered list of immutable segments.
    MultiSegment(Vec<FragmentedVectorSegment>),
}

/// A persisted, queryable view of an index as of a logical timestamp.
#[derive(Clone, Debug)]
pub struct VectorIndexSnapshot {
    /// On-disk data of the snapshot.
    pub data: VectorIndexSnapshotData,
    /// Logical timestamp the snapshot is consistent with.
    pub ts: u64,
}

/// Persisted lifecycle state of one vector index.
#[derive(Clone, Debug)]
pub enum VectorIndexState {
    /// First build in progress; no queryable snapshot exists yet.
    Backfilling(VectorIndexBackfillState),
    /// A complete snapshot exists but has not been promoted to serving.
    Backfilled(VectorIndexSnapshot),
    /// The serving state: queries read this snapshot.
    SnapshottedAt(VectorIndexSnapshot),
}

/// Working form of backfill progress, shared by all index kinds.
#[derive(Clone, Debug)]
pub struct BackfillState<S> {
    /// Segments written by completed backfill cycles, in build order.
    pub segments: Vec<S>,
    /// Position in the document log up to which backfill has progressed.
    pub cursor: Option<u64>,
    /// Logical timestamp the backfill is building towards.
    pub backfill_snapshot_ts: Option<u64>,
}

/// Working form of a snapshot's on-disk data, shared by all index kinds.
#[derive(Clone, Debug)]
pub enum SnapshotData<S> {
    /// Data written by an older engine version, kept opaque.
    Unknown(Vec<u8>),
    /// A single-segment layout; supported only by non-fragmenting index
    /// kinds, never by vector indexes.
    SingleSegment(S),
    /// An ordered list of immutable segments.
    MultiSegment(Vec<S>),
}

/// Working form of a snapshot, shared by all index kinds.
#[derive(Clone, Debug)]
pub struct SearchSnapshot<S> {
    /// Logical timestamp the snapshot is consistent with.
    pub ts: u64,
    /// On-disk data of the snapshot.
    pub data: SnapshotData<S>,
}

/// Working lifecycle state of one index, shared by all index kinds.
#[derive(Clone, Debug)]
pub enum SearchOnDiskState<S> {
    /// First build in progress.
    Backfilling(BackfillState<S>),
    /// A complete snapshot exists but is not yet serving.
    Backfilled(SearchSnapshot<S>),
    /// The serving state.
    SnapshottedAt(SearchSnapshot<S>),
}

impl SnapshotData<FragmentedVectorSegment> {
    /// What `from_persisted` returns.
    pub open spec fn spec_from_persisted(data: VectorIndexSnapshotData) -> Self {
        match data {
            VectorIndexSnapshotData::Unknown(payload) => SnapshotData::Unknown(payload),
            VectorIndexSnapshotData::MultiSegment(segments) => SnapshotData::MultiSegment(
                segments,
            ),
        }
    }

    /// Total conversion from the persisted vector form: the persisted form
    /// has no single-segment variant, so nothing can fail.
    pub fn from_persisted(data: VectorIndexSnapshotData) -> (r: Self)
        ensures
            r == Self::spec_from_persisted(data),
    {
        match data {
            VectorIndexSnapshotData::Unknown(payload) => SnapshotData::Unknown(payload),
            VectorIndexSnapshotData::MultiSegment(segments) => SnapshotData::MultiSegment(
                segments,
            ),
        }
    }

    /// What `to_persisted` returns: a single-segment layout is structurally
    /// invalid for the fragmented vector kind and must fail.
    pub open spec fn spec_to_persisted(self) -> Result<VectorIndexSnapshotData, BuildError> {
        match self {
            SnapshotData::Unknown(payload) => Ok(VectorIndexSnapshotData::Unknown(payload)),
            SnapshotData::SingleSegment(_) => Err(BuildError::SchemaViolation),
            SnapshotData::MultiSegment(segments) => Ok(
                VectorIndexSnapshotData::MultiSegment(segments),
            ),
        }
    }

    /// Conversion to the persisted vector form; fails with
    /// [`BuildError::SchemaViolation`] exactly on single-segment data.
    pub fn to_persisted(self) -> (r: Result<VectorIndexSnapshotData, BuildError>)
        ensures
            r == self.spec_to_persisted(),
    {
        match self {
            SnapshotData::Unknown(payload) => Ok(VectorIndexSnapshotData::Unknown(payload)),
            SnapshotData::SingleSegment(_) => Err(BuildError::SchemaViolation),
            SnapshotData::MultiSegment(segments) => Ok(
                VectorIndexSnapshotData::MultiSegment(segments),
            ),
        }
    }

    /// Whether the snapshot data was written by the current engine version:
    /// true exactly for the multi-segment layout.
    pub fn is_version_current(&self) -> (r: bool)
        ensures
            r == (self is MultiSegment),
    {
        match self {
            SnapshotData::MultiSegment(_) => true,
            _ => false,
        }
    }
}

/// No vector snapshot can ever persist a single-segment layout: converting
/// such working data fails, whatever the segment holds.
pub proof fn lemma_single_segment_never_persists(segment: FragmentedVectorSegment)
    ensures
        SnapshotData::SingleSegment(segment).spec_to_persisted() == Err::<
            VectorIndexSnapshotData,
            BuildError,
        >(BuildError::SchemaViolation),
{
}

impl SearchSnapshot<FragmentedVectorSegment> {
    /// What `from_persisted` returns.
    pub open spec fn spec_from_persisted(snapshot: VectorIndexSnapshot) -> Self {
        SearchSnapshot {
            ts: snapshot.ts,
            data: SnapshotData::spec_from_persisted(snapshot.data),
        }
    }

    /// Total conversion from the persisted vector form.
    pub fn from_persisted(snapshot: VectorIndexSnapshot) -> (r: Self)
        ensures
            r == Self::spec_from_persisted(snapshot),
    {
        SearchSnapshot { ts: snapshot.ts, data: SnapshotData::from_persisted(snapshot.data) }
    }

    /// What `to_persisted` returns.
    pub open spec fn spec_to_persisted(self) -> Result<VectorIndexSnapshot, BuildError> {
        match self.data.spec_to_persisted() {
            Ok(data) => Ok(VectorIndexSnapshot { data, ts: self.ts }),
            Err(e) => Err(e),
        }
    }

    /// Conversion to the persisted vector form; fails exactly when the data
    /// does.
    pub fn to_persisted(self) -> (r: Result<VectorIndexSnapshot, BuildError>)
        ensures
            r == self.spec_to_persisted(),
    {
        match self.data.to_persisted() {
            Ok(data) => Ok(VectorIndexSnapshot { data, ts: self.ts }),
            Err(e) => Err(e),
        }
    }
}

impl SearchOnDiskState<FragmentedVectorSegment> {
    /// What `from_persisted` returns.
    pub open spec fn spec_from_persisted(state: VectorIndexState) -> Self {
        match state {
            VectorIndexState::Backfilling(b) => SearchOnDiskState::Backfilling(
                BackfillState {
                    segments: b.segments,
                    cursor: b.cursor,
                    backfill_snapshot_ts: b.backfill_snapshot_ts,
                },
            ),
            VectorIndexState::Backfilled(s) => SearchOnDiskState::Backfilled(
                SearchSnapshot::spec_from_persisted(s),
            ),
            VectorIndexState::SnapshottedAt(s) => SearchOnDiskState::SnapshottedAt(
                SearchSnapshot::spec_from_persisted(s),
            ),
        }
    }

    /// Total conversion from the persisted vector form.
    pub fn from_persisted(state: VectorIndexState) -> (r: Self)
        ensures
            r == Self::spec_from_persisted(state),
    {
        match state {
            VectorIndexState::Backfilling(b) => SearchOnDiskState::Backfilling(
                BackfillState {
                    segments: b.segments,
                    cursor: b.cursor,
                    backfill_snapshot_ts: b.backfill_snapshot_ts,
                },
            ),
            VectorIndexState::Backfilled(s) => SearchOnDiskState::Backfilled(
                SearchSnapshot::from_persisted(s),
            ),
            VectorIndexState::SnapshottedAt(s) => SearchOnDiskState::SnapshottedAt(
                SearchSnapshot::from_persisted(s),
            ),
        }
    }

    /// What `to_persisted` returns.
    pub open spec fn spec_to_persisted(self) -> Result<VectorIndexState, BuildError> {
        match self {
            SearchOnDiskState::Backfilling(b) => Ok(
                VectorIndexState::Backfilling(
                    VectorIndexBackfillState {
                        segments: b.segments,
                        cursor: b.cursor,
                        backfill_snapshot_ts: b.backfill_snapshot_ts,
                    },
                ),
            ),
            SearchOnDiskState::Backfilled(s) => match s.spec_to_persisted() {
                Ok(snapshot) => Ok(VectorIndexState::Backfilled(snapshot)),
                Err(e) => Err(e),
            },
            SearchOnDiskState::SnapshottedAt(s) => match s.spec_to_persisted() {
                Ok(snapshot) => Ok(VectorIndexState::SnapshottedAt(snapshot)),
                Err(e) => Err(e),
            },
        }
    }

    /// Conversion to the persisted vector form; fails with
    /// [`BuildError::SchemaViolation`] exactly when a snapshot state holds
    /// single-segment data.
    pub fn to_persisted(self) -> (r: Result<VectorIndexState, BuildError>)
        ensures
            r == self.spec_to_persisted(),
    {
        match self {
            SearchOnDiskState::Backfilling(b) => Ok(
                VectorIndexState::Backfilling(
                    VectorIndexBackfillState {
                        segments: b.segments,
                        cursor: b.cursor,
                        backfill_snapshot_ts: b.backfill_snapshot_ts,
                    },
                ),
            ),
            SearchOnDiskState::Backfilled(s) => match s.to_persisted() {
                Ok(snapshot) => Ok(VectorIndexState::Backfilled(snapshot)),
                Err(e) => Err(e),
            },
            SearchOnDiskState::SnapshottedAt(s) => match s.to_persisted() {
                Ok(snapshot) => Ok(VectorIndexState::SnapshottedAt(snapshot)),
                Err(e) => Err(e),
            },
        }
    }
}

} // verus!

//! Immutable segment descriptors and the additive statistics monoid.

use vstd::prelude::*;

use crate::error::BuildError;

verus! {

/// Descriptor of one immutable on-disk unit of vector index data.
///
/// The document-id table (under `ids_key`) is written once when the segment
/// is uploaded and never changes; only the deletion bitset may be amended,
/// and each amendment uploads a new bitset blob and records its key in
/// `bitset_key` while the segment keeps its `id`.
#[derive(Clone, Debug)]
pub struct FragmentedVectorSegment {
    /// Stable identifier, unique within one snapshot.
    pub id: String,
    /// Number of vectors laid out in the segment's data.
    pub num_vectors: u32,
    /// Number of tombstoned vectors at the time this descriptor was written.
    pub num_deleted: u32,
    /// Estimated on-disk footprint in bytes.
    pub size_bytes: u64,
    /// Object-store key of the segment's document-id table.
    pub ids_key: u64,
    /// Object-store key of the segment's deletion bitset.
    pub bitset_key: u64,
}

/// Field-for-field equality of two segment descriptors.
pub open spec fn seg_like(a: FragmentedVectorSegment, b: FragmentedVectorSegment) -> bool {
    &&& a.id@ == b.id@
    &&& a.num_vectors == b.num_vectors
    &&& a.num_deleted == b.num_deleted
    &&& a.size_bytes == b.size_bytes
    &&& a.ids_key == b.ids_key
    &&& a.bitset_key == b.bitset_key
}

impl FragmentedVectorSegment {
    /// The segment's stable identifier.
    pub fn id(&self) -> (r: &str)
        ensures
            r@ == self.id@,
    {
        self.id.as_str()
    }

    /// The tombstone count recorded in the descriptor.
    pub fn num_deleted(&self) -> (r: u64)
        ensures
            r == self.num_deleted as u64,
    {
        self.num_deleted as u64
    }

    /// What `statistics` returns: the counts are consistent exactly when the
    /// descriptor does not claim more tombstones than vectors.
    pub open spec fn spec_statistics(self) -> Result<VectorStatistics, BuildError> {
        if self.num_deleted <= self.num_vectors {
            Ok(
                VectorStatistics {
                    num_vectors: self.num_vectors,
                    non_deleted_vectors: (self.num_vectors - self.num_deleted) as u64,
                },
            )
        } else {
            Err(BuildError::StatisticsAggregationFailure)
        }
    }

    /// Statistics computed from the descriptor alone, with no blob read.
    pub fn statistics(&self) -> (r: Result<VectorStatistics, BuildError>)
        ensures
            r == self.spec_statistics(),
    {
        if self.num_deleted <= self.num_vectors {
            Ok(
                VectorStatistics {
                    num_vectors: self.num_vectors,
                    non_deleted_vectors: (self.num_vectors - self.num_deleted) as u64,
                },
            )
        } else {
            Err(BuildError::StatisticsAggregationFailure)
        }
    }
}

/// Additive statistics of an index's contents.
#[derive(Clone, Copy, Debug, PartialEq, Eq, Structural)]
pub struct VectorStatistics {
    /// Total vectors laid out, tombstoned or not.
    pub num_vectors: u32,
    /// Vectors not yet tombstoned.
    pub non_deleted_vectors: u64,
}

impl Default for VectorStatistics {
    /// The monoid's neutral element: an empty index.
    fn default() -> (r: Self)
        ensures
            r.num_vectors == 0,
            r.non_deleted_vectors == 0,
    {
        VectorStatistics { num_vectors: 0, non_deleted_vectors: 0 }
    }
}

impl VectorStatistics {
    /// What `add` returns: the error of the right operand, else of the left,
    /// else the componentwise sum, which fails when a component overflows.
    pub open spec fn spec_add(
        lhs: Result<VectorStatistics, BuildError>,
        rhs: Result<VectorStatistics, BuildError>,
    ) -> Result<VectorStatistics, BuildError> {
        match rhs {
            Err(e) => Err(e),
            Ok(r) => match lhs {
                Err(e) => Err(e),
                Ok(l) => if l.num_vectors + r.num_vectors <= u32::MAX && l.non_deleted_vectors
                    + r.non_deleted_vectors <= u64::MAX {
                    Ok(
                        VectorStatistics {
                            num_vectors: (l.num_vectors + r.num_vectors) as u32,
                            non_deleted_vectors: (l.non_deleted_vectors
                                + r.non_deleted_vectors) as u64,
                        },
                    )
                } else {
                    Err(BuildError::StatisticsAggregationFailure)
                },
            },
        }
    }

    /// Combines two possibly-failed statistics, propagating failure.
    pub fn add(
        lhs: Result<VectorStatistics, BuildError>,
        rhs: Result<VectorStatistics, BuildError>,
    ) -> (r: Result<VectorStatistics, BuildError>)
        ensures
            r == Self::spec_add(lhs, rhs),
    {
        match rhs {
            Err(e) => Err(e),
            Ok(rv) => match lhs {
                Err(e) => Err(e),
                Ok(lv) => {
                    if rv.num_vectors <= u32::MAX - lv.num_vectors && rv.non_deleted_vectors
                        <= u64::MAX - lv.non_deleted_vectors {
                        Ok(
                            VectorStatistics {
                                num_vectors: lv.num_vectors + rv.num_vectors,
                                non_deleted_vectors: lv.non_deleted_vectors
                                    + rv.non_deleted_vectors,
                            },
                        )
                    } else {
                        Err(BuildError::StatisticsAggregationFailure)
                    }
                },
            },
        }
    }

    /// Total vectors, tombstoned or not.
    pub fn num_documents(&self) -> (r: u64)
        ensures
            r == self.num_vectors as u64,
    {
        self.num_vectors as u64
    }

    /// Vectors still visible to queries.
    pub fn num_non_deleted_documents(&self) -> (r: u64)
        ensures
            r == self.non_deleted_vectors,
    {
        self.non_deleted_vectors
    }
}

/// `add` never depends on the order of its two operands when both are valid.
pub proof fn lemma_statistics_add_commutative(a: VectorStatistics, b: VectorStatistics)
    ensures
        VectorStatistics::spec_add(Ok(a), Ok(b)) == VectorStatistics::spec_add(Ok(b), Ok(a)),
{
}

/// `add` is associative over valid statistics: folding a segment list in any
/// grouping yields the same result, including which side overflows first.
pub proof fn lemma_statistics_add_associative(
    a: VectorStatistics,
    b: VectorStatistics,
    c: VectorStatistics,
)
    ensures
        VectorStatistics::spec_add(VectorStatistics::spec_add(Ok(a), Ok(b)), Ok(c))
            == VectorStatistics::spec_add(Ok(a), VectorStatistics::spec_add(Ok(b), Ok(c))),
{
}

/// A failed operand absorbs: combining anything with a failure fails.
pub proof fn lemma_statistics_add_absorbs_failure(
    s: Result<VectorStatistics, BuildError>,
    e: BuildError,
)
    ensures
        VectorStatistics::spec_add(s, Err(e)) == Err::<VectorStatistics, BuildError>(e),
        VectorStatistics::spec_add(Err(e), s) is Err,
{
}

} // verus!

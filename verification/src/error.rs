//! Failure taxonomy of a build cycle.

use vstd::prelude::*;

verus! {

/// Why a build cycle stopped without publishing a new index record.
///
/// Every failure leaves the previously persisted index state untouched: the
/// only durable write of a cycle is the final compare-and-swap of the index
/// metadata record, and it happens only on success.
#[derive(Clone, Copy, Debug, PartialEq, Eq, Structural)]
pub enum BuildError {
    /// The persisted index record no longer describes a vector index; the
    /// caller must reload the index rather than retry the same plan.
    IndexKindChanged,
    /// A working snapshot representation is structurally invalid for a
    /// fragmented index kind (a single-segment layout where only
    /// multi-segment layouts are allowed).
    SchemaViolation,
    /// A segment blob could not be fetched from the object store, or was
    /// malformed; transient, the caller may retry the cycle.
    StorageIO,
    /// Folding the per-segment statistics failed, either because a segment
    /// reported inconsistent counts or because a sum overflowed.
    StatisticsAggregationFailure,
    /// The metadata record advanced underneath this cycle; the caller must
    /// reload it and run the cycle again.
    WriteConflict,
}

} // verus!

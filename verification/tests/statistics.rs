use vector_index_build::error::BuildError;
use vector_index_build::segment::{FragmentedVectorSegment, VectorStatistics};

fn stats(num_vectors: u32, non_deleted_vectors: u64) -> VectorStatistics {
    VectorStatistics { num_vectors, non_deleted_vectors }
}

#[test]
fn add_combines_componentwise() {
    let r = VectorStatistics::add(Ok(stats(3, 2)), Ok(stats(5, 4)));
    assert_eq!(r, Ok(stats(8, 6)));
}

#[test]
fn add_is_commutative() {
    let a = stats(7, 5);
    let b = stats(11, 9);
    assert_eq!(
        VectorStatistics::add(Ok(a), Ok(b)),
        VectorStatistics::add(Ok(b), Ok(a))
    );
}

#[test]
fn add_is_associative() {
    let a = stats(1, 1);
    let b = stats(2, 2);
    let c = stats(3, 3);
    let left = VectorStatistics::add(VectorStatistics::add(Ok(a), Ok(b)), Ok(c));
    let right = VectorStatistics::add(Ok(a), VectorStatistics::add(Ok(b), Ok(c)));
    assert_eq!(left, right);
}

#[test]
fn add_propagates_left_failure() {
    let r = VectorStatistics::add(Err(BuildError::StorageIO), Ok(stats(1, 1)));
    assert_eq!(r, Err(BuildError::StorageIO));
}

#[test]
fn add_propagates_right_failure() {
    let r = VectorStatistics::add(Ok(stats(1, 1)), Err(BuildError::StorageIO));
    assert_eq!(r, Err(BuildError::StorageIO));
}

#[test]
fn add_fails_on_vector_count_overflow() {
    let r = VectorStatistics::add(Ok(stats(u32::MAX, 1)), Ok(stats(1, 1)));
    assert_eq!(r, Err(BuildError::StatisticsAggregationFailure));
}

#[test]
fn add_fails_on_non_deleted_overflow() {
    let r = VectorStatistics::add(Ok(stats(1, u64::MAX)), Ok(stats(1, 1)));
    assert_eq!(r, Err(BuildError::StatisticsAggregationFailure));
}

#[test]
fn projections_return_the_counts() {
    let s = stats(42, 17);
    assert_eq!(s.num_documents(), 42);
    assert_eq!(s.num_non_deleted_documents(), 17);
}

#[test]
fn default_statistics_are_zero() {
    let s = VectorStatistics::default();
    assert_eq!(s, stats(0, 0));
}

#[test]
fn segment_statistics_subtract_tombstones() {
    let seg = FragmentedVectorSegment {
        id: String::from("seg-a"),
        num_vectors: 500,
        num_deleted: 20,
        size_bytes: 4000,
        ids_key: 0,
        bitset_key: 1,
    };
    assert_eq!(seg.statistics(), Ok(stats(500, 480)));
    assert_eq!(seg.num_deleted(), 20);
    assert_eq!(seg.id(), "seg-a");
}

#[test]
fn segment_statistics_reject_inconsistent_counts() {
    let seg = FragmentedVectorSegment {
        id: String::from("seg-bad"),
        num_vectors: 5,
        num_deleted: 6,
        size_bytes: 40,
        ids_key: 0,
        bitset_key: 1,
    };
    assert_eq!(
        seg.statistics(),
        Err(BuildError::StatisticsAggregationFailure)
    );
}

use vector_index_build::error::BuildError;
use vector_index_build::segment::FragmentedVectorSegment;
use vector_index_build::storage::ObjectStore;
use vector_index_build::vector_index::{VectorDiskSegmentValues, VectorSearchIndex};

/// Uploads a fresh segment of the given documents and returns its
/// descriptor.
fn make_segment(store: &mut ObjectStore, id: &str, doc_ids: Vec<u64>) -> FragmentedVectorSegment {
    let size_bytes = 8 * doc_ids.len() as u64;
    VectorSearchIndex::upload_new_segment(
        store,
        VectorDiskSegmentValues {
            id: String::from(id),
            doc_ids,
            indexed: false,
            size_bytes,
        },
    )
}

#[test]
fn object_store_round_trips_blobs() {
    let mut store = ObjectStore::new();
    let key = store.upload(vec![1, 2, 3]);
    let other = store.upload(vec![9]);
    assert_ne!(key, other);
    assert_eq!(store.download(key).unwrap(), &vec![1, 2, 3]);
    assert_eq!(store.download(other).unwrap(), &vec![9]);
}

#[test]
fn object_store_reports_missing_blobs() {
    let store = ObjectStore::new();
    assert_eq!(store.download(0).unwrap_err(), BuildError::StorageIO);
}

#[test]
fn upload_new_segment_starts_with_no_tombstones() {
    let mut store = ObjectStore::new();
    let seg = make_segment(&mut store, "fresh", vec![10, 11, 12]);
    assert_eq!(seg.id, "fresh");
    assert_eq!(seg.num_vectors, 3);
    assert_eq!(seg.num_deleted, 0);
    assert_eq!(store.download(seg.ids_key).unwrap(), &vec![10, 11, 12]);
    assert_eq!(store.download(seg.bitset_key).unwrap(), &vec![0, 0, 0]);
}

#[test]
fn download_materializes_previous_segments() {
    let mut store = ObjectStore::new();
    let seg = make_segment(&mut store, "a", vec![1, 2, 3]);
    let prev = VectorSearchIndex::download_previous_segments(&store, &vec![seg]).unwrap();
    assert_eq!(prev.len(), 1);
}

#[test]
fn download_fails_on_missing_blobs() {
    let store = ObjectStore::new();
    let seg = FragmentedVectorSegment {
        id: String::from("ghost"),
        num_vectors: 2,
        num_deleted: 0,
        size_bytes: 16,
        ids_key: 5,
        bitset_key: 6,
    };
    let r = VectorSearchIndex::download_previous_segments(&store, &vec![seg]);
    assert_eq!(r.unwrap_err(), BuildError::StorageIO);
}

#[test]
fn download_fails_on_corrupt_bitset() {
    let mut store = ObjectStore::new();
    let ids_key = store.upload(vec![1, 2]);
    let bitset_key = store.upload(vec![0, 7]);
    let seg = FragmentedVectorSegment {
        id: String::from("corrupt"),
        num_vectors: 2,
        num_deleted: 0,
        size_bytes: 16,
        ids_key,
        bitset_key,
    };
    let r = VectorSearchIndex::download_previous_segments(&store, &vec![seg]);
    assert_eq!(r.unwrap_err(), BuildError::StorageIO);
}

#[test]
fn download_fails_on_tombstone_count_mismatch() {
    let mut store = ObjectStore::new();
    let ids_key = store.upload(vec![1, 2]);
    let bitset_key = store.upload(vec![0, 1]);
    let seg = FragmentedVectorSegment {
        id: String::from("mismatch"),
        num_vectors: 2,
        num_deleted: 0,
        size_bytes: 16,
        ids_key,
        bitset_key,
    };
    let r = VectorSearchIndex::download_previous_segments(&store, &vec![seg]);
    assert_eq!(r.unwrap_err(), BuildError::StorageIO);
}

#[test]
fn marking_a_document_deleted_is_recorded_once() {
    let mut store = ObjectStore::new();
    let seg = make_segment(&mut store, "a", vec![1, 2, 3]);
    let mut prev =
        VectorSearchIndex::download_previous_segments(&store, &vec![seg.clone()]).unwrap();
    prev.maybe_delete_document(2);
    prev.maybe_delete_document(2);
    prev.maybe_delete_document(99);
    let uploaded = VectorSearchIndex::upload_previous_segments(&mut store, prev);
    assert_eq!(uploaded.len(), 1);
    assert_eq!(uploaded[0].id, "a");
    assert_eq!(uploaded[0].num_deleted, 1);
    assert_eq!(uploaded[0].num_vectors, 3);
    assert_eq!(store.download(uploaded[0].bitset_key).unwrap(), &vec![0, 1, 0]);
}

#[test]
fn untouched_segments_keep_their_descriptor() {
    let mut store = ObjectStore::new();
    let seg = make_segment(&mut store, "a", vec![1, 2, 3]);
    let prev = VectorSearchIndex::download_previous_segments(&store, &vec![seg.clone()]).unwrap();
    let uploaded = VectorSearchIndex::upload_previous_segments(&mut store, prev);
    assert_eq!(uploaded[0].id, seg.id);
    assert_eq!(uploaded[0].bitset_key, seg.bitset_key);
    assert_eq!(uploaded[0].num_deleted, seg.num_deleted);
}

#[test]
fn tombstone_count_never_decreases() {
    let mut store = ObjectStore::new();
    let seg = make_segment(&mut store, "a", vec![4, 5]);
    let mut prev =
        VectorSearchIndex::download_previous_segments(&store, &vec![seg.clone()]).unwrap();
    prev.maybe_delete_document(4);
    let first = VectorSearchIndex::upload_previous_segments(&mut store, prev);
    assert!(first[0].num_deleted >= seg.num_deleted);
    let mut again =
        VectorSearchIndex::download_previous_segments(&store, &first).unwrap();
    again.maybe_delete_document(4);
    let second = VectorSearchIndex::upload_previous_segments(&mut store, again);
    assert_eq!(second[0].num_deleted, first[0].num_deleted);
}

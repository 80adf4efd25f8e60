use vector_index_build::config::{
    DeveloperVectorIndexConfig, IndexConfig, QdrantSchema, TabletIndexMetadata,
};
use vector_index_build::error::BuildError;
use vector_index_build::pipeline::{aggregate_statistics, run_build_cycle};
use vector_index_build::segment::{FragmentedVectorSegment, VectorStatistics};
use vector_index_build::state::{
    VectorIndexBackfillState, VectorIndexSnapshot, VectorIndexSnapshotData, VectorIndexState,
};
use vector_index_build::storage::{IndexMetadataStore, ObjectStore};
use vector_index_build::vector_index::{
    BuildVectorIndexArgs, DbSnapshot, DocumentRevision, IndexRegistryEntry,
    VectorDiskSegmentValues, VectorSearchIndex,
};

fn dev_config() -> DeveloperVectorIndexConfig {
    DeveloperVectorIndexConfig { dimensions: 2 }
}

fn vector_record(state: VectorIndexState) -> TabletIndexMetadata {
    TabletIndexMetadata {
        config: IndexConfig::Vector {
            developer_config: dev_config(),
            on_disk_state: state,
        },
    }
}

fn make_segment(store: &mut ObjectStore, id: &str, doc_ids: Vec<u64>) -> FragmentedVectorSegment {
    let size_bytes = 8 * doc_ids.len() as u64;
    VectorSearchIndex::upload_new_segment(
        store,
        VectorDiskSegmentValues {
            id: String::from(id),
            doc_ids,
            indexed: false,
            size_bytes,
        },
    )
}

fn puts(range: std::ops::Range<u64>) -> Vec<DocumentRevision> {
    range
        .map(|id| DocumentRevision { document_id: id, has_value: true })
        .collect()
}

fn args() -> BuildVectorIndexArgs {
    BuildVectorIndexArgs { full_scan_threshold_bytes: 10_000_000 }
}

fn snapshot_segments(record: &TabletIndexMetadata) -> Vec<FragmentedVectorSegment> {
    match &record.config {
        IndexConfig::Vector { on_disk_state, .. } => match on_disk_state {
            VectorIndexState::Backfilled(s) | VectorIndexState::SnapshottedAt(s) => {
                match &s.data {
                    VectorIndexSnapshotData::MultiSegment(v) => v.clone(),
                    _ => panic!("expected multi-segment data"),
                }
            }
            VectorIndexState::Backfilling(b) => b.segments.clone(),
        },
        _ => panic!("expected a vector config"),
    }
}

#[test]
fn pure_insert_backfill_builds_one_segment() {
    let mut store = ObjectStore::new();
    let record = vector_record(VectorIndexState::Backfilling(VectorIndexBackfillState {
        segments: vec![],
        cursor: Some(0),
        backfill_snapshot_ts: None,
    }));
    let mut meta = IndexMetadataStore::new(record.clone());
    let revisions = puts(0..1000);
    let stats = run_build_cycle(
        &mut meta,
        &mut store,
        0,
        record,
        &revisions,
        true,
        1000,
        50,
        args(),
        String::from("seg-new"),
    )
    .unwrap();
    assert_eq!(
        stats,
        VectorStatistics { num_vectors: 1000, non_deleted_vectors: 1000 }
    );
    assert_eq!(meta.version(), 1);
    match &meta.record().config {
        IndexConfig::Vector { on_disk_state, .. } => match on_disk_state {
            VectorIndexState::Backfilled(s) => {
                assert_eq!(s.ts, 50);
                match &s.data {
                    VectorIndexSnapshotData::MultiSegment(v) => {
                        assert_eq!(v.len(), 1);
                        assert_eq!(v[0].id, "seg-new");
                        assert_eq!(v[0].num_vectors, 1000);
                        assert_eq!(v[0].num_deleted, 0);
                    }
                    _ => panic!("expected multi-segment data"),
                }
            }
            _ => panic!("expected a backfilled state"),
        },
        _ => panic!("expected a vector config"),
    }
}

#[test]
fn undrained_backfill_stays_backfilling_with_advanced_cursor() {
    let mut store = ObjectStore::new();
    let record = vector_record(VectorIndexState::Backfilling(VectorIndexBackfillState {
        segments: vec![],
        cursor: Some(3),
        backfill_snapshot_ts: Some(77),
    }));
    let mut meta = IndexMetadataStore::new(record.clone());
    let revisions = puts(0..10);
    run_build_cycle(
        &mut meta,
        &mut store,
        0,
        record,
        &revisions,
        false,
        13,
        80,
        args(),
        String::from("seg-part"),
    )
    .unwrap();
    match &meta.record().config {
        IndexConfig::Vector { on_disk_state, .. } => match on_disk_state {
            VectorIndexState::Backfilling(b) => {
                assert_eq!(b.cursor, Some(13));
                assert_eq!(b.backfill_snapshot_ts, Some(77));
                assert_eq!(b.segments.len(), 1);
            }
            _ => panic!("expected a backfilling state"),
        },
        _ => panic!("expected a vector config"),
    }
}

#[test]
fn delete_only_cycle_adds_no_segment() {
    let mut store = ObjectStore::new();
    let seg = make_segment(&mut store, "seg-500", (0..500).collect());
    let record = vector_record(VectorIndexState::SnapshottedAt(VectorIndexSnapshot {
        data: VectorIndexSnapshotData::MultiSegment(vec![seg]),
        ts: 10,
    }));
    let mut meta = IndexMetadataStore::new(record.clone());
    let revisions: Vec<DocumentRevision> = (0..10)
        .map(|id| DocumentRevision { document_id: id, has_value: false })
        .collect();
    let stats = run_build_cycle(
        &mut meta,
        &mut store,
        0,
        record,
        &revisions,
        true,
        510,
        20,
        args(),
        String::from("seg-unused"),
    )
    .unwrap();
    assert_eq!(
        stats,
        VectorStatistics { num_vectors: 500, non_deleted_vectors: 490 }
    );
    let segs = snapshot_segments(meta.record());
    assert_eq!(segs.len(), 1);
    assert_eq!(segs[0].id, "seg-500");
    assert_eq!(segs[0].num_deleted, 10);
    match &meta.record().config {
        IndexConfig::Vector { on_disk_state, .. } => {
            assert!(matches!(on_disk_state, VectorIndexState::SnapshottedAt(_)));
        }
        _ => panic!("expected a vector config"),
    }
}

#[test]
fn noop_cycle_keeps_the_segment_list() {
    let mut store = ObjectStore::new();
    let seg = make_segment(&mut store, "seg-a", vec![1, 2, 3]);
    let record = vector_record(VectorIndexState::SnapshottedAt(VectorIndexSnapshot {
        data: VectorIndexSnapshotData::MultiSegment(vec![seg.clone()]),
        ts: 10,
    }));
    let mut meta = IndexMetadataStore::new(record.clone());
    let revisions: Vec<DocumentRevision> = vec![];
    let stats = run_build_cycle(
        &mut meta,
        &mut store,
        0,
        record,
        &revisions,
        true,
        3,
        20,
        args(),
        String::from("seg-unused"),
    )
    .unwrap();
    assert_eq!(stats, aggregate_statistics(&vec![seg.clone()]).unwrap());
    let segs = snapshot_segments(meta.record());
    assert_eq!(segs.len(), 1);
    assert_eq!(segs[0].id, seg.id);
    assert_eq!(segs[0].num_vectors, seg.num_vectors);
    assert_eq!(segs[0].num_deleted, seg.num_deleted);
    assert_eq!(segs[0].size_bytes, seg.size_bytes);
    assert_eq!(segs[0].ids_key, seg.ids_key);
    assert_eq!(segs[0].bitset_key, seg.bitset_key);
    match &meta.record().config {
        IndexConfig::Vector { on_disk_state, .. } => match on_disk_state {
            VectorIndexState::SnapshottedAt(s) => assert_eq!(s.ts, 20),
            _ => panic!("expected a snapshotted state"),
        },
        _ => panic!("expected a vector config"),
    }
}

#[test]
fn stale_version_forces_full_rebuild() {
    let mut store = ObjectStore::new();
    let record = vector_record(VectorIndexState::SnapshottedAt(VectorIndexSnapshot {
        data: VectorIndexSnapshotData::Unknown(vec![3, 3, 3]),
        ts: 10,
    }));
    let mut meta = IndexMetadataStore::new(record.clone());
    let revisions = puts(0..40);
    let stats = run_build_cycle(
        &mut meta,
        &mut store,
        0,
        record,
        &revisions,
        true,
        40,
        20,
        args(),
        String::from("seg-rebuilt"),
    )
    .unwrap();
    assert_eq!(
        stats,
        VectorStatistics { num_vectors: 40, non_deleted_vectors: 40 }
    );
    let segs = snapshot_segments(meta.record());
    assert_eq!(segs.len(), 1);
    assert_eq!(segs[0].id, "seg-rebuilt");
    assert_eq!(segs[0].num_vectors, 40);
}

#[test]
fn kind_change_fails_the_cycle() {
    let mut store = ObjectStore::new();
    let record = TabletIndexMetadata { config: IndexConfig::Database };
    let mut meta = IndexMetadataStore::new(record.clone());
    let revisions = puts(0..1);
    let r = run_build_cycle(
        &mut meta,
        &mut store,
        0,
        record,
        &revisions,
        true,
        1,
        2,
        args(),
        String::from("seg-x"),
    );
    assert_eq!(r.unwrap_err(), BuildError::IndexKindChanged);
    assert_eq!(meta.version(), 0);
}

#[test]
fn missing_blobs_fail_the_cycle_with_storage_io() {
    let mut store = ObjectStore::new();
    let ghost_segment = FragmentedVectorSegment {
        id: String::from("ghost"),
        num_vectors: 2,
        num_deleted: 0,
        size_bytes: 16,
        ids_key: 11,
        bitset_key: 12,
    };
    let record = vector_record(VectorIndexState::SnapshottedAt(VectorIndexSnapshot {
        data: VectorIndexSnapshotData::MultiSegment(vec![ghost_segment]),
        ts: 10,
    }));
    let mut meta = IndexMetadataStore::new(record.clone());
    let revisions = puts(0..1);
    let r = run_build_cycle(
        &mut meta,
        &mut store,
        0,
        record,
        &revisions,
        true,
        1,
        20,
        args(),
        String::from("seg-x"),
    );
    assert_eq!(r.unwrap_err(), BuildError::StorageIO);
    assert_eq!(meta.version(), 0);
}

#[test]
fn stale_observation_fails_with_write_conflict() {
    let mut store = ObjectStore::new();
    let record = vector_record(VectorIndexState::Backfilling(VectorIndexBackfillState {
        segments: vec![],
        cursor: None,
        backfill_snapshot_ts: None,
    }));
    let mut meta = IndexMetadataStore::new(record.clone());
    meta.compare_and_swap(0, record.clone()).unwrap();
    let revisions = puts(0..1);
    let r = run_build_cycle(
        &mut meta,
        &mut store,
        0,
        record,
        &revisions,
        true,
        1,
        2,
        args(),
        String::from("seg-x"),
    );
    assert_eq!(r.unwrap_err(), BuildError::WriteConflict);
    assert_eq!(meta.version(), 1);
}

#[test]
fn aggregate_statistics_folds_all_segments() {
    let mut store = ObjectStore::new();
    let a = make_segment(&mut store, "a", vec![1, 2, 3]);
    let b = make_segment(&mut store, "b", vec![4, 5]);
    let stats = aggregate_statistics(&vec![a, b]).unwrap();
    assert_eq!(
        stats,
        VectorStatistics { num_vectors: 5, non_deleted_vectors: 5 }
    );
    let empty = aggregate_statistics(&vec![]).unwrap();
    assert_eq!(
        empty,
        VectorStatistics { num_vectors: 0, non_deleted_vectors: 0 }
    );
}

#[test]
fn aggregate_statistics_fails_on_inconsistent_segment() {
    let bad = FragmentedVectorSegment {
        id: String::from("bad"),
        num_vectors: 1,
        num_deleted: 2,
        size_bytes: 8,
        ids_key: 0,
        bitset_key: 1,
    };
    assert_eq!(
        aggregate_statistics(&vec![bad]).unwrap_err(),
        BuildError::StatisticsAggregationFailure
    );
}

#[test]
fn build_disk_index_applies_the_full_scan_threshold() {
    let schema = QdrantSchema::new(&DeveloperVectorIndexConfig { dimensions: 4 });
    let revisions = puts(0..100);
    let mut previous =
        VectorSearchIndex::download_previous_segments(&ObjectStore::new(), &vec![]).unwrap();
    let below = VectorSearchIndex::build_disk_index(
        &schema,
        &revisions,
        &mut previous,
        BuildVectorIndexArgs { full_scan_threshold_bytes: 10_000 },
        String::from("flat"),
    )
    .unwrap();
    assert!(!below.indexed);
    assert_eq!(below.size_bytes, 1600);
    assert_eq!(below.doc_ids.len(), 100);
    let above = VectorSearchIndex::build_disk_index(
        &schema,
        &revisions,
        &mut previous,
        BuildVectorIndexArgs { full_scan_threshold_bytes: 1000 },
        String::from("indexed"),
    )
    .unwrap();
    assert!(above.indexed);
}

#[test]
fn build_disk_index_keeps_the_latest_revision_per_document() {
    let schema = QdrantSchema::new(&dev_config());
    let revisions = vec![
        DocumentRevision { document_id: 1, has_value: true },
        DocumentRevision { document_id: 2, has_value: true },
        DocumentRevision { document_id: 1, has_value: false },
        DocumentRevision { document_id: 2, has_value: true },
    ];
    let mut previous =
        VectorSearchIndex::download_previous_segments(&ObjectStore::new(), &vec![]).unwrap();
    let built = VectorSearchIndex::build_disk_index(
        &schema,
        &revisions,
        &mut previous,
        args(),
        String::from("latest"),
    )
    .unwrap();
    assert_eq!(built.doc_ids, vec![2]);
}

#[test]
fn get_index_sizes_reports_enabled_backfilled_indexes() {
    let mut store = ObjectStore::new();
    let seg = make_segment(&mut store, "a", vec![1, 2, 3]);
    let size = seg.size_bytes;
    let snapshot = DbSnapshot {
        vector_indexes: vec![
            IndexRegistryEntry {
                index_id: 1,
                enabled: true,
                state: VectorIndexState::SnapshottedAt(VectorIndexSnapshot {
                    data: VectorIndexSnapshotData::MultiSegment(vec![seg]),
                    ts: 5,
                }),
            },
            IndexRegistryEntry {
                index_id: 2,
                enabled: false,
                state: VectorIndexState::SnapshottedAt(VectorIndexSnapshot {
                    data: VectorIndexSnapshotData::MultiSegment(vec![]),
                    ts: 5,
                }),
            },
            IndexRegistryEntry {
                index_id: 3,
                enabled: true,
                state: VectorIndexState::Backfilling(VectorIndexBackfillState {
                    segments: vec![],
                    cursor: None,
                    backfill_snapshot_ts: None,
                }),
            },
        ],
    };
    let sizes = VectorSearchIndex::get_index_sizes(&snapshot);
    assert_eq!(sizes, vec![(1, size)]);
}

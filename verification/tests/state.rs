use vector_index_build::config::{
    DeveloperVectorIndexConfig, IndexConfig, VectorIndexConfigParser,
};
use vector_index_build::error::BuildError;
use vector_index_build::segment::FragmentedVectorSegment;
use vector_index_build::state::{
    SearchOnDiskState, SearchSnapshot, SnapshotData, VectorIndexBackfillState,
    VectorIndexSnapshot, VectorIndexSnapshotData, VectorIndexState,
};

fn seg(id: &str) -> FragmentedVectorSegment {
    FragmentedVectorSegment {
        id: String::from(id),
        num_vectors: 10,
        num_deleted: 0,
        size_bytes: 80,
        ids_key: 0,
        bitset_key: 1,
    }
}

#[test]
fn backfilling_round_trips() {
    let persisted = VectorIndexState::Backfilling(VectorIndexBackfillState {
        segments: vec![seg("a"), seg("b")],
        cursor: Some(7),
        backfill_snapshot_ts: Some(100),
    });
    let working = SearchOnDiskState::from_persisted(persisted);
    match &working {
        SearchOnDiskState::Backfilling(b) => {
            assert_eq!(b.segments.len(), 2);
            assert_eq!(b.cursor, Some(7));
            assert_eq!(b.backfill_snapshot_ts, Some(100));
        }
        _ => panic!("expected a backfilling state"),
    }
    let back = working.to_persisted().unwrap();
    match back {
        VectorIndexState::Backfilling(b) => {
            assert_eq!(b.segments.len(), 2);
            assert_eq!(b.segments[0].id, "a");
            assert_eq!(b.cursor, Some(7));
        }
        _ => panic!("expected a backfilling state"),
    }
}

#[test]
fn multi_segment_snapshot_round_trips() {
    let persisted = VectorIndexState::SnapshottedAt(VectorIndexSnapshot {
        data: VectorIndexSnapshotData::MultiSegment(vec![seg("a")]),
        ts: 42,
    });
    let working = SearchOnDiskState::from_persisted(persisted);
    let back = working.to_persisted().unwrap();
    match back {
        VectorIndexState::SnapshottedAt(s) => {
            assert_eq!(s.ts, 42);
            match s.data {
                VectorIndexSnapshotData::MultiSegment(v) => assert_eq!(v.len(), 1),
                _ => panic!("expected multi-segment data"),
            }
        }
        _ => panic!("expected a snapshotted state"),
    }
}

#[test]
fn unknown_snapshot_data_round_trips_opaquely() {
    let persisted = VectorIndexState::Backfilled(VectorIndexSnapshot {
        data: VectorIndexSnapshotData::Unknown(vec![1, 2, 3]),
        ts: 9,
    });
    let working = SearchOnDiskState::from_persisted(persisted);
    let back = working.to_persisted().unwrap();
    match back {
        VectorIndexState::Backfilled(s) => match s.data {
            VectorIndexSnapshotData::Unknown(payload) => assert_eq!(payload, vec![1, 2, 3]),
            _ => panic!("expected opaque data"),
        },
        _ => panic!("expected a backfilled state"),
    }
}

#[test]
fn single_segment_data_never_persists() {
    let data = SnapshotData::SingleSegment(seg("solo"));
    assert_eq!(data.to_persisted().unwrap_err(), BuildError::SchemaViolation);
}

#[test]
fn single_segment_snapshot_state_never_persists() {
    let working: SearchOnDiskState<FragmentedVectorSegment> =
        SearchOnDiskState::SnapshottedAt(SearchSnapshot {
            ts: 5,
            data: SnapshotData::SingleSegment(seg("solo")),
        });
    assert_eq!(
        working.to_persisted().unwrap_err(),
        BuildError::SchemaViolation
    );
}

#[test]
fn version_is_current_only_for_multi_segment() {
    let multi: SnapshotData<FragmentedVectorSegment> = SnapshotData::MultiSegment(vec![seg("a")]);
    let unknown: SnapshotData<FragmentedVectorSegment> = SnapshotData::Unknown(vec![0]);
    let single: SnapshotData<FragmentedVectorSegment> = SnapshotData::SingleSegment(seg("s"));
    assert!(multi.is_version_current());
    assert!(!unknown.is_version_current());
    assert!(!single.is_version_current());
}

#[test]
fn parser_accepts_vector_configs() {
    let config = IndexConfig::Vector {
        developer_config: DeveloperVectorIndexConfig { dimensions: 3 },
        on_disk_state: VectorIndexState::Backfilling(VectorIndexBackfillState {
            segments: vec![],
            cursor: None,
            backfill_snapshot_ts: None,
        }),
    };
    let parsed = VectorIndexConfigParser::get_config(config).unwrap();
    assert_eq!(parsed.developer_config.dimensions, 3);
}

#[test]
fn parser_rejects_other_kinds() {
    assert!(VectorIndexConfigParser::get_config(IndexConfig::Database).is_none());
    assert!(VectorIndexConfigParser::get_config(IndexConfig::Search).is_none());
}

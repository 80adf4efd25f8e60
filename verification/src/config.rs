//! Persisted index configuration records and the vector schema derived from
//! a developer's index definition.

use vstd::prelude::*;

use crate::state::{SearchOnDiskState, VectorIndexState};
use crate::segment::FragmentedVectorSegment;

verus! {

/// The user-supplied definition of a vector index.
#[derive(Clone, Debug)]
pub struct DeveloperVectorIndexConfig {
    /// Dimension of the indexed vectors.
    pub dimensions: u32,
}

/// Bytes one stored coordinate occupies on disk.
pub const VECTOR_COORDINATE_BYTES: u64 = 4;

/// The versioned, kind-specific build strategy derived from a developer
/// config. For vectors it fixes the geometry used to estimate sizes and lay
/// out segments.
#[derive(Clone, Debug)]
pub struct QdrantSchema {
    /// Dimension of the vectors the schema lays out.
    pub dimension: u32,
}

impl QdrantSchema {
    /// Derives the schema from a developer config.
    pub fn new(config: &DeveloperVectorIndexConfig) -> (r: Self)
        ensures
            r.dimension == config.dimensions,
    {
        QdrantSchema { dimension: config.dimensions }
    }

    /// On-disk bytes one vector of this schema occupies.
    pub open spec fn spec_vector_size(self) -> u64 {
        (self.dimension as u64 * VECTOR_COORDINATE_BYTES) as u64
    }

    /// Estimated on-disk size of one vector.
    pub fn estimate_vector_size(&self) -> (r: u64)
        ensures
            r == self.spec_vector_size(),
    {
        proof {
            assert(self.dimension as u64 * VECTOR_COORDINATE_BYTES <= u64::MAX) by (nonlinear_arith)
                requires
                    self.dimension <= u32::MAX,
                    VECTOR_COORDINATE_BYTES == 4,
            ;
        }
        self.dimension as u64 * VECTOR_COORDINATE_BYTES
    }
}

/// The durable, atomically-replaceable configuration record of one index.
/// Only the vector variant carries state this engine can build; the other
/// kinds are owned by other subsystems.
#[derive(Clone, Debug)]
pub enum IndexConfig {
    /// An ordinary database index.
    Database,
    /// A text search index.
    Search,
    /// A vector search index: developer definition plus on-disk state.
    Vector {
        /// The user-supplied index definition.
        developer_config: DeveloperVectorIndexConfig,
        /// The persisted lifecycle state.
        on_disk_state: VectorIndexState,
    },
}

/// The metadata document the transactional store keeps for one index.
#[derive(Clone, Debug)]
pub struct TabletIndexMetadata {
    /// The index's configuration record.
    pub config: IndexConfig,
}

/// The working pair the build pipeline operates on: developer config plus
/// the working form of the on-disk state.
#[derive(Clone, Debug)]
pub struct SearchIndexConfig {
    /// The user-supplied index definition.
    pub developer_config: DeveloperVectorIndexConfig,
    /// The working lifecycle state.
    pub on_disk_state: SearchOnDiskState<FragmentedVectorSegment>,
}

/// Extracts the vector-index configuration out of a persisted record.
pub struct VectorIndexConfigParser;

impl VectorIndexConfigParser {
    /// What `get_config` returns.
    pub open spec fn spec_get_config(config: IndexConfig) -> Option<SearchIndexConfig> {
        match config {
            IndexConfig::Vector { developer_config, on_disk_state } => Some(
                SearchIndexConfig {
                    developer_config,
                    on_disk_state: SearchOnDiskState::spec_from_persisted(on_disk_state),
                },
            ),
            _ => None,
        }
    }

    /// Returns the working configuration when the record describes a vector
    /// index, and nothing otherwise.
    pub fn get_config(config: IndexConfig) -> (r: Option<SearchIndexConfig>)
        ensures
            r == Self::spec_get_config(config),
    {
        match config {
            IndexConfig::Vector { developer_config, on_disk_state } => Some(
                SearchIndexConfig {
                    developer_config,
                    on_disk_state: SearchOnDiskState::from_persisted(on_disk_state),
                },
            ),
            _ => None,
        }
    }
}

} // verus!

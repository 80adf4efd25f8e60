//! In-memory models of the engine's two durable collaborators: the
//! append-only object store holding segment blobs, and the metadata store
//! holding one index's `IndexConfig` record behind a compare-and-swap.
//!
//! Both are plain verified data structures: the build pipeline's contracts
//! are stated over their contents, and a caller doing real network storage
//! drives the same pipeline by materializing blobs into a store first.

use vstd::prelude::*;

use crate::error::BuildError;
use crate::config::TabletIndexMetadata;

verus! {

/// Append-only object store: a blob uploaded under a key is never replaced.
/// A blob is a sequence of words; keys are handed out densely from zero.
pub struct ObjectStore {
    /// The stored blobs; a blob's key is its position.
    pub blobs: Vec<Vec<u64>>,
}

impl ObjectStore {
    /// The store's abstract contents: blob sequences by key.
    pub open spec fn contents(self) -> Seq<Seq<u64>> {
        self.blobs@.map_values(|b: Vec<u64>| b@)
    }

    /// An empty store.
    pub fn new() -> (r: Self)
        ensures
            r.contents() == Seq::<Seq<u64>>::empty(),
    {
        let store = ObjectStore { blobs: Vec::new() };
        proof {
            assert(store.contents() =~= Seq::<Seq<u64>>::empty());
        }
        store
    }

    /// Uploads a blob, returning its fresh key. Existing blobs are untouched.
    pub fn upload(&mut self, blob: Vec<u64>) -> (key: u64)
        ensures
            key == old(self).contents().len(),
            final(self).contents() == old(self).contents().push(blob@),
    {
        let key = self.blobs.len() as u64;
        self.blobs.push(blob);
        proof {
            assert(final(self).contents() =~= old(self).contents().push(blob@));
        }
        key
    }

    /// Fetches the blob under `key`; a missing key is a storage failure.
    pub fn download(&self, key: u64) -> (r: Result<&Vec<u64>, BuildError>)
        ensures
            match r {
                Ok(blob) => key < self.contents().len() && blob@ == self.contents()[key as int],
                Err(e) => e == BuildError::StorageIO && key >= self.contents().len(),
            },
    {
        if (key as usize) < self.blobs.len() && key <= usize::MAX as u64 {
            Ok(&self.blobs[key as usize])
        } else {
            Err(BuildError::StorageIO)
        }
    }
}

/// The metadata store's record for one index: the persisted `IndexConfig`
/// under a version that every successful write advances.
pub struct IndexMetadataStore {
    /// Version of the record; each successful compare-and-swap adds one.
    pub version: u64,
    /// The current persisted index metadata.
    pub record: TabletIndexMetadata,
}

impl IndexMetadataStore {
    /// A store holding `record` at version zero.
    pub fn new(record: TabletIndexMetadata) -> (r: Self)
        ensures
            r.version == 0,
            r.record == record,
    {
        IndexMetadataStore { version: 0, record }
    }

    /// The current version, to be observed before a build cycle starts.
    pub fn version(&self) -> (r: u64)
        ensures
            r == self.version,
    {
        self.version
    }

    /// Read-only access to the current record.
    pub fn record(&self) -> (r: &TabletIndexMetadata)
        ensures
            r == &self.record,
    {
        &self.record
    }

    /// Replaces the record only if it is still at the observed version;
    /// otherwise fails with [`BuildError::WriteConflict`] and changes
    /// nothing.
    pub fn compare_and_swap(&mut self, observed_version: u64, new_record: TabletIndexMetadata) -> (r:
        Result<(), BuildError>)
        requires
            old(self).version < u64::MAX,
        ensures
            match r {
                Ok(()) => observed_version == old(self).version && final(self).version == old(
                    self,
                ).version + 1 && final(self).record == new_record,
                Err(e) => e == BuildError::WriteConflict && observed_version != old(self).version
                    && *final(self) == *old(self),
            },
    {
        if observed_version == self.version {
            self.version = self.version + 1;
            self.record = new_record;
            Ok(())
        } else {
            Err(BuildError::WriteConflict)
        }
    }
}

} // verus!

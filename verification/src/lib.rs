//! Segment-based build engine for on-disk vector search indexes.
//!
//! The engine reconciles an ordered document change log against a set of
//! immutable on-disk segments: deletions are recorded as tombstones layered
//! over existing segments, inserts are gathered into one new segment per
//! build cycle, and every successful cycle publishes a fresh, consistent
//! `IndexConfig` record describing the index's durable state.

pub mod blobs;
pub mod config;
pub mod error;
pub mod pipeline;
pub mod previous_segments;
pub mod routes;
pub mod segment;
pub mod state;
pub mod storage;
pub mod vector_index;

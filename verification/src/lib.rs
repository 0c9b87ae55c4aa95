//! A verified two-stage pipeline over a music-collection XML export.
//!
//! Stage one is a streaming structural parser: it folds a flat stream of
//! XML events into semantically typed node records, one per complete
//! `ENTRY` (track) or `NODE` (playlist) record, without buffering the
//! whole document. Stage two is a graph builder: it consumes those
//! records and maintains a normalized, deduplicated, cross-referenced
//! entity graph of tracks, artists, albums and playlists in
//! [`models::CollectionData`].
//!
//! All cross-references among entities are stored as indices into the
//! owning collections of `CollectionData`, so the graph is free of
//! ownership cycles by construction.

pub mod events;
pub mod models;
pub mod parser;
pub mod schema;
pub mod utils;

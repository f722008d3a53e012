//! An incremental crawl scheduler and record-reconciliation engine for a
//! real-estate listing catalog.
//!
//! The catalog is a flat, ordered collection of listing records keyed by a
//! canonicalized URL.  This crate holds the verified core: URL
//! canonicalization, field-level merge and deduplication rules, frontier
//! selection for each crawl mode, the tabular catalog codec, and the state
//! kept by the progress displays.  Fetching, extraction and terminal output
//! live outside the library.

pub mod catalog;
pub mod classify;
pub mod dates;
pub mod debug;
pub mod frontier;
pub mod geocode;
pub mod models;
pub mod reconcile;
pub mod sequencer;
pub mod text;
pub mod tui;
pub mod urls;
pub mod useragent;

//! Scan and classify engine for a music collection: files are keyed by their
//! extension, the files of the configured audio types have their tags turned
//! into track records, and every pass over the collection is tallied.

pub mod classifier;
pub mod config;
pub mod extension_counts;
pub mod laws;
pub mod metadata;
pub mod scan;
pub mod stats;

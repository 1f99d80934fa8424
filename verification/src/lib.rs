//! Extraction engine for ZIP-based scene packages whose entries may be
//! gzip-compressed and may hold JSON.
//!
//! The crate holds the decisions of an extraction run as verified functions on
//! plain values: where the package is unpacked, how its entries are dealt out
//! to workers, where each entry lands and what becomes of its bytes, and how
//! the workers' reports add up. Reading the archive and writing files is left
//! to the caller.

pub mod content;
pub mod entry;
pub mod error;
pub mod folder;
pub mod path;
pub mod split_indices;
pub mod summary;
pub mod worker;

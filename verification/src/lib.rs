//! Decoder for the SPK chunk-based archive container format.
//!
//! An SPK container bundles several logical sub-packages, each holding a table
//! of named files with checksums and byte ranges into an appended data blob.
//! This crate reconstructs, from a raw byte stream, a structurally valid index
//! of packages and files: it resolves forward pointers into the string table,
//! reconciles the two on-disk byte-length encodings and the two file-entry
//! record widths, and translates package-relative byte ranges into
//! stream-absolute ranges, so that file contents can be retrieved by random
//! access afterwards.

pub mod chunks;
pub mod spk;
pub mod stream;

//! Planning and bookkeeping for bulk edits of Parquet files.
//!
//! The crate decides where rewritten files land on disk, how a file's schema
//! changes when columns are dropped or inserted, when files may be merged,
//! and how many file operations may run at once. It performs no I/O itself:
//! callers hand it what they observed on disk and carry out the actions it
//! returns.

pub mod columns;
pub mod commands;
pub mod coordinator;
pub mod edits;
pub mod error;
pub mod formats;
pub mod gather;
pub mod lifecycle;
pub mod merge;
pub mod order;
pub mod outputs;
pub mod paths;
pub mod rewrite;
pub mod schema;
pub mod summary;
pub mod text;

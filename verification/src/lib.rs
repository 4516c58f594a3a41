//! A transactional index of where large binary blobs live inside growable,
//! append-only flat files.
//!
//! The index decides which file a new blob goes to, records where it ended
//! up, and answers "where is blob N". The host application performs the file
//! appends and hands the observed offsets back.

pub mod codec;
pub mod error;
pub mod index;
pub mod laws;
pub mod manager;
pub mod names;
pub mod paths;
pub mod placement;
pub mod records;
pub mod rows;
pub mod table_store;

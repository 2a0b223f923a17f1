//! The session: what is in it, how it is read from old files, and how it is
//! kept on disk.

pub mod edits;
pub mod file;
pub mod laws;
pub mod migrate;
pub mod records;

//! An index of Balatro mods whose thumbnails live in Git LFS.
//!
//! The library holds the decisions of the index and of its fetch engine:
//! how the files of an archive make an index, how pointers are parsed, how
//! a batch of them is split into requests, how the answers are matched
//! back, in which order downloads are started and handed back, what the
//! cache keeps, and how a collection is walked page by page. Sending a
//! request, awaiting its answer and opening an archive are left to the
//! caller.

pub mod archive;
pub mod cursor;
pub mod error;
pub mod foreign;
pub mod forge;
pub mod json;
pub mod lfs;
pub mod mods;
pub mod text;

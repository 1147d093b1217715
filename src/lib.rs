//! Read tracking for a command-line news reader.
//!
//! Feed items are identified by a 16-byte digest of their title and publish
//! time; the set of items already seen is kept as a flat log of such digests.

pub mod feed;
pub mod read_list;
pub mod commands;
pub mod display;

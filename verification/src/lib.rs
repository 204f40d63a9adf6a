//! Verified core of a recursive copy tool.
//!
//! The library plans and accounts for a copy of a source tree to a
//! destination: it computes destination paths, decides which entries are
//! copied, linked, created or skipped, enforces the no-clobber policy, and
//! aggregates progress statistics.  The surrounding process performs the
//! actual filesystem work that the plan describes.

pub mod executor;
pub mod laws;
pub mod matcher;
pub mod ops;
pub mod path;
pub mod single;
pub mod stats;
pub mod traversal;

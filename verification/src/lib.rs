//! Verified core of a git commit statistics tool.
//!
//! The library resolves a keyword search into an ordered list of commit
//! hashes, parses per-file line-change records, aggregates totals, and
//! stably sorts commits by the number of added lines.  All querying of the
//! version-control engine itself (spawning `git`) is left to the binary
//! around this library; the library only decides which query to run and
//! what its textual output means.

pub mod commit;
pub mod diff;
pub mod digits;
pub mod finder;
pub mod sorter;
pub mod split;
pub mod stats;

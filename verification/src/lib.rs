//! Duplicate-file detection by content digest.
//!
//! Two collections of files, a source set and a destination set, are each
//! reduced to records holding a SHA-512 content digest and a filesystem
//! identity. The comparison engine then reports every cross pair with
//! equal digests and distinct identities as a match, skipping pairs that
//! resolve to the same underlying file.

pub mod compare;
pub mod digest;
pub mod records;

//! Checksums over directory trees: a multi-algorithm digest engine, a
//! line-oriented manifest format, and a comparator that classifies every
//! path as matching, mismatching, missing or extra.
//!
//! Paths, digests and manifest text are all byte sequences; digests are
//! rendered as lowercase hex. File and directory I/O stays with the caller,
//! which feeds file bytes through [`hashing::Hasher`] and hands manifest
//! bytes to [`codec`].

pub mod algorithm;
pub mod util;
pub mod errors;
pub mod hashing;
pub mod manifest;
pub mod compare;
pub mod codec;
pub mod tree;

//! The error taxonomy of the library: every failing operation reports one
//! of these variants, and each public contract says exactly when.

use vstd::prelude::*;

verus! {

/// Why a manifest line was rejected by the parser.
#[derive(Clone, Copy, Debug, PartialEq, Eq, Structural)]
pub enum CorruptReason {
    /// The line does not consist of exactly a path, one tab, and a digest.
    WrongFieldCount,
    /// The digest field holds a character that is not a lowercase hex digit.
    NonHexDigest,
    /// The digest field's length differs from twice the declared
    /// algorithm's byte width.
    WrongDigestLength,
    /// The line repeats a path that an earlier line already mapped.
    DuplicatePath,
}

/// Everything that can go wrong in the library or in the I/O around it.
#[derive(Clone, Copy, Debug, PartialEq, Eq, Structural)]
pub enum Error {
    /// An algorithm name matched none of the supported set.
    UnsupportedAlgorithm,
    /// A file to be digested could not be opened or read.
    FileUnreadable,
    /// The manifest destination already exists and no override was given.
    OutputExists,
    /// Writing the manifest failed.
    WriteFailed,
    /// The manifest to be read does not exist.
    ManifestNotFound,
    /// A manifest line is malformed; `line` is 1-based, counting the
    /// algorithm header as line 1.
    ManifestCorrupt { line: usize, reason: CorruptReason },
}

} // verus!

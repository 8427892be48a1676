use vstd::prelude::*;

verus! {

/// Failures of the library's own operations.
///
/// Parsing is done over in-memory bytes, so a short input surfaces as
/// `Truncated` rather than as an underlying I/O failure; every other variant
/// names one distinct fatal condition, and `NotFound` is the one expected,
/// non-fatal outcome (a lookup that matched nothing).
#[derive(Debug, PartialEq, Eq, Clone, Copy)]
pub enum Nups2Error {
    /// The input ended before a complete record or payload could be read.
    Truncated,
    /// The archive header does not start with the pack2 magic value.
    BadMagic,
    /// A compressed entry's payload does not start with the compression
    /// sub-header magic value.
    BadCompressionMagic,
    /// An entry's payload span reaches past the archive's declared length.
    EntryOutOfBounds,
    /// A manifest's byte length is not a whole number of 12-byte records.
    BadManifestLength,
    /// Bytes that were expected to be text are not valid UTF-8.
    InvalidUtf8,
    /// A compressed payload could not be decompressed.
    DecompressFailed,
    /// A lookup by name or by key matched no entry.
    NotFound,
    /// Any other failure, described by a fixed message.
    Other(&'static str),
}

} // verus!

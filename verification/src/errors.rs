//! The failure taxonomy of a package build.

use vstd::prelude::*;

verus! {

/// Why a build stopped. Every stage fails fast: the first error is handed to
/// the caller unchanged, and no stage downgrades an error to free text.
#[derive(Clone, Copy, Debug, PartialEq, Eq, Structural)]
pub enum BuildError {
    /// The metadata file is absent from the base directory.
    MetadataNotFound,
    /// The metadata file exists but its syntax cannot be parsed.
    MetadataParseError,
    /// The header bitmap is absent from the base directory.
    HeaderImageMissing,
    /// The header bitmap cannot be decoded, or could not be re-encoded.
    HeaderImageInvalid,
    /// Enumerating the source tree failed part way.
    ArchiveWalkError,
    /// Writing into the archive buffer failed.
    IoError,
}

} // verus!

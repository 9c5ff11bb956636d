//! Builder for RMSKIN skin packages: a deflate-compressed archive of a source
//! tree followed by a fixed sixteen-byte trailer that names the format and the
//! archive's byte length.
//!
//! The library is pure: it turns plain values (metadata text, image bytes, the
//! entries of a source tree) into the bytes of a finished package. Reading the
//! source tree and writing the package file are left to the caller.

pub mod archive;
pub mod builder;
pub mod errors;
pub mod footer;
pub mod header;
pub mod metadata;
pub mod paths;

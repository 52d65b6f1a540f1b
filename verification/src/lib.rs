//! Validates that byte streams are JPEG containers, extracts a fixed set of
//! filesystem and embedded metadata fields, normalizes them into a stable
//! sidecar record, and aggregates per-file results over a batch.
use vstd::prelude::*;

pub mod batch;
pub mod doc;
pub mod embedded;
pub mod instant;
pub mod record;
pub mod text;

verus! {

/// The per-file failure taxonomy. A file that merely lacks the container
/// signature is rejected, which is a classification, not an error.
#[derive(Clone, Copy, Debug, PartialEq, Eq, Structural)]
pub enum PipelineError {
    /// The stream could not be read, or ended before the two signature bytes.
    IoError,
    /// The filesystem attribute query failed.
    MetadataUnavailable,
    /// The embedded-metadata segment is absent or structurally corrupt.
    ContainerParseError,
    /// The file identifier has no extractable base-name component.
    InvalidFilename,
}

/// Returns true exactly when the byte stream begins with the JPEG
/// start-of-image marker `0xFF 0xD8`.
pub open spec fn spec_is_jpeg(bytes: Seq<u8>) -> bool {
    bytes.len() >= 2 && bytes[0] == 0xFFu8 && bytes[1] == 0xD8u8
}

/// Classifies a byte stream as a JPEG container by its two-byte magic
/// signature. A stream shorter than two bytes cannot be classified and is
/// an I/O-level failure, distinct from "not a container".
pub fn is_jpeg(bytes: &[u8]) -> (r: Result<bool, PipelineError>)
    ensures
        bytes@.len() < 2 <==> r == Err::<bool, PipelineError>(PipelineError::IoError),
        r is Err ==> r == Err::<bool, PipelineError>(PipelineError::IoError),
        r matches Ok(b) ==> (b <==> spec_is_jpeg(bytes@)),
{
    if bytes.len() < 2 {
        Err(PipelineError::IoError)
    } else {
        Ok(bytes[0] == 0xFF && bytes[1] == 0xD8)
    }
}

} // verus!

//! Errors reported while demultiplexing a WebP container.

use vstd::prelude::*;

verus! {

/// Errors that can occur when attempting to decode a WebP image.
#[derive(Debug, Clone, Copy, PartialEq, Eq, Structural)]
#[non_exhaustive]
pub enum DecodingError {
    /// The input ended before a required field was complete.
    IoError,
    /// The outer `RIFF` signature was not found.
    RiffSignatureInvalid,
    /// The `WEBP` format signature was not found.
    WebpSignatureInvalid,
    /// An expected chunk was missing.
    ChunkMissing,
    /// A chunk header was incorrect or invalid in its usage.
    ChunkHeaderInvalid,
    /// Reserved info bits were set.
    InfoBitsInvalid,
    /// The alpha chunk does not match the frame's size.
    AlphaChunkSizeMismatch,
    /// The image is too large.
    ImageTooLarge,
    /// A frame would go out of the canvas.
    FrameOutsideImage,
    /// The lossless signature byte `0x2F` was not found.
    LosslessSignatureInvalid,
    /// The lossless version field was not zero.
    VersionNumberInvalid,
    /// The lossy bitstream magic `0x9D 0x01 0x2A` was not found.
    Vp8MagicInvalid,
    /// A decoded frame's size disagrees with the declared size.
    InconsistentImageSizes,
    /// The file may be valid, but uses a feature this library cannot handle.
    UnsupportedFeature,
    /// Invalid function call or parameter.
    InvalidParameter,
    /// A chunk is larger than the configured memory limit allows.
    MemoryLimitExceeded,
    /// A chunk's declared size is invalid for its use.
    InvalidChunkSize,
}

} // verus!

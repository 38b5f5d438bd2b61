//! Demultiplexer and animation-playback state machine for the WebP container
//! format.
//!
//! The library parses the RIFF-style outer envelope of a WebP file held in
//! memory, indexes its chunks, validates the extended-format feature flags,
//! and replays animation frames onto a persistent canvas with the format's
//! disposal, positioning and alpha-blending rules. The lossy and lossless
//! pixel codecs are outside collaborators: callers decode a bitstream chunk
//! themselves and hand the resulting pixel frame to [`WebPDecoder::read_image`]
//! or [`WebPDecoder::read_frame`], which validate and composite it.


pub mod bytes;
pub mod chunk;
pub mod index;
pub mod error;
pub mod alpha;
pub mod composite;
pub mod decoder;
pub mod format;
pub mod parse;

pub use alpha::AlphaChunk;
pub use alpha::AlphaFilter;
pub use chunk::WebPRiffChunk;
pub use decoder::AnimationState;
pub use decoder::DecodedFrame;
pub use decoder::WebPDecoder;
pub use error::DecodingError;
pub use format::ImageKind;
pub use format::WebPExtendedInfo;
pub use index::ByteRange;
pub use index::ChunkIndex;

//! The chunk index: for each recognized chunk tag that the demuxer may need
//! again, the byte range of its payload in the underlying stream.

use vstd::prelude::*;
use crate::chunk::WebPRiffChunk;

verus! {

/// A half-open byte range `[start, end)` of the underlying stream.
#[derive(Debug, Clone, Copy, PartialEq, Eq, Structural)]
pub struct ByteRange {
    pub start: u64,
    pub end: u64,
}

/// Payload ranges of the distinct chunks a WebP stream may carry, at most one
/// per tag: the first occurrence of a tag is authoritative and later
/// duplicates are ignored. Only the tags the demuxer reads back are held;
/// recognized tags outside this set are skipped over by the scan and never
/// looked up again.
#[derive(Debug, Clone, Copy, PartialEq, Eq, Structural)]
pub struct ChunkIndex {
    pub vp8: Option<ByteRange>,
    pub vp8l: Option<ByteRange>,
    pub alph: Option<ByteRange>,
    pub anim: Option<ByteRange>,
    pub anmf: Option<ByteRange>,
    pub iccp: Option<ByteRange>,
    pub exif: Option<ByteRange>,
    pub xmp: Option<ByteRange>,
}

impl ChunkIndex {
    /// The recorded payload range of `tag`, if any.
    pub open spec fn spec_get(self, tag: WebPRiffChunk) -> Option<ByteRange> {
        match tag {
            WebPRiffChunk::VP8 => self.vp8,
            WebPRiffChunk::VP8L => self.vp8l,
            WebPRiffChunk::ALPH => self.alph,
            WebPRiffChunk::ANIM => self.anim,
            WebPRiffChunk::ANMF => self.anmf,
            WebPRiffChunk::ICCP => self.iccp,
            WebPRiffChunk::EXIF => self.exif,
            WebPRiffChunk::XMP => self.xmp,
            _ => None,
        }
    }

    /// The index that results from recording `range` for `tag` when `tag` has
    /// no entry yet; a duplicate or a tag outside the held set changes
    /// nothing.
    pub open spec fn spec_insert(self, tag: WebPRiffChunk, range: ByteRange) -> ChunkIndex {
        match tag {
            WebPRiffChunk::VP8 => if self.vp8 is None { ChunkIndex { vp8: Some(range), ..self } } else { self },
            WebPRiffChunk::VP8L => if self.vp8l is None { ChunkIndex { vp8l: Some(range), ..self } } else { self },
            WebPRiffChunk::ALPH => if self.alph is None { ChunkIndex { alph: Some(range), ..self } } else { self },
            WebPRiffChunk::ANIM => if self.anim is None { ChunkIndex { anim: Some(range), ..self } } else { self },
            WebPRiffChunk::ANMF => if self.anmf is None { ChunkIndex { anmf: Some(range), ..self } } else { self },
            WebPRiffChunk::ICCP => if self.iccp is None { ChunkIndex { iccp: Some(range), ..self } } else { self },
            WebPRiffChunk::EXIF => if self.exif is None { ChunkIndex { exif: Some(range), ..self } } else { self },
            WebPRiffChunk::XMP => if self.xmp is None { ChunkIndex { xmp: Some(range), ..self } } else { self },
            _ => self,
        }
    }

    /// The empty index.
    pub fn new() -> (r: ChunkIndex)
        ensures
            r == ChunkIndex::spec_empty(),
    {
        ChunkIndex {
            vp8: None,
            vp8l: None,
            alph: None,
            anim: None,
            anmf: None,
            iccp: None,
            exif: None,
            xmp: None,
        }
    }

    /// The empty index, as a specification value.
    pub open spec fn spec_empty() -> ChunkIndex {
        ChunkIndex {
            vp8: None,
            vp8l: None,
            alph: None,
            anim: None,
            anmf: None,
            iccp: None,
            exif: None,
            xmp: None,
        }
    }

    /// Looks up the recorded payload range of `tag`.
    pub fn get(&self, tag: WebPRiffChunk) -> (r: Option<ByteRange>)
        ensures
            r == self.spec_get(tag),
    {
        match tag {
            WebPRiffChunk::VP8 => self.vp8,
            WebPRiffChunk::VP8L => self.vp8l,
            WebPRiffChunk::ALPH => self.alph,
            WebPRiffChunk::ANIM => self.anim,
            WebPRiffChunk::ANMF => self.anmf,
            WebPRiffChunk::ICCP => self.iccp,
            WebPRiffChunk::EXIF => self.exif,
            WebPRiffChunk::XMP => self.xmp,
            _ => None,
        }
    }

    /// Records `range` for `tag` unless an earlier occurrence already did.
    pub fn insert_if_absent(&mut self, tag: WebPRiffChunk, range: ByteRange)
        ensures
            *final(self) == old(self).spec_insert(tag, range),
    {
        match tag {
            WebPRiffChunk::VP8 => {
                if self.vp8.is_none() {
                    self.vp8 = Some(range);
                }
            }
            WebPRiffChunk::VP8L => {
                if self.vp8l.is_none() {
                    self.vp8l = Some(range);
                }
            }
            WebPRiffChunk::ALPH => {
                if self.alph.is_none() {
                    self.alph = Some(range);
                }
            }
            WebPRiffChunk::ANIM => {
                if self.anim.is_none() {
                    self.anim = Some(range);
                }
            }
            WebPRiffChunk::ANMF => {
                if self.anmf.is_none() {
                    self.anmf = Some(range);
                }
            }
            WebPRiffChunk::ICCP => {
                if self.iccp.is_none() {
                    self.iccp = Some(range);
                }
            }
            WebPRiffChunk::EXIF => {
                if self.exif.is_none() {
                    self.exif = Some(range);
                }
            }
            WebPRiffChunk::XMP => {
                if self.xmp.is_none() {
                    self.xmp = Some(range);
                }
            }
            _ => {}
        }
    }
}

} // verus!

//! The decoder: opening a WebP stream held in memory, querying what it
//! holds, and extracting still images and animation frames.
//!
//! The lossy and lossless pixel codecs are outside collaborators. A caller
//! locates a bitstream chunk through the recorded chunk ranges, decodes it
//! with such a codec, and hands the resulting [`DecodedFrame`] to
//! [`WebPDecoder::read_image`] or [`WebPDecoder::read_frame`]; the decoder
//! validates it against the container's declarations and composites it.

use vstd::prelude::*;
use crate::error::DecodingError;
use crate::format::{
    index_ranges_ok, spec_padded, spec_parse, tag_at, ImageKind, ParsedImage, WebPExtendedInfo,
};
use crate::bytes::{le24, le32};
use crate::index::{ByteRange, ChunkIndex};
use crate::chunk::WebPRiffChunk;
use crate::parse::{parse, read_chunk_header};
use crate::composite::{composite_frame, px, spec_composited};
use crate::alpha::{
    alpha_index, read_alpha_chunk, reconstruct_alpha, spec_alpha_sample, spec_read_alpha,
    AlphaFilter,
};

verus! {

/// A pixel frame handed back by one of the outside codecs: its dimensions
/// and a tightly packed RGBA buffer (a codec without an alpha channel fills
/// the alpha bytes with full opacity).
pub struct DecodedFrame {
    pub width: u32,
    pub height: u32,
    pub rgba: Vec<u8>,
}

impl DecodedFrame {
    /// The outside codecs' contract: dimensions fit 16 bits and the buffer
    /// holds exactly 4 bytes per pixel.
    pub open spec fn wf(&self) -> bool {
        &&& self.width <= 0xFFFF
        &&& self.height <= 0xFFFF
        &&& self.rgba@.len() == self.width * self.height * 4
    }

    /// Copies the frame into a 4-byte-per-pixel buffer.
    pub fn fill_rgba(&self, buf: &mut Vec<u8>)
        requires
            self.wf(),
            old(buf)@.len() == self.rgba@.len(),
        ensures
            final(buf)@ == self.rgba@,
    {
        let n = self.rgba.len();
        let mut i: usize = 0;
        while i < n
            invariant
                0 <= i <= n,
                n == self.rgba@.len(),
                buf@.len() == n,
                forall|k: int| 0 <= k < i ==> buf@[k] == self.rgba@[k],
            decreases n - i,
        {
            let b = self.rgba[i];
            buf.set(i, b);
            i = i + 1;
        }
        proof {
            assert(buf@ =~= self.rgba@);
        }
    }

    /// Copies the color bytes of the frame into a 3-byte-per-pixel buffer,
    /// dropping the alpha channel.
    pub fn fill_rgb(&self, buf: &mut Vec<u8>)
        requires
            self.wf(),
            old(buf)@.len() == self.width * self.height * 3,
        ensures
            final(buf)@ == spec_rgb_frame(self.rgba@, (self.width * self.height) as int),
    {
        let _cap: usize = buf.len();
        let _rgba_cap: usize = self.rgba.len();
        let npx: usize = (self.width as usize) * (self.height as usize);
        proof {
            assert(3 * (npx as int) <= 4 * (npx as int));
        }
        let mut p: usize = 0;
        while p < npx
            invariant
                0 <= p <= npx,
                npx == self.width * self.height,
                self.rgba@.len() == 4 * npx,
                buf@.len() == 3 * npx,
                self.rgba@.len() <= usize::MAX,
                forall|k: int| 0 <= k < 3 * p ==> buf@[k] == spec_rgb_frame(self.rgba@, npx as int)[k],
            decreases npx - p,
        {
            let r = self.rgba[4 * p];
            let g = self.rgba[4 * p + 1];
            let b = self.rgba[4 * p + 2];
            buf.set(3 * p, r);
            buf.set(3 * p + 1, g);
            buf.set(3 * p + 2, b);
            proof {
                let s = spec_rgb_frame(self.rgba@, npx as int);
                assert((3 * p as int) / 3 == p as int && (3 * p as int) % 3 == 0);
                assert((3 * p as int + 1) / 3 == p as int && (3 * p as int + 1) % 3 == 1);
                assert((3 * p as int + 2) / 3 == p as int && (3 * p as int + 2) % 3 == 2);
                assert(s[3 * p as int] == self.rgba@[4 * p as int]);
                assert(s[3 * p as int + 1] == self.rgba@[4 * p as int + 1]);
                assert(s[3 * p as int + 2] == self.rgba@[4 * p as int + 2]);
            }
            p = p + 1;
        }
        proof {
            assert(buf@ =~= spec_rgb_frame(self.rgba@, npx as int));
        }
    }
}

/// The 3-byte-per-pixel projection of a tightly packed RGBA buffer.
pub open spec fn spec_rgb_frame(rgba: Seq<u8>, npx: int) -> Seq<u8> {
    Seq::new((3 * npx) as nat, |k: int| rgba[4 * (k / 3) + (k % 3)])
}

/// Playback state of an animated container.
pub struct AnimationState {
    /// Index of the next frame to emit, wrapping to 0 after the last.
    pub next_frame: u32,
    /// Remaining loop count; `None` plays forever.
    pub loops_before_done: Option<u16>,
    /// Stream offset of the next animation-frame chunk's header.
    pub next_frame_start: u64,
    /// Whether the canvas must be cleared to the background color before the
    /// next frame is drawn.
    pub dispose_next_frame: bool,
    /// The persistent canvas, allocated lazily on the first frame read.
    pub canvas: Option<Vec<u8>>,
}

impl Default for AnimationState {
    fn default() -> (r: Self)
        ensures
            r.next_frame == 0,
            r.loops_before_done is None,
            r.next_frame_start == 0,
            r.dispose_next_frame,
            r.canvas is None,
    {
        AnimationState {
            next_frame: 0,
            loops_before_done: None,
            next_frame_start: 0,
            dispose_next_frame: true,
            canvas: None,
        }
    }
}

/// WebP image format decoder over an in-memory stream.
pub struct WebPDecoder {
    /// The stream.
    pub data: Vec<u8>,
    /// Byte quota for materializing a metadata chunk.
    pub memory_limit: usize,
    /// Canvas width in pixels.
    pub width: u32,
    /// Canvas height in pixels.
    pub height: u32,
    /// Number of animation-frame chunks the stream holds.
    pub num_frames: u32,
    /// Animation playback state.
    pub animation: AnimationState,
    /// Which of the three container kinds the stream holds.
    pub kind: ImageKind,
    /// Whether any frame anywhere uses the lossy codec.
    pub is_lossy: bool,
    /// Payload ranges of the recorded chunks.
    pub chunks: ChunkIndex,
}

impl WebPDecoder {
    /// What the open step extracted, as one value: the decoder's abstract
    /// state apart from playback progress.
    pub open spec fn abs(self) -> ParsedImage {
        ParsedImage {
            width: self.width,
            height: self.height,
            num_frames: self.num_frames,
            kind: self.kind,
            is_lossy: self.is_lossy,
            chunks: self.chunks,
            loops_before_done: self.animation.loops_before_done,
            next_frame_start: self.animation.next_frame_start,
        }
    }

    /// The decoder's invariant: dimensions within the format's fields, a
    /// canvas buffer that fits in memory, well-formed chunk ranges, the
    /// animation chunks present whenever the animation flag is set, a canvas
    /// of exactly one frame's size once allocated, and a frame cursor within
    /// range.
    pub open spec fn wf(self) -> bool {
        &&& self.width <= 0x100_0000
        &&& self.height <= 0x100_0000
        &&& self.width * self.height * 4 <= usize::MAX
        &&& index_ranges_ok(self.chunks)
        &&& (self.spec_has_animation() ==> self.chunks.anim is Some && self.chunks.anmf is Some)
        &&& (self.animation.canvas matches Some(c) ==> c@.len() == self.width * self.height * 4)
        &&& (self.animation.next_frame < self.num_frames || self.animation.next_frame == 0)
    }

    /// Whether the container is animated.
    pub open spec fn spec_has_animation(self) -> bool {
        match self.kind {
            ImageKind::Extended(info) => info.animation,
            _ => false,
        }
    }

    /// Whether the image has an alpha channel.
    pub open spec fn spec_has_alpha(self) -> bool {
        match self.kind {
            ImageKind::Lossy => false,
            ImageKind::Lossless => true,
            ImageKind::Extended(info) => info.alpha,
        }
    }

    /// The number of bytes one decoded image or frame occupies: 4 bytes per
    /// pixel with an alpha channel, 3 without.
    pub open spec fn spec_output_buffer_size(self) -> int {
        self.width * self.height * (if self.spec_has_alpha() {
            4int
        } else {
            3int
        })
    }

    /// Creates a new decoder over the stream `r`, validating the envelope,
    /// indexing the chunks, and — for the extended format — cross-checking
    /// the feature flags, exactly as [`spec_parse`] prescribes.
    pub fn new(r: Vec<u8>) -> (result: Result<WebPDecoder, DecodingError>)
        ensures
            match result {
                Ok(d) => {
                    &&& spec_parse(r@) == Ok::<ParsedImage, DecodingError>(d.abs())
                    &&& d.data@ == r@
                    &&& d.wf()
                    &&& d.animation.next_frame == 0
                    &&& d.animation.dispose_next_frame
                    &&& d.animation.canvas is None
                    &&& d.memory_limit == usize::MAX
                },
                Err(e) => spec_parse(r@) == Err::<ParsedImage, DecodingError>(e),
            },
    {
        let parsed = match parse(&r) {
            Ok(p) => p,
            Err(e) => {
                return Err(e);
            },
        };
        let decoder = WebPDecoder {
            data: r,
            memory_limit: usize::MAX,
            width: parsed.width,
            height: parsed.height,
            num_frames: parsed.num_frames,
            animation: AnimationState {
                next_frame: 0,
                loops_before_done: parsed.loops_before_done,
                next_frame_start: parsed.next_frame_start,
                dispose_next_frame: true,
                canvas: None,
            },
            kind: parsed.kind,
            is_lossy: parsed.is_lossy,
            chunks: parsed.chunks,
        };
        Ok(decoder)
    }

    /// Sets the maximum number of bytes a metadata chunk (ICC profile, EXIF
    /// or XMP) may occupy when it is materialized; the default is unbounded.
    /// The quota does not bound the canvas, whose size is limited only by
    /// the address-space check made when the stream is opened.
    pub fn set_memory_limit(&mut self, limit: usize)
        ensures
            *final(self) == (WebPDecoder { memory_limit: limit, ..*old(self) }),
    {
        self.memory_limit = limit;
    }

    /// Returns true if the image is animated.
    pub fn has_animation(&self) -> (r: bool)
        ensures
            r == self.spec_has_animation(),
    {
        match &self.kind {
            ImageKind::Lossy | ImageKind::Lossless => false,
            ImageKind::Extended(extended) => extended.animation,
        }
    }

    /// Returns whether the image has an alpha channel. If so, the pixel
    /// format is 4 bytes per pixel and otherwise 3.
    pub fn has_alpha(&self) -> (r: bool)
        ensures
            r == self.spec_has_alpha(),
    {
        match &self.kind {
            ImageKind::Lossy => false,
            ImageKind::Lossless => true,
            ImageKind::Extended(extended) => extended.alpha,
        }
    }

    /// Returns whether the image is lossy. For animated images, this is true
    /// if any frame is lossy.
    pub fn is_lossy(&mut self) -> (r: bool)
        ensures
            r == old(self).is_lossy,
            *final(self) == *old(self),
    {
        self.is_lossy
    }

    /// Sets the background color. Only an extended container that is
    /// animated has one; on any other container this is an invalid call and
    /// nothing changes.
    pub fn set_background_color(&mut self, color: [u8; 4]) -> (r: Result<(), DecodingError>)
        ensures
            match old(self).kind {
                ImageKind::Extended(info) => {
                    if info.animation {
                        r == Ok::<(), DecodingError>(()) && *final(self) == (WebPDecoder {
                            kind: ImageKind::Extended(
                                WebPExtendedInfo { background_color: color, ..info },
                            ),
                            ..*old(self)
                        })
                    } else {
                        r == Err::<(), DecodingError>(DecodingError::InvalidParameter)
                            && *final(self) == *old(self)
                    }
                },
                _ => r == Err::<(), DecodingError>(DecodingError::InvalidParameter) && *final(self)
                    == *old(self),
            },
    {
        match &self.kind {
            ImageKind::Extended(info) => {
                if info.animation {
                    let new_info = WebPExtendedInfo { background_color: color, ..*info };
                    self.kind = ImageKind::Extended(new_info);
                    Ok(())
                } else {
                    Err(DecodingError::InvalidParameter)
                }
            },
            _ => Err(DecodingError::InvalidParameter),
        }
    }

    /// Returns the (width, height) of the image in pixels.
    pub fn dimensions(&self) -> (r: (u32, u32))
        ensures
            r == (self.width, self.height),
    {
        (self.width, self.height)
    }

    /// Returns the number of bytes required to store the image or a single
    /// frame.
    pub fn output_buffer_size(&self) -> (r: usize)
        requires
            self.wf(),
        ensures
            r == self.spec_output_buffer_size(),
    {
        let bytes_per_pixel: usize = if self.has_alpha() {
            4
        } else {
            3
        };
        proof {
            assert(self.width * self.height * 3 <= self.width * self.height * 4);
        }
        self.width as usize * self.height as usize * bytes_per_pixel
    }

    /// Returns the raw bytes of the ICC profile, or None if there is none,
    /// within the configured memory limit.
    pub fn icc_profile(&mut self) -> (r: Result<Option<Vec<u8>>, DecodingError>)
        requires
            old(self).wf(),
        ensures
            *final(self) == *old(self),
            chunk_result_matches(
                r,
                spec_read_chunk(
                    old(self).data@,
                    old(self).chunks,
                    WebPRiffChunk::ICCP,
                    old(self).memory_limit as int,
                ),
            ),
    {
        read_chunk(&self.data, &self.chunks, WebPRiffChunk::ICCP, self.memory_limit)
    }

    /// Returns the raw bytes of the EXIF metadata, or None if there is none,
    /// within the configured memory limit.
    pub fn exif_metadata(&mut self) -> (r: Result<Option<Vec<u8>>, DecodingError>)
        requires
            old(self).wf(),
        ensures
            *final(self) == *old(self),
            chunk_result_matches(
                r,
                spec_read_chunk(
                    old(self).data@,
                    old(self).chunks,
                    WebPRiffChunk::EXIF,
                    old(self).memory_limit as int,
                ),
            ),
    {
        read_chunk(&self.data, &self.chunks, WebPRiffChunk::EXIF, self.memory_limit)
    }

    /// Returns the raw bytes of the XMP metadata, or None if there is none,
    /// within the configured memory limit.
    pub fn xmp_metadata(&mut self) -> (r: Result<Option<Vec<u8>>, DecodingError>)
        requires
            old(self).wf(),
        ensures
            *final(self) == *old(self),
            chunk_result_matches(
                r,
                spec_read_chunk(
                    old(self).data@,
                    old(self).chunks,
                    WebPRiffChunk::XMP,
                    old(self).memory_limit as int,
                ),
            ),
    {
        read_chunk(&self.data, &self.chunks, WebPRiffChunk::XMP, self.memory_limit)
    }


    /// Locates the pixel bitstream an outside codec must decode for the
    /// next [`WebPDecoder::read_frame`] call: the nested bitstream chunk of
    /// the upcoming animation-frame chunk (for an alpha-coded frame, the
    /// lossy bitstream that follows the alpha chunk). Returns `None` when
    /// the remaining-loop counter has reached zero and no frame is due.
    pub fn next_frame_bitstream(&self) -> (r: Result<
        Option<(WebPRiffChunk, ByteRange)>,
        DecodingError,
    >)
        requires
            self.spec_has_animation(),
        ensures
            match r {
                Ok(Option::None) => self.animation.loops_before_done == Option::Some(0u16),
                Ok(Option::Some(loc)) => self.animation.loops_before_done != Option::Some(0u16)
                    && spec_frame_bitstream(
                    self.data@,
                    self.animation.next_frame_start as int,
                ) == Ok::<(WebPRiffChunk, ByteRange), DecodingError>(loc),
                Err(e) => self.animation.loops_before_done != Option::Some(0u16)
                    && spec_frame_bitstream(
                    self.data@,
                    self.animation.next_frame_start as int,
                ) == Err::<(WebPRiffChunk, ByteRange), DecodingError>(e),
            },
    {
        if let Some(l) = self.animation.loops_before_done {
            if l == 0 {
                return Ok(None);
            }
        }
        let n = self.data.len() as u64;
        let start = self.animation.next_frame_start;
        if past_end(start, 8, n) {
            return Err(DecodingError::IoError);
        }
        let (tag, _, _) = match read_chunk_header(&self.data, start) {
            Ok(t) => t,
            Err(e) => {
                return Err(e);
            },
        };
        if !matches!(tag, WebPRiffChunk::ANMF) {
            return Err(DecodingError::ChunkHeaderInvalid);
        }
        if past_end(start, 32, n) {
            return Err(DecodingError::IoError);
        }
        let (sub, sub_size, sub_rounded) = match read_chunk_header(&self.data, start + 24) {
            Ok(t) => t,
            Err(e) => {
                return Err(e);
            },
        };
        match sub {
            WebPRiffChunk::VP8 | WebPRiffChunk::VP8L => {
                let end = match (start + 32).checked_add(sub_size as u64) {
                    None => {
                        return Err(DecodingError::IoError);
                    },
                    Some(e) => e,
                };
                Ok(Some((sub, ByteRange { start: start + 32, end })))
            },
            WebPRiffChunk::ALPH => {
                let p2 = match start.checked_add(32 + sub_rounded as u64) {
                    None => {
                        return Err(DecodingError::IoError);
                    },
                    Some(p) => p,
                };
                if past_end(p2, 8, n) {
                    return Err(DecodingError::IoError);
                }
                let (next, next_size, _) = match read_chunk_header(&self.data, p2) {
                    Ok(t) => t,
                    Err(e) => {
                        return Err(e);
                    },
                };
                let end = match (p2 + 8).checked_add(next_size as u64) {
                    None => {
                        return Err(DecodingError::IoError);
                    },
                    Some(e) => e,
                };
                Ok(Some((next, ByteRange { start: p2 + 8, end })))
            },
            _ => Err(DecodingError::ChunkHeaderInvalid),
        }
    }

    /// Reads the next frame of the animation, given the pixel frame that an
    /// outside codec decoded from the upcoming animation-frame chunk's
    /// bitstream (locate it through the chunk at the current playback
    /// offset). The composited canvas is written into `buf` and the frame's
    /// duration in milliseconds is returned; when the remaining-loop counter
    /// has reached zero, no more frames remain, and neither the canvas nor
    /// `buf` changes. A failed read leaves the decoder exactly as it was.
    #[verifier::rlimit(100)]
    pub fn read_frame(&mut self, buf: &mut Vec<u8>, frame: &DecodedFrame) -> (r: Result<
        Option<u32>,
        DecodingError,
    >)
        requires
            old(self).wf(),
            old(self).spec_has_animation(),
            frame.wf(),
            old(buf)@.len() == old(self).width * old(self).height * 4,
        ensures
            final(self).wf(),
            final(buf)@.len() == old(buf)@.len(),
            final(self).data == old(self).data,
            final(self).width == old(self).width,
            final(self).height == old(self).height,
            final(self).num_frames == old(self).num_frames,
            final(self).kind == old(self).kind,
            final(self).is_lossy == old(self).is_lossy,
            final(self).chunks == old(self).chunks,
            final(self).memory_limit == old(self).memory_limit,
            match r {
                Ok(Option::None) => old(self).animation.loops_before_done == Option::Some(0u16)
                    && *final(self) == *old(self) && final(buf)@ == old(buf)@,
                Ok(Option::Some(dur)) => ({
                    let step_r = spec_read_frame(
                        old(self).data@,
                        old(self).width,
                        old(self).height,
                        old(self).animation.next_frame_start as int,
                        frame.width,
                        frame.height,
                        frame.rgba@,
                    );
                    let base = spec_canvas_base(
                        old(self).animation.canvas,
                        old(self).width,
                        old(self).height,
                    );
                    let clear = if old(self).animation.dispose_next_frame {
                        Option::Some(spec_background(old(self).kind))
                    } else {
                        Option::<[u8; 4]>::None
                    };
                    &&& old(self).animation.loops_before_done != Option::Some(0u16)
                    &&& step_r matches Ok(step)
                    &&& dur == step.duration
                    &&& final(self).animation.canvas matches Some(c)
                    &&& c@.len() == old(self).width * old(self).height * 4
                    &&& (forall|x: int, y: int, chan: int|
                        0 <= x < old(self).width && 0 <= y < old(self).height && 0 <= chan < 4
                            ==> px(c@, old(self).width as int, x, y, chan) == spec_composited(
                            base,
                            old(self).width as int,
                            clear,
                            step.pixels,
                            step.fx as int,
                            step.fy as int,
                            step.fw as int,
                            step.fh as int,
                            step.has_alpha,
                            step.use_alpha_blending,
                            x,
                            y,
                            chan,
                        ))
                    &&& final(buf)@ == c@
                    &&& ({
                        let adv = spec_advance_counter(
                            old(self).animation.next_frame,
                            old(self).animation.loops_before_done,
                            old(self).num_frames,
                        );
                        &&& final(self).animation.next_frame == adv.0
                        &&& final(self).animation.loops_before_done == adv.1
                        &&& (old(self).animation.next_frame + 1 >= old(self).num_frames
                            ==> final(self).animation.next_frame_start + 8
                                == old(self).chunks.anmf->Some_0.start
                            && final(self).animation.dispose_next_frame)
                        &&& (old(self).animation.next_frame + 1 < old(self).num_frames
                            ==> final(self).animation.next_frame_start == sat_add_u64(
                            old(self).animation.next_frame_start as int,
                            spec_padded(step.anmf_size) + 8,
                        ) && final(self).animation.dispose_next_frame == step.dispose)
                    })
                }),
                Err(e) => ({
                    let step_r = spec_read_frame(
                        old(self).data@,
                        old(self).width,
                        old(self).height,
                        old(self).animation.next_frame_start as int,
                        frame.width,
                        frame.height,
                        frame.rgba@,
                    );
                    &&& old(self).animation.loops_before_done != Option::Some(0u16)
                    &&& step_r == Err::<FrameStep, DecodingError>(e)
                    &&& *final(self) == *old(self)
                    &&& final(buf)@ == old(buf)@
                }),
            },
    {
        if let Some(l) = self.animation.loops_before_done {
            if l == 0 {
                return Ok(None);
            }
        }
        let n = self.data.len() as u64;
        let start = self.animation.next_frame_start;
        if past_end(start, 8, n) {
            return Err(DecodingError::IoError);
        }
        let (tag, anmf_size, anmf_rounded) = match read_chunk_header(&self.data, start) {
            Ok(t) => t,
            Err(e) => {
                return Err(e);
            },
        };
        if !matches!(tag, WebPRiffChunk::ANMF) || anmf_size < 32 {
            return Err(DecodingError::ChunkHeaderInvalid);
        }
        if past_end(start, 24, n) {
            return Err(DecodingError::IoError);
        }
        let fx = crate::bytes::read_le24(&self.data, start + 8) * 2;
        let fy = crate::bytes::read_le24(&self.data, start + 11) * 2;
        let fw = crate::bytes::read_le24(&self.data, start + 14) + 1;
        let fh = crate::bytes::read_le24(&self.data, start + 17) + 1;
        let duration = crate::bytes::read_le24(&self.data, start + 20);
        let info = crate::bytes::byte_at(&self.data, start + 23);
        if info & 0xFC != 0 {
            return Err(DecodingError::InfoBitsInvalid);
        }
        if fx + fw > self.width || fy + fh > self.height {
            return Err(DecodingError::FrameOutsideImage);
        }
        let use_alpha_blending = info & 2 == 0;
        let dispose = info & 1 != 0;
        let clear_color: Option<[u8; 4]> = if self.animation.dispose_next_frame {
            Some(
                match &self.kind {
                    ImageKind::Extended(i) => i.background_color,
                    _ => [0, 0, 0, 0],
                },
            )
        } else {
            None
        };
        if past_end(start, 32, n) {
            return Err(DecodingError::IoError);
        }
        let (sub, sub_size, sub_rounded) = match read_chunk_header(&self.data, start + 24) {
            Ok(t) => t,
            Err(e) => {
                return Err(e);
            },
        };
        if (sub_rounded as u64) + 32 < anmf_size as u64 {
            return Err(DecodingError::ChunkHeaderInvalid);
        }
        let (pixels, frame_has_alpha): (Vec<u8>, bool) = match sub {
            WebPRiffChunk::VP8 => {
                if frame.width != fw || frame.height != fh {
                    return Err(DecodingError::InconsistentImageSizes);
                }
                let _fcap: usize = frame.rgba.len();
                let mut rgb = zero_vec((fw as usize) * (fh as usize) * 3);
                frame.fill_rgb(&mut rgb);
                (rgb, false)
            },
            WebPRiffChunk::VP8L => {
                if frame.width != fw || frame.height != fh {
                    return Err(DecodingError::InconsistentImageSizes);
                }
                let _fcap: usize = frame.rgba.len();
                let mut rgba = zero_vec((fw as usize) * (fh as usize) * 4);
                frame.fill_rgba(&mut rgba);
                (rgba, true)
            },
            WebPRiffChunk::ALPH => {
                if (sub_rounded as u64) + 40 < anmf_size as u64 {
                    return Err(DecodingError::ChunkHeaderInvalid);
                }
                if frame.width != fw || frame.height != fh {
                    return Err(DecodingError::InconsistentImageSizes);
                }
                let aend = match (start + 32).checked_add(sub_size as u64) {
                    None => {
                        return Err(DecodingError::IoError);
                    },
                    Some(e) => e,
                };
                let arange = ByteRange { start: start + 32, end: aend };
                let _fcap: usize = frame.rgba.len();
                let alpha_chunk = match read_alpha_chunk(&self.data, arange, fw, fh) {
                    Ok(c) => c,
                    Err(e) => {
                        return Err(e);
                    },
                };
                let p2 = match start.checked_add(32 + sub_rounded as u64) {
                    None => {
                        return Err(DecodingError::IoError);
                    },
                    Some(p) => p,
                };
                if past_end(p2, 8, n) {
                    return Err(DecodingError::IoError);
                }
                let next_size = crate::bytes::read_le32(&self.data, p2 + 4);
                if (sub_size as u64) + (next_size as u64) + 40 > anmf_size as u64 {
                    return Err(DecodingError::ChunkHeaderInvalid);
                }
                let mut rgba = zero_vec((fw as usize) * (fh as usize) * 4);
                frame.fill_rgba(&mut rgba);
                reconstruct_alpha(&mut rgba, &alpha_chunk.data, fw, fh, alpha_chunk.filtering_method);
                proof {
                    assert(4 * ((fw as int) * (fh as int)) == (fw as int) * (fh as int) * 4)
                        by (nonlinear_arith);
                    lemma_alpha_merged(
                        rgba@,
                        frame.rgba@,
                        alpha_chunk.data@,
                        fw as int,
                        fh as int,
                        alpha_chunk.filtering_method,
                    );
                }
                (rgba, true)
            },
            _ => {
                return Err(DecodingError::ChunkHeaderInvalid);
            },
        };
        let ghost old_canvas_opt = self.animation.canvas;
        let mut canvas: Vec<u8> = match self.animation.canvas.take() {
            Some(c) => c,
            None => {
                let z = zero_vec((self.width as usize) * (self.height as usize) * 4);
                proof {
                    assert(z@ =~= spec_canvas_base(old_canvas_opt, self.width, self.height));
                }
                z
            },
        };
        proof {
            assert(3 * ((fw as int) * (fh as int)) == 3 * (fw as int) * (fh as int))
                by (nonlinear_arith);
            assert(4 * ((fw as int) * (fh as int)) == 4 * (fw as int) * (fh as int))
                by (nonlinear_arith);
        }
        composite_frame(
            &mut canvas,
            self.width,
            self.height,
            clear_color,
            &pixels,
            fx,
            fy,
            fw,
            fh,
            frame_has_alpha,
            use_alpha_blending,
        );
        copy_into(&canvas, buf);
        self.animation.canvas = Some(canvas);
        self.animation.dispose_next_frame = dispose;
        self.animation.next_frame_start = start.saturating_add(anmf_rounded as u64 + 8);
        self.animation.next_frame = self.animation.next_frame + 1;
        if self.animation.next_frame >= self.num_frames {
            self.animation.next_frame = 0;
            if let Some(l) = self.animation.loops_before_done {
                self.animation.loops_before_done = Some(l - 1);
            }
            let anmf = self.chunks.get(WebPRiffChunk::ANMF).unwrap();
            self.animation.next_frame_start = anmf.start - 8;
            self.animation.dispose_next_frame = true;
        }
        Ok(Some(duration))
    }

    /// Returns the raw bytes of the image, given the pixel frame that an
    /// outside codec decoded from the container's bitstream chunk. For
    /// animated images, this is the first frame. The buffer must hold
    /// exactly [`WebPDecoder::output_buffer_size`] bytes.
    pub fn read_image(&mut self, buf: &mut Vec<u8>, frame: &DecodedFrame) -> (r: Result<
        (),
        DecodingError,
    >)
        requires
            old(self).wf(),
            frame.wf(),
            old(buf)@.len() == old(self).spec_output_buffer_size(),
        ensures
            *final(self) == *old(self),
            final(buf)@.len() == old(buf)@.len(),
            match r {
                Ok(()) => spec_read_image(
                    old(self).data@,
                    old(self).chunks,
                    old(self).width,
                    old(self).height,
                    old(self).spec_has_alpha(),
                    frame.width,
                    frame.height,
                    frame.rgba@,
                ) == Ok::<Seq<u8>, DecodingError>(final(buf)@),
                Err(e) => spec_read_image(
                    old(self).data@,
                    old(self).chunks,
                    old(self).width,
                    old(self).height,
                    old(self).spec_has_alpha(),
                    frame.width,
                    frame.height,
                    frame.rgba@,
                ) == Err::<Seq<u8>, DecodingError>(e),
            },
    {
        let w = self.width;
        let h = self.height;
        let has_alpha = self.has_alpha();
        let vp8l = self.chunks.get(WebPRiffChunk::VP8L);
        if vp8l.is_some() {
            if frame.width != w || frame.height != h {
                return Err(DecodingError::InconsistentImageSizes);
            }
            if has_alpha {
                frame.fill_rgba(buf);
            } else {
                frame.fill_rgb(buf);
            }
            return Ok(());
        }
        if self.chunks.get(WebPRiffChunk::VP8).is_none() {
            return Err(DecodingError::ChunkMissing);
        }
        if frame.width != w || frame.height != h {
            return Err(DecodingError::InconsistentImageSizes);
        }
        if !has_alpha {
            frame.fill_rgb(buf);
            return Ok(());
        }
        frame.fill_rgba(buf);
        let arange = match self.chunks.get(WebPRiffChunk::ALPH) {
            None => {
                return Err(DecodingError::ChunkMissing);
            },
            Some(r) => r,
        };
        let alpha_chunk = match read_alpha_chunk(&self.data, arange, w, h) {
            Ok(c) => c,
            Err(e) => {
                return Err(e);
            },
        };
        reconstruct_alpha(buf, &alpha_chunk.data, w, h, alpha_chunk.filtering_method);
        proof {
            assert(4 * ((w as int) * (h as int)) == (w as int) * (h as int) * 4)
                by (nonlinear_arith);
            lemma_alpha_merged(
                buf@,
                frame.rgba@,
                alpha_chunk.data@,
                w as int,
                h as int,
                alpha_chunk.filtering_method,
            );
        }
        Ok(())
    }
}

/// What materializing a recorded chunk yields: nothing when the tag has no
/// entry; the chunk's bytes when its range lies within the stream and the
/// memory limit allows it.
pub open spec fn spec_read_chunk(d: Seq<u8>, idx: ChunkIndex, tag: WebPRiffChunk, max_size: int) -> Result<
    Option<Seq<u8>>,
    DecodingError,
> {
    match idx.spec_get(tag) {
        Option::None => Ok(Option::None),
        Option::Some(range) => {
            if range.end - range.start > max_size {
                Err(DecodingError::MemoryLimitExceeded)
            } else if range.end > d.len() {
                Err(DecodingError::IoError)
            } else {
                Ok(Option::Some(d.subrange(range.start as int, range.end as int)))
            }
        },
    }
}

/// The executable result agrees with [`spec_read_chunk`], the bytes compared
/// by view.
pub open spec fn chunk_result_matches(
    r: Result<Option<Vec<u8>>, DecodingError>,
    s: Result<Option<Seq<u8>>, DecodingError>,
) -> bool {
    match r {
        Ok(Option::Some(v)) => s matches Ok(Some(q)) && v@ == q,
        Ok(Option::None) => s == Ok::<Option<Seq<u8>>, DecodingError>(Option::None),
        Err(e) => s == Err::<Option<Seq<u8>>, DecodingError>(e),
    }
}

/// Materializes a recorded chunk's payload, within `max_size` bytes.
fn read_chunk(d: &Vec<u8>, idx: &ChunkIndex, tag: WebPRiffChunk, max_size: usize) -> (r: Result<
    Option<Vec<u8>>,
    DecodingError,
>)
    requires
        index_ranges_ok(*idx),
    ensures
        chunk_result_matches(r, spec_read_chunk(d@, *idx, tag, max_size as int)),
{
    let range = match idx.get(tag) {
        None => {
            return Ok(None);
        },
        Some(range) => range,
    };
    if range.end - range.start > max_size as u64 {
        return Err(DecodingError::MemoryLimitExceeded);
    }
    let n = d.len() as u64;
    if range.end > n {
        return Err(DecodingError::IoError);
    }
    let mut out: Vec<u8> = Vec::new();
    let mut pos: u64 = range.start;
    while pos < range.end
        invariant
            range.start <= pos <= range.end,
            range.end <= d@.len(),
            out@ =~= d@.subrange(range.start as int, pos as int),
        decreases range.end - pos,
    {
        let b = crate::bytes::byte_at(d, pos);
        out.push(b);
        pos = pos + 1;
    }
    proof {
        assert(out@ =~= d@.subrange(range.start as int, range.end as int));
    }
    Ok(Some(out))
}


/// An RGBA buffer with its alpha plane replaced by the reconstruction of the
/// residual `res`.
pub open spec fn spec_alpha_merged(
    rgba: Seq<u8>,
    res: Seq<u8>,
    w: int,
    npx: int,
    m: AlphaFilter,
) -> Seq<u8> {
    Seq::new(
        (4 * npx) as nat,
        |k: int|
            if k % 4 == 3 {
                spec_alpha_sample(res, w, m, (k / 4) % w, (k / 4) / w)
            } else {
                rgba[k]
            },
    )
}

/// A buffer whose color bytes come from `rgba` and whose alpha bytes are the
/// reconstructed samples is exactly [`spec_alpha_merged`].
proof fn lemma_alpha_merged(
    buf: Seq<u8>,
    rgba: Seq<u8>,
    res: Seq<u8>,
    w: int,
    h: int,
    m: AlphaFilter,
)
    requires
        w >= 0,
        h >= 0,
        buf.len() == 4 * (w * h),
        rgba.len() == 4 * (w * h),
        forall|x: int, y: int|
            0 <= x < w && 0 <= y < h ==> buf[alpha_index(w, x, y)] == spec_alpha_sample(
                res,
                w,
                m,
                x,
                y,
            ),
        forall|k: int| 0 <= k < buf.len() && k % 4 != 3 ==> buf[k] == rgba[k],
    ensures
        buf =~= spec_alpha_merged(rgba, res, w, w * h, m),
{
    assert forall|k: int| 0 <= k < 4 * (w * h) implies buf[k] == spec_alpha_merged(
        rgba,
        res,
        w,
        w * h,
        m,
    )[k] by {
        if k % 4 == 3 {
            let p = k / 4;
            assert(0 <= p < w * h);
            assert(w > 0) by (nonlinear_arith)
                requires
                    0 <= p < w * h,
                    w >= 0,
            ;
            let x = p % w;
            let y = p / w;
            vstd::arithmetic::div_mod::lemma_fundamental_div_mod(p, w);
            vstd::arithmetic::div_mod::lemma_mod_bound(p, w);
            assert(y < h) by (nonlinear_arith)
                requires
                    p < w * h,
                    p == w * y + x,
                    0 <= x,
                    w > 0,
                    0 <= p,
            ;
            assert(y >= 0) by (nonlinear_arith)
                requires
                    p == w * y + x,
                    0 <= x < w,
                    w > 0,
                    0 <= p,
            ;
            assert(k == 4 * p + 3);
            assert(alpha_index(w, x, y) == 4 * (y * w + x) + 3);
            assert(y * w + x == p) by (nonlinear_arith)
                requires
                    p == w * y + x,
            ;
            assert(buf[k] == spec_alpha_sample(res, w, m, x, y));
        }
    }
}

/// What extracting the still image (for animated content: the first frame)
/// yields, given the pixel frame an outside codec decoded from the recorded
/// bitstream chunk: a lossless bitstream fills the buffer directly, a lossy
/// one is joined with the alpha chunk's reconstructed plane when the
/// container has alpha, and either is reduced to its color bytes when it
/// does not; a decoded frame whose size disagrees with the container's
/// declared dimensions is rejected.
pub open spec fn spec_read_image(
    d: Seq<u8>,
    idx: ChunkIndex,
    w: u32,
    h: u32,
    has_alpha: bool,
    fw: u32,
    fh: u32,
    rgba: Seq<u8>,
) -> Result<Seq<u8>, DecodingError> {
    if idx.vp8l is Some {
        if fw != w || fh != h {
            Err(DecodingError::InconsistentImageSizes)
        } else if has_alpha {
            Ok(rgba)
        } else {
            Ok(spec_rgb_frame(rgba, w * h))
        }
    } else {
        match idx.vp8 {
            Option::None => Err(DecodingError::ChunkMissing),
            Option::Some(_) => {
                if fw != w || fh != h {
                    Err(DecodingError::InconsistentImageSizes)
                } else if has_alpha {
                    match idx.alph {
                        Option::None => Err(DecodingError::ChunkMissing),
                        Option::Some(arange) => {
                            match spec_read_alpha(d, arange, w as int, h as int) {
                                Err(e) => Err(e),
                                Ok(p) => Ok(spec_alpha_merged(rgba, p.1, w as int, w * h, p.0)),
                            }
                        },
                    }
                } else {
                    Ok(spec_rgb_frame(rgba, w * h))
                }
            },
        }
    }
}

/// The background color of an extended container; other kinds have none and
/// default to transparent black.
pub open spec fn spec_background(kind: ImageKind) -> [u8; 4] {
    match kind {
        ImageKind::Extended(info) => info.background_color,
        _ => [0u8, 0u8, 0u8, 0u8],
    }
}

/// The canvas a frame composites onto: the persistent buffer once one
/// exists, else a freshly zeroed one.
pub open spec fn spec_canvas_base(c: Option<Vec<u8>>, w: u32, h: u32) -> Seq<u8> {
    match c {
        Option::Some(v) => v@,
        Option::None => Seq::new((w * h * 4) as nat, |i: int| 0u8),
    }
}

/// 64-bit saturating addition.
pub open spec fn sat_add_u64(a: int, b: int) -> u64 {
    if a + b > u64::MAX {
        u64::MAX as u64
    } else {
        (a + b) as u64
    }
}

/// Everything one animation-frame chunk prescribes for one `read_frame`
/// transition: the placement rectangle and timing from the 16-byte frame
/// fields, the flags, the outer chunk's declared size, and the effective
/// pixel buffer to composite — 3 bytes per pixel for a plain lossy frame, 4
/// for a lossless frame or a lossy frame joined with its reconstructed alpha
/// plane.
pub struct FrameStep {
    pub fx: u32,
    pub fy: u32,
    pub fw: u32,
    pub fh: u32,
    pub duration: u32,
    pub dispose: bool,
    pub use_alpha_blending: bool,
    pub has_alpha: bool,
    pub anmf_size: u32,
    pub pixels: Seq<u8>,
}

/// What reading the animation-frame chunk at offset `start` yields, given
/// the `fw_dec` by `fh_dec` pixel frame `dec` an outside codec decoded from
/// the frame's bitstream chunk. The chunk must carry the animation-frame tag
/// and declare at least 32 bytes; the reserved flag bits must be clear; the
/// fixed fields place the frame on the canvas (offsets doubled, sizes offset
/// by one) and must keep it inside; the nested bitstream chunk's
/// declared size is cross-checked against the outer chunk's size with a
/// 32-byte header budget (40 with a separate alpha chunk); and the decoded
/// frame must match the declared size exactly.
pub open spec fn spec_read_frame(
    d: Seq<u8>,
    cw: u32,
    ch: u32,
    start: int,
    fw_dec: u32,
    fh_dec: u32,
    dec: Seq<u8>,
) -> Result<FrameStep, DecodingError> {
    if start + 8 > d.len() {
        Err(DecodingError::IoError)
    } else {
        let anmf_size = le32(d, start + 4);
        if !(tag_at(d, start) is ANMF) || anmf_size < 32 {
            Err(DecodingError::ChunkHeaderInvalid)
        } else if start + 24 > d.len() {
            Err(DecodingError::IoError)
        } else {
            let fx = (le24(d, start + 8) * 2) as u32;
            let fy = (le24(d, start + 11) * 2) as u32;
            let fw = (le24(d, start + 14) + 1) as u32;
            let fh = (le24(d, start + 17) + 1) as u32;
            let duration = le24(d, start + 20);
            let info = d[start + 23];
            if info & 0xFC != 0 {
                Err(DecodingError::InfoBitsInvalid)
            } else if fx + fw > cw || fy + fh > ch {
                Err(DecodingError::FrameOutsideImage)
            } else {
                let use_alpha_blending = info & 2 == 0;
                    let dispose = info & 1 != 0;
                    if start + 32 > d.len() {
                        Err(DecodingError::IoError)
                    } else {
                        let sub = tag_at(d, start + 24);
                        let sub_size = le32(d, start + 28);
                        let sub_rounded = spec_padded(sub_size);
                        if sub_rounded + 32 < anmf_size {
                            Err(DecodingError::ChunkHeaderInvalid)
                        } else {
                            match sub {
                                WebPRiffChunk::VP8 => {
                                    if fw_dec != fw || fh_dec != fh {
                                        Err(DecodingError::InconsistentImageSizes)
                                    } else {
                                        Ok(
                                            FrameStep {
                                                fx,
                                                fy,
                                                fw,
                                                fh,
                                                duration,
                                                dispose,
                                                use_alpha_blending,
                                                has_alpha: false,
                                                anmf_size,
                                                pixels: spec_rgb_frame(dec, fw * fh),
                                            },
                                        )
                                    }
                                },
                                WebPRiffChunk::VP8L => {
                                    if fw_dec != fw || fh_dec != fh {
                                        Err(DecodingError::InconsistentImageSizes)
                                    } else {
                                        Ok(
                                            FrameStep {
                                                fx,
                                                fy,
                                                fw,
                                                fh,
                                                duration,
                                                dispose,
                                                use_alpha_blending,
                                                has_alpha: true,
                                                anmf_size,
                                                pixels: dec,
                                            },
                                        )
                                    }
                                },
                                WebPRiffChunk::ALPH => {
                                    if sub_rounded + 40 < anmf_size {
                                        Err(DecodingError::ChunkHeaderInvalid)
                                    } else if fw_dec != fw || fh_dec != fh {
                                        Err(DecodingError::InconsistentImageSizes)
                                    } else if start + 32 + sub_size > u64::MAX {
                                        Err(DecodingError::IoError)
                                    } else {
                                        let arange = ByteRange {
                                            start: (start + 32) as u64,
                                            end: (start + 32 + sub_size) as u64,
                                        };
                                        match crate::alpha::spec_read_alpha(
                                            d,
                                            arange,
                                            fw as int,
                                            fh as int,
                                        ) {
                                            Err(e) => Err(e),
                                            Ok(p) => {
                                                let p2 = start + 32 + sub_rounded;
                                                if p2 + 8 > d.len() {
                                                    Err(DecodingError::IoError)
                                                } else {
                                                    let next_size = le32(d, p2 + 4);
                                                    if sub_size + next_size + 40 > anmf_size {
                                                        Err(DecodingError::ChunkHeaderInvalid)
                                                    } else {
                                                        Ok(
                                                            FrameStep {
                                                                fx,
                                                                fy,
                                                                fw,
                                                                fh,
                                                                duration,
                                                                dispose,
                                                                use_alpha_blending,
                                                                has_alpha: true,
                                                                anmf_size,
                                                                pixels: spec_alpha_merged(
                                                                    dec,
                                                                    p.1,
                                                                    fw as int,
                                                                    fw * fh,
                                                                    p.0,
                                                                ),
                                                            },
                                                        )
                                                    }
                                                }
                                            },
                                        }
                                    }
                                },
                                _ => Err(DecodingError::ChunkHeaderInvalid),
                            }
                        }
                    }
                }
            }
        }
    }

/// How one successful frame read advances the frame cursor and the
/// remaining-loop counter: the cursor moves to the next frame, and on
/// wrapping past the last frame it returns to the first while a finite loop
/// counter is decremented.
pub open spec fn spec_advance_counter(next_frame: u32, loops: Option<u16>, num_frames: u32) -> (
    u32,
    Option<u16>,
) {
    if next_frame + 1 >= num_frames {
        (
            0u32,
            match loops {
                Option::None => Option::None,
                Option::Some(l) => Option::Some((l - 1) as u16),
            },
        )
    } else {
        ((next_frame + 1) as u32, loops)
    }
}

/// The frame cursor and loop counter after `k` successful frame reads,
/// starting playback at the first frame with loop counter `loops0`.
pub open spec fn spec_counter_after(k: nat, num_frames: u32, loops0: Option<u16>) -> (
    u32,
    Option<u16>,
)
    decreases k,
{
    if k == 0 {
        (0u32, loops0)
    } else {
        let prev = spec_counter_after((k - 1) as nat, num_frames, loops0);
        spec_advance_counter(prev.0, prev.1, num_frames)
    }
}

/// Animation wraparound, quantitatively: after `k` successful reads of an
/// `n`-frame animation with loop count `l`, the cursor stands at frame
/// `k % n` and the loop counter at `l - k / n`. Hence reads `1 ..= n * l`
/// all find a nonzero loop counter, and after read `n * l` the counter is
/// zero, so the following read reports no more frames.
pub proof fn lemma_animation_wraparound(n: u32, l: u16, k: nat)
    requires
        n >= 1,
        k <= n * l,
    ensures
        ({
            let c = spec_counter_after(k, n, Option::Some(l));
            &&& c.0 == (k as int) % (n as int)
            &&& c.1 == Option::<u16>::Some(((l as int) - (k as int) / (n as int)) as u16)
            &&& (k < n * l ==> c.1 != Option::Some(0u16))
            &&& (k == n * l ==> c.1 == Option::Some(0u16))
        }),
    decreases k, 1nat,
{
    let ni = n as int;
    let li = l as int;
    if k == 0 {
        assert(0int % ni == 0 && 0int / ni == 0) by (nonlinear_arith)
            requires
                ni >= 1,
        ;
        assert(0 < ni * li ==> li > 0) by (nonlinear_arith)
            requires
                ni >= 1,
        ;
        assert(ni * li == 0 ==> li == 0) by (nonlinear_arith)
            requires
                ni >= 1,
        ;
    } else {
        lemma_animation_wraparoundhelper(n, l, k);
    }
}


/// The header offset of the `k`-th animation-frame chunk of the chain that
/// starts at `first`: each frame's chunk follows its predecessor's header
/// and padded payload.
pub open spec fn spec_frame_offsets(d: Seq<u8>, first: int, k: nat) -> int
    decreases k,
{
    if k == 0 {
        first
    } else {
        let p = spec_frame_offsets(d, first, (k - 1) as nat);
        p + 8 + spec_padded(le32(d, p + 4))
    }
}

/// Playback order: when the cursor stands on frame `j` of the chain that
/// starts at `first` (the first animation-frame chunk's header, where a
/// fresh decoder starts and where every wraparound returns), a successful
/// read returns exactly that frame's 3-byte duration field, and the cursor
/// advance stated by `read_frame` lands on frame `j + 1` of the chain.
/// Together with [`lemma_animation_wraparound`], which places the frame
/// counter of the `i`-th successful read at `(i - 1) % n`, this pins the
/// `i`-th read to frame `(i - 1) % n` of the chain and to its duration.
pub proof fn lemma_playback_order(
    d: Seq<u8>,
    first: int,
    j: nat,
    cw: u32,
    ch: u32,
    fw: u32,
    fh: u32,
    dec: Seq<u8>,
)
    requires
        0 <= spec_frame_offsets(d, first, j),
        spec_frame_offsets(d, first, j + 1) <= u64::MAX,
    ensures
        ({
            let start = spec_frame_offsets(d, first, j);
            let r = spec_read_frame(d, cw, ch, start, fw, fh, dec);
            r matches Ok(step) ==> step.duration == le24(d, start + 20) && step.anmf_size == le32(
                d,
                start + 4,
            ) && sat_add_u64(start, spec_padded(step.anmf_size) + 8) == spec_frame_offsets(
                d,
                first,
                j + 1,
            )
        }),
{
    let start = spec_frame_offsets(d, first, j);
    assert(spec_frame_offsets(d, first, j + 1) == start + 8 + spec_padded(le32(d, start + 4)));
    match spec_read_frame(d, cw, ch, start, fw, fh, dec) {
        Ok(step) => {
            assert(step.duration == le24(d, start + 20));
            assert(step.anmf_size == le32(d, start + 4));
            assert(start + (spec_padded(step.anmf_size) + 8) <= u64::MAX);
            assert(sat_add_u64(start, spec_padded(step.anmf_size) + 8) == spec_frame_offsets(
                d,
                first,
                j + 1,
            ));
        },
        _ => {},
    }
}

/// The inductive step of [`lemma_animation_wraparound`].
proof fn lemma_animation_wraparoundhelper(n: u32, l: u16, k: nat)
    requires
        n >= 1,
        1 <= k <= n * l,
    ensures
        ({
            let c = spec_counter_after(k, n, Option::Some(l));
            &&& c.0 == (k as int) % (n as int)
            &&& c.1 == Option::<u16>::Some(((l as int) - (k as int) / (n as int)) as u16)
            &&& (k < n * l ==> c.1 != Option::Some(0u16))
            &&& (k == n * l ==> c.1 == Option::Some(0u16))
        }),
    decreases k, 0nat,
{
    let ni = n as int;
    let li = l as int;
    let j = (k - 1) as nat;
    lemma_animation_wraparound(n, l, j);
    let cj = spec_counter_after(j, n, Option::Some(l));
    let ji = j as int;
    let ki = k as int;
    vstd::arithmetic::div_mod::lemma_fundamental_div_mod(ji, ni);
    vstd::arithmetic::div_mod::lemma_mod_bound(ji, ni);
    vstd::arithmetic::div_mod::lemma_fundamental_div_mod(ki, ni);
    vstd::arithmetic::div_mod::lemma_mod_bound(ki, ni);
    assert(ji / ni < li) by (nonlinear_arith)
        requires
            ji < ni * li,
            ni >= 1,
            ji == ni * (ji / ni) + ji % ni,
            0 <= ji % ni < ni,
    ;
    if ji % ni == ni - 1 {
        assert(ki % ni == 0 && ki / ni == ji / ni + 1) by (nonlinear_arith)
            requires
                ki == ji + 1,
                ji == ni * (ji / ni) + ji % ni,
                ji % ni == ni - 1,
                ki == ni * (ki / ni) + ki % ni,
                0 <= ki % ni < ni,
                ni >= 1,
    ;
    } else {
        assert(ki % ni == ji % ni + 1 && ki / ni == ji / ni) by (nonlinear_arith)
            requires
                ki == ji + 1,
                ji == ni * (ji / ni) + ji % ni,
                0 <= ji % ni < ni - 1,
                ki == ni * (ki / ni) + ki % ni,
                0 <= ki % ni < ni,
                ni >= 1,
    ;
    }
    assert(ki < ni * li ==> ki / ni < li) by (nonlinear_arith)
        requires
            ki == ni * (ki / ni) + ki % ni,
            0 <= ki % ni < ni,
            ni >= 1,
    ;
    assert(ki == ni * li ==> ki / ni == li) by (nonlinear_arith)
        requires
            ki == ni * (ki / ni) + ki % ni,
            0 <= ki % ni < ni,
            ni >= 1,
    ;
}

/// Whether the `need` bytes at offset `pos` would run past the end of an
/// `n`-byte stream, computed without overflow.
fn past_end(pos: u64, need: u64, n: u64) -> (r: bool)
    ensures
        r == (pos + need > n),
{
    pos > n || n - pos < need
}

/// A zeroed buffer of `len` bytes.
fn zero_vec(len: usize) -> (r: Vec<u8>)
    ensures
        r@.len() == len,
        forall|i: int| 0 <= i < len ==> r@[i] == 0u8,
{
    let mut v: Vec<u8> = Vec::new();
    let mut i: usize = 0;
    while i < len
        invariant
            0 <= i <= len,
            v@.len() == i,
            forall|j: int| 0 <= j < i ==> v@[j] == 0u8,
        decreases len - i,
    {
        v.push(0);
        i = i + 1;
    }
    v
}

/// Copies `src` into the equally sized `dst`.
fn copy_into(src: &Vec<u8>, dst: &mut Vec<u8>)
    requires
        old(dst)@.len() == src@.len(),
    ensures
        final(dst)@ == src@,
{
    let n = src.len();
    let mut i: usize = 0;
    while i < n
        invariant
            0 <= i <= n,
            n == src@.len(),
            dst@.len() == n,
            forall|k: int| 0 <= k < i ==> dst@[k] == src@[k],
        decreases n - i,
    {
        let b = src[i];
        dst.set(i, b);
        i = i + 1;
    }
    proof {
        assert(dst@ =~= src@);
    }
}


/// Where the pixel bitstream of the animation-frame chunk at `start` lies:
/// the nested chunk 24 bytes in when it is itself a lossy or lossless
/// bitstream, or — when an alpha chunk comes first — the lossy bitstream
/// chunk that follows it. The range covers the payload only.
pub open spec fn spec_frame_bitstream(d: Seq<u8>, start: int) -> Result<
    (WebPRiffChunk, ByteRange),
    DecodingError,
> {
    if start + 8 > d.len() {
        Err(DecodingError::IoError)
    } else if !(tag_at(d, start) is ANMF) {
        Err(DecodingError::ChunkHeaderInvalid)
    } else if start + 32 > d.len() {
        Err(DecodingError::IoError)
    } else {
        let sub = tag_at(d, start + 24);
        let sub_size = le32(d, start + 28);
        match sub {
            WebPRiffChunk::VP8 | WebPRiffChunk::VP8L => {
                if start + 32 + sub_size > u64::MAX {
                    Err(DecodingError::IoError)
                } else {
                    Ok(
                        (
                            sub,
                            ByteRange {
                                start: (start + 32) as u64,
                                end: (start + 32 + sub_size) as u64,
                            },
                        ),
                    )
                }
            },
            WebPRiffChunk::ALPH => {
                let p2 = start + 32 + spec_padded(sub_size);
                if p2 + 8 > d.len() {
                    Err(DecodingError::IoError)
                } else {
                    let next = tag_at(d, p2);
                    let next_size = le32(d, p2 + 4);
                    if p2 + 8 + next_size > u64::MAX {
                        Err(DecodingError::IoError)
                    } else {
                        Ok(
                            (
                                next,
                                ByteRange { start: (p2 + 8) as u64, end: (p2 + 8 + next_size) as u64 },
                            ),
                        )
                    }
                }
            },
            _ => Err(DecodingError::ChunkHeaderInvalid),
        }
    }
}
} // verus!

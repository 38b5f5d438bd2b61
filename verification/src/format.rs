//! The container format as a mathematical model: what a well-formed WebP
//! stream holds at which offset, and what the demuxer extracts from it.
//!
//! Layout, in bytes: `RIFF` tag (4), total size (u32 little-endian), `WEBP`
//! tag (4), then exactly one top-level payload chunk. Every chunk is a 4-byte
//! tag, a u32 little-endian declared size, and a payload of that many bytes
//! padded to even length. The one payload chunk is a lossy still (`VP8 `), a
//! lossless still (`VP8L`), or an extended header (`VP8X`) followed by a flat
//! chunk list.

use vstd::prelude::*;
use crate::bytes::{le16, le24, le32};
use crate::chunk::{spec_from_fourcc, WebPRiffChunk};
use crate::error::DecodingError;
use crate::index::{ByteRange, ChunkIndex};

verus! {

/// Feature flags and background color of an extended-format container.
#[derive(Debug, Clone, Copy, PartialEq, Eq)]
pub struct WebPExtendedInfo {
    pub icc_profile: bool,
    pub alpha: bool,
    pub exif_metadata: bool,
    pub xmp_metadata: bool,
    pub animation: bool,
    pub background_color: [u8; 4],
}

/// Which of the three container kinds a stream holds.
#[derive(Debug, Clone, Copy, PartialEq, Eq)]
pub enum ImageKind {
    Lossy,
    Lossless,
    Extended(WebPExtendedInfo),
}

/// Everything the open step extracts from a stream.
#[derive(Debug, Clone, Copy, PartialEq, Eq)]
pub struct ParsedImage {
    pub width: u32,
    pub height: u32,
    pub num_frames: u32,
    pub kind: ImageKind,
    pub is_lossy: bool,
    pub chunks: ChunkIndex,
    pub loops_before_done: Option<u16>,
    pub next_frame_start: u64,
}

/// What one pass over the extended chunk list yields.
#[derive(Debug, Clone, Copy, PartialEq, Eq)]
pub struct ScanResult {
    pub chunks: ChunkIndex,
    pub num_frames: u32,
    pub is_lossy: bool,
}

/// The chunk tag whose four bytes sit at offset `i` of `d`.
pub open spec fn tag_at(d: Seq<u8>, i: int) -> WebPRiffChunk {
    spec_from_fourcc([d[i], d[i + 1], d[i + 2], d[i + 3]])
}

/// A chunk payload of odd declared size is padded with one byte, so that the
/// next chunk starts on an even offset; the padded size saturates at the
/// 32-bit maximum.
pub open spec fn spec_padded(n: u32) -> u32 {
    if n % 2 == 0 {
        n
    } else if n < 0xFFFF_FFFFu32 {
        (n + 1) as u32
    } else {
        n
    }
}

/// `x` clamped to be at least zero.
pub open spec fn clamp0(x: int) -> int {
    if x < 0 {
        0
    } else {
        x
    }
}

/// One pass over the flat chunk list of an extended container, starting at
/// offset `pos` with the bound `maxp` implied by the declared total size.
/// Chunks are recorded first-occurrence-wins; an unrecognized tag or the end
/// of the stream terminates the scan; each animation-frame chunk bumps the
/// frame count, and while no lossy data was seen yet the nested bitstream
/// chunk 24 bytes in is peeked at to tell lossy (or alpha-coded) frames from
/// lossless ones. The cursor always advances by the padded payload size.
pub open spec fn spec_scan(
    d: Seq<u8>,
    idx: ChunkIndex,
    nf: u32,
    lossy: bool,
    pos: int,
    maxp: int,
) -> Result<ScanResult, DecodingError>
    decreases clamp0(maxp - pos),
{
    if pos >= maxp || pos + 8 > d.len() {
        Ok(ScanResult { chunks: idx, num_frames: nf, is_lossy: lossy })
    } else {
        let tag = tag_at(d, pos);
        if tag is Unknown {
            Ok(ScanResult { chunks: idx, num_frames: nf, is_lossy: lossy })
        } else {
            let size = le32(d, pos + 4);
            let rounded = spec_padded(size);
            let idx2 = idx.spec_insert(
                tag,
                ByteRange { start: (pos + 8) as u64, end: (pos + 8 + size) as u64 },
            );
            if tag is ANMF {
                let nf2 = (nf + 1) as u32;
                if !lossy {
                    if pos + 32 > d.len() {
                        Err(DecodingError::IoError)
                    } else {
                        let sub = tag_at(d, pos + 24);
                        let lossy2 = sub is VP8 || sub is ALPH;
                        spec_scan(d, idx2, nf2, lossy2, pos + 8 + rounded, maxp)
                    }
                } else {
                    spec_scan(d, idx2, nf2, lossy, pos + 8 + rounded, maxp)
                }
            } else {
                spec_scan(d, idx2, nf, lossy, pos + 8 + rounded, maxp)
            }
        }
    }
}

/// The nested bitstream chunks of the first animation frame, recorded into
/// the index so that still extraction of an animated file's first frame works
/// like the non-animated paths. The frame's chunk list starts 16 bytes into
/// the animation-frame payload, after the fixed frame fields; at most two
/// nested headers are inspected.
pub open spec fn spec_prepopulate_first_frame(d: Seq<u8>, idx: ChunkIndex) -> Result<
    ChunkIndex,
    DecodingError,
> {
    match idx.anmf {
        Option::None => Ok(idx),
        Option::Some(range) => {
            let p1 = range.start + 16;
            if p1 + 8 > d.len() {
                Err(DecodingError::IoError)
            } else {
                let t1 = tag_at(d, p1);
                let s1 = le32(d, p1 + 4);
                let idx1 = idx.spec_insert(
                    t1,
                    ByteRange { start: (p1 + 8) as u64, end: (p1 + 8 + s1) as u64 },
                );
                let p2 = p1 + 8 + spec_padded(s1);
                if p2 + 8 > range.end {
                    Ok(idx1)
                } else if p2 + 8 > d.len() {
                    Err(DecodingError::IoError)
                } else {
                    let t2 = tag_at(d, p2);
                    let s2 = le32(d, p2 + 4);
                    Ok(
                        idx1.spec_insert(
                            t2,
                            ByteRange { start: (p2 + 8) as u64, end: (p2 + 8 + s2) as u64 },
                        ),
                    )
                }
            }
        }
    }
}

/// The feature-flags byte is consistent with the chunks the scan recorded:
/// every set flag has its chunk, and a non-animated extended container holds
/// exactly one of the two still bitstream kinds.
pub open spec fn spec_flags_consistent(
    icc: bool,
    exif: bool,
    xmp: bool,
    animation: bool,
    idx: ChunkIndex,
) -> bool {
    &&& (animation ==> idx.anim is Some && idx.anmf is Some)
    &&& (icc ==> idx.iccp is Some)
    &&& (exif ==> idx.exif is Some)
    &&& (xmp ==> idx.xmp is Some)
    &&& (!animation ==> ((idx.vp8 is Some) != (idx.vp8l is Some)))
}

/// A lossy (`VP8 `) still: a 3-byte bitstream tag whose low bit clear marks a
/// keyframe, the fixed magic `9D 01 2A`, then width and height as 16-bit
/// little-endian fields masked to 14 bits.
pub open spec fn spec_parse_lossy(d: Seq<u8>, size: u32) -> Result<ParsedImage, DecodingError> {
    if d.len() < 23 {
        Err(DecodingError::IoError)
    } else if le24(d, 20) & 1 != 0 {
        Err(DecodingError::UnsupportedFeature)
    } else if d.len() < 26 {
        Err(DecodingError::IoError)
    } else if !(d[23] == 0x9du8 && d[24] == 0x01u8 && d[25] == 0x2au8) {
        Err(DecodingError::Vp8MagicInvalid)
    } else if d.len() < 30 {
        Err(DecodingError::IoError)
    } else {
        Ok(
            ParsedImage {
                width: le16(d, 26) & 0x3FFF,
                height: le16(d, 28) & 0x3FFF,
                num_frames: 0,
                kind: ImageKind::Lossy,
                is_lossy: true,
                chunks: ChunkIndex::spec_empty().spec_insert(
                    WebPRiffChunk::VP8,
                    ByteRange { start: 20, end: (20 + size) as u64 },
                ),
                loops_before_done: Option::None,
                next_frame_start: 0,
            },
        )
    }
}

/// A lossless (`VP8L`) still: the signature byte `2F`, then a 32-bit header
/// whose top 3 bits (the version) must be zero, holding width minus one and
/// height minus one as 14-bit fields.
pub open spec fn spec_parse_lossless(d: Seq<u8>, size: u32) -> Result<ParsedImage, DecodingError> {
    if d.len() < 21 {
        Err(DecodingError::IoError)
    } else if d[20] != 0x2fu8 {
        Err(DecodingError::LosslessSignatureInvalid)
    } else if d.len() < 25 {
        Err(DecodingError::IoError)
    } else {
        let header = le32(d, 21);
        if header >> 29 != 0 {
            Err(DecodingError::VersionNumberInvalid)
        } else {
            Ok(
                ParsedImage {
                    width: (1 + (header & 0x3FFF)) as u32,
                    height: (1 + ((header >> 14) & 0x3FFF)) as u32,
                    num_frames: 0,
                    kind: ImageKind::Lossless,
                    is_lossy: false,
                    chunks: ChunkIndex::spec_empty().spec_insert(
                        WebPRiffChunk::VP8L,
                        ByteRange { start: 20, end: (20 + size) as u64 },
                    ),
                    loops_before_done: Option::None,
                    next_frame_start: 0,
                },
            )
        }
    }
}

/// The animation header's payload: 4 bytes of background color and a 16-bit
/// little-endian loop count, zero meaning endless playback. Its payload must
/// be exactly 6 bytes and lie within the stream.
pub open spec fn spec_parse_anim(d: Seq<u8>, range: ByteRange) -> Result<
    ([u8; 4], Option<u16>),
    DecodingError,
> {
    if range.end - range.start > 6 {
        Err(DecodingError::InvalidChunkSize)
    } else if range.end > d.len() {
        Err(DecodingError::IoError)
    } else if range.end - range.start < 6 {
        Err(DecodingError::IoError)
    } else {
        let s = range.start as int;
        let bg = [d[s], d[s + 1], d[s + 2], d[s + 3]];
        let loops = le16(d, s + 4);
        if loops == 0 {
            Ok((bg, Option::None))
        } else {
            Ok((bg, Option::Some(loops as u16)))
        }
    }
}

/// An extended (`VP8X`) container: a feature-flags byte, three reserved
/// bytes, canvas width minus one and height minus one as 24-bit little-endian
/// fields; then the flat chunk list, validated against the flags.
pub open spec fn spec_parse_extended(d: Seq<u8>, riff_size: u32, rounded: u32) -> Result<
    ParsedImage,
    DecodingError,
> {
    if d.len() < 30 {
        Err(DecodingError::IoError)
    } else {
        let f = d[20];
        let icc = f & 0x20 != 0;
        let alpha = f & 0x10 != 0;
        let exif = f & 0x08 != 0;
        let xmp = f & 0x04 != 0;
        let animation = f & 0x02 != 0;
        let w = (1 + le24(d, 24)) as u32;
        let h = (1 + le24(d, 27)) as u32;
        if w * h * 4 > usize::MAX {
            Err(DecodingError::ImageTooLarge)
        } else {
            let pos0 = 20 + rounded;
            let maxp = pos0 + (if riff_size >= 12 {
                (riff_size - 12) as u32
            } else {
                0u32
            });
            match spec_scan(d, ChunkIndex::spec_empty(), 0, false, pos0 as int, maxp as int) {
                Err(e) => Err(e),
                Ok(s) => {
                    if !spec_flags_consistent(icc, exif, xmp, animation, s.chunks) {
                        Err(DecodingError::ChunkMissing)
                    } else {
                        let anim_part = if animation {
                            spec_parse_anim(d, s.chunks.anim->Some_0)
                        } else {
                            Ok(([0u8, 0u8, 0u8, 0u8], Option::None))
                        };
                        match anim_part {
                            Err(e) => Err(e),
                            Ok((bg, loops)) => match spec_prepopulate_first_frame(d, s.chunks) {
                                Err(e) => Err(e),
                                Ok(idx) => Ok(
                                    ParsedImage {
                                        width: w,
                                        height: h,
                                        num_frames: s.num_frames,
                                        kind: ImageKind::Extended(
                                            WebPExtendedInfo {
                                                icc_profile: icc,
                                                alpha: alpha,
                                                exif_metadata: exif,
                                                xmp_metadata: xmp,
                                                animation: animation,
                                                background_color: bg,
                                            },
                                        ),
                                        is_lossy: s.is_lossy || s.chunks.vp8 is Some,
                                        chunks: idx,
                                        loops_before_done: loops,
                                        next_frame_start: if animation {
                                            (s.chunks.anmf->Some_0.start - 8) as u64
                                        } else {
                                            0
                                        },
                                    },
                                ),
                            },
                        }
                    }
                }
            }
        }
    }
}

/// What opening a stream yields: the envelope signatures are validated, the
/// one payload chunk decides the container kind, and its header fields are
/// decoded as each kind prescribes.
pub open spec fn spec_parse(d: Seq<u8>) -> Result<ParsedImage, DecodingError> {
    if d.len() < 8 {
        Err(DecodingError::IoError)
    } else if !(tag_at(d, 0) is RIFF) {
        Err(DecodingError::RiffSignatureInvalid)
    } else if d.len() < 12 {
        Err(DecodingError::IoError)
    } else if !(tag_at(d, 8) is WEBP) {
        Err(DecodingError::WebpSignatureInvalid)
    } else if d.len() < 20 {
        Err(DecodingError::IoError)
    } else {
        let riff_size = le32(d, 4);
        let size = le32(d, 16);
        match tag_at(d, 12) {
            WebPRiffChunk::VP8 => spec_parse_lossy(d, size),
            WebPRiffChunk::VP8L => spec_parse_lossless(d, size),
            WebPRiffChunk::VP8X => spec_parse_extended(d, riff_size, spec_padded(size)),
            _ => Err(DecodingError::ChunkHeaderInvalid),
        }
    }
}

/// Every range the chunk-list scan records lies at or after offset 8 and is
/// well formed, with its end bounded by the scan bound plus one padded chunk.
pub proof fn lemma_scan_ranges_bounded(
    d: Seq<u8>,
    idx: ChunkIndex,
    nf: u32,
    lossy: bool,
    pos: int,
    maxp: int,
)
    requires
        0 <= pos,
        maxp <= 0x4_0000_0000,
        scan_ranges_bounded(idx),
    ensures
        spec_scan(d, idx, nf, lossy, pos, maxp) matches Ok(s) ==> scan_ranges_bounded(s.chunks),
    decreases clamp0(maxp - pos),
{
    if pos >= maxp || pos + 8 > d.len() {
    } else {
        let tag = tag_at(d, pos);
        if tag is Unknown {
        } else {
            let size = le32(d, pos + 4);
            let rounded = spec_padded(size);
            let idx2 = idx.spec_insert(
                tag,
                ByteRange { start: (pos + 8) as u64, end: (pos + 8 + size) as u64 },
            );
            assert(scan_ranges_bounded(idx2));
            if tag is ANMF {
                let nf2 = (nf + 1) as u32;
                if !lossy {
                    if pos + 32 > d.len() {
                    } else {
                        let sub = tag_at(d, pos + 24);
                        lemma_scan_ranges_bounded(
                            d,
                            idx2,
                            nf2,
                            sub is VP8 || sub is ALPH,
                            pos + 8 + rounded,
                            maxp,
                        );
                    }
                } else {
                    lemma_scan_ranges_bounded(d, idx2, nf2, lossy, pos + 8 + rounded, maxp);
                }
            } else {
                lemma_scan_ranges_bounded(d, idx2, nf, lossy, pos + 8 + rounded, maxp);
            }
        }
    }
}

/// Bounds that hold of every range the scan records: see
/// [`lemma_scan_ranges_bounded`].
pub open spec fn scan_ranges_bounded(idx: ChunkIndex) -> bool {
    &&& (idx.vp8 matches Some(r) ==> range_bounded(r))
    &&& (idx.vp8l matches Some(r) ==> range_bounded(r))
    &&& (idx.alph matches Some(r) ==> range_bounded(r))
    &&& (idx.anim matches Some(r) ==> range_bounded(r))
    &&& (idx.anmf matches Some(r) ==> range_bounded(r))
    &&& (idx.iccp matches Some(r) ==> range_bounded(r))
    &&& (idx.exif matches Some(r) ==> range_bounded(r))
    &&& (idx.xmp matches Some(r) ==> range_bounded(r))
}

/// One recorded range within the scan's bounds.
pub open spec fn range_bounded(r: ByteRange) -> bool {
    8 <= r.start && r.start <= r.end && r.end <= 0x10_0000_0000
}


/// Bounds that hold of everything a successful open extracts: canvas
/// dimensions fit the format's 24-bit fields and a canvas buffer fits in
/// memory, and every recorded chunk range is well formed.
pub open spec fn parsed_bounds(p: ParsedImage) -> bool {
    &&& p.width <= 0x100_0000
    &&& p.height <= 0x100_0000
    &&& p.width * p.height * 4 <= usize::MAX
    &&& index_ranges_ok(p.chunks)
    &&& (p.kind matches ImageKind::Extended(info) && info.animation ==> p.chunks.anim is Some
        && p.chunks.anmf is Some)
    &&& (p.kind matches ImageKind::Extended(info) && info.animation
        ==> p.next_frame_start + 8 == p.chunks.anmf->Some_0.start)
}

/// Every recorded range in the index of a successful open: within the
/// offsets a 32-bit chunk list can reach, starting no earlier than the first
/// possible payload byte.
pub open spec fn index_ranges_ok(idx: ChunkIndex) -> bool {
    &&& (idx.vp8 matches Some(r) ==> parsed_range_ok(r))
    &&& (idx.vp8l matches Some(r) ==> parsed_range_ok(r))
    &&& (idx.alph matches Some(r) ==> parsed_range_ok(r))
    &&& (idx.anim matches Some(r) ==> parsed_range_ok(r))
    &&& (idx.anmf matches Some(r) ==> parsed_range_ok(r))
    &&& (idx.iccp matches Some(r) ==> parsed_range_ok(r))
    &&& (idx.exif matches Some(r) ==> parsed_range_ok(r))
    &&& (idx.xmp matches Some(r) ==> parsed_range_ok(r))
}

/// One recorded range within those offsets.
pub open spec fn parsed_range_ok(r: ByteRange) -> bool {
    8 <= r.start && r.start <= r.end && r.end <= 0x20_0000_0000
}


/// The scan's range bounds imply the open step's (wider) range bounds.
pub proof fn lemma_scan_bounds_widen(idx: ChunkIndex)
    requires
        scan_ranges_bounded(idx),
    ensures
        index_ranges_ok(idx),
{
}

/// Recording one well-formed range keeps the index's bounds, and never
/// displaces an entry already present.
pub proof fn lemma_insert_ranges_ok(idx: ChunkIndex, tag: WebPRiffChunk, range: ByteRange)
    requires
        index_ranges_ok(idx),
        parsed_range_ok(range),
    ensures
        index_ranges_ok(idx.spec_insert(tag, range)),
        idx.anim is Some ==> idx.spec_insert(tag, range).anim == idx.anim,
        idx.anmf is Some ==> idx.spec_insert(tag, range).anmf == idx.anmf,
{
}

/// Still-image dimensions: for every valid lossy still container, the
/// decoded dimensions are exactly the two 16-bit little-endian fields at
/// offsets 26 and 28, each masked to 14 bits.
pub proof fn lemma_lossy_still_dimensions(d: Seq<u8>)
    ensures
        ({
            let r = spec_parse(d);
            r matches Ok(p) ==> (p.kind is Lossy ==> p.width == (le16(d, 26) & 0x3FFF)
                && p.height == (le16(d, 28) & 0x3FFF))
        }),
{
}

/// Still-image dimensions: for every valid lossless still container, the
/// decoded dimensions are one plus the two 14-bit fields of the 32-bit
/// header at offset 21.
pub proof fn lemma_lossless_still_dimensions(d: Seq<u8>)
    ensures
        ({
            let r = spec_parse(d);
            r matches Ok(p) ==> (p.kind is Lossless ==> p.width == 1 + (le32(d, 21) & 0x3FFF)
                && p.height == 1 + ((le32(d, 21) >> 14) & 0x3FFF))
        }),
{
    if d.len() >= 25 {
        let hv = le32(d, 21);
        assert(hv & 0x3FFF < 0x4000) by (bit_vector);
        assert((hv >> 14) & 0x3FFF < 0x4000) by (bit_vector);
    }
}

/// Feature flags against the index: every extended container that opens
/// successfully has, for each set feature flag, the corresponding chunk
/// recorded — the animation header and at least one animation-frame chunk
/// for the animation flag, and the ICC, EXIF and XMP chunks for theirs. A
/// flag whose chunk is absent never opens (the open step reports the
/// missing chunk instead).
pub proof fn lemma_flags_have_chunks(d: Seq<u8>)
    ensures
        ({
            let r = spec_parse(d);
            r matches Ok(p) ==> (p.kind matches ImageKind::Extended(info) ==> {
                &&& (info.animation ==> p.chunks.anim is Some && p.chunks.anmf is Some)
                &&& (info.icc_profile ==> p.chunks.iccp is Some)
                &&& (info.exif_metadata ==> p.chunks.exif is Some)
                &&& (info.xmp_metadata ==> p.chunks.xmp is Some)
            })
        }),
{
    if d.len() >= 30 && tag_at(d, 12) is VP8X {
        let riff_size = le32(d, 4);
        let rounded = spec_padded(le32(d, 16));
        let pos0 = 20 + rounded;
        let maxp = pos0 + (if riff_size >= 12 {
            (riff_size - 12) as u32
        } else {
            0u32
        });
        match spec_scan(d, ChunkIndex::spec_empty(), 0, false, pos0 as int, maxp as int) {
            Ok(s) => {
                match spec_prepopulate_first_frame(d, s.chunks) {
                    Ok(idx) => {
                        assert(s.chunks.anim is Some ==> idx.anim == s.chunks.anim);
                        assert(s.chunks.anmf is Some ==> idx.anmf == s.chunks.anmf);
                        assert(s.chunks.iccp is Some ==> idx.iccp == s.chunks.iccp);
                        assert(s.chunks.exif is Some ==> idx.exif == s.chunks.exif);
                        assert(s.chunks.xmp is Some ==> idx.xmp == s.chunks.xmp);
                    },
                    _ => {},
                }
            },
            _ => {},
        }
    }
}

/// Chunk padding: a chunk whose declared size is odd occupies one extra
/// padding byte of stream space.
pub proof fn lemma_padded_odd(n: u32)
    ensures
        n % 2 == 1 && n < 0xFFFF_FFFF ==> spec_padded(n) == n + 1,
        n % 2 == 0 ==> spec_padded(n) == n,
{
}

/// Chunk padding in the scan: when the scan stands on a recognized chunk
/// with header at offset `pos` and declared size `N`, it records (first
/// occurrence wins) the unpadded payload range `[pos + 8, pos + 8 + N)` and
/// advances its cursor by the header plus the padded payload — for odd `N`
/// to `pos + 8 + N + 1`, so that the next header is read at the even-padded
/// boundary. For an animation-frame chunk the frame counter also advances,
/// and while no lossy data was seen the nested tag decides the lossy flag.
pub proof fn lemma_scan_records_unpadded(
    d: Seq<u8>,
    idx: ChunkIndex,
    nf: u32,
    lossy: bool,
    pos: int,
    maxp: int,
)
    requires
        pos < maxp,
        pos + 8 <= d.len(),
        !(tag_at(d, pos) is Unknown),
        tag_at(d, pos) is ANMF && !lossy ==> pos + 32 <= d.len(),
    ensures
        ({
            let tag = tag_at(d, pos);
            let size = le32(d, pos + 4);
            let nf2 = if tag is ANMF {
                (nf + 1) as u32
            } else {
                nf
            };
            let lossy2 = if tag is ANMF && !lossy {
                tag_at(d, pos + 24) is VP8 || tag_at(d, pos + 24) is ALPH
            } else {
                lossy
            };
            spec_scan(d, idx, nf, lossy, pos, maxp) == spec_scan(
                d,
                idx.spec_insert(
                    tag,
                    ByteRange { start: (pos + 8) as u64, end: (pos + 8 + size) as u64 },
                ),
                nf2,
                lossy2,
                pos + 8 + spec_padded(size),
                maxp,
            )
        }),
        le32(d, pos + 4) % 2 == 1 && le32(d, pos + 4) < 0xFFFF_FFFF ==> pos + 8 + spec_padded(
            le32(d, pos + 4),
        ) == pos + 8 + le32(d, pos + 4) + 1,
{
}

/// The chunk-list scan of an extended container, with the cursor and bound
/// that [`spec_parse_extended`] uses: the list starts after the padded
/// extended-header payload and runs to the end the declared total size
/// implies.
pub open spec fn spec_extended_scan(d: Seq<u8>) -> Result<ScanResult, DecodingError> {
    let riff_size = le32(d, 4);
    let rounded = spec_padded(le32(d, 16));
    let pos0 = 20 + rounded;
    let maxp = pos0 + (if riff_size >= 12 {
        (riff_size - 12) as u32
    } else {
        0u32
    });
    spec_scan(d, ChunkIndex::spec_empty(), 0, false, pos0 as int, maxp as int)
}

/// Feature flags against the index, the rejecting half: an extended
/// container whose chunk list scans cleanly but whose feature-flags byte
/// sets a flag whose chunk the scan did not find fails to open with a
/// missing-chunk error, never with a silent default. The hypothesis is a
/// disjunction, so the law holds for each of the four flag/chunk pairs
/// independently: the animation flag without the animation header or
/// without any animation-frame chunk, and the ICC, EXIF and XMP flags
/// without their chunks.
pub proof fn lemma_flag_without_chunk_rejected(d: Seq<u8>)
    requires
        d.len() >= 30,
        tag_at(d, 0) is RIFF,
        tag_at(d, 8) is WEBP,
        tag_at(d, 12) is VP8X,
        (1 + le24(d, 24) as int) * (1 + le24(d, 27) as int) * 4 <= usize::MAX,
        spec_extended_scan(d) matches Ok(s) && {
            ||| (d[20] & 0x02 != 0 && (s.chunks.anim is None || s.chunks.anmf is None))
            ||| (d[20] & 0x20 != 0 && s.chunks.iccp is None)
            ||| (d[20] & 0x08 != 0 && s.chunks.exif is None)
            ||| (d[20] & 0x04 != 0 && s.chunks.xmp is None)
        },
    ensures
        spec_parse(d) == Err::<ParsedImage, DecodingError>(DecodingError::ChunkMissing),
{
}
} // verus!

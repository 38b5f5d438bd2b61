//! The executable side of opening a stream: chunk-header primitives and the
//! parser, each proved to compute exactly what the model in [`crate::format`]
//! prescribes.

use vstd::prelude::*;
use crate::bytes::{byte_at, read_le16, read_le24, read_le32};
use crate::chunk::WebPRiffChunk;
use crate::error::DecodingError;
use crate::format::{
    spec_padded, spec_parse, spec_parse_anim, spec_parse_extended, spec_parse_lossless,
    spec_parse_lossy, spec_prepopulate_first_frame, spec_scan, tag_at, ImageKind, ParsedImage,
    ScanResult, WebPExtendedInfo,
};
use crate::format::{clamp0, index_ranges_ok, lemma_insert_ranges_ok, lemma_scan_bounds_widen,
    lemma_scan_ranges_bounded, parsed_bounds, scan_ranges_bounded};
use crate::index::{ByteRange, ChunkIndex};

verus! {

/// Reads the 4-byte chunk tag at `pos`.
pub fn read_fourcc(d: &Vec<u8>, pos: u64) -> (r: Result<WebPRiffChunk, DecodingError>)
    requires
        pos + 4 <= u64::MAX,
    ensures
        match r {
            Ok(t) => pos + 4 <= d@.len() && t == tag_at(d@, pos as int),
            Err(e) => pos + 4 > d@.len() && e == DecodingError::IoError,
        },
{
    let n = d.len();
    if pos > u64::MAX - 4 || pos + 4 > n as u64 {
        return Err(DecodingError::IoError);
    }
    let cc: [u8; 4] = [byte_at(d, pos), byte_at(d, pos + 1), byte_at(d, pos + 2), byte_at(
        d,
        pos + 3,
    )];
    Ok(WebPRiffChunk::from_fourcc(cc))
}

/// Reads a chunk header at `pos`: the tag, the declared payload size, and the
/// padded size the scan cursor advances by.
pub fn read_chunk_header(d: &Vec<u8>, pos: u64) -> (r: Result<
    (WebPRiffChunk, u32, u32),
    DecodingError,
>)
    requires
        pos + 8 <= u64::MAX,
    ensures
        match r {
            Ok(t) => {
                &&& pos + 8 <= d@.len()
                &&& t.0 == tag_at(d@, pos as int)
                &&& t.1 == crate::bytes::le32(d@, pos as int + 4)
                &&& t.2 == spec_padded(t.1)
            },
            Err(e) => pos + 8 > d@.len() && e == DecodingError::IoError,
        },
{
    let n = d.len();
    if pos + 8 > n as u64 {
        return Err(DecodingError::IoError);
    }
    let cc: [u8; 4] = [byte_at(d, pos), byte_at(d, pos + 1), byte_at(d, pos + 2), byte_at(
        d,
        pos + 3,
    )];
    let tag = WebPRiffChunk::from_fourcc(cc);
    let size = read_le32(d, pos + 4);
    let rounded = if size % 2 == 0 {
        size
    } else if size < 0xFFFF_FFFF {
        size + 1
    } else {
        size
    };
    Ok((tag, size, rounded))
}

/// Walks the flat chunk list of an extended container.
fn scan_chunks(d: &Vec<u8>, pos0: u64, maxp: u64) -> (r: Result<ScanResult, DecodingError>)
    requires
        pos0 <= maxp,
        maxp <= 0x4_0000_0000,
    ensures
        r == spec_scan(d@, ChunkIndex::spec_empty(), 0, false, pos0 as int, maxp as int),
{
    let n = d.len() as u64;
    let mut idx = ChunkIndex::new();
    let mut nf: u32 = 0;
    let mut lossy = false;
    let mut pos: u64 = pos0;
    while pos < maxp
        invariant_except_break
            pos0 <= pos,
            maxp <= 0x4_0000_0000,
            8 * (nf as int) <= pos - pos0,
            n == d@.len(),
            spec_scan(d@, ChunkIndex::spec_empty(), 0, false, pos0 as int, maxp as int)
                == spec_scan(d@, idx, nf, lossy, pos as int, maxp as int),
        ensures
            spec_scan(d@, ChunkIndex::spec_empty(), 0, false, pos0 as int, maxp as int) == Ok::<
                ScanResult,
                DecodingError,
            >(ScanResult { chunks: idx, num_frames: nf, is_lossy: lossy }),
        decreases clamp0(maxp as int - pos as int),
    {
        if pos + 8 > n {
            break ;
        }
        let (tag, size, rounded) = match read_chunk_header(d, pos) {
            Ok(t) => t,
            Err(e) => {
                return Err(e);
            },
        };
        if tag.is_unknown() {
            break ;
        }
        idx.insert_if_absent(tag, ByteRange { start: pos + 8, end: pos + 8 + size as u64 });
        if matches!(tag, WebPRiffChunk::ANMF) {
            nf = nf + 1;
            if !lossy {
                if pos + 32 > n {
                    return Err(DecodingError::IoError);
                }
                let sub = match read_fourcc(d, pos + 24) {
                    Ok(t) => t,
                    Err(e) => {
                        return Err(e);
                    },
                };
                lossy = matches!(sub, WebPRiffChunk::VP8 | WebPRiffChunk::ALPH);
            }
        }
        pos = pos + 8 + rounded as u64;
    }
    Ok(ScanResult { chunks: idx, num_frames: nf, is_lossy: lossy })
}

/// Decodes the animation header's payload: background color and loop count.
fn parse_anim_chunk(d: &Vec<u8>, range: ByteRange) -> (r: Result<
    ([u8; 4], Option<u16>),
    DecodingError,
>)
    requires
        range.start <= range.end,
        range.end <= 0x10_0000_0000,
    ensures
        r == spec_parse_anim(d@, range),
{
    let n = d.len() as u64;
    if range.end - range.start > 6 {
        return Err(DecodingError::InvalidChunkSize);
    }
    if range.end > n {
        return Err(DecodingError::IoError);
    }
    if range.end - range.start < 6 {
        return Err(DecodingError::IoError);
    }
    let s = range.start;
    let bg: [u8; 4] = [byte_at(d, s), byte_at(d, s + 1), byte_at(d, s + 2), byte_at(d, s + 3)];
    let loops = read_le16(d, s + 4);
    if loops == 0 {
        Ok((bg, None))
    } else {
        Ok((bg, Some(loops as u16)))
    }
}

/// Records the first animation frame's nested bitstream chunks.
#[verifier::rlimit(100)]
fn prepopulate_first_frame(d: &Vec<u8>, idx: ChunkIndex) -> (r: Result<ChunkIndex, DecodingError>)
    requires
        scan_ranges_bounded(idx),
    ensures
        r == spec_prepopulate_first_frame(d@, idx),
        r matches Ok(i2) ==> index_ranges_ok(i2) && (idx.anim is Some ==> i2.anim == idx.anim) && (
        idx.anmf is Some ==> i2.anmf == idx.anmf),
{
    let range = match idx.anmf {
        None => {
            return Ok(idx);
        },
        Some(range) => range,
    };
    let n = d.len() as u64;
    let p1 = range.start + 16;
    let (t1, s1, r1) = match read_chunk_header(d, p1) {
        Ok(t) => t,
        Err(e) => {
            return Err(e);
        },
    };
    proof {
        lemma_scan_bounds_widen(idx);
        lemma_insert_ranges_ok(
            idx,
            t1,
            ByteRange { start: (p1 + 8) as u64, end: (p1 + 8 + s1) as u64 },
        );
    }
    let mut out = idx;
    out.insert_if_absent(t1, ByteRange { start: p1 + 8, end: p1 + 8 + s1 as u64 });
    let p2 = p1 + 8 + r1 as u64;
    if p2 + 8 > range.end {
        return Ok(out);
    }
    let (t2, s2, _) = match read_chunk_header(d, p2) {
        Ok(t) => t,
        Err(e) => {
            return Err(e);
        },
    };
    proof {
        lemma_insert_ranges_ok(
            out,
            t2,
            ByteRange { start: (p2 + 8) as u64, end: (p2 + 8 + s2) as u64 },
        );
    }
    out.insert_if_absent(t2, ByteRange { start: p2 + 8, end: p2 + 8 + s2 as u64 });
    Ok(out)
}

/// Opens an extended (`VP8X`) container.
fn parse_extended(d: &Vec<u8>, riff_size: u32, rounded: u32) -> (r: Result<
    ParsedImage,
    DecodingError,
>)
    ensures
        r == spec_parse_extended(d@, riff_size, rounded),
        r matches Ok(p) ==> parsed_bounds(p),
{
    let n = d.len() as u64;
    if n < 30 {
        return Err(DecodingError::IoError);
    }
    let f = byte_at(d, 20);
    let icc = f & 0x20 != 0;
    let alpha = f & 0x10 != 0;
    let exif = f & 0x08 != 0;
    let xmp = f & 0x04 != 0;
    let animation = f & 0x02 != 0;
    let w = 1 + read_le24(d, 24);
    let h = 1 + read_le24(d, 27);
    proof {
        assert(w <= 0x100_0000 && h <= 0x100_0000);
        assert((w as int) * (h as int) * 4 <= 0x100_0000 * 0x100_0000 * 4) by (nonlinear_arith)
            requires
                w <= 0x100_0000,
                h <= 0x100_0000,
        ;
    }
    if (w as u64) * (h as u64) * 4 > usize::MAX as u64 {
        return Err(DecodingError::ImageTooLarge);
    }
    let pos0: u64 = 20 + rounded as u64;
    let extra: u32 = if riff_size >= 12 {
        riff_size - 12
    } else {
        0
    };
    let maxp: u64 = pos0 + extra as u64;
    let s = match scan_chunks(d, pos0, maxp) {
        Ok(s) => s,
        Err(e) => {
            return Err(e);
        },
    };
    proof {
        lemma_scan_ranges_bounded(
            d@,
            ChunkIndex::spec_empty(),
            0,
            false,
            pos0 as int,
            maxp as int,
        );
    }
    if animation && (matches!(s.chunks.anim, None) || matches!(s.chunks.anmf, None)) || icc
        && matches!(s.chunks.iccp, None) || exif && matches!(s.chunks.exif, None) || xmp
        && matches!(s.chunks.xmp, None) || !animation && (matches!(s.chunks.vp8, Some(_))
        == matches!(s.chunks.vp8l, Some(_))) {
        return Err(DecodingError::ChunkMissing);
    }
    let (bg, loops): ([u8; 4], Option<u16>) = if animation {
        let ar = s.chunks.anim.unwrap();
        match parse_anim_chunk(d, ar) {
            Ok(p) => p,
            Err(e) => {
                return Err(e);
            },
        }
    } else {
        ([0, 0, 0, 0], None)
    };
    let idx = match prepopulate_first_frame(d, s.chunks) {
        Ok(i) => i,
        Err(e) => {
            return Err(e);
        },
    };
    Ok(
        ParsedImage {
            width: w,
            height: h,
            num_frames: s.num_frames,
            kind: ImageKind::Extended(
                WebPExtendedInfo {
                    icc_profile: icc,
                    alpha: alpha,
                    exif_metadata: exif,
                    xmp_metadata: xmp,
                    animation: animation,
                    background_color: bg,
                },
            ),
            is_lossy: s.is_lossy || matches!(s.chunks.vp8, Some(_)),
            chunks: idx,
            loops_before_done: loops,
            next_frame_start: if animation {
                s.chunks.anmf.unwrap().start - 8
            } else {
                0
            },
        },
    )
}

/// Opens a lossy (`VP8 `) still.
fn parse_lossy(d: &Vec<u8>, size: u32) -> (r: Result<ParsedImage, DecodingError>)
    ensures
        r == spec_parse_lossy(d@, size),
        r matches Ok(p) ==> parsed_bounds(p),
{
    let n = d.len() as u64;
    if n < 23 {
        return Err(DecodingError::IoError);
    }
    let bitstream_tag = read_le24(d, 20);
    if bitstream_tag & 1 != 0 {
        return Err(DecodingError::UnsupportedFeature);
    }
    if n < 26 {
        return Err(DecodingError::IoError);
    }
    if !(byte_at(d, 23) == 0x9d && byte_at(d, 24) == 0x01 && byte_at(d, 25) == 0x2a) {
        return Err(DecodingError::Vp8MagicInvalid);
    }
    if n < 30 {
        return Err(DecodingError::IoError);
    }
    let mut chunks = ChunkIndex::new();
    chunks.insert_if_absent(WebPRiffChunk::VP8, ByteRange { start: 20, end: 20 + size as u64 });
    let wv = read_le16(d, 26);
    let hv = read_le16(d, 28);
    proof {
        assert(wv & 0x3FFF < 0x4000 && hv & 0x3FFF < 0x4000) by (bit_vector);
        assert(((wv & 0x3FFF) as int) * ((hv & 0x3FFF) as int) * 4 < 0x4000_0000)
            by (nonlinear_arith)
            requires
                wv & 0x3FFF < 0x4000,
                hv & 0x3FFF < 0x4000,
        ;
    }
    Ok(
        ParsedImage {
            width: wv & 0x3FFF,
            height: hv & 0x3FFF,
            num_frames: 0,
            kind: ImageKind::Lossy,
            is_lossy: true,
            chunks,
            loops_before_done: None,
            next_frame_start: 0,
        },
    )
}

/// Opens a lossless (`VP8L`) still.
fn parse_lossless(d: &Vec<u8>, size: u32) -> (r: Result<ParsedImage, DecodingError>)
    ensures
        r == spec_parse_lossless(d@, size),
        r matches Ok(p) ==> parsed_bounds(p),
{
    let n = d.len() as u64;
    if n < 21 {
        return Err(DecodingError::IoError);
    }
    if byte_at(d, 20) != 0x2f {
        return Err(DecodingError::LosslessSignatureInvalid);
    }
    if n < 25 {
        return Err(DecodingError::IoError);
    }
    let header = read_le32(d, 21);
    if header >> 29 != 0 {
        return Err(DecodingError::VersionNumberInvalid);
    }
    proof {
        assert(header & 0x3FFF < 0x4000) by (bit_vector);
        assert((header >> 14) & 0x3FFF < 0x4000) by (bit_vector);
        assert((1 + (header & 0x3FFF)) * (1 + ((header >> 14) & 0x3FFF)) * 4 <= 0x4000_0000)
            by (nonlinear_arith)
            requires
                header & 0x3FFF < 0x4000,
                (header >> 14) & 0x3FFF < 0x4000,
        ;
    }
    let mut chunks = ChunkIndex::new();
    chunks.insert_if_absent(WebPRiffChunk::VP8L, ByteRange { start: 20, end: 20 + size as u64 });
    Ok(
        ParsedImage {
            width: 1 + (header & 0x3FFF),
            height: 1 + ((header >> 14) & 0x3FFF),
            num_frames: 0,
            kind: ImageKind::Lossless,
            is_lossy: false,
            chunks,
            loops_before_done: None,
            next_frame_start: 0,
        },
    )
}

/// Opens a stream: validates the envelope and dispatches on the payload
/// chunk's tag.
pub fn parse(d: &Vec<u8>) -> (r: Result<ParsedImage, DecodingError>)
    ensures
        r == spec_parse(d@),
        r matches Ok(p) ==> parsed_bounds(p),
{
    let (tag0, riff_size, _) = match read_chunk_header(d, 0) {
        Ok(t) => t,
        Err(e) => {
            return Err(e);
        },
    };
    if !matches!(tag0, WebPRiffChunk::RIFF) {
        return Err(DecodingError::RiffSignatureInvalid);
    }
    let tag1 = match read_fourcc(d, 8) {
        Ok(t) => t,
        Err(e) => {
            return Err(e);
        },
    };
    if !matches!(tag1, WebPRiffChunk::WEBP) {
        return Err(DecodingError::WebpSignatureInvalid);
    }
    let (tag, size, rounded) = match read_chunk_header(d, 12) {
        Ok(t) => t,
        Err(e) => {
            return Err(e);
        },
    };
    match tag {
        WebPRiffChunk::VP8 => parse_lossy(d, size),
        WebPRiffChunk::VP8L => parse_lossless(d, size),
        WebPRiffChunk::VP8X => parse_extended(d, riff_size, rounded),
        _ => Err(DecodingError::ChunkHeaderInvalid),
    }
}

} // verus!

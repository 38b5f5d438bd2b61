//! The alpha channel: parsing an alpha chunk's payload and reconstructing
//! the alpha plane from its filtered residual.
//!
//! Each alpha sample is recovered as `predictor + residual` with wrapping
//! 8-bit addition, where the predictor is derived from already-reconstructed
//! neighbors — to the left, above, or both — so reconstruction must run in
//! raster order.

use vstd::prelude::*;
use crate::error::DecodingError;
use crate::index::ByteRange;

verus! {

/// The filtering method an alpha chunk declares for its residual.
#[derive(Debug, Clone, Copy, PartialEq, Eq, Structural)]
pub enum AlphaFilter {
    NoFilter,
    Horizontal,
    Vertical,
    Gradient,
}

/// A parsed alpha chunk: the declared filtering method and the raw residual
/// plane, one byte per pixel in raster order.
pub struct AlphaChunk {
    pub filtering_method: AlphaFilter,
    pub data: Vec<u8>,
}

/// The filtering method encoded by the two filter bits.
pub open spec fn spec_filter_of(bits: u8) -> AlphaFilter {
    if bits == 0 {
        AlphaFilter::NoFilter
    } else if bits == 1 {
        AlphaFilter::Horizontal
    } else if bits == 2 {
        AlphaFilter::Vertical
    } else {
        AlphaFilter::Gradient
    }
}

/// `v` clamped to the 8-bit sample range.
pub open spec fn clamp255(v: int) -> int {
    if v < 0 {
        0
    } else if v > 255 {
        255
    } else {
        v
    }
}

/// The reconstructed alpha sample at column `x`, row `y` of a `w`-wide plane
/// with residual `res` (raster order, so the residual byte of that sample is
/// `res[y * w + x]`): the filtering method's predictor — nothing, the left
/// neighbor, the top neighbor, or the clamped gradient of left, top and
/// top-left — plus the residual, modulo 256. At the left edge the horizontal
/// and gradient predictors fall back to the top neighbor, at the top edge the
/// vertical and gradient predictors to the left neighbor, and the first
/// sample's predictor is zero.
pub open spec fn spec_alpha_sample(res: Seq<u8>, w: int, m: AlphaFilter, x: int, y: int) -> u8
    decreases y, x,
{
    if x < 0 || y < 0 || w <= 0 {
        0u8
    } else {
        let pred: int = match m {
            AlphaFilter::NoFilter => 0,
            AlphaFilter::Horizontal => {
                if x == 0 && y == 0 {
                    0
                } else if x == 0 {
                    spec_alpha_sample(res, w, m, x, y - 1) as int
                } else {
                    spec_alpha_sample(res, w, m, x - 1, y) as int
                }
            },
            AlphaFilter::Vertical => {
                if x == 0 && y == 0 {
                    0
                } else if y == 0 {
                    spec_alpha_sample(res, w, m, x - 1, y) as int
                } else {
                    spec_alpha_sample(res, w, m, x, y - 1) as int
                }
            },
            AlphaFilter::Gradient => {
                if x == 0 && y == 0 {
                    0
                } else if x == 0 {
                    spec_alpha_sample(res, w, m, x, y - 1) as int
                } else if y == 0 {
                    spec_alpha_sample(res, w, m, x - 1, y) as int
                } else {
                    let l = spec_alpha_sample(res, w, m, x - 1, y) as int;
                    let t = spec_alpha_sample(res, w, m, x, y - 1) as int;
                    let tl = spec_alpha_sample(res, w, m, x - 1, y - 1) as int;
                    clamp255(l + t - tl)
                }
            },
        };
        ((pred + res[y * w + x]) % 256) as u8
    }
}

/// With no filtering the predictor is zero, so reconstruction returns the
/// residual unchanged: a residual encoded with the identity filter decodes
/// back to the original plane exactly.
pub proof fn lemma_no_filter_round_trip(res: Seq<u8>, w: int, x: int, y: int)
    requires
        0 <= x,
        0 <= y,
        0 <= y * w + x < res.len(),
        w >= 1,
    ensures
        spec_alpha_sample(res, w, AlphaFilter::NoFilter, x, y) == res[y * w + x],
{
}

/// The position of the alpha byte of the pixel at column `x`, row `y` in a
/// tightly packed 4-byte-per-pixel buffer `w` pixels wide.
pub open spec fn alpha_index(w: int, x: int, y: int) -> int {
    4 * (y * w + x) + 3
}

/// Raster indices are unique: two distinct in-bounds pixel coordinates never
/// share a raster index.
pub proof fn lemma_pixel_index_injective(w: int, x1: int, y1: int, x2: int, y2: int)
    by (nonlinear_arith)
    requires
        0 <= x1 < w,
        0 <= x2 < w,
    ensures
        y1 * w + x1 == y2 * w + x2 ==> x1 == x2 && y1 == y2,
{
}

/// The raster index of an in-bounds pixel lies within the plane.
pub proof fn lemma_pixel_index_bound(w: int, h: int, x: int, y: int)
    by (nonlinear_arith)
    requires
        0 <= x < w,
        0 <= y < h,
    ensures
        0 <= y * w + x < w * h,
{
}

/// Reconstructs the alpha plane of a `w` by `h` frame from the residual
/// `res`, writing each sample into the alpha byte of the tightly packed
/// 4-byte-per-pixel buffer `buf`, in raster order as the predictors require.
/// The color bytes of `buf` are left untouched.
pub fn reconstruct_alpha(buf: &mut Vec<u8>, res: &Vec<u8>, w: u32, h: u32, m: AlphaFilter)
    requires
        old(buf)@.len() == w * h * 4,
        res@.len() >= w * h,
        w * h * 4 <= usize::MAX,
    ensures
        final(buf)@.len() == old(buf)@.len(),
        forall|x: int, y: int|
            0 <= x < w && 0 <= y < h ==> final(buf)@[alpha_index(w as int, x, y)]
                == spec_alpha_sample(res@, w as int, m, x, y),
        forall|k: int| 0 <= k < old(buf)@.len() && k % 4 != 3 ==> final(buf)@[k] == old(buf)@[k],
{
    let ghost buf0 = buf@;
    let mut y: u32 = 0;
    while y < h
        invariant
            0 <= y <= h,
            buf@.len() == buf0.len(),
            buf0.len() == w * h * 4,
            res@.len() >= w * h,
            w * h * 4 <= usize::MAX,
            forall|i: int, j: int|
                0 <= i < w && 0 <= j < y ==> buf@[alpha_index(w as int, i, j)]
                    == spec_alpha_sample(res@, w as int, m, i, j),
            forall|k: int| 0 <= k < buf0.len() && k % 4 != 3 ==> buf@[k] == buf0[k],
        decreases h - y,
    {
        let mut x: u32 = 0;
        while x < w
            invariant
                0 <= x <= w,
                0 <= y < h,
                buf@.len() == buf0.len(),
                buf0.len() == w * h * 4,
                res@.len() >= w * h,
                w * h * 4 <= usize::MAX,
                forall|i: int, j: int|
                    0 <= i < w && 0 <= j < h && (j < y || (j == y && i < x)) ==> buf@[alpha_index(
                        w as int,
                        i,
                        j,
                    )] == spec_alpha_sample(res@, w as int, m, i, j),
                forall|k: int| 0 <= k < buf0.len() && k % 4 != 3 ==> buf@[k] == buf0[k],
            decreases w - x,
        {
            proof {
                lemma_pixel_index_bound(w as int, h as int, x as int, y as int);
                if x > 0 {
                    lemma_pixel_index_bound(w as int, h as int, x as int - 1, y as int);
                }
                if y > 0 {
                    lemma_pixel_index_bound(w as int, h as int, x as int, y as int - 1);
                }
                if x > 0 && y > 0 {
                    lemma_pixel_index_bound(w as int, h as int, x as int - 1, y as int - 1);
                }
            }
            let wu = w as usize;
            let pred: u8 = match m {
                AlphaFilter::NoFilter => 0,
                AlphaFilter::Horizontal => {
                    if x == 0 && y == 0 {
                        0
                    } else if x == 0 {
                        buf[4 * ((y as usize - 1) * wu + x as usize) + 3]
                    } else {
                        buf[4 * (y as usize * wu + (x as usize - 1)) + 3]
                    }
                },
                AlphaFilter::Vertical => {
                    if x == 0 && y == 0 {
                        0
                    } else if y == 0 {
                        buf[4 * (y as usize * wu + (x as usize - 1)) + 3]
                    } else {
                        buf[4 * ((y as usize - 1) * wu + x as usize) + 3]
                    }
                },
                AlphaFilter::Gradient => {
                    if x == 0 && y == 0 {
                        0
                    } else if x == 0 {
                        buf[4 * ((y as usize - 1) * wu + x as usize) + 3]
                    } else if y == 0 {
                        buf[4 * (y as usize * wu + (x as usize - 1)) + 3]
                    } else {
                        let l = buf[4 * (y as usize * wu + (x as usize - 1)) + 3] as i32;
                        let t = buf[4 * ((y as usize - 1) * wu + x as usize) + 3] as i32;
                        let tl = buf[4 * ((y as usize - 1) * wu + (x as usize - 1)) + 3] as i32;
                        let g = l + t - tl;
                        if g < 0 {
                            0
                        } else if g > 255 {
                            255
                        } else {
                            g as u8
                        }
                    }
                },
            };
            let r = res[y as usize * wu + x as usize];
            let v = ((pred as u32 + r as u32) % 256) as u8;
            let idx = 4 * (y as usize * wu + x as usize) + 3;
            proof {
                let wi = w as int;
                let xi = x as int;
                let yi = y as int;
                if x > 0 {
                    assert(buf@[alpha_index(wi, xi - 1, yi)] == spec_alpha_sample(
                        res@,
                        wi,
                        m,
                        xi - 1,
                        yi,
                    ));
                }
                if y > 0 {
                    assert(buf@[alpha_index(wi, xi, yi - 1)] == spec_alpha_sample(
                        res@,
                        wi,
                        m,
                        xi,
                        yi - 1,
                    ));
                }
                if x > 0 && y > 0 {
                    assert(buf@[alpha_index(wi, xi - 1, yi - 1)] == spec_alpha_sample(
                        res@,
                        wi,
                        m,
                        xi - 1,
                        yi - 1,
                    ));
                }
                assert(v == spec_alpha_sample(res@, wi, m, xi, yi));
            }
            buf.set(idx, v);
            proof {
                assert forall|i: int, j: int|
                    0 <= i < w && 0 <= j < h && (j < y || (j == y && i < x + 1)) implies buf@[alpha_index(
                    w as int,
                    i,
                    j,
                )] == spec_alpha_sample(res@, w as int, m, i, j) by {
                    lemma_pixel_index_bound(w as int, h as int, i, j);
                    lemma_pixel_index_injective(w as int, i, j, x as int, y as int);
                }
            }
            x = x + 1;
        }
        y = y + 1;
    }
}

/// What parsing an alpha chunk's payload yields. The first payload byte
/// holds two reserved bits (must be clear), two pre-processing bits, two
/// filtering bits and two compression bits; compression `0` means the
/// residual follows raw, one byte per pixel, and compression `1` — an
/// entropy-coded residual, which only the outside lossless codec could
/// unpack — is not handled here.
pub open spec fn spec_read_alpha(d: Seq<u8>, range: ByteRange, w: int, h: int) -> Result<
    (AlphaFilter, Seq<u8>),
    DecodingError,
> {
    if range.end > d.len() {
        Err(DecodingError::IoError)
    } else if range.end - range.start < 1 {
        Err(DecodingError::IoError)
    } else {
        let info = d[range.start as int];
        if info & 0xC0 != 0 {
            Err(DecodingError::InfoBitsInvalid)
        } else if info & 3 == 1 {
            Err(DecodingError::UnsupportedFeature)
        } else if info & 3 != 0 {
            Err(DecodingError::InfoBitsInvalid)
        } else if range.end - range.start < 1 + w * h {
            Err(DecodingError::AlphaChunkSizeMismatch)
        } else {
            Ok(
                (
                    spec_filter_of((info >> 2) & 3),
                    d.subrange(range.start + 1, range.start + 1 + w * h),
                ),
            )
        }
    }
}

/// Parses the alpha chunk payload at `range` for a `width` by `height`
/// frame.
pub fn read_alpha_chunk(d: &Vec<u8>, range: ByteRange, width: u32, height: u32) -> (r: Result<
    AlphaChunk,
    DecodingError,
>)
    requires
        range.start <= range.end,
        width * height * 4 <= usize::MAX,
    ensures
        match r {
            Ok(c) => spec_read_alpha(d@, range, width as int, height as int) matches Ok(p) && c.filtering_method == p.0
                && c.data@ == p.1,
            Err(e) => spec_read_alpha(d@, range, width as int, height as int) == Err::<
                (AlphaFilter, Seq<u8>),
                DecodingError,
            >(e),
        },
{
    let n = d.len() as u64;
    if range.end > n {
        return Err(DecodingError::IoError);
    }
    if range.end - range.start < 1 {
        return Err(DecodingError::IoError);
    }
    let info = crate::bytes::byte_at(d, range.start);
    if info & 0xC0 != 0 {
        return Err(DecodingError::InfoBitsInvalid);
    }
    if info & 3 == 1 {
        return Err(DecodingError::UnsupportedFeature);
    }
    if info & 3 != 0 {
        return Err(DecodingError::InfoBitsInvalid);
    }
    proof {
        assert((width as int) * (height as int) <= (width as int) * (height as int) * 4) by (nonlinear_arith);
    }
    let plane: u64 = (width as u64) * (height as u64);
    if range.end - range.start < 1 + plane {
        return Err(DecodingError::AlphaChunkSizeMismatch);
    }
    let bits = (info >> 2) & 3;
    proof {
        assert((info >> 2) & 3 < 4) by (bit_vector);
    }
    let filtering_method = if bits == 0 {
        AlphaFilter::NoFilter
    } else if bits == 1 {
        AlphaFilter::Horizontal
    } else if bits == 2 {
        AlphaFilter::Vertical
    } else {
        AlphaFilter::Gradient
    };
    let mut data: Vec<u8> = Vec::new();
    let mut i: u64 = 0;
    while i < plane
        invariant
            0 <= i <= plane,
            plane == (width as int) * (height as int),
            range.start + 1 + plane <= range.end <= d@.len(),
            data@ =~= d@.subrange(range.start + 1, range.start + 1 + i),
        decreases plane - i,
    {
        let b = crate::bytes::byte_at(d, range.start + 1 + i);
        data.push(b);
        i = i + 1;
    }
    proof {
        assert(data@ =~= d@.subrange(range.start + 1, range.start + 1 + plane));
    }
    Ok(AlphaChunk { filtering_method, data })
}

} // verus!

//! Compositing a decoded sub-frame onto the shared canvas: an optional
//! pre-clear to the background color, then per pixel either an outright
//! overwrite or standard source-over alpha blending in 8-bit integer
//! arithmetic.

use vstd::prelude::*;
use crate::alpha::{lemma_pixel_index_bound, lemma_pixel_index_injective};

verus! {

/// Whether the pixel at column `x`, row `y` lies in the placement rectangle.
pub open spec fn in_rect(fx: int, fy: int, fw: int, fh: int, x: int, y: int) -> bool {
    fx <= x < fx + fw && fy <= y < fy + fh
}

/// The channel `ch` of the pixel at column `x`, row `y` of a tightly packed
/// 4-byte-per-pixel buffer `w` pixels wide.
pub open spec fn px(c: Seq<u8>, w: int, x: int, y: int, ch: int) -> u8 {
    c[4 * (y * w + x) + ch]
}

/// 255 times the alpha that source-over blending of source alpha `sa` onto
/// destination alpha `da` yields.
pub open spec fn blend_weight(sa: int, da: int) -> int {
    255 * sa + da * (255 - sa)
}

/// The blended alpha sample.
pub open spec fn spec_blend_alpha(sa: int, da: int) -> int {
    blend_weight(sa, da) / 255
}

/// A blended color sample: the source and destination channels weighted by
/// their alphas, un-premultiplied by the blended alpha.
pub open spec fn spec_blend_channel(sc: int, sa: int, dc: int, da: int) -> int {
    if blend_weight(sa, da) == 0 {
        0
    } else {
        (sc * sa * 255 + dc * da * (255 - sa)) / blend_weight(sa, da)
    }
}

/// The channel `ch` of the source pixel at column `x`, row `y` of a decoded
/// sub-frame `fw` pixels wide: 4 bytes per pixel when the frame carries its
/// own alpha, otherwise 3 color bytes per pixel and full opacity.
pub open spec fn spec_src_channel(frame: Seq<u8>, fw: int, x: int, y: int, ch: int, has_alpha: bool) -> u8 {
    if has_alpha {
        frame[4 * (y * fw + x) + ch]
    } else if ch == 3 {
        255u8
    } else {
        frame[3 * (y * fw + x) + ch]
    }
}

/// What a canvas pixel shows before the new frame is drawn over it: the
/// background color when a pre-clear was requested, else whatever the canvas
/// already held.
pub open spec fn spec_base_channel(
    old_c: Seq<u8>,
    w: int,
    clear: Option<[u8; 4]>,
    x: int,
    y: int,
    ch: int,
) -> u8 {
    match clear {
        Option::Some(bg) => bg@[ch],
        Option::None => px(old_c, w, x, y, ch),
    }
}

/// What a canvas pixel shows after one frame is composited: outside the
/// frame's placement rectangle the pre-clear result; inside it, the source
/// pixel outright when blending is off, the source carries no alpha, or the
/// destination is fully transparent — and otherwise the source-over blend of
/// the two.
pub open spec fn spec_composited(
    old_c: Seq<u8>,
    w: int,
    clear: Option<[u8; 4]>,
    frame: Seq<u8>,
    fx: int,
    fy: int,
    fw: int,
    fh: int,
    has_alpha: bool,
    blending: bool,
    x: int,
    y: int,
    ch: int,
) -> u8 {
    let base = spec_base_channel(old_c, w, clear, x, y, ch);
    if fx <= x < fx + fw && fy <= y < fy + fh {
        let sx = x - fx;
        let sy = y - fy;
        let base_a = spec_base_channel(old_c, w, clear, x, y, 3);
        if blending && has_alpha && base_a != 0 {
            let sa = spec_src_channel(frame, fw, sx, sy, 3, has_alpha);
            if ch == 3 {
                spec_blend_alpha(sa as int, base_a as int) as u8
            } else {
                spec_blend_channel(
                    spec_src_channel(frame, fw, sx, sy, ch, has_alpha) as int,
                    sa as int,
                    base as int,
                    base_a as int,
                ) as u8
            }
        } else {
            spec_src_channel(frame, fw, sx, sy, ch, has_alpha)
        }
    } else {
        base
    }
}

/// A frame whose predecessor requested disposal is drawn onto a canvas
/// cleared to the background color: after compositing with a pre-clear,
/// every pixel outside the frame's placement rectangle shows the background
/// color.
pub proof fn lemma_disposal_clears_outside(
    old_c: Seq<u8>,
    w: int,
    bg: [u8; 4],
    frame: Seq<u8>,
    fx: int,
    fy: int,
    fw: int,
    fh: int,
    has_alpha: bool,
    blending: bool,
    x: int,
    y: int,
    ch: int,
)
    requires
        !(fx <= x < fx + fw && fy <= y < fy + fh),
        0 <= ch < 4,
    ensures
        spec_composited(
            old_c,
            w,
            Option::Some(bg),
            frame,
            fx,
            fy,
            fw,
            fh,
            has_alpha,
            blending,
            x,
            y,
            ch,
        ) == bg@[ch],
{
}

/// Source-over blending of one source pixel onto one destination pixel, in
/// 8-bit integer arithmetic.
pub fn do_alpha_blending(src: [u8; 4], dst: [u8; 4]) -> (r: [u8; 4])
    ensures
        r@[0] == spec_blend_channel(src@[0] as int, src@[3] as int, dst@[0] as int, dst@[3] as int),
        r@[1] == spec_blend_channel(src@[1] as int, src@[3] as int, dst@[1] as int, dst@[3] as int),
        r@[2] == spec_blend_channel(src@[2] as int, src@[3] as int, dst@[2] as int, dst@[3] as int),
        r@[3] == spec_blend_alpha(src@[3] as int, dst@[3] as int),
{
    let sa = src[3] as u32;
    let da = dst[3] as u32;
    proof {
        assert((da as int) * (255 - sa as int) <= 255 * 255) by (nonlinear_arith)
            requires
                da <= 255,
                sa <= 255,
        ;
    }
    let weight: u32 = 255 * sa + da * (255 - sa);
    proof {
        assert(255 * (sa as int) + (da as int) * (255 - sa as int) <= 255 * 255) by (nonlinear_arith)
            requires
                sa <= 255,
                da <= 255,
        ;
    }
    if weight == 0 {
        let r: [u8; 4] = [0, 0, 0, 0];
        return r;
    }
    let c0 = blend_one(src[0], sa, dst[0], da, weight);
    let c1 = blend_one(src[1], sa, dst[1], da, weight);
    let c2 = blend_one(src[2], sa, dst[2], da, weight);
    let a = (weight / 255) as u8;
    let r: [u8; 4] = [c0, c1, c2, a];
    r
}

/// One color channel of the source-over blend.
fn blend_one(sc: u8, sa: u32, dc: u8, da: u32, weight: u32) -> (r: u8)
    requires
        sa <= 255,
        da <= 255,
        weight == blend_weight(sa as int, da as int),
        weight > 0,
    ensures
        r == spec_blend_channel(sc as int, sa as int, dc as int, da as int),
{
    proof {
        assert((sc as int) * (sa as int) * 255 <= 255 * 255 * 255) by (nonlinear_arith)
            requires
                sc <= 255,
                sa <= 255,
        ;
        assert((dc as int) * (da as int) * (255 - sa as int) <= 255 * 255 * 255) by (nonlinear_arith)
            requires
                dc <= 255,
                da <= 255,
                sa <= 255,
        ;
        assert((sc as int) * (sa as int) * 255 + (dc as int) * (da as int) * (255 - sa as int) <= 255
            * blend_weight(sa as int, da as int)) by (nonlinear_arith)
            requires
                sc <= 255,
                dc <= 255,
                sa <= 255,
                da <= 255,
        ;
        assert(((sc as int) * (sa as int) * 255 + (dc as int) * (da as int) * (255 - sa as int))
            / (weight as int) <= 255) by (nonlinear_arith)
            requires
                weight > 0,
                (sc as int) * (sa as int) * 255 + (dc as int) * (da as int) * (255 - sa as int) <= 255
                    * (weight as int),
                (sc as int) * (sa as int) * 255 + (dc as int) * (da as int) * (255 - sa as int) >= 0,
        ;
    }
    proof {
        assert((sc as int) * (sa as int) <= 255 * 255 && (dc as int) * (da as int) <= 255 * 255)
            by (nonlinear_arith)
            requires
                sc <= 255,
                sa <= 255,
                dc <= 255,
                da <= 255,
        ;
    }
    let num: u32 = (sc as u32) * sa * 255 + (dc as u32) * da * (255 - sa);
    (num / weight) as u8
}

/// Writes one whole pixel of the canvas.
fn fill_pixel(canvas: &mut Vec<u8>, w: u32, h: u32, x: u32, y: u32, rgba: [u8; 4])
    requires
        old(canvas)@.len() == w * h * 4,
        w * h * 4 <= usize::MAX,
        x < w,
        y < h,
    ensures
        final(canvas)@.len() == old(canvas)@.len(),
        forall|ch: int|
            0 <= ch < 4 ==> px(final(canvas)@, w as int, x as int, y as int, ch) == rgba@[ch],
        forall|k: int|
            0 <= k < old(canvas)@.len() && !(4 * ((y as int) * (w as int) + x as int) <= k < 4 * ((
            y as int) * (w as int) + x as int) + 4) ==> final(canvas)@[k] == old(canvas)@[k],
{
    proof {
        lemma_pixel_index_bound(w as int, h as int, x as int, y as int);
    }
    let base = 4 * (y as usize * w as usize + x as usize);
    canvas.set(base, rgba[0]);
    canvas.set(base + 1, rgba[1]);
    canvas.set(base + 2, rgba[2]);
    canvas.set(base + 3, rgba[3]);
}

/// Reads one whole pixel of the canvas.
fn get_pixel(canvas: &Vec<u8>, w: u32, h: u32, x: u32, y: u32) -> (r: [u8; 4])
    requires
        canvas@.len() == w * h * 4,
        w * h * 4 <= usize::MAX,
        x < w,
        y < h,
    ensures
        forall|ch: int| 0 <= ch < 4 ==> r@[ch] == px(canvas@, w as int, x as int, y as int, ch),
{
    proof {
        lemma_pixel_index_bound(w as int, h as int, x as int, y as int);
    }
    let base = 4 * (y as usize * w as usize + x as usize);
    let r: [u8; 4] = [canvas[base], canvas[base + 1], canvas[base + 2], canvas[base + 3]];
    r
}

/// Composites a decoded sub-frame onto the canvas at its placement
/// rectangle. When `clear_color` is given — because the previous frame
/// requested disposal, or playback is (re)starting from a clean state — the
/// whole canvas is first cleared to that color. Then each pixel of the
/// rectangle is either overwritten by the source pixel or source-over
/// blended onto what the clearing left there; pixels outside the rectangle
/// keep the cleared state.
pub fn composite_frame(
    canvas: &mut Vec<u8>,
    width: u32,
    height: u32,
    clear_color: Option<[u8; 4]>,
    frame: &Vec<u8>,
    frame_x: u32,
    frame_y: u32,
    frame_width: u32,
    frame_height: u32,
    frame_has_alpha: bool,
    frame_use_alpha_blending: bool,
)
    requires
        old(canvas)@.len() == width * height * 4,
        width * height * 4 <= usize::MAX,
        frame_x + frame_width <= width,
        frame_y + frame_height <= height,
        frame@.len() == (if frame_has_alpha {
            4int
        } else {
            3int
        }) * frame_width * frame_height,
    ensures
        final(canvas)@.len() == old(canvas)@.len(),
        forall|x: int, y: int, ch: int|
            0 <= x < width && 0 <= y < height && 0 <= ch < 4 ==> px(
                final(canvas)@,
                width as int,
                x,
                y,
                ch,
            ) == spec_composited(
                old(canvas)@,
                width as int,
                clear_color,
                frame@,
                frame_x as int,
                frame_y as int,
                frame_width as int,
                frame_height as int,
                frame_has_alpha,
                frame_use_alpha_blending,
                x,
                y,
                ch,
            ),
{
    let ghost c0 = canvas@;
    let _fbound: usize = frame.len();
    if let Some(bg) = clear_color {
        let mut y: u32 = 0;
        while y < height
            invariant
                0 <= y <= height,
                canvas@.len() == c0.len(),
                c0.len() == width * height * 4,
                width * height * 4 <= usize::MAX,
                forall|i: int, j: int, ch: int|
                    0 <= i < width && 0 <= j < height && 0 <= ch < 4 ==> px(
                        canvas@,
                        width as int,
                        i,
                        j,
                        ch,
                    ) == (if j < y {
                        bg@[ch]
                    } else {
                        px(c0, width as int, i, j, ch)
                    }),
            decreases height - y,
        {
            let mut x: u32 = 0;
            while x < width
                invariant
                    0 <= x <= width,
                    0 <= y < height,
                    canvas@.len() == c0.len(),
                    c0.len() == width * height * 4,
                    width * height * 4 <= usize::MAX,
                    forall|i: int, j: int, ch: int|
                        0 <= i < width && 0 <= j < height && 0 <= ch < 4 ==> px(
                            canvas@,
                            width as int,
                            i,
                            j,
                            ch,
                        ) == (if j < y || (j == y && i < x) {
                            bg@[ch]
                        } else {
                            px(c0, width as int, i, j, ch)
                        }),
                decreases width - x,
            {
                let ghost cprev = canvas@;
                fill_pixel(canvas, width, height, x, y, bg);
                proof {
                    assert forall|i: int, j: int, ch: int|
                        0 <= i < width && 0 <= j < height && 0 <= ch < 4 implies px(
                        canvas@,
                        width as int,
                        i,
                        j,
                        ch,
                    ) == (if j < y || (j == y && i < x + 1) {
                        bg@[ch]
                    } else {
                        px(c0, width as int, i, j, ch)
                    }) by {
                        lemma_pixel_index_bound(width as int, height as int, i, j);
                        lemma_pixel_index_injective(width as int, i, j, x as int, y as int);
                        assert(px(cprev, width as int, i, j, ch) == (if j < y || (j == y && i < x) {
                            bg@[ch]
                        } else {
                            px(c0, width as int, i, j, ch)
                        }));
                    }
                }
                x = x + 1;
            }
            y = y + 1;
        }
    }
    let ghost base_c = canvas@;
    proof {
        assert forall|i: int, j: int, ch: int|
            0 <= i < width && 0 <= j < height && 0 <= ch < 4 implies px(base_c, width as int, i, j, ch)
            == spec_base_channel(c0, width as int, clear_color, i, j, ch) by {}
    }
    let mut y: u32 = 0;
    while y < frame_height
        invariant
            0 <= y <= frame_height,
            canvas@.len() == c0.len(),
            c0.len() == width * height * 4,
            width * height * 4 <= usize::MAX,
            frame_x + frame_width <= width,
            frame_y + frame_height <= height,
            frame@.len() == (if frame_has_alpha {
                4int
            } else {
                3int
            }) * frame_width * frame_height,
            frame@.len() <= usize::MAX,
            forall|i: int, j: int, ch: int|
                0 <= i < width && 0 <= j < height && 0 <= ch < 4 ==> px(
                    canvas@,
                    width as int,
                    i,
                    j,
                    ch,
                ) == (if in_rect(
                    frame_x as int,
                    frame_y as int,
                    frame_width as int,
                    frame_height as int,
                    i,
                    j,
                ) && j < frame_y + y {
                    spec_composited(
                        c0,
                        width as int,
                        clear_color,
                        frame@,
                        frame_x as int,
                        frame_y as int,
                        frame_width as int,
                        frame_height as int,
                        frame_has_alpha,
                        frame_use_alpha_blending,
                        i,
                        j,
                        ch,
                    )
                } else {
                    spec_base_channel(c0, width as int, clear_color, i, j, ch)
                }),
        decreases frame_height - y,
    {
        let mut x: u32 = 0;
        while x < frame_width
            invariant
                0 <= x <= frame_width,
                0 <= y < frame_height,
                canvas@.len() == c0.len(),
                c0.len() == width * height * 4,
                width * height * 4 <= usize::MAX,
                frame_x + frame_width <= width,
                frame_y + frame_height <= height,
                frame@.len() == (if frame_has_alpha {
                    4int
                } else {
                    3int
                }) * frame_width * frame_height,
                frame@.len() <= usize::MAX,
                forall|i: int, j: int, ch: int|
                    0 <= i < width && 0 <= j < height && 0 <= ch < 4 ==> px(
                        canvas@,
                        width as int,
                        i,
                        j,
                        ch,
                    ) == (if in_rect(
                        frame_x as int,
                        frame_y as int,
                        frame_width as int,
                        frame_height as int,
                        i,
                        j,
                    ) && (j < frame_y + y || (j == frame_y + y && i < frame_x + x)) {
                        spec_composited(
                            c0,
                            width as int,
                            clear_color,
                            frame@,
                            frame_x as int,
                            frame_y as int,
                            frame_width as int,
                            frame_height as int,
                            frame_has_alpha,
                            frame_use_alpha_blending,
                            i,
                            j,
                            ch,
                        )
                    } else {
                        spec_base_channel(c0, width as int, clear_color, i, j, ch)
                    }),
            decreases frame_width - x,
        {
            proof {
                lemma_pixel_index_bound(frame_width as int, frame_height as int, x as int, y as int);
                let fwi = frame_width as int;
                let fhi = frame_height as int;
                assert(4 * fwi * fhi == 4 * (fwi * fhi) && 3 * fwi * fhi == 3 * (fwi * fhi))
                    by (nonlinear_arith);
            }
            let fwu = frame_width as usize;
            let src: [u8; 4] = if frame_has_alpha {
                let base = 4 * (y as usize * fwu + x as usize);
                [frame[base], frame[base + 1], frame[base + 2], frame[base + 3]]
            } else {
                let base = 3 * (y as usize * fwu + x as usize);
                [frame[base], frame[base + 1], frame[base + 2], 255]
            };
            let tx = frame_x + x;
            let ty = frame_y + y;
            let ghost cprev = canvas@;
            let dst = get_pixel(canvas, width, height, tx, ty);
            let out: [u8; 4] = if frame_use_alpha_blending && frame_has_alpha && dst[3] != 0 {
                do_alpha_blending(src, dst)
            } else {
                src
            };
            proof {
                let wi = width as int;
                let txi = tx as int;
                let tyi = ty as int;
                assert forall|ch: int| 0 <= ch < 4 implies out@[ch] == spec_composited(
                    c0,
                    wi,
                    clear_color,
                    frame@,
                    frame_x as int,
                    frame_y as int,
                    frame_width as int,
                    frame_height as int,
                    frame_has_alpha,
                    frame_use_alpha_blending,
                    txi,
                    tyi,
                    ch,
                ) by {
                    assert(px(cprev, wi, txi, tyi, ch) == spec_base_channel(
                        c0,
                        wi,
                        clear_color,
                        txi,
                        tyi,
                        ch,
                    ));
                    assert(px(cprev, wi, txi, tyi, 3) == spec_base_channel(
                        c0,
                        wi,
                        clear_color,
                        txi,
                        tyi,
                        3,
                    ));
                    assert(dst@[ch] == px(cprev, wi, txi, tyi, ch));
                    assert(dst@[3] == px(cprev, wi, txi, tyi, 3));
                }
            }
            fill_pixel(canvas, width, height, tx, ty, out);
            proof {
                assert forall|i: int, j: int, ch: int|
                    0 <= i < width && 0 <= j < height && 0 <= ch < 4 implies px(
                    canvas@,
                    width as int,
                    i,
                    j,
                    ch,
                ) == (if in_rect(
                    frame_x as int,
                    frame_y as int,
                    frame_width as int,
                    frame_height as int,
                    i,
                    j,
                ) && (j < frame_y + y || (j == frame_y + y && i < frame_x + x + 1)) {
                    spec_composited(
                        c0,
                        width as int,
                        clear_color,
                        frame@,
                        frame_x as int,
                        frame_y as int,
                        frame_width as int,
                        frame_height as int,
                        frame_has_alpha,
                        frame_use_alpha_blending,
                        i,
                        j,
                        ch,
                    )
                } else {
                    spec_base_channel(c0, width as int, clear_color, i, j, ch)
                }) by {
                    lemma_pixel_index_bound(width as int, height as int, i, j);
                    lemma_pixel_index_injective(width as int, i, j, tx as int, ty as int);
                    assert(px(cprev, width as int, i, j, ch) == (if in_rect(
                        frame_x as int,
                        frame_y as int,
                        frame_width as int,
                        frame_height as int,
                        i,
                        j,
                    ) && (j < frame_y + y || (j == frame_y + y && i < frame_x + x)) {
                        spec_composited(
                            c0,
                            width as int,
                            clear_color,
                            frame@,
                            frame_x as int,
                            frame_y as int,
                            frame_width as int,
                            frame_height as int,
                            frame_has_alpha,
                            frame_use_alpha_blending,
                            i,
                            j,
                            ch,
                        )
                    } else {
                        spec_base_channel(c0, width as int, clear_color, i, j, ch)
                    }));
                }
            }
            x = x + 1;
        }
        y = y + 1;
    }
    proof {
        assert forall|x: int, y: int, ch: int|
            0 <= x < width && 0 <= y < height && 0 <= ch < 4 implies px(
            canvas@,
            width as int,
            x,
            y,
            ch,
        ) == spec_composited(
            c0,
            width as int,
            clear_color,
            frame@,
            frame_x as int,
            frame_y as int,
            frame_width as int,
            frame_height as int,
            frame_has_alpha,
            frame_use_alpha_blending,
            x,
            y,
            ch,
        ) by {}
    }
}


} // verus!

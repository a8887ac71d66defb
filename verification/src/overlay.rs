//! Region clipping and the overlay driver.

use vstd::prelude::*;
use vstd::arithmetic::div_mod::lemma_fundamental_div_mod_converse;
use crate::pixel::AsRgba;
use crate::raster::Image;
use crate::blend_mode::BlendMode;
use crate::rng::FastUnsecurePrng;
use crate::blend::fns::{blend_pixels, blend_dissolve, spec_blend_pixel, spec_blend_dissolve};

verus! {

pub open spec fn spec_clamp(v: int, lo: int, hi: int) -> int {
    if v < lo {
        lo
    } else if v > hi {
        hi
    } else {
        v
    }
}

/// The region an overlay at offset `(x, y)` may copy: origins in the bottom
/// image, origins in the top image, and the shared width and height. Any
/// offset that puts the top image fully outside the bottom one yields the
/// all-zero region.
pub open spec fn spec_overlay_bounds(bw: int, bh: int, tw: int, th: int, x: int, y: int) -> (
    int,
    int,
    int,
    int,
    int,
    int,
) {
    if x >= bw || y >= bh || x + tw <= 0 || y + th <= 0 {
        (0, 0, 0, 0, 0, 0)
    } else {
        let max_in_x = spec_clamp(x + tw, 0, bw);
        let max_in_y = spec_clamp(y + th, 0, bh);
        let obx = spec_clamp(x, 0, bw);
        let oby = spec_clamp(y, 0, bh);
        let otx = spec_clamp(-x, 0, tw);
        let oty = spec_clamp(-y, 0, th);
        (obx, oby, otx, oty, max_in_x - obx, max_in_y - oby)
    }
}

fn clamp_to(v: i64, hi: u32) -> (r: u32)
    ensures
        r == spec_clamp(v as int, 0, hi as int),
{
    if v < 0 {
        0
    } else if v > hi as i64 {
        hi
    } else {
        v as u32
    }
}

/// Calculate the region that can be copied from top to bottom: given both
/// images' dimensions and the placement `(x, y)` of the top image (possibly
/// negative, possibly out of bounds), returns
/// `(origin_bottom_x, origin_bottom_y, origin_top_x, origin_top_y, x_range, y_range)`
/// such that every access `bottom[(origin_bottom + [0..range))]` and
/// `top[(origin_top + [0..range))]` is in bounds.
pub fn overlay_bounds_ext(bottom_dims: (u32, u32), top_dims: (u32, u32), x: i64, y: i64) -> (r: (
    u32,
    u32,
    u32,
    u32,
    u32,
    u32,
))
    ensures
        (r.0 as int, r.1 as int, r.2 as int, r.3 as int, r.4 as int, r.5 as int)
            == spec_overlay_bounds(
            bottom_dims.0 as int,
            bottom_dims.1 as int,
            top_dims.0 as int,
            top_dims.1 as int,
            x as int,
            y as int,
        ),
        r.0 + r.4 <= bottom_dims.0,
        r.1 + r.5 <= bottom_dims.1,
        r.2 + r.4 <= top_dims.0,
        r.3 + r.5 <= top_dims.1,
{
    let (bottom_width, bottom_height) = bottom_dims;
    let (top_width, top_height) = top_dims;
    // Return the all-zero region if the two images don't overlap at all,
    // exact-touch offsets included.
    if x >= bottom_width as i64 || y >= bottom_height as i64 || x + (top_width as i64) <= 0 || y + (
    top_height as i64) <= 0 {
        return (0, 0, 0, 0, 0, 0);
    }
    // Find the maximum coordinates in terms of the bottom image and clip
    // them, and the origins, to the bounds of the bottom image.
    let max_inbounds_x = clamp_to(x + top_width as i64, bottom_width);
    let max_inbounds_y = clamp_to(y + top_height as i64, bottom_height);
    let origin_bottom_x = clamp_to(x, bottom_width);
    let origin_bottom_y = clamp_to(y, bottom_height);
    let x_range = max_inbounds_x - origin_bottom_x;
    let y_range = max_inbounds_y - origin_bottom_y;
    // If x (or y) is negative, the origin of the top image is shifted by
    // -x (or -y).
    let origin_top_x = clamp_to(-x, top_width);
    let origin_top_y = clamp_to(-y, top_height);
    (origin_bottom_x, origin_bottom_y, origin_top_x, origin_top_y, x_range, y_range)
}

/// The state of an overlay sweep after its first `k` pixels, visiting the
/// clipped region row-major: the bottom image's pixels and the draw state.
pub open spec fn spec_sweep<B: AsRgba, F: AsRgba>(
    bg: Seq<B>,
    bw: int,
    tp: Seq<F>,
    tw: int,
    reg: (int, int, int, int, int, int),
    mode: BlendMode,
    rng: FastUnsecurePrng,
    k: nat,
) -> (Seq<B>, FastUnsecurePrng)
    decreases k,
{
    if k == 0 {
        (bg, rng)
    } else {
        let prev = spec_sweep(bg, bw, tp, tw, reg, mode, rng, (k - 1) as nat);
        let j = (k - 1) as int;
        let dy = j / reg.4;
        let dx = j % reg.4;
        let bi = (reg.1 + dy) * bw + reg.0 + dx;
        let ti = (reg.3 + dy) * tw + reg.2 + dx;
        if mode == BlendMode::Dissolve {
            let step = spec_blend_dissolve(prev.0[bi], tp[ti], prev.1);
            (prev.0.update(bi, step.0), step.1)
        } else {
            (prev.0.update(bi, spec_blend_pixel(mode, prev.0[bi], tp[ti])), prev.1)
        }
    }
}

/// What the bottom image's pixels become when `top` is overlaid at `(x, y)`
/// with the given mode: the clipped region is swept row-major, each pixel
/// pair blended and composited; for `Dissolve` the draw state is seeded from
/// the top image's dimensions.
pub open spec fn spec_overlay<B: AsRgba, F: AsRgba>(
    bottom: Image<B>,
    top: Image<F>,
    x: int,
    y: int,
    mode: BlendMode,
) -> Seq<B> {
    let reg = spec_overlay_bounds(
        bottom.spec_width() as int,
        bottom.spec_height() as int,
        top.spec_width() as int,
        top.spec_height() as int,
        x,
        y,
    );
    let rng0 = FastUnsecurePrng::spec_new(top.spec_width(), top.spec_height());
    spec_sweep(
        bottom.spec_pix(),
        bottom.spec_width() as int,
        top.spec_pix(),
        top.spec_width() as int,
        reg,
        mode,
        rng0,
        (reg.4 * reg.5) as nat,
    ).0
}

/// Overlay `top` onto `bottom` at offset `(x, y)` with the given blend mode.
///
/// Exactly the pixels of the clipped region change, each to the composite
/// of its old value and the matching top pixel; an offset without overlap
/// changes nothing. The result is a function of the inputs alone: two calls
/// on equal images with equal arguments produce equal results, the dissolve
/// draws included.
pub fn overlay<B: AsRgba, F: AsRgba>(
    bottom: &mut Image<B>,
    top: &Image<F>,
    x: i64,
    y: i64,
    blend_mode: BlendMode,
)
    requires
        old(bottom).wf(),
        top.wf(),
    ensures
        final(bottom).wf(),
        final(bottom).spec_width() == old(bottom).spec_width(),
        final(bottom).spec_height() == old(bottom).spec_height(),
        final(bottom).spec_pix() == spec_overlay(*old(bottom), *top, x as int, y as int, blend_mode),
{
    let (obx, oby, otx, oty, w, h) = overlay_bounds_ext(
        (bottom.width(), bottom.height()),
        (top.width(), top.height()),
        x,
        y,
    );
    // Reseeding from the top image's dimensions keeps every call with the
    // same top size on the same draw sequence.
    let mut rng = FastUnsecurePrng::new(top.width(), top.height());
    let ghost bg0 = bottom.spec_pix();
    let ghost rng0 = rng;
    let ghost reg = (obx as int, oby as int, otx as int, oty as int, w as int, h as int);
    let ghost bw = bottom.spec_width() as int;
    let ghost tw = top.spec_width() as int;
    let ghost tp = top.spec_pix();
    let mut dy: u32 = 0;
    while dy < h
        invariant
            bottom.wf(),
            top.wf(),
            bottom.spec_width() == old(bottom).spec_width(),
            bottom.spec_height() == old(bottom).spec_height(),
            bw == bottom.spec_width() as int,
            tw == top.spec_width() as int,
            tp == top.spec_pix(),
            bg0.len() == bottom.spec_pix().len(),
            reg == (obx as int, oby as int, otx as int, oty as int, w as int, h as int),
            obx + w <= bottom.spec_width(),
            oby + h <= bottom.spec_height(),
            otx + w <= top.spec_width(),
            oty + h <= top.spec_height(),
            0 <= dy <= h,
            ({
                let s = spec_sweep(bg0, bw, tp, tw, reg, blend_mode, rng0, (dy * w) as nat);
                bottom.spec_pix() == s.0 && rng == s.1
            }),
        decreases h - dy,
    {
        let mut dx: u32 = 0;
        while dx < w
            invariant
                bottom.wf(),
                top.wf(),
                bottom.spec_width() == old(bottom).spec_width(),
                bottom.spec_height() == old(bottom).spec_height(),
                bw == bottom.spec_width() as int,
                tw == top.spec_width() as int,
                tp == top.spec_pix(),
                bg0.len() == bottom.spec_pix().len(),
                reg == (obx as int, oby as int, otx as int, oty as int, w as int, h as int),
                obx + w <= bottom.spec_width(),
                oby + h <= bottom.spec_height(),
                otx + w <= top.spec_width(),
                oty + h <= top.spec_height(),
                dy < h,
                0 <= dx <= w,
                ({
                    let s = spec_sweep(bg0, bw, tp, tw, reg, blend_mode, rng0, (dy * w + dx) as nat);
                    bottom.spec_pix() == s.0 && rng == s.1
                }),
            decreases w - dx,
        {
            let bx = obx + dx;
            let by = oby + dy;
            let fx = otx + dx;
            let fy = oty + dy;
            let mut bgp = bottom.get_pixel(bx, by);
            let fgp = top.get_pixel(fx, fy);
            let ghost k = (dy * w + dx) as int;
            proof {
                assert(0 <= dy * w) by (nonlinear_arith)
                    requires
                        0 <= dy,
                        0 <= w,
                ;
                lemma_fundamental_div_mod_converse(k, w as int, dy as int, dx as int);
            }
            if blend_mode == BlendMode::Dissolve {
                blend_dissolve(&mut bgp, &fgp, &mut rng);
            } else {
                blend_pixels(blend_mode, &mut bgp, &fgp);
            }
            bottom.put_pixel(bx, by, bgp);
            dx = dx + 1;
        }
        proof {
            assert((dy + 1) * (w as int) == dy * (w as int) + (w as int)) by (nonlinear_arith);
        }
        dy = dy + 1;
    }
    proof {
        assert((h as int) * (w as int) == (w as int) * (h as int)) by (nonlinear_arith);
    }
}

} // verus!

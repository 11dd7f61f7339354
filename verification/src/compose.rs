//! The composer: placing rasters of equal dimensions side by side into one
//! triple-wide comparison raster.

use vstd::prelude::*;

use crate::raster::Pixel;
use crate::raster::Raster;
use crate::raster::pix;

verus! {

/// The pixel at `(x, y)` of the composed raster: column `x` reads the
/// left, middle or right source raster according to which third it is in.
pub open spec fn composed_pixel(
    left: Seq<Pixel>,
    middle: Seq<Pixel>,
    right: Seq<Pixel>,
    w: int,
    x: int,
    y: int,
) -> Pixel {
    if x < w {
        pix(left, w, x, y)
    } else if x < 2 * w {
        pix(middle, w, x - w, y)
    } else {
        pix(right, w, x - 2 * w, y)
    }
}

/// Place three rasters of equal dimensions side by side:
/// `[left | middle | right]`, each keeping its own pixels unchanged.
pub fn side_by_side(left: &Raster, middle: &Raster, right: &Raster) -> (out: Raster)
    requires
        left.wf(),
        middle.wf(),
        right.wf(),
        middle.spec_width() == left.spec_width(),
        middle.spec_height() == left.spec_height(),
        right.spec_width() == left.spec_width(),
        right.spec_height() == left.spec_height(),
        3 * left.spec_width() * left.spec_height() <= usize::MAX,
    ensures
        out.wf(),
        out.spec_width() == 3 * left.spec_width(),
        out.spec_height() == left.spec_height(),
        forall|x: int, y: int|
            0 <= x < 3 * left.spec_width() && 0 <= y < left.spec_height() ==> out@[y * (3
                * left.spec_width()) + x] == composed_pixel(
                left@,
                middle@,
                right@,
                left.spec_width(),
                x,
                y,
            ),
{
    let ghost gw = left.spec_width();
    let ghost gh = left.spec_height();
    proof {
        left.size_bound();
        assert(3 * gw <= 3 * gw * gh) by (nonlinear_arith)
            requires 1 <= gh, 0 <= gw;
    }
    let w = left.width();
    let h = left.height();
    let w3 = 3 * w;
    let mut pixels: Vec<Pixel> = Vec::new();
    let mut y: usize = 0;
    while y < h
        invariant
            left.wf(),
            middle.wf(),
            right.wf(),
            middle.spec_width() == gw,
            middle.spec_height() == gh,
            right.spec_width() == gw,
            right.spec_height() == gh,
            gw == left.spec_width(),
            gh == left.spec_height(),
            w == gw,
            h == gh,
            w3 == 3 * w,
            3 * gw * gh <= usize::MAX,
            y <= h,
            pixels@.len() == y * w3,
            forall|j: int|
                0 <= j < pixels@.len() ==> pixels@[j] == composed_pixel(
                    left@,
                    middle@,
                    right@,
                    gw,
                    j % (3 * gw),
                    j / (3 * gw),
                ),
        decreases h - y,
    {
        let mut x: usize = 0;
        proof {
            assert(y * w3 + w3 == (y + 1) * w3) by (nonlinear_arith);
            assert((y + 1) * (3 * gw) <= 3 * gw * gh) by (nonlinear_arith)
                requires y + 1 <= gh, 0 <= gw;
        }
        while x < w3
            invariant
                left.wf(),
                middle.wf(),
                right.wf(),
                middle.spec_width() == gw,
                middle.spec_height() == gh,
                right.spec_width() == gw,
                right.spec_height() == gh,
                gw == left.spec_width(),
                gh == left.spec_height(),
                w == gw,
                h == gh,
                w3 == 3 * w,
                y < h,
                x <= w3,
                y * w3 + w3 <= 3 * gw * gh,
                3 * gw * gh <= usize::MAX,
                pixels@.len() == y * w3 + x,
                forall|j: int|
                    0 <= j < pixels@.len() ==> pixels@[j] == composed_pixel(
                        left@,
                        middle@,
                        right@,
                        gw,
                        j % (3 * gw),
                        j / (3 * gw),
                    ),
            decreases w3 - x,
        {
            let p = if x < w {
                left.get(x, y)
            } else if x < 2 * w {
                middle.get(x - w, y)
            } else {
                right.get(x - 2 * w, y)
            };
            proof {
                vstd::arithmetic::div_mod::lemma_fundamental_div_mod_converse(
                    y * w3 + x,
                    3 * gw,
                    y as int,
                    x as int,
                );
                assert(p == composed_pixel(left@, middle@, right@, gw, x as int, y as int));
            }
            pixels.push(p);
            x = x + 1;
        }
        y = y + 1;
    }
    proof {
        assert(gh * (3 * gw) == 3 * gw * gh) by (nonlinear_arith);
    }
    let out = Raster::from_pixels(w3, h, pixels);
    proof {
        assert forall|x: int, y: int|
            0 <= x < 3 * gw && 0 <= y < gh implies out@[y * (3 * gw) + x] == composed_pixel(
            left@,
            middle@,
            right@,
            gw,
            x,
            y,
        ) by {
            assert(0 <= y * (3 * gw) + x < 3 * gw * gh) by (nonlinear_arith)
                requires 0 <= x < 3 * gw, 0 <= y < gh;
            vstd::arithmetic::div_mod::lemma_fundamental_div_mod_converse(
                y * (3 * gw) + x,
                3 * gw,
                y,
                x,
            );
        }
    }
    out
}

} // verus!

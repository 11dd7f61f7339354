//! The convolution engine: border-aware traversal, weighted summation, and
//! clamping back into the 8-bit channel range.

use vstd::prelude::*;

use crate::kernel::Mode;
use crate::kernel::divisor;
use crate::kernel::divisor_of;
use crate::kernel::kernel_weight;
use crate::kernel::kernel_weight_at;
use crate::raster::Pixel;
use crate::raster::Raster;
use crate::raster::channel;
use crate::raster::pix;

verus! {

/// A pixel at `(x, y)` is a border pixel for `radius` when the kernel
/// centered there would read outside the `w` x `h` grid. Such pixels are
/// copied unchanged.
pub open spec fn is_border(w: int, h: int, radius: int, x: int, y: int) -> bool {
    x < radius || x > w - 1 - radius || y < radius || y > h - 1 - radius
}

/// Weighted sum of channel `c` over the taps of row `dy`, from tap `dx` to
/// tap `radius`, of the kernel for `mode` centered at `(x, y)` of the
/// row-major raster `s` (width `w`).
pub open spec fn row_sum(
    s: Seq<Pixel>,
    w: int,
    mode: Mode,
    radius: int,
    x: int,
    y: int,
    dy: int,
    dx: int,
    c: int,
) -> int
    decreases radius + 1 - dx,
{
    if dx > radius {
        0
    } else {
        kernel_weight(mode, radius, dx + radius, dy + radius) * channel(
            pix(s, w, x + dx, y + dy),
            c,
        ) + row_sum(s, w, mode, radius, x, y, dy, dx + 1, c)
    }
}

/// Weighted sum of channel `c` over the kernel rows from `dy` to `radius`.
pub open spec fn grid_sum(
    s: Seq<Pixel>,
    w: int,
    mode: Mode,
    radius: int,
    x: int,
    y: int,
    dy: int,
    c: int,
) -> int
    decreases radius + 1 - dy,
{
    if dy > radius {
        0
    } else {
        row_sum(s, w, mode, radius, x, y, dy, -radius, c) + grid_sum(
            s,
            w,
            mode,
            radius,
            x,
            y,
            dy + 1,
            c,
        )
    }
}

/// The accumulated per-channel sum across all `(2 * radius + 1)^2` taps of
/// the kernel for `mode` centered at `(x, y)`.
pub open spec fn acc_sum(
    s: Seq<Pixel>,
    w: int,
    mode: Mode,
    radius: int,
    x: int,
    y: int,
    c: int,
) -> int {
    grid_sum(s, w, mode, radius, x, y, -radius, c)
}

/// The unclamped result for channel `c` of an interior pixel: for sharpen,
/// the source channel plus the accumulated sum; for blur, the accumulated
/// sum divided by the kernel's divisor.
pub open spec fn raw_channel(
    s: Seq<Pixel>,
    w: int,
    mode: Mode,
    radius: int,
    x: int,
    y: int,
    c: int,
) -> int {
    match mode {
        Mode::Sharpen => channel(pix(s, w, x, y), c) + acc_sum(s, w, mode, radius, x, y, c),
        Mode::Blur => acc_sum(s, w, mode, radius, x, y, c) / divisor(mode, radius),
    }
}

/// Clamp a channel value into the 8-bit range `[0, 255]`.
pub open spec fn clamp8(v: int) -> int {
    if v < 0 {
        0
    } else if v > 255 {
        255
    } else {
        v
    }
}

/// The output pixel at `(x, y)`: a direct copy on the border, and the
/// clamped per-channel convolution result in the interior.
pub open spec fn convolved_pixel(
    s: Seq<Pixel>,
    w: int,
    h: int,
    mode: Mode,
    radius: int,
    x: int,
    y: int,
) -> Pixel {
    if is_border(w, h, radius, x, y) {
        pix(s, w, x, y)
    } else {
        Pixel {
            r: clamp8(raw_channel(s, w, mode, radius, x, y, 0)) as u8,
            g: clamp8(raw_channel(s, w, mode, radius, x, y, 1)) as u8,
            b: clamp8(raw_channel(s, w, mode, radius, x, y, 2)) as u8,
        }
    }
}

/// The whole convolved raster, as a row-major pixel sequence.
pub open spec fn convolve_spec(
    s: Seq<Pixel>,
    w: int,
    h: int,
    mode: Mode,
    radius: int,
) -> Seq<Pixel> {
    Seq::new((w * h) as nat, |i: int| convolved_pixel(s, w, h, mode, radius, i % w, i / w))
}

/// Clamp an accumulated channel value into the 8-bit range.
fn clamp_channel(v: i32) -> (r: u8)
    ensures
        r as int == clamp8(v as int),
{
    if v < 0 {
        0
    } else if v > 255 {
        255
    } else {
        v as u8
    }
}

/// Accumulated weighted sums for all three channels of the interior pixel at
/// `(x, y)`: red, green and blue, in that order. Each tap contributes at
/// least `-2 * 255` and at most `36 * 255`, and there are at most 25 taps,
/// so the sums stay well inside `i32`.
fn accumulate(input: &Raster, mode: Mode, radius: usize, x: usize, y: usize) -> (sums: (
    i32,
    i32,
    i32,
))
    requires
        input.wf(),
        radius == 1 || radius == 2,
        radius <= x,
        x + radius < input.spec_width(),
        radius <= y,
        y + radius < input.spec_height(),
    ensures
        sums.0 == acc_sum(input@, input.spec_width(), mode, radius as int, x as int, y as int, 0),
        sums.1 == acc_sum(input@, input.spec_width(), mode, radius as int, x as int, y as int, 1),
        sums.2 == acc_sum(input@, input.spec_width(), mode, radius as int, x as int, y as int, 2),
        -12750 <= sums.0 <= 229500,
        -12750 <= sums.1 <= 229500,
        -12750 <= sums.2 <= 229500,
        mode == Mode::Blur ==> 0 <= sums.0 && 0 <= sums.1 && 0 <= sums.2,
{
    let ghost s = input@;
    let ghost w = input.spec_width();
    let ghost r = radius as int;
    proof {
        input.size_bound();
    }
    let side: usize = 2 * radius + 1;
    let mut ar: i32 = 0;
    let mut ag: i32 = 0;
    let mut ab: i32 = 0;
    let mut dj: usize = 0;
    while dj < side
        invariant
            input.wf(),
            radius == 1 || radius == 2,
            side == 2 * radius + 1,
            radius <= x,
            x + radius < input.spec_width(),
            radius <= y,
            y + radius < input.spec_height(),
            input.spec_width() <= usize::MAX,
            input.spec_height() <= usize::MAX,
            s == input@,
            w == input.spec_width(),
            r == radius as int,
            dj <= side,
            ar == grid_sum(s, w, mode, r, x as int, y as int, -r, 0) - grid_sum(
                s, w, mode, r, x as int, y as int, dj - r, 0),
            ag == grid_sum(s, w, mode, r, x as int, y as int, -r, 1) - grid_sum(
                s, w, mode, r, x as int, y as int, dj - r, 1),
            ab == grid_sum(s, w, mode, r, x as int, y as int, -r, 2) - grid_sum(
                s, w, mode, r, x as int, y as int, dj - r, 2),
            -510 * (dj * side) <= ar <= 9180 * (dj * side),
            -510 * (dj * side) <= ag <= 9180 * (dj * side),
            -510 * (dj * side) <= ab <= 9180 * (dj * side),
            mode == Mode::Blur ==> 0 <= ar && 0 <= ag && 0 <= ab,
        decreases side - dj,
    {
        let mut di: usize = 0;
        let mut rr: i32 = 0;
        let mut rg: i32 = 0;
        let mut rb: i32 = 0;
        while di < side
            invariant
                input.wf(),
                radius == 1 || radius == 2,
                side == 2 * radius + 1,
                radius <= x,
                x + radius < input.spec_width(),
                radius <= y,
                y + radius < input.spec_height(),
                input.spec_width() <= usize::MAX,
                input.spec_height() <= usize::MAX,
                s == input@,
                w == input.spec_width(),
                r == radius as int,
                dj < side,
                di <= side,
                rr == row_sum(s, w, mode, r, x as int, y as int, dj - r, -r, 0) - row_sum(
                    s, w, mode, r, x as int, y as int, dj - r, di - r, 0),
                rg == row_sum(s, w, mode, r, x as int, y as int, dj - r, -r, 1) - row_sum(
                    s, w, mode, r, x as int, y as int, dj - r, di - r, 1),
                rb == row_sum(s, w, mode, r, x as int, y as int, dj - r, -r, 2) - row_sum(
                    s, w, mode, r, x as int, y as int, dj - r, di - r, 2),
                -510 * di <= rr <= 9180 * di,
                -510 * di <= rg <= 9180 * di,
                -510 * di <= rb <= 9180 * di,
                mode == Mode::Blur ==> 0 <= rr && 0 <= rg && 0 <= rb,
            decreases side - di,
        {
            let wgt = kernel_weight_at(mode, radius, di, dj);
            let p = input.get(x - radius + di, y - radius + dj);
            proof {
                assert(-510 <= wgt * (p.r as i32) <= 9180) by (nonlinear_arith)
                    requires -2 <= wgt <= 36, 0 <= p.r <= 255;
                assert(-510 <= wgt * (p.g as i32) <= 9180) by (nonlinear_arith)
                    requires -2 <= wgt <= 36, 0 <= p.g <= 255;
                assert(-510 <= wgt * (p.b as i32) <= 9180) by (nonlinear_arith)
                    requires -2 <= wgt <= 36, 0 <= p.b <= 255;
                if mode == Mode::Blur {
                    assert(0 <= wgt * (p.r as i32)) by (nonlinear_arith)
                        requires 1 <= wgt, 0 <= p.r;
                    assert(0 <= wgt * (p.g as i32)) by (nonlinear_arith)
                        requires 1 <= wgt, 0 <= p.g;
                    assert(0 <= wgt * (p.b as i32)) by (nonlinear_arith)
                        requires 1 <= wgt, 0 <= p.b;
                }
            }
            let tr: i32 = wgt * (p.r as i32);
            let tg: i32 = wgt * (p.g as i32);
            let tb: i32 = wgt * (p.b as i32);
            proof {
                // One unfolding of row_sum at tap di - r ties the exec step
                // to the spec suffix sum.
                assert(row_sum(s, w, mode, r, x as int, y as int, dj - r, di - r, 0)
                    == kernel_weight(mode, r, di as int, dj as int) * channel(
                        pix(s, w, x - r + di, y - r + dj), 0)
                    + row_sum(s, w, mode, r, x as int, y as int, dj - r, di - r + 1, 0));
                assert(row_sum(s, w, mode, r, x as int, y as int, dj - r, di - r, 1)
                    == kernel_weight(mode, r, di as int, dj as int) * channel(
                        pix(s, w, x - r + di, y - r + dj), 1)
                    + row_sum(s, w, mode, r, x as int, y as int, dj - r, di - r + 1, 1));
                assert(row_sum(s, w, mode, r, x as int, y as int, dj - r, di - r, 2)
                    == kernel_weight(mode, r, di as int, dj as int) * channel(
                        pix(s, w, x - r + di, y - r + dj), 2)
                    + row_sum(s, w, mode, r, x as int, y as int, dj - r, di - r + 1, 2));
                // Numeric range of the running row sums, for overflow and
                // for the next iteration's bound.
                assert(-510 * (di as int) >= -2040 && 9180 * (di as int) <= 36720)
                    by (nonlinear_arith)
                    requires 0 <= di as int <= 4;
                assert(-510 * (di + 1) <= rr + tr <= 9180 * (di + 1)) by (nonlinear_arith)
                    requires
                        -510 * (di as int) <= rr <= 9180 * (di as int),
                        -510 <= tr <= 9180,
                        0 <= di as int;
                assert(-510 * (di + 1) <= rg + tg <= 9180 * (di + 1)) by (nonlinear_arith)
                    requires
                        -510 * (di as int) <= rg <= 9180 * (di as int),
                        -510 <= tg <= 9180,
                        0 <= di as int;
                assert(-510 * (di + 1) <= rb + tb <= 9180 * (di + 1)) by (nonlinear_arith)
                    requires
                        -510 * (di as int) <= rb <= 9180 * (di as int),
                        -510 <= tb <= 9180,
                        0 <= di as int;
            }
            rr = rr + tr;
            rg = rg + tg;
            rb = rb + tb;
            di = di + 1;
        }
        proof {
            // One unfolding of grid_sum at row dj - r, and the empty suffix
            // past the last tap of the row.
            assert(grid_sum(s, w, mode, r, x as int, y as int, dj - r, 0)
                == row_sum(s, w, mode, r, x as int, y as int, dj - r, -r, 0) + grid_sum(
                    s, w, mode, r, x as int, y as int, dj - r + 1, 0));
            assert(grid_sum(s, w, mode, r, x as int, y as int, dj - r, 1)
                == row_sum(s, w, mode, r, x as int, y as int, dj - r, -r, 1) + grid_sum(
                    s, w, mode, r, x as int, y as int, dj - r + 1, 1));
            assert(grid_sum(s, w, mode, r, x as int, y as int, dj - r, 2)
                == row_sum(s, w, mode, r, x as int, y as int, dj - r, -r, 2) + grid_sum(
                    s, w, mode, r, x as int, y as int, dj - r + 1, 2));
            assert(row_sum(s, w, mode, r, x as int, y as int, dj - r, side - r, 0) == 0);
            assert(row_sum(s, w, mode, r, x as int, y as int, dj - r, side - r, 1) == 0);
            assert(row_sum(s, w, mode, r, x as int, y as int, dj - r, side - r, 2) == 0);
            // Numeric range of the running grid sums.
            assert(-510 * (dj * side) >= -10200 && 9180 * (dj * side) <= 183600)
                by (nonlinear_arith)
                requires 0 <= dj as int <= 4, 0 <= side as int <= 5;
            assert(-510 * ((dj + 1) * side) <= ar + rr <= 9180 * ((dj + 1) * side))
                by (nonlinear_arith)
                requires
                    -510 * (dj * side) <= ar <= 9180 * (dj * side),
                    -510 * (side as int) <= rr <= 9180 * (side as int),
                    0 <= dj as int,
                    0 <= side as int;
            assert(-510 * ((dj + 1) * side) <= ag + rg <= 9180 * ((dj + 1) * side))
                by (nonlinear_arith)
                requires
                    -510 * (dj * side) <= ag <= 9180 * (dj * side),
                    -510 * (side as int) <= rg <= 9180 * (side as int),
                    0 <= dj as int,
                    0 <= side as int;
            assert(-510 * ((dj + 1) * side) <= ab + rb <= 9180 * ((dj + 1) * side))
                by (nonlinear_arith)
                requires
                    -510 * (dj * side) <= ab <= 9180 * (dj * side),
                    -510 * (side as int) <= rb <= 9180 * (side as int),
                    0 <= dj as int,
                    0 <= side as int;
        }
        ar = ar + rr;
        ag = ag + rg;
        ab = ab + rb;
        dj = dj + 1;
    }
    proof {
        assert(grid_sum(s, w, mode, r, x as int, y as int, side - r, 0) == 0);
        assert(grid_sum(s, w, mode, r, x as int, y as int, side - r, 1) == 0);
        assert(grid_sum(s, w, mode, r, x as int, y as int, side - r, 2) == 0);
        assert(-510 * (side * side) >= -12750 && 9180 * (side * side) <= 229500)
            by (nonlinear_arith)
            requires 0 <= side as int <= 5;
    }
    (ar, ag, ab)
}

/// The convolved value of the interior pixel at `(x, y)`: accumulate the
/// weighted sums, combine them by mode, and clamp each channel.
fn convolve_pixel(input: &Raster, mode: Mode, radius: usize, x: usize, y: usize) -> (p: Pixel)
    requires
        input.wf(),
        radius == 1 || radius == 2,
        radius <= x,
        x + radius < input.spec_width(),
        radius <= y,
        y + radius < input.spec_height(),
    ensures
        p == convolved_pixel(
            input@,
            input.spec_width(),
            input.spec_height(),
            mode,
            radius as int,
            x as int,
            y as int,
        ),
{
    let (ar, ag, ab) = accumulate(input, mode, radius, x, y);
    let center = input.get(x, y);
    let vr: i32;
    let vg: i32;
    let vb: i32;
    match mode {
        Mode::Sharpen => {
            vr = center.r as i32 + ar;
            vg = center.g as i32 + ag;
            vb = center.b as i32 + ab;
        },
        Mode::Blur => {
            // The blur sums are nonnegative, so truncating and Euclidean
            // division agree, and unsigned division computes both.
            let d = divisor_of(mode, radius);
            vr = ((ar as u32) / (d as u32)) as i32;
            vg = ((ag as u32) / (d as u32)) as i32;
            vb = ((ab as u32) / (d as u32)) as i32;
        },
    }
    let p = Pixel { r: clamp_channel(vr), g: clamp_channel(vg), b: clamp_channel(vb) };
    proof {
        let s = input@;
        let w = input.spec_width();
        let h = input.spec_height();
        let r = radius as int;
        assert(!is_border(w, h, r, x as int, y as int));
        assert(vr as int == raw_channel(s, w, mode, r, x as int, y as int, 0));
        assert(vg as int == raw_channel(s, w, mode, r, x as int, y as int, 1));
        assert(vb as int == raw_channel(s, w, mode, r, x as int, y as int, 2));
    }
    p
}

/// Convolve `input` with the kernel for `mode` at `radius`: the output has
/// the same dimensions, every border pixel is a direct copy, and every
/// interior pixel is the clamped per-channel convolution result.
pub fn convolve(input: &Raster, radius: usize, mode: Mode) -> (out: Raster)
    requires
        input.wf(),
        radius == 1 || radius == 2,
    ensures
        out.wf(),
        out.spec_width() == input.spec_width(),
        out.spec_height() == input.spec_height(),
        out@ == convolve_spec(
            input@,
            input.spec_width(),
            input.spec_height(),
            mode,
            radius as int,
        ),
        forall|x: int, y: int|
            0 <= x < input.spec_width() && 0 <= y < input.spec_height() ==> out@[y
                * input.spec_width() + x] == convolved_pixel(
                input@,
                input.spec_width(),
                input.spec_height(),
                mode,
                radius as int,
                x,
                y,
            ),
{
    let ghost s = input@;
    let ghost gw = input.spec_width();
    let ghost gh = input.spec_height();
    let ghost r = radius as int;
    proof {
        input.size_bound();
    }
    let w = input.width();
    let h = input.height();
    let mut pixels: Vec<Pixel> = Vec::new();
    let mut y: usize = 0;
    while y < h
        invariant
            input.wf(),
            radius == 1 || radius == 2,
            s == input@,
            gw == input.spec_width(),
            gh == input.spec_height(),
            r == radius as int,
            w == gw,
            h == gh,
            gw * gh <= usize::MAX,
            y <= h,
            pixels@.len() == y * w,
            forall|j: int|
                0 <= j < pixels@.len() ==> pixels@[j] == convolved_pixel(
                    s,
                    gw,
                    gh,
                    mode,
                    r,
                    j % gw,
                    j / gw,
                ),
        decreases h - y,
    {
        let mut x: usize = 0;
        proof {
            assert(y * w + w == (y + 1) * w) by (nonlinear_arith);
            assert((y + 1) * w <= gw * gh) by (nonlinear_arith)
                requires y + 1 <= gh, w == gw, 0 <= gw;
        }
        while x < w
            invariant
                input.wf(),
                radius == 1 || radius == 2,
                s == input@,
                gw == input.spec_width(),
                gh == input.spec_height(),
                r == radius as int,
                w == gw,
                h == gh,
                gw * gh <= usize::MAX,
                y < h,
                x <= w,
                y * w + w <= gw * gh,
                pixels@.len() == y * w + x,
                forall|j: int|
                    0 <= j < pixels@.len() ==> pixels@[j] == convolved_pixel(
                        s,
                        gw,
                        gh,
                        mode,
                        r,
                        j % gw,
                        j / gw,
                    ),
            decreases w - x,
        {
            let p = if x < radius || w - x <= radius || y < radius || h - y <= radius {
                input.get(x, y)
            } else {
                convolve_pixel(input, mode, radius, x, y)
            };
            proof {
                vstd::arithmetic::div_mod::lemma_fundamental_div_mod_converse(
                    y * w + x,
                    gw,
                    y as int,
                    x as int,
                );
                assert(p == convolved_pixel(s, gw, gh, mode, r, x as int, y as int));
            }
            pixels.push(p);
            x = x + 1;
        }
        y = y + 1;
    }
    proof {
        assert(pixels@.len() == gw * gh) by (nonlinear_arith)
            requires pixels@.len() == gh * gw;
    }
    let out = Raster::from_pixels(w, h, pixels);
    proof {
        assert(out@ =~= convolve_spec(s, gw, gh, mode, r));
        assert forall|x: int, y: int|
            0 <= x < gw && 0 <= y < gh implies out@[y * gw + x] == convolved_pixel(
            s,
            gw,
            gh,
            mode,
            r,
            x,
            y,
        ) by {
            assert(0 <= y * gw + x < gw * gh) by (nonlinear_arith)
                requires 0 <= x < gw, 0 <= y < gh;
            vstd::arithmetic::div_mod::lemma_fundamental_div_mod_converse(y * gw + x, gw, y, x);
        }
    }
    out
}

} // verus!

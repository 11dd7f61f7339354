//! Proved facts about the convolution engine: border copying, channel
//! independence, clamping at the range ends, blur normalization on uniform
//! rasters, and determinism.

use vstd::prelude::*;

use crate::engine::convolve_spec;
use crate::engine::convolved_pixel;
use crate::engine::grid_sum;
use crate::engine::is_border;
use crate::engine::raw_channel;
use crate::engine::row_sum;
use crate::kernel::Mode;
use crate::kernel::divisor;
use crate::kernel::kernel_weight;
use crate::raster::Pixel;
use crate::raster::channel;
use crate::raster::pix;

verus! {

/// Every border pixel of the output is a direct copy of the corresponding
/// input pixel, for any mode and either radius.
pub proof fn lemma_border_copy(
    s: Seq<Pixel>,
    w: int,
    h: int,
    mode: Mode,
    radius: int,
    x: int,
    y: int,
)
    requires
        0 <= x < w,
        0 <= y < h,
        is_border(w, h, radius, x, y),
    ensures
        convolved_pixel(s, w, h, mode, radius, x, y) == pix(s, w, x, y),
{
}

/// An interior channel whose unclamped result exceeds 255 comes out as
/// exactly 255, and one below 0 comes out as exactly 0.
pub proof fn lemma_clamp_boundary(
    s: Seq<Pixel>,
    w: int,
    h: int,
    mode: Mode,
    radius: int,
    x: int,
    y: int,
    c: int,
)
    requires
        !is_border(w, h, radius, x, y),
        0 <= c < 3,
    ensures
        raw_channel(s, w, mode, radius, x, y, c) > 255 ==> channel(
            convolved_pixel(s, w, h, mode, radius, x, y),
            c,
        ) == 255,
        raw_channel(s, w, mode, radius, x, y, c) < 0 ==> channel(
            convolved_pixel(s, w, h, mode, radius, x, y),
            c,
        ) == 0,
{
}

/// Two runs on the same input are pinned to the same output sequence:
/// convolution is deterministic.
pub proof fn lemma_deterministic(
    out1: Seq<Pixel>,
    out2: Seq<Pixel>,
    s: Seq<Pixel>,
    w: int,
    h: int,
    mode: Mode,
    radius: int,
)
    requires
        out1 == convolve_spec(s, w, h, mode, radius),
        out2 == convolve_spec(s, w, h, mode, radius),
    ensures
        out1 == out2,
{
}

/// Row sums read only the chosen channel: if channel `c` of `s` agrees
/// everywhere with channel `d` of `t`, the row sums agree too.
proof fn lemma_row_sum_channel(
    s: Seq<Pixel>,
    t: Seq<Pixel>,
    w: int,
    h: int,
    mode: Mode,
    radius: int,
    x: int,
    y: int,
    dy: int,
    dx: int,
    c: int,
    d: int,
)
    requires
        s.len() == w * h,
        t.len() == w * h,
        forall|i: int| 0 <= i < s.len() ==> channel(s[i], c) == channel(t[i], d),
        radius <= x,
        x + radius < w,
        0 <= y + dy < h,
        -radius <= dx,
    ensures
        row_sum(s, w, mode, radius, x, y, dy, dx, c) == row_sum(t, w, mode, radius, x, y, dy, dx, d),
    decreases radius + 1 - dx,
{
    if dx > radius {
    } else {
        let i = (y + dy) * w + (x + dx);
        assert(0 <= (y + dy) * w + (x + dx) < w * h) by (nonlinear_arith)
            requires 0 <= y + dy < h, 0 <= x + dx < w;
        assert(channel(s[i], c) == channel(t[i], d));
        lemma_row_sum_channel(s, t, w, h, mode, radius, x, y, dy, dx + 1, c, d);
    }
}

/// Grid sums read only the chosen channel.
proof fn lemma_grid_sum_channel(
    s: Seq<Pixel>,
    t: Seq<Pixel>,
    w: int,
    h: int,
    mode: Mode,
    radius: int,
    x: int,
    y: int,
    dy: int,
    c: int,
    d: int,
)
    requires
        s.len() == w * h,
        t.len() == w * h,
        forall|i: int| 0 <= i < s.len() ==> channel(s[i], c) == channel(t[i], d),
        radius <= x,
        x + radius < w,
        radius <= y,
        y + radius < h,
        -radius <= dy,
    ensures
        grid_sum(s, w, mode, radius, x, y, dy, c) == grid_sum(t, w, mode, radius, x, y, dy, d),
    decreases radius + 1 - dy,
{
    if dy > radius {
    } else {
        lemma_row_sum_channel(s, t, w, h, mode, radius, x, y, dy, -radius, c, d);
        lemma_grid_sum_channel(s, t, w, h, mode, radius, x, y, dy + 1, c, d);
    }
}

/// Channels are processed independently and identically: if channel `c` of
/// raster `s` agrees everywhere with channel `d` of raster `t`, then channel
/// `c` of the output for `s` agrees everywhere with channel `d` of the
/// output for `t`. In particular, permuting the three input planes permutes
/// the output planes the same way.
pub proof fn lemma_channel_independence(
    s: Seq<Pixel>,
    t: Seq<Pixel>,
    w: int,
    h: int,
    mode: Mode,
    radius: int,
    x: int,
    y: int,
    c: int,
    d: int,
)
    requires
        s.len() == w * h,
        t.len() == w * h,
        forall|i: int| 0 <= i < s.len() ==> channel(s[i], c) == channel(t[i], d),
        0 <= x < w,
        0 <= y < h,
        0 <= c < 3,
        0 <= d < 3,
    ensures
        channel(convolved_pixel(s, w, h, mode, radius, x, y), c) == channel(
            convolved_pixel(t, w, h, mode, radius, x, y),
            d,
        ),
{
    let i = y * w + x;
    assert(0 <= y * w + x < w * h) by (nonlinear_arith)
        requires 0 <= x < w, 0 <= y < h;
    if is_border(w, h, radius, x, y) {
        assert(channel(s[i], c) == channel(t[i], d));
    } else {
        lemma_grid_sum_channel(s, t, w, h, mode, radius, x, y, -radius, c, d);
        assert(channel(s[i], c) == channel(t[i], d));
        assert(raw_channel(s, w, mode, radius, x, y, c) == raw_channel(t, w, mode, radius, x, y, d));
    }
}

/// Sum of the kernel weights of row `dy`, from tap `dx` to tap `radius`.
pub open spec fn weight_row_sum(mode: Mode, radius: int, dy: int, dx: int) -> int
    decreases radius + 1 - dx,
{
    if dx > radius {
        0
    } else {
        kernel_weight(mode, radius, dx + radius, dy + radius) + weight_row_sum(
            mode,
            radius,
            dy,
            dx + 1,
        )
    }
}

/// Sum of the kernel weights of the rows from `dy` to `radius`.
pub open spec fn weight_grid_sum(mode: Mode, radius: int, dy: int) -> int
    decreases radius + 1 - dy,
{
    if dy > radius {
        0
    } else {
        weight_row_sum(mode, radius, dy, -radius) + weight_grid_sum(mode, radius, dy + 1)
    }
}

/// On a uniform raster a row sum is the channel value times the row's
/// weight sum.
proof fn lemma_row_sum_uniform(
    s: Seq<Pixel>,
    w: int,
    h: int,
    mode: Mode,
    radius: int,
    x: int,
    y: int,
    dy: int,
    dx: int,
    c: int,
    p: Pixel,
)
    requires
        s.len() == w * h,
        forall|i: int| 0 <= i < s.len() ==> s[i] == p,
        radius <= x,
        x + radius < w,
        0 <= y + dy < h,
        -radius <= dx,
    ensures
        row_sum(s, w, mode, radius, x, y, dy, dx, c) == channel(p, c) * weight_row_sum(
            mode,
            radius,
            dy,
            dx,
        ),
    decreases radius + 1 - dx,
{
    let v = channel(p, c);
    if dx > radius {
        assert(v * 0 == 0) by (nonlinear_arith);
    } else {
        let i = (y + dy) * w + (x + dx);
        assert(0 <= (y + dy) * w + (x + dx) < w * h) by (nonlinear_arith)
            requires 0 <= y + dy < h, 0 <= x + dx < w;
        assert(s[i] == p);
        lemma_row_sum_uniform(s, w, h, mode, radius, x, y, dy, dx + 1, c, p);
        let wgt = kernel_weight(mode, radius, dx + radius, dy + radius);
        let rest = weight_row_sum(mode, radius, dy, dx + 1);
        assert(wgt * v + v * rest == v * (wgt + rest)) by (nonlinear_arith);
    }
}

/// On a uniform raster a grid sum is the channel value times the grid's
/// weight sum.
proof fn lemma_grid_sum_uniform(
    s: Seq<Pixel>,
    w: int,
    h: int,
    mode: Mode,
    radius: int,
    x: int,
    y: int,
    dy: int,
    c: int,
    p: Pixel,
)
    requires
        s.len() == w * h,
        forall|i: int| 0 <= i < s.len() ==> s[i] == p,
        radius <= x,
        x + radius < w,
        radius <= y,
        y + radius < h,
        -radius <= dy,
    ensures
        grid_sum(s, w, mode, radius, x, y, dy, c) == channel(p, c) * weight_grid_sum(
            mode,
            radius,
            dy,
        ),
    decreases radius + 1 - dy,
{
    let v = channel(p, c);
    if dy > radius {
        assert(v * 0 == 0) by (nonlinear_arith);
    } else {
        lemma_row_sum_uniform(s, w, h, mode, radius, x, y, dy, -radius, c, p);
        lemma_grid_sum_uniform(s, w, h, mode, radius, x, y, dy + 1, c, p);
        let row = weight_row_sum(mode, radius, dy, -radius);
        let rest = weight_grid_sum(mode, radius, dy + 1);
        assert(v * row + v * rest == v * (row + rest)) by (nonlinear_arith);
    }
}

/// The blur kernel weights sum exactly to the kernel's divisor, at either
/// radius.
pub proof fn lemma_blur_weight_total(radius: int)
    requires
        radius == 1 || radius == 2,
    ensures
        weight_grid_sum(Mode::Blur, radius, -radius) == divisor(Mode::Blur, radius),
{
    assert(weight_grid_sum(Mode::Blur, 1, -1) == 16) by {
        reveal_with_fuel(weight_grid_sum, 5);
        reveal_with_fuel(weight_row_sum, 5);
    }
    assert(weight_grid_sum(Mode::Blur, 2, -2) == 256) by {
        reveal_with_fuel(weight_grid_sum, 7);
        reveal_with_fuel(weight_row_sum, 7);
    }
}

/// Blur normalization: on a uniform raster every interior output pixel of a
/// blur pass equals the input pixel, at either radius, because the kernel
/// weights sum exactly to the divisor.
pub proof fn lemma_blur_uniform(
    s: Seq<Pixel>,
    w: int,
    h: int,
    radius: int,
    x: int,
    y: int,
    p: Pixel,
)
    requires
        s.len() == w * h,
        forall|i: int| 0 <= i < s.len() ==> s[i] == p,
        radius == 1 || radius == 2,
        !is_border(w, h, radius, x, y),
        0 <= x < w,
        0 <= y < h,
    ensures
        convolved_pixel(s, w, h, Mode::Blur, radius, x, y) == p,
{
    let d = divisor(Mode::Blur, radius);
    lemma_blur_weight_total(radius);
    assert forall|c: int| 0 <= c < 3 implies raw_channel(s, w, Mode::Blur, radius, x, y, c)
        == channel(p, c) by {
        lemma_grid_sum_uniform(s, w, h, Mode::Blur, radius, x, y, -radius, c, p);
        vstd::arithmetic::div_mod::lemma_div_by_multiple(channel(p, c), d);
    }
    assert(raw_channel(s, w, Mode::Blur, radius, x, y, 0) == channel(p, 0));
    assert(raw_channel(s, w, Mode::Blur, radius, x, y, 1) == channel(p, 1));
    assert(raw_channel(s, w, Mode::Blur, radius, x, y, 2) == channel(p, 2));
}

} // verus!

//! The kernel catalog: four fixed integer convolution kernels.
//!
//! Each kernel is a square matrix of side `2 * radius + 1` (radius 1 or 2),
//! together with a normalization divisor: 1 for the sharpen kernels, 16 for
//! the 3x3 blur kernel and 256 for the 5x5 blur kernel. The kernels are
//!
//! - sharpen, radius 1: `[[0,-1,0],[-1,4,-1],[0,-1,0]]`
//! - sharpen, radius 2: `[[0,0,-1,0,0],[0,-1,-2,-1,0],[-1,-2,16,-2,-1],[0,-1,-2,-1,0],[0,0,-1,0,0]]`
//! - blur, radius 1: `[[1,2,1],[2,4,2],[1,2,1]]`
//! - blur, radius 2: `[[1,4,6,4,1],[4,16,24,16,4],[6,24,36,24,6],[4,16,24,16,4],[1,4,6,4,1]]`
//!
//! All four are symmetric around the center, so each weight is determined by
//! the distances of its row and column index from the center index `radius`;
//! the spec functions below state them that way, and a proof in the engine
//! module recomputes the blur weight sums against the divisors.

use vstd::prelude::*;

verus! {

/// How the convolution result combines with the source pixel.
#[derive(Clone, Copy, PartialEq, Eq, Structural, Debug)]
pub enum Mode {
    Sharpen,
    Blur,
}

/// Distance of index `a` from the center index `r`.
pub open spec fn center_dist(a: int, r: int) -> int {
    if a >= r {
        a - r
    } else {
        r - a
    }
}

/// Axis weight of the radius-1 blur kernel: the binomial row (1, 2, 1) by
/// distance from the center.
pub open spec fn blur3_axis(d: int) -> int {
    if d == 0 {
        2
    } else {
        1
    }
}

/// Axis weight of the radius-2 blur kernel: the binomial row (1, 4, 6, 4, 1)
/// by distance from the center.
pub open spec fn blur5_axis(d: int) -> int {
    if d == 0 {
        6
    } else if d == 1 {
        4
    } else {
        1
    }
}

/// Weight of the kernel for `mode` at `radius` in row `i`, column `j`,
/// with `i, j` in `[0, 2 * radius]`. The blur kernels are outer products of
/// their binomial axis rows; the sharpen kernels depend on the taxicab
/// distance of `(i, j)` from the center `(radius, radius)`.
pub open spec fn kernel_weight(mode: Mode, radius: int, i: int, j: int) -> int {
    let d = center_dist(i, radius) + center_dist(j, radius);
    match mode {
        Mode::Sharpen => {
            if radius == 1 {
                if d == 0 {
                    4
                } else if d == 1 {
                    -1
                } else {
                    0
                }
            } else {
                if d == 0 {
                    16
                } else if d == 1 {
                    -2
                } else if d == 2 {
                    -1
                } else {
                    0
                }
            }
        },
        Mode::Blur => {
            if radius == 1 {
                blur3_axis(center_dist(i, 1)) * blur3_axis(center_dist(j, 1))
            } else {
                blur5_axis(center_dist(i, 2)) * blur5_axis(center_dist(j, 2))
            }
        },
    }
}

/// Normalization divisor of the kernel for `mode` at `radius`.
pub open spec fn divisor(mode: Mode, radius: int) -> int {
    match mode {
        Mode::Sharpen => 1,
        Mode::Blur => if radius == 1 {
            16
        } else {
            256
        },
    }
}

/// Weight of the kernel for `mode` at `radius` in row `i`, column `j`.
/// Every weight lies in `[-2, 36]`, and the blur weights are positive.
pub fn kernel_weight_at(mode: Mode, radius: usize, i: usize, j: usize) -> (w: i32)
    requires
        radius == 1 || radius == 2,
        i <= 2 * radius,
        j <= 2 * radius,
    ensures
        w as int == kernel_weight(mode, radius as int, i as int, j as int),
        -2 <= w <= 36,
        mode == Mode::Blur ==> 1 <= w,
{
    let di = if i >= radius { i - radius } else { radius - i };
    let dj = if j >= radius { j - radius } else { radius - j };
    match mode {
        Mode::Sharpen => {
            let d = di + dj;
            if radius == 1 {
                if d == 0 {
                    4
                } else if d == 1 {
                    -1
                } else {
                    0
                }
            } else {
                if d == 0 {
                    16
                } else if d == 1 {
                    -2
                } else if d == 2 {
                    -1
                } else {
                    0
                }
            }
        },
        Mode::Blur => {
            if radius == 1 {
                let ai: i32 = if di == 0 { 2 } else { 1 };
                let aj: i32 = if dj == 0 { 2 } else { 1 };
                ai * aj
            } else {
                let ai: i32 = if di == 0 { 6 } else if di == 1 { 4 } else { 1 };
                let aj: i32 = if dj == 0 { 6 } else if dj == 1 { 4 } else { 1 };
                ai * aj
            }
        },
    }
}

/// Normalization divisor of the kernel for `mode` at `radius`.
pub fn divisor_of(mode: Mode, radius: usize) -> (d: i32)
    requires
        radius == 1 || radius == 2,
    ensures
        d as int == divisor(mode, radius as int),
        1 <= d,
{
    match mode {
        Mode::Sharpen => 1,
        Mode::Blur => if radius == 1 {
            16
        } else {
            256
        },
    }
}

} // verus!

//! The four axis-aligned neighbors of a grid cell, in a fixed order,
//! dropping those that fall outside the grid.

use vstd::prelude::*;

verus! {

/// The neighbor coordinates of `(x, y)` in a `width` x `height` grid:
/// left, right, above, below, in that order, keeping only those in bounds.
pub open spec fn neighbor_seq(x: u32, y: u32, width: u32, height: u32) -> Seq<(u32, u32)> {
    (if x > 0 {
        seq![((x - 1) as u32, y)]
    } else {
        Seq::empty()
    }) + (if x < width - 1 {
        seq![((x + 1) as u32, y)]
    } else {
        Seq::empty()
    }) + (if y > 0 {
        seq![(x, (y - 1) as u32)]
    } else {
        Seq::empty()
    }) + (if y < height - 1 {
        seq![(x, (y + 1) as u32)]
    } else {
        Seq::empty()
    })
}

/// The in-bounds axis-aligned neighbors of `(x, y)`, as coordinate pairs.
pub fn get_neighbor_coordinates(x: u32, y: u32, width: u32, height: u32) -> (neighbors: Vec<
    (u32, u32),
>)
    requires
        x < width,
        y < height,
    ensures
        neighbors@ == neighbor_seq(x, y, width, height),
{
    let mut neighbors: Vec<(u32, u32)> = Vec::new();
    if x > 0 {
        neighbors.push((x - 1, y));
    }
    if x < width - 1 {
        neighbors.push((x + 1, y));
    }
    if y > 0 {
        neighbors.push((x, y - 1));
    }
    if y < height - 1 {
        neighbors.push((x, y + 1));
    }
    proof {
        assert(neighbors@ =~= neighbor_seq(x, y, width, height));
    }
    neighbors
}

} // verus!

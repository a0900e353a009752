//! Cell addressing: logical square-pixel coordinates become addresses of
//! real terminal cells.
//!
//! A terminal character slot is roughly twice as tall as it is wide, so one
//! logical "square pixel" occupies two adjacent cells of the same row. The
//! column is doubled (saturating at `u16::MAX` instead of wrapping), and the
//! doubled column together with the column just left of it (saturating at 0)
//! address the pair.

use vstd::prelude::*;

use crate::color::Rgb;

verus! {

/// One pending write of a background color into a single real terminal cell,
/// at column `x` and row `y`. Operations return sequences of these in the
/// exact order the writes are to happen; a front end replays them on a
/// terminal, where a later draw of a cell overwrites an earlier one.
#[derive(Clone, Copy, Debug, PartialEq, Eq, Structural)]
pub struct Draw {
    pub x: u16,
    pub y: u16,
    pub color: Rgb,
}

/// The doubled column of square pixel `x`: `2 * x`, saturating at `u16::MAX`.
pub open spec fn sat_double(x: u16) -> u16 {
    if 2 * x > u16::MAX { u16::MAX } else { (2 * x) as u16 }
}

/// The left cell column of square pixel `x`: one less than the doubled
/// column, saturating at 0.
pub open spec fn left_col(x: u16) -> u16 {
    if sat_double(x) == 0 { 0 } else { (sat_double(x) - 1) as u16 }
}

/// The two cell positions `(col, row)` that square pixel `(x, y)` occupies,
/// left cell first.
pub open spec fn cell_positions(x: u16, y: u16) -> Seq<(u16, u16)> {
    seq![(left_col(x), y), (sat_double(x), y)]
}

/// The positions `ps`, each turned into a draw of color `c`.
pub open spec fn colored(ps: Seq<(u16, u16)>, c: Rgb) -> Seq<Draw> {
    ps.map_values(|p: (u16, u16)| Draw { x: p.0, y: p.1, color: c })
}

/// The two draws of square pixel `(x, y)` in color `c`, left cell first.
pub open spec fn cell_draws(x: u16, y: u16, c: Rgb) -> Seq<Draw> {
    colored(cell_positions(x, y), c)
}

/// Converts a square-pixel coordinate into the addresses of the two adjacent
/// real cells that render it, left cell first. Both lie in row `y`; the
/// second column is `2 * x` and the first is one less, each saturating at
/// the bounds of `u16` rather than wrapping.
pub fn square_pixel_cells(x: u16, y: u16) -> (r: ((u16, u16), (u16, u16)))
    ensures
        r.0 == (left_col(x), y),
        r.1 == (sat_double(x), y),
        r.0.1 == r.1.1,
{
    let doubled: u16 = if x > u16::MAX / 2 { u16::MAX } else { x * 2 };
    let first: u16 = if doubled == 0 { 0 } else { doubled - 1 };
    ((first, y), (doubled, y))
}

/// Within the calibrated range (no saturation), the doubled column is exactly
/// `2 * x` and the left column is exactly `max(2 * x - 1, 0)`, both in the
/// requested row. Outside it the columns saturate at `u16::MAX`.
pub proof fn lemma_square_pixel_addressing(x: u16, y: u16)
    requires
        2 * x <= u16::MAX,
    ensures
        sat_double(x) == 2 * x,
        x > 0 ==> left_col(x) == 2 * x - 1,
        x == 0 ==> left_col(x) == 0,
        cell_positions(x, y)[0].1 == y,
        cell_positions(x, y)[1].1 == y,
{
}

/// A single real-cell draw: column `x`, row `y`, color as given. This is the
/// plain, aspect-uncorrected unit every other operation bottoms out in.
pub fn real_cell(x: u16, y: u16, color: Rgb) -> (d: Draw)
    ensures
        d == (Draw { x, y, color }),
{
    Draw { x, y, color }
}

/// The two draws that render square pixel `(x, y)` in the given color: the
/// left cell first, then the doubled column, both in row `y`.
pub fn cell(x: u16, y: u16, color: Rgb) -> (ds: Vec<Draw>)
    ensures
        ds@ == cell_draws(x, y, color),
{
    let ((x0, y0), (x1, y1)) = square_pixel_cells(x, y);
    let mut ds: Vec<Draw> = Vec::new();
    ds.push(real_cell(x0, y0, color));
    ds.push(real_cell(x1, y1, color));
    proof {
        assert(ds@ =~= cell_draws(x, y, color));
    }
    ds
}

} // verus!

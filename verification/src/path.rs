//! Point mapping and path drawing in square-pixel space.
//!
//! A continuous path is approximated by a sequence of interpolated points;
//! interpolation happens in continuous coordinate space, outside this
//! library, and each point arrives here already truncated to a square-pixel
//! coordinate. Drawing is then one square pixel per point, in input order:
//! the start point first, then every stepped point, with duplicate cells
//! expected and harmless at high step density.

use vstd::prelude::*;

use crate::cells::Draw;
use crate::cells::cell;
use crate::cells::cell_positions;
use crate::cells::colored;
use crate::color::Rgb;
use crate::fill::lemma_colored_concat;

verus! {

/// The cell positions of a drawn point sequence: the two cells of each
/// point's square pixel, in point order.
pub open spec fn path_positions(ps: Seq<(u16, u16)>) -> Seq<(u16, u16)>
    decreases ps.len(),
{
    if ps.len() == 0 {
        Seq::empty()
    } else {
        path_positions(ps.drop_last()) + cell_positions(ps.last().0, ps.last().1)
    }
}

/// A drawn point sequence occupies exactly two cells per point.
pub proof fn lemma_path_positions_len(ps: Seq<(u16, u16)>)
    ensures
        path_positions(ps).len() == 2 * ps.len(),
    decreases ps.len(),
{
    if ps.len() > 0 {
        lemma_path_positions_len(ps.drop_last());
    }
}

/// A degenerate path — a segment whose endpoints coincide leaves a single
/// point — occupies exactly the two cells of that point's square pixel.
pub proof fn lemma_degenerate_path(p: (u16, u16))
    ensures
        path_positions(seq![p]) == cell_positions(p.0, p.1),
{
    assert(seq![p].drop_last() =~= Seq::<(u16, u16)>::empty());
    assert(path_positions(Seq::<(u16, u16)>::empty()) =~= Seq::<(u16, u16)>::empty());
    assert(path_positions(seq![p]) =~= cell_positions(p.0, p.1));
}

/// Draws a path through the given points: one square pixel per point, in
/// input order, each as its two cell draws in the given color. A path of a
/// single point (a degenerate segment whose endpoints coincide) draws
/// exactly that one square pixel.
pub fn d2_path(points: &[(u16, u16)], color: Rgb) -> (ds: Vec<Draw>)
    ensures
        ds@ == colored(path_positions(points@), color),
        ds@.len() == 2 * points@.len(),
{
    let mut ds: Vec<Draw> = Vec::new();
    let mut i: usize = 0;
    while i < points.len()
        invariant
            0 <= i <= points@.len(),
            ds@ == colored(path_positions(points@.take(i as int)), color),
            ds@.len() == 2 * i,
        decreases points@.len() - i,
    {
        let p = points[i];
        let mut two = cell(p.0, p.1, color);
        proof {
            assert(points@.take(i as int + 1).drop_last() =~= points@.take(i as int));
            assert(points@.take(i as int + 1).last() == points@[i as int]);
            lemma_colored_concat(
                path_positions(points@.take(i as int)),
                cell_positions(p.0, p.1),
                color,
            );
        }
        ds.append(&mut two);
        i = i + 1;
    }
    proof {
        assert(points@.take(points@.len() as int) =~= points@);
    }
    ds
}

/// Maps a batch of 2D points to square-pixel draws in the fixed default
/// color: one square pixel per point, in input order, with no interpolation
/// between points. Points arrive already shifted by the one-cell margin
/// bias and truncated.
pub fn d2_map_cell(cords: &[(u16, u16)]) -> (ds: Vec<Draw>)
    ensures
        ds@ == colored(path_positions(cords@), Rgb { r: 100, g: 100, b: 255 }),
{
    d2_path(cords, crate::color::rgb(100, 100, 255))
}

/// Accepts a square by its bottom-left and top-right corners with a line
/// and a fill color, and produces no draws: no drawing is defined for
/// squares, so the returned list is exactly empty.
pub fn square(bl: [i32; 2], rt: [i32; 2], line_color: Rgb, fill_color: Rgb) -> (ds: Vec<Draw>)
    ensures
        ds@ == Seq::<Draw>::empty(),
{
    let _a = bl;
    let _b = rt;
    let _c = line_color;
    let _d = fill_color;
    Vec::new()
}

} // verus!

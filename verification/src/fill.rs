//! Fill operations: whole rows, columns and the visible screen, in one color
//! or in per-cell random colors.
//!
//! Every fill takes the surface dimensions as an `Option`: the terminal size
//! is queried fresh by the caller for each operation and the query can fail.
//! On `None` a fill returns `SurfaceError::Unavailable` and calls for no
//! draw at all; on `Some((width, height))` it returns the full sequence of
//! cell writes, in drawing order.

use vstd::prelude::*;

use rand::Rng;

use crate::cells::Draw;
use crate::cells::cell;
use crate::cells::cell_positions;
use crate::cells::colored;
use crate::color::Rgb;
use crate::color::rgb;

verus! {

/// Why a fill produced no draws.
#[derive(Clone, Copy, Debug, PartialEq, Eq, Structural)]
pub enum SurfaceError {
    /// The terminal dimensions could not be queried, so the extent of the
    /// fill is unknown and nothing is drawn.
    Unavailable,
}

/// The positions of a draw sequence, colors forgotten.
pub open spec fn draw_positions(s: Seq<Draw>) -> Seq<(u16, u16)> {
    s.map_values(|d: Draw| (d.x, d.y))
}

/// The cell positions of a row fill: square pixels `0..n` of row `y`, two
/// cells each, in column order.
pub open spec fn row_positions(n: int, y: u16) -> Seq<(u16, u16)>
    decreases n,
{
    if n <= 0 {
        Seq::empty()
    } else {
        row_positions(n - 1, y) + cell_positions((n - 1) as u16, y)
    }
}

/// The cell positions of a real-cell column fill: rows `0..n` at column `x`.
pub open spec fn col_positions(n: int, x: u16) -> Seq<(u16, u16)>
    decreases n,
{
    if n <= 0 {
        Seq::empty()
    } else {
        col_positions(n - 1, x) + seq![(x, (n - 1) as u16)]
    }
}

/// The cell positions of a screen fill: a full row fill for each row
/// `0..n`, top to bottom, on a surface `w` cells wide.
pub open spec fn screen_positions(w: u16, n: int) -> Seq<(u16, u16)>
    decreases n,
{
    if n <= 0 {
        Seq::empty()
    } else {
        screen_positions(w, n - 1) + row_positions(w as int / 2, (n - 1) as u16)
    }
}

/// The cell positions visited by the random row fill demo: square pixels
/// `1..n` of row `y`.
pub open spec fn demo_row_positions(n: int, y: u16) -> Seq<(u16, u16)>
    decreases n,
{
    if n <= 1 {
        Seq::empty()
    } else {
        demo_row_positions(n - 1, y) + cell_positions((n - 1) as u16, y)
    }
}

/// The cell positions visited by the random screen fill demo: rows `1..n`,
/// square pixels `1..w/2` in each.
pub open spec fn demo_screen_positions(w: u16, n: int) -> Seq<(u16, u16)>
    decreases n,
{
    if n <= 1 {
        Seq::empty()
    } else {
        demo_screen_positions(w, n - 1) + demo_row_positions(w as int / 2, (n - 1) as u16)
    }
}

/// Coloring a concatenation colors each part.
pub proof fn lemma_colored_concat(ps: Seq<(u16, u16)>, qs: Seq<(u16, u16)>, c: Rgb)
    ensures
        colored(ps + qs, c) == colored(ps, c) + colored(qs, c),
{
    assert(colored(ps + qs, c) =~= colored(ps, c) + colored(qs, c));
}

/// The positions of a concatenation are the concatenated positions.
pub proof fn lemma_draw_positions_concat(a: Seq<Draw>, b: Seq<Draw>)
    ensures
        draw_positions(a + b) == draw_positions(a) + draw_positions(b),
{
    assert(draw_positions(a + b) =~= draw_positions(a) + draw_positions(b));
}

/// Coloring fixes the positions: forgetting the colors again gives the
/// positions back.
pub proof fn lemma_positions_of_colored(ps: Seq<(u16, u16)>, c: Rgb)
    ensures
        draw_positions(colored(ps, c)) == ps,
{
    assert(draw_positions(colored(ps, c)) =~= ps);
}

/// Relies on `rand::rng` and `rand::Rng::random_range`: one uniform sample
/// from the nonempty range `0..=255`, freshly drawn on every call.
#[verifier::external_body]
fn random_channel() -> u8 {
    rand::rng().random_range(0..=255)
}

/// Fills row `y` with one color: square pixels `0..width/2` in column
/// order, two cell draws each. Each square pixel spans two real cells, so
/// only half the width is iterated. Returns `Unavailable`, and calls for no
/// draw, when the dimensions are unknown.
pub fn fill_row_cell(y: u16, color: Rgb, dims: Option<(u16, u16)>) -> (r: Result<
    Vec<Draw>,
    SurfaceError,
>)
    ensures
        dims matches Some(d) ==> r matches Ok(ds) && ds@ == colored(
            row_positions(d.0 as int / 2, y),
            color,
        ),
        dims is None ==> r == Err::<Vec<Draw>, SurfaceError>(SurfaceError::Unavailable),
{
    match dims {
        None => Err(SurfaceError::Unavailable),
        Some((w, _h)) => {
            let half: u16 = w / 2;
            let mut ds: Vec<Draw> = Vec::new();
            for x in 0..half
                invariant
                    half == w as int / 2,
                    ds@ == colored(row_positions(x as int, y), color),
            {
                let mut two = cell(x, y, color);
                proof {
                    lemma_colored_concat(row_positions(x as int, y), cell_positions(x, y), color);
                }
                ds.append(&mut two);
            }
            Ok(ds)
        },
    }
}

/// Fills the column of real cells at `x`: rows `0..height`, one cell draw
/// per row, no aspect doubling. Returns `Unavailable`, and calls for no
/// draw, when the dimensions are unknown.
pub fn fill_colum_real_cell(x: u16, color: Rgb, dims: Option<(u16, u16)>) -> (r: Result<
    Vec<Draw>,
    SurfaceError,
>)
    ensures
        dims matches Some(d) ==> r matches Ok(ds) && ds@ == colored(
            col_positions(d.1 as int, x),
            color,
        ),
        dims is None ==> r == Err::<Vec<Draw>, SurfaceError>(SurfaceError::Unavailable),
{
    match dims {
        None => Err(SurfaceError::Unavailable),
        Some((_w, h)) => {
            let mut ds: Vec<Draw> = Vec::new();
            for y in 0..h
                invariant
                    ds@ == colored(col_positions(y as int, x), color),
            {
                proof {
                    lemma_colored_concat(col_positions(y as int, x), seq![(x, y)], color);
                    assert(colored(seq![(x, y)], color) =~= seq![Draw { x, y, color }]);
                }
                ds.push(Draw { x, y, color });
                proof {
                    assert(ds@ =~= colored(col_positions(y as int, x), color) + seq![
                        Draw { x, y, color },
                    ]);
                }
            }
            Ok(ds)
        },
    }
}

/// Fills the square-pixel column at `x`: the whole real-cell column at the
/// left cell column of `x`, then the whole column at the doubled column.
/// Returns `Unavailable`, and calls for no draw, when the dimensions are
/// unknown.
pub fn fill_colum_cell(x: u16, color: Rgb, dims: Option<(u16, u16)>) -> (r: Result<
    Vec<Draw>,
    SurfaceError,
>)
    ensures
        dims matches Some(d) ==> r matches Ok(ds) && ds@ == colored(
            col_positions(d.1 as int, crate::cells::left_col(x)) + col_positions(
                d.1 as int,
                crate::cells::sat_double(x),
            ),
            color,
        ),
        dims is None ==> r == Err::<Vec<Draw>, SurfaceError>(SurfaceError::Unavailable),
{
    let ((first, _), (second, _)) = crate::cells::square_pixel_cells(x, 0);
    let left = fill_colum_real_cell(first, color, dims);
    let right = fill_colum_real_cell(second, color, dims);
    match (left, right) {
        (Ok(mut ds), Ok(mut more)) => {
            proof {
                if let Some(d) = dims {
                    lemma_colored_concat(
                        col_positions(d.1 as int, crate::cells::left_col(x)),
                        col_positions(d.1 as int, crate::cells::sat_double(x)),
                        color,
                    );
                }
            }
            ds.append(&mut more);
            Ok(ds)
        },
        _ => Err(SurfaceError::Unavailable),
    }
}

/// Fills the whole visible surface with one color: a full row fill for each
/// row `0..height`, top to bottom. Returns `Unavailable`, and calls for no
/// draw, when the dimensions are unknown.
pub fn fill_screen_cell(color: Rgb, dims: Option<(u16, u16)>) -> (r: Result<
    Vec<Draw>,
    SurfaceError,
>)
    ensures
        dims matches Some(d) ==> r matches Ok(ds) && ds@ == colored(
            screen_positions(d.0, d.1 as int),
            color,
        ),
        dims is None ==> r == Err::<Vec<Draw>, SurfaceError>(SurfaceError::Unavailable),
{
    match dims {
        None => Err(SurfaceError::Unavailable),
        Some((w, h)) => {
            let mut ds: Vec<Draw> = Vec::new();
            for y in 0..h
                invariant
                    ds@ == colored(screen_positions(w, y as int), color),
            {
                match fill_row_cell(y, color, Some((w, h))) {
                    Ok(mut row) => {
                        proof {
                            lemma_colored_concat(
                                screen_positions(w, y as int),
                                row_positions(w as int / 2, y),
                                color,
                            );
                        }
                        ds.append(&mut row);
                    },
                    Err(_) => {
                        // the dimensions are known here, so a row fill cannot fail
                        proof {
                            assert(false);
                        }
                    },
                }
            }
            Ok(ds)
        },
    }
}

/// Fills row `y` with an independently sampled random color per square
/// pixel. The positions drawn are exactly those of the uniform row fill;
/// nothing is promised of the colors. Returns `Unavailable`, and calls for
/// no draw, when the dimensions are unknown.
pub fn row_test_cell(y: u16, dims: Option<(u16, u16)>) -> (r: Result<Vec<Draw>, SurfaceError>)
    ensures
        dims matches Some(d) ==> r matches Ok(ds) && draw_positions(ds@) == row_positions(
            d.0 as int / 2,
            y,
        ),
        dims is None ==> r == Err::<Vec<Draw>, SurfaceError>(SurfaceError::Unavailable),
{
    match dims {
        None => Err(SurfaceError::Unavailable),
        Some((w, _h)) => {
            let half: u16 = w / 2;
            let mut ds: Vec<Draw> = Vec::new();
            for x in 0..half
                invariant
                    half == w as int / 2,
                    draw_positions(ds@) == row_positions(x as int, y),
            {
                let color = rgb(random_channel(), random_channel(), random_channel());
                let mut two = cell(x, y, color);
                proof {
                    lemma_draw_positions_concat(ds@, two@);
                    lemma_positions_of_colored(cell_positions(x, y), color);
                }
                ds.append(&mut two);
            }
            Ok(ds)
        },
    }
}

/// Fills the screen with an independently sampled random color per square
/// pixel, sweeping rows `1..height` and square pixels `1..width/2` within
/// each row. The positions drawn are exactly those of that sweep; nothing
/// is promised of the colors. Returns `Unavailable`, and calls for no draw,
/// when the dimensions are unknown.
pub fn screen_test_cell(dims: Option<(u16, u16)>) -> (r: Result<Vec<Draw>, SurfaceError>)
    ensures
        dims matches Some(d) ==> r matches Ok(ds) && draw_positions(ds@) == demo_screen_positions(
            d.0,
            d.1 as int,
        ),
        dims is None ==> r == Err::<Vec<Draw>, SurfaceError>(SurfaceError::Unavailable),
{
    match dims {
        None => Err(SurfaceError::Unavailable),
        Some((w, h)) => {
            let half: u16 = w / 2;
            let mut ds: Vec<Draw> = Vec::new();
            let mut y: u16 = 1;
            proof {
                assert(draw_positions(ds@) =~= demo_screen_positions(w, 1));
            }
            while y < h
                invariant
                    half == w as int / 2,
                    1 <= y,
                    h > 1 ==> y <= h,
                    h <= 1 ==> y == 1,
                    draw_positions(ds@) == demo_screen_positions(w, y as int),
                decreases h - y,
            {
                let mut x: u16 = 1;
                proof {
                    assert(demo_screen_positions(w, y as int) + demo_row_positions(1, y)
                        =~= demo_screen_positions(w, y as int));
                }
                while x < half
                    invariant
                        half == w as int / 2,
                        1 <= x,
                        half > 1 ==> x <= half,
                        half <= 1 ==> x == 1,
                        draw_positions(ds@) == demo_screen_positions(w, y as int)
                            + demo_row_positions(x as int, y),
                    decreases half - x,
                {
                    let color = rgb(random_channel(), random_channel(), random_channel());
                    let mut two = cell(x, y, color);
                    proof {
                        lemma_draw_positions_concat(ds@, two@);
                        lemma_positions_of_colored(cell_positions(x, y), color);
                        assert(demo_screen_positions(w, y as int) + demo_row_positions(
                            x as int + 1,
                            y,
                        ) =~= demo_screen_positions(w, y as int) + demo_row_positions(x as int, y)
                            + cell_positions(x, y));
                    }
                    ds.append(&mut two);
                    x = x + 1;
                }
                proof {
                    if half <= 1 {
                        assert(demo_row_positions(1, y) =~= Seq::<(u16, u16)>::empty());
                    }
                    assert(draw_positions(ds@) =~= demo_screen_positions(w, y as int + 1));
                }
                y = y + 1;
            }
            proof {
                if h <= 1 {
                    assert(demo_screen_positions(w, 1) =~= Seq::<(u16, u16)>::empty());
                    assert(demo_screen_positions(w, h as int) =~= Seq::<(u16, u16)>::empty());
                }
            }
            Ok(ds)
        },
    }
}

} // verus!

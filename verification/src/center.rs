//! Centering: an additive offset that moves a coordinate set so that its
//! midpoint lands on the terminal's midpoint.
//!
//! The x offset adds a quarter of the surface width (each square pixel is
//! two real cells wide, so a quarter of the real width is the middle of the
//! square-pixel space) and the y offset adds half the height; both subtract
//! half the extent of the coordinate set. All divisions truncate. When the
//! surface dimensions are unknown the coordinate is returned unchanged.

use vstd::prelude::*;

verus! {

/// The largest element of a nonempty sequence (its last element wins ties).
pub open spec fn seq_max(s: Seq<i64>) -> int
    recommends
        s.len() > 0,
    decreases s.len(),
{
    if s.len() <= 1 {
        s[0] as int
    } else if s.last() as int >= seq_max(s.drop_last()) {
        s.last() as int
    } else {
        seq_max(s.drop_last())
    }
}

/// The smallest element of a nonempty sequence.
pub open spec fn seq_min(s: Seq<i64>) -> int
    recommends
        s.len() > 0,
    decreases s.len(),
{
    if s.len() <= 1 {
        s[0] as int
    } else if s.last() as int <= seq_min(s.drop_last()) {
        s.last() as int
    } else {
        seq_min(s.drop_last())
    }
}

/// The extent of a coordinate set: greatest minus smallest element, and 0
/// for an empty set.
pub open spec fn range_of(s: Seq<i64>) -> int {
    if s.len() == 0 {
        0
    } else {
        seq_max(s) - seq_min(s)
    }
}

/// The extent of a nonempty set is never negative.
pub proof fn lemma_range_nonneg(s: Seq<i64>)
    requires
        s.len() > 0,
    ensures
        seq_min(s) <= seq_max(s),
    decreases s.len(),
{
    if s.len() > 1 {
        lemma_range_nonneg(s.drop_last());
    }
}

/// The x centering offset over a base coordinate: base plus a quarter of
/// the width, minus half the extent; the base unchanged when the dimensions
/// are unknown.
pub open spec fn center_x_spec(base: int, s: Seq<i64>, dims: Option<(u16, u16)>) -> int {
    match dims {
        Some(d) => base + d.0 as int / 4 - range_of(s) / 2,
        None => base,
    }
}

/// The y centering offset over a base coordinate: base plus half the
/// height, minus half the extent; the base unchanged when the dimensions
/// are unknown.
pub open spec fn center_y_spec(base: int, s: Seq<i64>, dims: Option<(u16, u16)>) -> int {
    match dims {
        Some(d) => base + d.1 as int / 2 - range_of(s) / 2,
        None => base,
    }
}

/// Centering a coordinate set of zero extent is a no-op translation: with
/// base 0, the x offset is exactly a quarter of the surface width and the y
/// offset exactly half its height.
pub proof fn lemma_center_no_op(s: Seq<i64>, w: u16, h: u16)
    requires
        s.len() > 0,
        forall|i: int| 0 <= i < s.len() ==> #[trigger] s[i] == s[0],
    ensures
        center_x_spec(0, s, Some((w, h))) == w as int / 4,
        center_y_spec(0, s, Some((w, h))) == h as int / 2,
{
    lemma_const_extent(s);
}

/// A sequence of one repeated value has extent 0.
pub proof fn lemma_const_extent(s: Seq<i64>)
    requires
        s.len() > 0,
        forall|i: int| 0 <= i < s.len() ==> #[trigger] s[i] == s[0],
    ensures
        seq_max(s) == s[0] as int,
        seq_min(s) == s[0] as int,
        range_of(s) == 0,
    decreases s.len(),
{
    if s.len() > 1 {
        lemma_const_extent(s.drop_last());
    }
}

/// Centering for a numeric coordinate domain. The offset methods take the
/// coordinate collection whose extent is to be centered, together with the
/// freshly queried surface dimensions, and add the centering offset to the
/// receiver.
pub trait CenterCell {
    /// The numeric value of the receiver, as the base coordinate the
    /// centering offset is added to.
    spec fn base_val(&self) -> int;

    /// Centers the receiver on the x axis: adds a quarter of the surface
    /// width and subtracts half the extent of `array`. Returns the receiver
    /// unchanged when the dimensions are unknown.
    fn center_x_cell(&self, array: &[i64], dims: Option<(u16, u16)>) -> (r: i64)
        requires
            range_of(array@) <= i64::MAX,
            dims matches Some(d) ==> i64::MIN <= self.base_val() + d.0 as int / 4 <= i64::MAX
                && i64::MIN <= self.base_val() + d.0 as int / 4 - range_of(array@) / 2 <= i64::MAX,
        ensures
            r as int == center_x_spec(self.base_val(), array@, dims),
    ;

    /// Centers the receiver on the y axis: adds half the surface height and
    /// subtracts half the extent of `array`. Returns the receiver unchanged
    /// when the dimensions are unknown.
    fn center_y_cell(&self, array: &[i64], dims: Option<(u16, u16)>) -> (r: i64)
        requires
            range_of(array@) <= i64::MAX,
            dims matches Some(d) ==> i64::MIN <= self.base_val() + d.1 as int / 2 <= i64::MAX
                && i64::MIN <= self.base_val() + d.1 as int / 2 - range_of(array@) / 2 <= i64::MAX,
        ensures
            r as int == center_y_spec(self.base_val(), array@, dims),
    ;
}

/// The extent of the coordinates in `array`: greatest minus smallest
/// element, and 0 when `array` is empty.
fn slice_range(array: &[i64]) -> (r: i64)
    requires
        range_of(array@) <= i64::MAX,
    ensures
        r as int == range_of(array@),
        r >= 0,
{
    if array.len() == 0 {
        0
    } else {
        let mut max: i64 = array[0];
        let mut min: i64 = array[0];
        let mut i: usize = 1;
        while i < array.len()
            invariant
                1 <= i <= array@.len(),
                max as int == seq_max(array@.take(i as int)),
                min as int == seq_min(array@.take(i as int)),
            decreases array@.len() - i,
        {
            let v = array[i];
            proof {
                assert(array@.take(i as int + 1).drop_last() =~= array@.take(i as int));
                assert(array@.take(i as int + 1).last() == array@[i as int]);
            }
            if v > max {
                max = v;
            }
            if v < min {
                min = v;
            }
            i = i + 1;
        }
        proof {
            assert(array@.take(array@.len() as int) =~= array@);
            lemma_range_nonneg(array@);
        }
        max - min
    }
}

impl CenterCell for i64 {
    open spec fn base_val(&self) -> int {
        *self as int
    }

    fn center_x_cell(&self, array: &[i64], dims: Option<(u16, u16)>) -> (r: i64) {
        match dims {
            None => *self,
            Some((w, _h)) => {
                let range = slice_range(array);
                let half: i64 = ((range as u64) / 2) as i64;
                (*self + (w / 4) as i64) - half
            },
        }
    }

    fn center_y_cell(&self, array: &[i64], dims: Option<(u16, u16)>) -> (r: i64) {
        match dims {
            None => *self,
            Some((_w, h)) => {
                let range = slice_range(array);
                let half: i64 = ((range as u64) / 2) as i64;
                (*self + (h / 2) as i64) - half
            },
        }
    }
}

/// Centers a coordinate pair `[x, y]` within the surface: each component is
/// offset from base 1, the x offset by a quarter of the width and the y
/// offset by half the height, each minus half the extent of the pair. The
/// pair is returned unchanged when the dimensions are unknown.
pub fn center(xy: [i64; 2], dims: Option<(u16, u16)>) -> (r: [i64; 2])
    requires
        range_of(xy@) <= i64::MAX,
    ensures
        r@.len() == 2,
        r@[0] as int == center_x_spec(1, xy@, dims),
        r@[1] as int == center_y_spec(1, xy@, dims),
{
    let x: i64 = 1;
    let y: i64 = 1;
    proof {
        if xy@.len() > 0 {
            lemma_range_nonneg(xy@);
        }
    }
    let centered_x = x.center_x_cell(xy.as_slice(), dims);
    let centered_y = y.center_y_cell(xy.as_slice(), dims);
    [centered_x, centered_y]
}

} // verus!

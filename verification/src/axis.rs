//! One axis of the plot: the column it shows, the range of that column, and the pan
//! and zoom under which the range is seen.

use vstd::prelude::*;
use crate::arith::{div_floor_exec, mul_div_floor, lemma_div_floor_bounds, lemma_div_scaled, UNIT};
use crate::data::{Table, TableView};
use crate::ticks::{plan_spec, plan_ticks, tick_count, TickPlan, TickPlanView, VISIBLE_LIMIT};

verus! {

/// The pixels left free at either end of an axis.
pub const MARGIN: i32 = 130;

/// The largest zoom, in millionths: a million times the fit.
pub const ZOOM_LIMIT: i64 = 1_000_000_000_000;

/// The share of an axis of `render_length` pixels that lies between its margins, as
/// the numerator and the denominator of a fraction.
pub fn std_scale(render_length: i32) -> (r: (i64, i64))
    ensures
        r.0 == render_length - 2 * MARGIN,
        r.1 == render_length,
{
    (render_length as i64 - 2 * (MARGIN as i64), render_length as i64)
}

/// The smallest and the largest of the numbers in a column, taken from the first value
/// to the last; a column without a number has no range.
pub open spec fn range_of(values: Seq<Option<i64>>) -> Option<(i64, i64)>
    decreases values.len(),
{
    if values.len() == 0 {
        None
    } else {
        match (range_of(values.drop_last()), values.last()) {
            (None, None) => None,
            (None, Some(v)) => Some((v, v)),
            (Some(r), None) => Some(r),
            (Some((lo, hi)), Some(v)) => Some(
                (
                    if v < lo {
                        v
                    } else {
                        lo
                    },
                    if v > hi {
                        v
                    } else {
                        hi
                    },
                ),
            ),
        }
    }
}

/// The range of a column bounds every number in it, and both its ends occur in the
/// column; there is none exactly where the column holds no number.
pub proof fn lemma_range_of(values: Seq<Option<i64>>)
    ensures
        match range_of(values) {
            None => forall|i: int| 0 <= i < values.len() ==> values[i] is None,
            Some((lo, hi)) => {
                &&& lo <= hi
                &&& values.contains(Some(lo))
                &&& values.contains(Some(hi))
                &&& forall|i: int|
                    0 <= i < values.len() ==> match #[trigger] values[i] {
                        Some(v) => lo <= v <= hi,
                        None => true,
                    }
            },
        },
    decreases values.len(),
{
    if values.len() > 0 {
        let rest = values.drop_last();
        lemma_range_of(rest);
        let n = values.len() - 1;
        assert(values[n] == values.last());
        assert forall|i: int| 0 <= i < n implies values[i] == rest[i] by {}
        match range_of(rest) {
            None => {},
            Some((lo, hi)) => {
                let a = choose|a: int| 0 <= a < rest.len() && rest[a] == Some(lo);
                let b = choose|b: int| 0 <= b < rest.len() && rest[b] == Some(hi);
                assert(values[a] == Some(lo));
                assert(values[b] == Some(hi));
            },
        }
    }
}

/// The range of a column: its smallest and its largest number, by one pass over it.
pub fn range_vec(vec: &Vec<Option<i64>>) -> (r: Option<(i64, i64)>)
    ensures
        r == range_of(vec@),
{
    let mut r: Option<(i64, i64)> = None;
    let mut i: usize = 0;
    assert(vec@.take(0) =~= Seq::<Option<i64>>::empty());
    while i < vec.len()
        invariant
            i <= vec.len(),
            r == range_of(vec@.take(i as int)),
        decreases vec.len() - i,
    {
        assert(vec@.take(i + 1).drop_last() =~= vec@.take(i as int));
        assert(vec@.take(i + 1).last() == vec@[i as int]);
        r = match (r, vec[i]) {
            (None, None) => None,
            (None, Some(v)) => Some((v, v)),
            (Some(range), None) => Some(range),
            (Some((lo, hi)), Some(v)) => Some(
                (
                    if v < lo {
                        v
                    } else {
                        lo
                    },
                    if v > hi {
                        v
                    } else {
                        hi
                    },
                ),
            ),
        };
        i = i + 1;
    }
    assert(vec@.take(vec.len() as int) =~= vec@);
    r
}

/// A pan moved by `by`; it stays where the move would leave the machine's numbers.
pub open spec fn shift_spec(d: i64, by: int) -> i64 {
    if i64::MIN <= d + by <= i64::MAX {
        (d + by) as i64
    } else {
        d
    }
}

/// A pan `d` and a zoom `s` both multiplied by `num / den`, rounded down. Both stay
/// as they are where the zoom would leave the interval from a millionth to
/// `ZOOM_LIMIT`, or the pan the machine's numbers.
pub open spec fn scale_spec(d: i64, s: i64, num: int, den: int) -> (i64, i64) {
    let zoom = (s * num) / den;
    let pan = (d * num) / den;
    if 1 <= zoom <= ZOOM_LIMIT && i64::MIN <= pan <= i64::MAX {
        (pan as i64, zoom as i64)
    } else {
        (d, s)
    }
}

/// Moves a pan by `by`.
pub fn shift(d: i64, by: i128) -> (r: i64)
    ensures
        r == shift_spec(d, by as int),
{
    if by >= i64::MIN as i128 - d as i128 && by <= i64::MAX as i128 - d as i128 {
        (d as i128 + by) as i64
    } else {
        d
    }
}

/// Multiplies a pan and a zoom by `num / den`, both positive and at most `2^63`.
pub fn scale(d: i64, s: i64, num: i128, den: i128) -> (r: (i64, i64))
    requires
        1 <= s,
        0 < num <= 0x8000_0000_0000_0000,
        0 < den <= 0x8000_0000_0000_0000,
    ensures
        r == scale_spec(d, s, num as int, den as int),
        1 <= s <= ZOOM_LIMIT ==> 1 <= r.1 <= ZOOM_LIMIT,
{
    assert(0 <= s * num <= 0x4000_0000_0000_0000_0000_0000_0000_0000) by (nonlinear_arith)
        requires
            1 <= s <= 0x7fff_ffff_ffff_ffff,
            1 <= num <= 0x8000_0000_0000_0000,
    ;
    assert(-0x4000_0000_0000_0000_0000_0000_0000_0000 <= d * num
        <= 0x4000_0000_0000_0000_0000_0000_0000_0000) by (nonlinear_arith)
        requires
            -0x8000_0000_0000_0000 <= d <= 0x7fff_ffff_ffff_ffff,
            1 <= num <= 0x8000_0000_0000_0000,
    ;
    let zoom: i128 = div_floor_exec((s as i128) * num, den);
    let pan: i128 = div_floor_exec((d as i128) * num, den);
    if zoom >= 1 && zoom <= ZOOM_LIMIT as i128 && pan >= i64::MIN as i128 && pan
        <= i64::MAX as i128 {
        (pan as i64, zoom as i64)
    } else {
        (d, s)
    }
}

/// The view of one column along one axis.
///
/// `column` is the place of the column in the table. `s` is the zoom in millionths of
/// the fit: with `s == UNIT` the range of the column is as long as the pixels between
/// the margins. `d` is the pan in millionths of a data unit, counted against the whole
/// axis: a drag over the whole length of the axis moves it by the width of the range.
/// On an axis with pixels between its margins the range is seen moved by `-d` times
/// the length of the axis over those pixels, and stretched about its middle by
/// `UNIT / s`.
#[derive(Clone, Copy, Debug, PartialEq, Eq)]
pub struct Dimension {
    pub render_length: i32,
    pub d: i64,
    pub s: i64,
    pub range: Option<(i64, i64)>,
    pub column: usize,
}

impl Dimension {
    /// A length above 0, a zoom above 0 and within the limit, and a range that is
    /// not reversed.
    pub open spec fn wf(&self) -> bool {
        &&& self.render_length > 0
        &&& 1 <= self.s <= ZOOM_LIMIT
        &&& match self.range {
            Some((lo, hi)) => lo <= hi,
            None => true,
        }
    }

    /// The axis as it is when it is bound to the column at place `column`.
    pub open spec fn bind_spec(render_length: i32, table: TableView, column: usize) -> Dimension {
        Dimension {
            render_length,
            d: 0,
            s: UNIT,
            range: range_of(table.data[column as int]),
            column,
        }
    }

    /// The width of the range, 0 where the column has none.
    pub open spec fn width(&self) -> int {
        match self.range {
            Some((lo, hi)) => hi - lo,
            None => 0,
        }
    }

    /// The pixels between the margins.
    pub open spec fn available(&self) -> int {
        self.render_length - 2 * MARGIN
    }

    /// The value seen at one end of the pixels between the margins, where there are
    /// any: `side` is the way from the low to the high end of the range for the upper
    /// end, and the way back for the lower end. With `a` pixels between the margins of
    /// an axis of `l` pixels it is `(hi + lo) / 2 + (side / 2 - d * l / a) * UNIT / s`,
    /// rounded down once.
    pub open spec fn visible(&self, sum: int, side: int) -> int {
        let a = self.available();
        (sum * self.s * a + (side * a - 2 * self.d * self.render_length) * UNIT) / (2 * self.s
            * a)
    }

    /// The smallest value that the axis shows; 0 where the column has no range or no
    /// pixel lies between the margins.
    pub open spec fn visible_min(&self) -> int {
        match self.range {
            Some((lo, hi)) => if self.available() > 0 {
                self.visible(hi + lo, lo - hi)
            } else {
                0
            },
            None => 0,
        }
    }

    /// The largest value that the axis shows; 0 where the column has no range or no
    /// pixel lies between the margins.
    pub open spec fn visible_max(&self) -> int {
        match self.range {
            Some((lo, hi)) => if self.available() > 0 {
                self.visible(hi + lo, hi - lo)
            } else {
                0
            },
            None => 0,
        }
    }

    /// The ticks of the axis.
    pub open spec fn plan(&self, pixels_per_tick: int) -> TickPlanView {
        plan_spec(
            self.visible_min(),
            self.visible_max(),
            self.render_length as int,
            MARGIN as int,
            pixels_per_tick,
        )
    }

    /// The axis with pan and zoom back at the fit.
    pub open spec fn reset_spec(self) -> Dimension {
        Dimension { d: 0, s: UNIT, ..self }
    }

    /// The axis after a drag of `delta` pixels: the pan moves by the share of the
    /// range that `delta` is of the length of the axis.
    pub open spec fn pan_spec(self, delta: int) -> Dimension {
        Dimension { d: shift_spec(self.d, (delta * self.width()) / (self.render_length as int)), ..self }
    }

    /// The axis after one step of the wheel along it: the pan moves by a twentieth of
    /// the range times the scale, which is the zoom times the share of the axis
    /// between its margins; towards lower values for a step above 0.
    pub open spec fn scroll_spec(self, step: int) -> Dimension {
        let by = (self.width() * self.s * self.available()) / (20 * UNIT * self.render_length);
        if step > 0 {
            Dimension { d: shift_spec(self.d, -by), ..self }
        } else if step < 0 {
            Dimension { d: shift_spec(self.d, by), ..self }
        } else {
            self
        }
    }

    /// The axis with zoom and pan both multiplied by `num / den`.
    pub open spec fn scale_spec(self, num: int, den: int) -> Dimension {
        let r = scale_spec(self.d, self.s, num, den);
        Dimension { d: r.0, s: r.1, ..self }
    }

    /// The axis after the pointer moved from the offset `pivot1` to the offset
    /// `pivot2`, both taken from the middle of the axis: zoom and pan are multiplied
    /// by `pivot2 / pivot1`. Nothing changes where either offset is 0 or the two lie
    /// on different sides of the middle.
    pub open spec fn zoom_spec(self, pivot1: int, pivot2: int) -> Dimension {
        if pivot1 > 0 && pivot2 > 0 {
            self.scale_spec(pivot2, pivot1)
        } else if pivot1 < 0 && pivot2 < 0 {
            self.scale_spec(-pivot2, -pivot1)
        } else {
            self
        }
    }

    /// Binds an axis of `render_length` pixels to the column at place `column`, at the fit.
    pub fn bind(render_length: i32, table: &Table, column: usize) -> (dim: Dimension)
        requires
            render_length > 0,
            table.wf(),
            column < table@.columns.len(),
        ensures
            dim == Dimension::bind_spec(render_length, table@, column),
            dim.wf(),
    {
        let range: Option<(i64, i64)> = range_vec(table.column(column));
        proof {
            lemma_range_of(table@.data[column as int]);
        }
        Dimension { render_length, d: 0, s: UNIT, range, column }
    }

    /// Binds an axis of `render_length` pixels to the column called `name`, at the fit.
    pub fn new(render_length: i32, table: &Table, name: &String) -> (dim: Dimension)
        requires
            render_length > 0,
            table.wf(),
            table@.columns.contains(name@),
        ensures
            dim.column < table@.columns.len(),
            table@.columns[dim.column as int] == name@,
            dim == Dimension::bind_spec(render_length, table@, dim.column),
            dim.range == range_of(table@.column(name@)),
            dim.wf(),
    {
        match table.find(name) {
            Some(column) => {
                proof {
                    table@.lemma_place(name@, column as int);
                }
                Dimension::bind(render_length, table, column)
            },
            None => {
                proof {
                    assert(false);
                }
                Dimension { render_length, d: 0, s: UNIT, range: None, column: 0 }
            },
        }
    }

    /// Puts pan and zoom back at the fit. The column stays.
    pub fn reset(&mut self)
        ensures
            *final(self) == old(self).reset_spec(),
            old(self).wf() ==> final(self).wf(),
    {
        self.d = 0;
        self.s = UNIT;
    }

    /// Moves the view by a drag of `delta` pixels.
    pub fn pan_by(&mut self, delta: i64)
        requires
            old(self).wf(),
        ensures
            *final(self) == old(self).pan_spec(delta as int),
            final(self).wf(),
    {
        let width: i128 = self.range_width();
        assert(-0x7fff_ffff_ffff_ffff_8000_0000_0000_0000 <= delta * width
            <= 0x7fff_ffff_ffff_ffff_8000_0000_0000_0000) by (nonlinear_arith)
            requires
                -0x8000_0000_0000_0000 <= delta <= 0x7fff_ffff_ffff_ffff,
                0 <= width <= 0xffff_ffff_ffff_ffff,
        ;
        let by: i128 = div_floor_exec((delta as i128) * width, self.render_length as i128);
        self.d = shift(self.d, by);
    }

    /// Moves the view by one step of the wheel along the axis.
    pub fn scroll_by(&mut self, step: i32)
        requires
            old(self).wf(),
        ensures
            *final(self) == old(self).scroll_spec(step as int),
            final(self).wf(),
    {
        let width: i128 = self.range_width();
        assert(0 <= width * self.s <= 0x100_0000_0000_0000_0000_0000_0000) by (nonlinear_arith)
            requires
                0 <= width <= 0x1_0000_0000_0000_0000,
                1 <= self.s <= 1_000_000_000_000,
        ;
        let available: i128 = self.render_length as i128 - 2 * (MARGIN as i128);
        let by: i128 = mul_div_floor(
            width * (self.s as i128),
            available,
            20_000_000 * (self.render_length as i128),
        );
        assert(20 * UNIT * self.render_length == 20_000_000 * self.render_length);
        if step > 0 {
            self.d = shift(self.d, -by);
        } else if step < 0 {
            self.d = shift(self.d, by);
        }
    }

    /// The width of the range, 0 where the column has none.
    pub fn range_width(&self) -> (w: i128)
        requires
            self.wf(),
        ensures
            w == self.width(),
            0 <= w <= 0xffff_ffff_ffff_ffff,
    {
        match self.range {
            Some((lo, hi)) => hi as i128 - lo as i128,
            None => 0,
        }
    }

    /// Multiplies zoom and pan by `num / den`.
    pub fn scale_by(&mut self, num: i64, den: i64)
        requires
            old(self).wf(),
            num > 0,
            den > 0,
        ensures
            *final(self) == old(self).scale_spec(num as int, den as int),
            final(self).wf(),
    {
        let r: (i64, i64) = scale(self.d, self.s, num as i128, den as i128);
        self.d = r.0;
        self.s = r.1;
    }

    /// Zooms about the middle of the axis as the pointer moves from the offset
    /// `pivot1` to the offset `pivot2`.
    pub fn zoom_around(&mut self, pivot1: i64, pivot2: i64)
        requires
            old(self).wf(),
        ensures
            *final(self) == old(self).zoom_spec(pivot1 as int, pivot2 as int),
            final(self).wf(),
    {
        if pivot1 > 0 && pivot2 > 0 {
            let r: (i64, i64) = scale(self.d, self.s, pivot2 as i128, pivot1 as i128);
            self.d = r.0;
            self.s = r.1;
        } else if pivot1 < 0 && pivot2 < 0 {
            let r: (i64, i64) = scale(self.d, self.s, -(pivot2 as i128), -(pivot1 as i128));
            self.d = r.0;
            self.s = r.1;
        }
    }

    /// The ticks of the axis under its pan and zoom, about `pixels_per_tick` pixels
    /// apart. The visible range is worked out anew from pan and zoom on every call.
    pub fn calc_axis_markers(&self, pixels_per_tick: i32) -> (plan: TickPlan)
        requires
            self.wf(),
            pixels_per_tick > 0,
        ensures
            plan@ == self.plan(pixels_per_tick as int),
            forall|i: int|
                0 <= i < plan@.markers.len() ==> plan@.visible_min <= #[trigger] plan@.markers[i]
                    <= plan@.visible_max,
            forall|i: int, j: int|
                0 <= i <= j < plan@.markers.len() ==> #[trigger] plan@.markers[i]
                    <= #[trigger] plan@.markers[j],
            plan@.visible_max - plan@.visible_min <= 2 * VISIBLE_LIMIT,
        plan@.fraction_digits <= 43,
            plan@.markers.len() > 0 ==> plan@.visible_min < plan@.visible_max,
    {
        match self.range {
            Some((lo, hi)) => {
                if self.render_length > 2 * MARGIN {
                    let sum: i128 = hi as i128 + lo as i128;
                    let width: i128 = hi as i128 - lo as i128;
                    let visible_min: i128 = self.edge(sum, -width);
                    let visible_max: i128 = self.edge(sum, width);
                    plan_ticks(
                        visible_min,
                        visible_max,
                        self.render_length,
                        MARGIN,
                        pixels_per_tick,
                    )
                } else {
                    plan_ticks(0, 0, self.render_length, MARGIN, pixels_per_tick)
                }
            },
            None => plan_ticks(0, 0, self.render_length, MARGIN, pixels_per_tick),
        }
    }

    /// The value seen at one end of the pixels between the margins.
    fn edge(&self, sum: i128, side: i128) -> (r: i128)
        requires
            self.wf(),
            self.available() > 0,
            -0x1_0000_0000_0000_0000 <= sum <= 0x1_0000_0000_0000_0000,
            -0x1_0000_0000_0000_0000 <= side <= 0x1_0000_0000_0000_0000,
        ensures
            r == self.visible(sum as int, side as int),
            -VISIBLE_LIMIT <= r <= VISIBLE_LIMIT,
    {
        let a: i128 = self.render_length as i128 - 2 * (MARGIN as i128);
        let length: i128 = self.render_length as i128;
        let zoom: i128 = self.s as i128;
        let pan: i128 = self.d as i128;
        assert(a <= zoom * a <= 1_000_000_000_000 * a) by (nonlinear_arith)
            requires
                1 <= zoom <= 1_000_000_000_000,
                1 <= a,
        ;
        let q: i128 = zoom * a;
        assert(-(0x1_0000_0000_0000_0000 * a) <= side * a <= 0x1_0000_0000_0000_0000 * a)
            by (nonlinear_arith)
            requires
                -0x1_0000_0000_0000_0000 <= side <= 0x1_0000_0000_0000_0000,
                1 <= a,
        ;
        assert(-(0x8000_0000_0000_0000 * length) <= pan * length <= 0x8000_0000_0000_0000
            * length) by (nonlinear_arith)
            requires
                -0x8000_0000_0000_0000 <= pan <= 0x8000_0000_0000_0000,
                1 <= length,
        ;
        let e: i128 = (side * a - 2 * (pan * length)) * 1_000_000;
        let h: i128 = div_floor_exec(sum, 2);
        let x: i128 = if sum - 2 * h == 1 {
            q + e
        } else {
            e
        };
        proof {
            lemma_div_floor_bounds(sum as int, 2);
            let b = sum - 2 * h;
            assert(b == 0 || b == 1);
            assert(sum * self.s * a + (side * a - 2 * self.d * self.render_length) * UNIT == x
                + h * (2 * q)) by (nonlinear_arith)
                requires
                    q == self.s * a,
                    sum == 2 * h + b,
                    x == b * q + e,
                    b == 0 || b == 1,
                    e == (side * a - 2 * (self.d * self.render_length)) * 1_000_000,
                    UNIT == 1_000_000,
            ;
            assert(2 * self.s * a == 2 * q) by (nonlinear_arith)
                requires
                    q == self.s * a,
            ;
            vstd::arithmetic::div_mod::lemma_hoist_over_denominator(x as int, h as int, (2 * q) as nat);
            lemma_div_scaled(x as int, 2 * q, 2_416_523_473_655_951_261_696_000_001);
        }
        h + div_floor_exec(x, 2 * q)
    }
}

/// Two axes with the same length, range, pan and zoom have the same ticks: the ticks
/// depend on nothing else, so asking twice gives the same answer.
pub proof fn lemma_plan_depends_on_view(a: Dimension, b: Dimension, pixels_per_tick: int)
    requires
        a.render_length == b.render_length,
        a.range == b.range,
        a.d == b.d,
        a.s == b.s,
    ensures
        a.plan(pixels_per_tick) == b.plan(pixels_per_tick),
{
}

/// After a reset an axis is what it was when it was bound, whatever pan and zoom it
/// had in between, and so has the ticks that it had then.
pub proof fn lemma_reset_restores(bound: Dimension, moved: Dimension, pixels_per_tick: int)
    requires
        bound.d == 0,
        bound.s == UNIT,
        moved.render_length == bound.render_length,
        moved.range == bound.range,
        moved.column == bound.column,
    ensures
        moved.reset_spec() == bound,
        moved.reset_spec().plan(pixels_per_tick) == bound.plan(pixels_per_tick),
{
}

/// A zoom between two equal offsets changes nothing.
pub proof fn lemma_zoom_same_offsets(dim: Dimension, pivot: int)
    requires
        dim.wf(),
    ensures
        dim.zoom_spec(pivot, pivot) == dim,
{
    assert(dim.s <= ZOOM_LIMIT);
    if pivot > 0 {
        vstd::arithmetic::div_mod::lemma_div_multiples_vanish(dim.s as int, pivot);
        vstd::arithmetic::div_mod::lemma_div_multiples_vanish(dim.d as int, pivot);
        assert(dim.s * pivot == pivot * dim.s) by (nonlinear_arith);
        assert(dim.d * pivot == pivot * dim.d) by (nonlinear_arith);
    } else if pivot < 0 {
        vstd::arithmetic::div_mod::lemma_div_multiples_vanish(dim.s as int, -pivot);
        vstd::arithmetic::div_mod::lemma_div_multiples_vanish(dim.d as int, -pivot);
        assert(dim.s * (-pivot) == (-pivot) * dim.s) by (nonlinear_arith);
        assert(dim.d * (-pivot) == (-pivot) * dim.d) by (nonlinear_arith);
    }
}

/// An axis on a column that holds one value only, or none, has no ticks.
pub proof fn lemma_constant_column_has_no_ticks(dim: Dimension, pixels_per_tick: int)
    requires
        match dim.range {
            Some((lo, hi)) => lo == hi,
            None => true,
        },
    ensures
        dim.visible_min() == dim.visible_max(),
        dim.plan(pixels_per_tick).markers.len() == 0,
{
}

/// At the fit an axis with pixels between its margins shows exactly the range of its
/// column.
pub proof fn lemma_fit_shows_range(dim: Dimension)
    requires
        dim.d == 0,
        dim.s == UNIT,
        dim.available() > 0,
    ensures
        match dim.range {
            Some((lo, hi)) => dim.visible_min() == lo && dim.visible_max() == hi,
            None => dim.visible_min() == 0 && dim.visible_max() == 0,
        },
{
    match dim.range {
        Some((lo, hi)) => {
            let a = dim.available();
            let l = dim.render_length as int;
            assert((hi + lo) * dim.s * a + ((lo - hi) * a - 2 * dim.d * l) * UNIT == (2 * dim.s
                * a) * lo) by (nonlinear_arith)
                requires
                    dim.s == UNIT,
                    dim.d == 0,
            ;
            assert((hi + lo) * dim.s * a + ((hi - lo) * a - 2 * dim.d * l) * UNIT == (2 * dim.s
                * a) * hi) by (nonlinear_arith)
                requires
                    dim.s == UNIT,
                    dim.d == 0,
            ;
            assert(2 * dim.s * a > 0) by (nonlinear_arith)
                requires
                    dim.s == UNIT,
                    UNIT == 1_000_000,
                    a > 0,
            ;
            vstd::arithmetic::div_mod::lemma_div_multiples_vanish(lo as int, 2 * dim.s * a);
            vstd::arithmetic::div_mod::lemma_div_multiples_vanish(hi as int, 2 * dim.s * a);
        },
        None => {},
    }
}

} // verus!

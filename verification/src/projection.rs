//! The projection of the data onto the screen: for each axis the map that takes the
//! range of its column to the interval from -1 to 1.

use vstd::prelude::*;
use crate::arith::UNIT;
use crate::axis::Dimension;

verus! {

/// The map `v -> (scale * v + offset) / span` of one axis, with `span > 0`.
#[derive(Clone, Copy, Debug, PartialEq, Eq, Structural)]
pub struct AxisMap {
    pub scale: i128,
    pub offset: i128,
    pub span: i128,
}

/// The maps of the three axes.
#[derive(Clone, Copy, Debug, PartialEq, Eq, Structural)]
pub struct Projection {
    pub x: AxisMap,
    pub y: AxisMap,
    pub z: AxisMap,
}

/// The range that an axis is projected over: that of its column, or the range from
/// -1 to 1 where the column has no range or only one value.
pub open spec fn projected_range(range: Option<(i64, i64)>) -> (int, int) {
    match range {
        Some((lo, hi)) => if lo < hi {
            (lo as int, hi as int)
        } else {
            (-(UNIT as int), UNIT as int)
        },
        None => (-(UNIT as int), UNIT as int),
    }
}

/// The map that takes `lo` to -1 and `hi` to 1.
pub open spec fn plane_map(range: (int, int)) -> AxisMap {
    AxisMap {
        scale: 2,
        offset: (-(range.1 + range.0)) as i128,
        span: (range.1 - range.0) as i128,
    }
}

/// The map of the depth axis: it scales as `plane_map` does and moves nothing, since
/// depth only offsets and blends points and clips none.
pub open spec fn depth_map(range: (int, int)) -> AxisMap {
    AxisMap { scale: 2, offset: 0, span: (range.1 - range.0) as i128 }
}

/// What `calc_projection` returns for three ranges.
pub open spec fn projection_spec(
    x: Option<(i64, i64)>,
    y: Option<(i64, i64)>,
    z: Option<(i64, i64)>,
) -> Projection {
    Projection {
        x: plane_map(projected_range(x)),
        y: plane_map(projected_range(y)),
        z: depth_map(projected_range(z)),
    }
}

/// The range that an axis is projected over.
fn substitute(range: Option<(i64, i64)>) -> (r: (i128, i128))
    ensures
        (r.0 as int, r.1 as int) == projected_range(range),
        r.0 < r.1,
        -0x8000_0000_0000_0000 <= r.0,
        r.1 <= 0x7fff_ffff_ffff_ffff,
{
    match range {
        Some((lo, hi)) => if lo < hi {
            (lo as i128, hi as i128)
        } else {
            (-(UNIT as i128), UNIT as i128)
        },
        None => (-(UNIT as i128), UNIT as i128),
    }
}

/// The orthographic projection over the ranges of three axes. An axis whose column
/// has no range, or only one value, is projected over the range from -1 to 1.
pub fn calc_projection(dimx: &Dimension, dimy: &Dimension, dimz: &Dimension) -> (p: Projection)
    ensures
        p == projection_spec(dimx.range, dimy.range, dimz.range),
        p.x.span > 0,
        p.y.span > 0,
        p.z.span > 0,
{
    let x: (i128, i128) = substitute(dimx.range);
    let y: (i128, i128) = substitute(dimy.range);
    let z: (i128, i128) = substitute(dimz.range);
    Projection {
        x: AxisMap { scale: 2, offset: -(x.1 + x.0), span: x.1 - x.0 },
        y: AxisMap { scale: 2, offset: -(y.1 + y.0), span: y.1 - y.0 },
        z: AxisMap { scale: 2, offset: 0, span: z.1 - z.0 },
    }
}

/// The projection takes the ends of the range of the first two axes to -1 and 1, and
/// is never over an empty or missing range.
pub proof fn lemma_projection_ends(range: Option<(i64, i64)>)
    ensures
        ({
            let r = projected_range(range);
            let m = plane_map(r);
            &&& r.0 < r.1
            &&& m.span > 0
            &&& m.scale * r.0 + m.offset == -m.span
            &&& m.scale * r.1 + m.offset == m.span
        }),
{
}

} // verus!

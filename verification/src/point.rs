use vstd::prelude::*;

verus! {

/// Fixed-point sub-units per font unit in transformed output coordinates.
pub const FP: i64 = 65536;

/// Largest coordinate magnitude, in font units, that the pipeline accepts.
pub const COORD_MAX: i64 = 1048576;

/// Largest number of sampled points one contour may carry.
pub const CONTOUR_POINTS_MAX: usize = 16777216;

/// A two-dimensional point or offset on the integer grid.
///
/// Glyph inputs are measured in integer font units; the transform stage
/// emits points in fixed-point sub-units, `FP` sub-units per font unit.
#[derive(Clone, Copy, Debug, PartialEq, Eq, Structural)]
pub struct Point {
    pub x: i64,
    pub y: i64,
}

impl View for Point {
    type V = (int, int);

    open spec fn view(&self) -> (int, int) {
        (self.x as int, self.y as int)
    }
}

/// The coordinate pairs of a point sequence.
pub open spec fn coords_of(s: Seq<Point>) -> Seq<(int, int)> {
    s.map_values(|p: Point| p@)
}

/// A coordinate small enough for every later pipeline stage.
pub open spec fn in_coord(v: int) -> bool {
    -(COORD_MAX as int) <= v <= COORD_MAX as int
}

pub open spec fn pt_in_coord(p: (int, int)) -> bool {
    in_coord(p.0) && in_coord(p.1)
}

/// Whether the coordinate-wise sum of two points stays inside `i64`.
pub open spec fn sum_fits(a: Point, b: Point) -> bool {
    &&& i64::MIN <= a.x + b.x <= i64::MAX
    &&& i64::MIN <= a.y + b.y <= i64::MAX
}

/// `a + b` on one axis, or `None` when the sum leaves `i64`.
pub fn checked_add_i64(a: i64, b: i64) -> (r: Option<i64>)
    ensures
        match r {
            Some(v) => v as int == a + b,
            None => !(i64::MIN <= a + b <= i64::MAX),
        },
{
    if b >= 0 {
        if a <= i64::MAX - b {
            Some(a + b)
        } else {
            None
        }
    } else {
        if a >= i64::MIN - b {
            Some(a + b)
        } else {
            None
        }
    }
}

impl Point {
    pub open spec fn spec_plus(self, o: Point) -> (int, int) {
        (self.x + o.x, self.y + o.y)
    }

    /// Coordinate-wise sum, or `None` when a coordinate leaves `i64`.
    pub fn checked_plus(self, o: Point) -> (r: Option<Point>)
        ensures
            match r {
                Some(p) => sum_fits(self, o) && p@ == self.spec_plus(o),
                None => !sum_fits(self, o),
            },
    {
        match (checked_add_i64(self.x, o.x), checked_add_i64(self.y, o.y)) {
            (Some(nx), Some(ny)) => Some(Point { x: nx, y: ny }),
            _ => None,
        }
    }
}

} // verus!

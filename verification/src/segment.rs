use crate::point::{in_coord, pt_in_coord, sum_fits, Point, COORD_MAX};
use vstd::prelude::*;

verus! {

/// One curve piece of a contour, given as coordinate deltas: the first
/// delta is relative to the current pen position and every further delta
/// chains off the point produced by the delta before it.
#[derive(Clone, Copy, Debug, PartialEq, Eq, Structural)]
pub enum Segment {
    /// A line with one relative endpoint.
    Linear(Point),
    /// A quadratic Bézier curve: relative control point, then endpoint.
    Quadratic(Point, Point),
    /// A cubic Bézier curve: two relative control points, then endpoint.
    Cubic(Point, Point, Point),
}

/// An absolute-coordinate Bézier curve of degree one, two, or three,
/// produced transiently by segment decoding and consumed by sampling.
#[derive(Clone, Copy, Debug, PartialEq, Eq, Structural)]
pub enum CurvePrimitive {
    Linear(Point, Point),
    Quadratic(Point, Point, Point),
    Cubic(Point, Point, Point, Point),
}

pub open spec fn shifted(p: (int, int), d: Point) -> (int, int) {
    (p.0 + d.x, p.1 + d.y)
}

pub open spec fn in_i64(v: int) -> bool {
    i64::MIN <= v <= i64::MAX
}

pub open spec fn pt_in_i64(p: (int, int)) -> bool {
    in_i64(p.0) && in_i64(p.1)
}

/// The absolute control points a segment decodes to from a given pen
/// position: the pen itself followed by each chained absolute point.
pub open spec fn spec_decode(pen: (int, int), seg: Segment) -> Seq<(int, int)> {
    match seg {
        Segment::Linear(d) => seq![pen, shifted(pen, d)],
        Segment::Quadratic(d1, d2) => {
            let b = shifted(pen, d1);
            seq![pen, b, shifted(b, d2)]
        },
        Segment::Cubic(d1, d2, d3) => {
            let b = shifted(pen, d1);
            let c = shifted(b, d2);
            seq![pen, b, c, shifted(c, d3)]
        },
    }
}

/// The pen position after a segment: its final absolute endpoint.
pub open spec fn spec_segment_end(pen: (int, int), seg: Segment) -> (int, int) {
    spec_decode(pen, seg).last()
}

/// Whether every absolute control point of a decoded segment fits `i64`.
pub open spec fn decode_fits(pen: (int, int), seg: Segment) -> bool {
    forall|i: int|
        0 <= i < spec_decode(pen, seg).len() ==> pt_in_i64(#[trigger] spec_decode(pen, seg)[i])
}

/// The ordered absolute control points of a curve primitive.
pub open spec fn curve_points(c: CurvePrimitive) -> Seq<(int, int)> {
    match c {
        CurvePrimitive::Linear(p0, p1) => seq![p0@, p1@],
        CurvePrimitive::Quadratic(p0, p1, p2) => seq![p0@, p1@, p2@],
        CurvePrimitive::Cubic(p0, p1, p2, p3) => seq![p0@, p1@, p2@, p3@],
    }
}

impl Point {
    /// Coordinate-wise sum; the caller owes that both sums fit `i64`.
    pub fn plus(self, o: Point) -> (r: Point)
        requires
            sum_fits(self, o),
        ensures
            r@ == self.spec_plus(o),
    {
        Point { x: self.x + o.x, y: self.y + o.y }
    }
}

/// Whether every absolute control point of a decoded segment stays within
/// the accepted coordinate range.
pub open spec fn decode_in_coord(pen: (int, int), seg: Segment) -> bool {
    forall|i: int|
        0 <= i < spec_decode(pen, seg).len() ==> pt_in_coord(#[trigger] spec_decode(pen, seg)[i])
}

/// Whether one coordinate lies within the accepted range.
pub fn coord_ok(v: i64) -> (r: bool)
    ensures
        r == in_coord(v as int),
{
    -COORD_MAX <= v && v <= COORD_MAX
}

/// Whether both coordinates of a point lie within the accepted range.
pub fn point_ok(p: &Point) -> (r: bool)
    ensures
        r == pt_in_coord(p@),
{
    coord_ok(p.x) && coord_ok(p.y)
}

/// Decode one segment like `to_bezier`, but check every absolute control
/// point against the accepted coordinate range instead of requiring it.
pub fn try_decode(segment: &Segment, a: &Point) -> (r: Option<(CurvePrimitive, Point)>)
    requires
        pt_in_coord(a@),
    ensures
        match r {
            Some((c, p)) => {
                &&& decode_in_coord(a@, *segment)
                &&& curve_points(c) == spec_decode(a@, *segment)
                &&& p@ == spec_segment_end(a@, *segment)
                &&& pt_in_coord(p@)
            },
            None => !decode_in_coord(a@, *segment),
        },
{
    let ghost dec = spec_decode(a@, *segment);
    match *segment {
        Segment::Linear(d) => {
            let b = match a.checked_plus(d) {
                Some(b) => b,
                None => {
                    proof {
                        assert(!pt_in_coord(dec[1]));
                    }
                    return None;
                },
            };
            if !point_ok(&b) {
                proof {
                    assert(!pt_in_coord(dec[1]));
                }
                return None;
            }
            proof {
                assert(curve_points(CurvePrimitive::Linear(*a, b)) =~= dec);
                assert forall|i: int| 0 <= i < dec.len() implies pt_in_coord(#[trigger] dec[i]) by {
                    assert(dec[0] == a@);
                    assert(dec[1] == b@);
                }
            }
            Some((CurvePrimitive::Linear(*a, b), b))
        },
        Segment::Quadratic(d1, d2) => {
            let b = match a.checked_plus(d1) {
                Some(b) => b,
                None => {
                    proof {
                        assert(!pt_in_coord(dec[1]));
                    }
                    return None;
                },
            };
            if !point_ok(&b) {
                proof {
                    assert(!pt_in_coord(dec[1]));
                }
                return None;
            }
            let c = match b.checked_plus(d2) {
                Some(c) => c,
                None => {
                    proof {
                        assert(!pt_in_coord(dec[2]));
                    }
                    return None;
                },
            };
            if !point_ok(&c) {
                proof {
                    assert(!pt_in_coord(dec[2]));
                }
                return None;
            }
            proof {
                assert(curve_points(CurvePrimitive::Quadratic(*a, b, c)) =~= dec);
                assert forall|i: int| 0 <= i < dec.len() implies pt_in_coord(#[trigger] dec[i]) by {
                    assert(dec[0] == a@);
                    assert(dec[1] == b@);
                    assert(dec[2] == c@);
                }
            }
            Some((CurvePrimitive::Quadratic(*a, b, c), c))
        },
        Segment::Cubic(d1, d2, d3) => {
            let b = match a.checked_plus(d1) {
                Some(b) => b,
                None => {
                    proof {
                        assert(!pt_in_coord(dec[1]));
                    }
                    return None;
                },
            };
            if !point_ok(&b) {
                proof {
                    assert(!pt_in_coord(dec[1]));
                }
                return None;
            }
            let c = match b.checked_plus(d2) {
                Some(c) => c,
                None => {
                    proof {
                        assert(!pt_in_coord(dec[2]));
                    }
                    return None;
                },
            };
            if !point_ok(&c) {
                proof {
                    assert(!pt_in_coord(dec[2]));
                }
                return None;
            }
            let e = match c.checked_plus(d3) {
                Some(e) => e,
                None => {
                    proof {
                        assert(!pt_in_coord(dec[3]));
                    }
                    return None;
                },
            };
            if !point_ok(&e) {
                proof {
                    assert(!pt_in_coord(dec[3]));
                }
                return None;
            }
            proof {
                assert(curve_points(CurvePrimitive::Cubic(*a, b, c, e)) =~= dec);
                assert forall|i: int| 0 <= i < dec.len() implies pt_in_coord(#[trigger] dec[i]) by {
                    assert(dec[0] == a@);
                    assert(dec[1] == b@);
                    assert(dec[2] == c@);
                    assert(dec[3] == e@);
                }
            }
            Some((CurvePrimitive::Cubic(*a, b, c, e), e))
        },
    }
}

/// Decode one relative segment against the current pen position into an
/// absolute curve primitive, and return the new pen position: the curve's
/// final endpoint. Pure coordinate arithmetic; the curve always starts at
/// the pen.
pub fn to_bezier(segment: &Segment, a: &Point) -> (r: (CurvePrimitive, Point))
    requires
        decode_fits(a@, *segment),
    ensures
        curve_points(r.0) == spec_decode(a@, *segment),
        r.1@ == spec_segment_end(a@, *segment),
        curve_points(r.0).first() == a@,
        curve_points(r.0).last() == r.1@,
{
    let pen = *a;
    match *segment {
        Segment::Linear(d) => {
            proof {
                assert(pt_in_i64(spec_decode(a@, *segment)[1]));
            }
            let b = pen.plus(d);
            proof {
                assert(curve_points(CurvePrimitive::Linear(pen, b)) =~= spec_decode(
                    a@,
                    *segment,
                ));
            }
            (CurvePrimitive::Linear(pen, b), b)
        },
        Segment::Quadratic(d1, d2) => {
            proof {
                assert(pt_in_i64(spec_decode(a@, *segment)[1]));
                assert(pt_in_i64(spec_decode(a@, *segment)[2]));
            }
            let b = pen.plus(d1);
            let c = b.plus(d2);
            proof {
                assert(curve_points(CurvePrimitive::Quadratic(pen, b, c)) =~= spec_decode(
                    a@,
                    *segment,
                ));
            }
            (CurvePrimitive::Quadratic(pen, b, c), c)
        },
        Segment::Cubic(d1, d2, d3) => {
            proof {
                assert(pt_in_i64(spec_decode(a@, *segment)[1]));
                assert(pt_in_i64(spec_decode(a@, *segment)[2]));
                assert(pt_in_i64(spec_decode(a@, *segment)[3]));
            }
            let b = pen.plus(d1);
            let c = b.plus(d2);
            let d = c.plus(d3);
            proof {
                assert(curve_points(CurvePrimitive::Cubic(pen, b, c, d)) =~= spec_decode(
                    a@,
                    *segment,
                ));
            }
            (CurvePrimitive::Cubic(pen, b, c, d), d)
        },
    }
}

} // verus!

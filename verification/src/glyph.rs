use crate::error::BuildError;
use crate::point::{in_coord, pt_in_coord, Point};
use crate::segment::{
    curve_points, decode_in_coord, point_ok, shifted, spec_decode, spec_segment_end, try_decode,
    CurvePrimitive, Segment,
};
use vstd::prelude::*;

verus! {

/// One closed sub-path of a glyph outline: a leading relative offset and
/// the ordered curve segments that follow it.
#[derive(Debug)]
pub struct Contour {
    pub offset: Point,
    pub segments: Vec<Segment>,
}

/// A glyph's bounding box in font units: left, bottom, right, top.
#[derive(Clone, Copy, Debug, PartialEq, Eq, Structural)]
pub struct BoundingBox {
    pub x0: i64,
    pub y0: i64,
    pub x1: i64,
    pub y1: i64,
}

/// A glyph outline in font units: ordered contours, the advance width,
/// and the bounding box.
#[derive(Debug)]
pub struct Glyph {
    pub advance_width: i64,
    pub bounding_box: BoundingBox,
    pub contours: Vec<Contour>,
}

/// The pen position after the first `k` segments of a contour.
pub open spec fn spec_pen_after_segs(pen: (int, int), segs: Seq<Segment>, k: nat) -> (int, int)
    decreases k,
{
    if k == 0 {
        pen
    } else {
        spec_segment_end(spec_pen_after_segs(pen, segs, (k - 1) as nat), segs[k - 1])
    }
}

/// The decoded absolute curves of the first `k` segments of a contour.
pub open spec fn spec_contour_curves(pen: (int, int), segs: Seq<Segment>, k: nat) -> Seq<
    Seq<(int, int)>,
>
    decreases k,
{
    if k == 0 {
        Seq::empty()
    } else {
        spec_contour_curves(pen, segs, (k - 1) as nat).push(
            spec_decode(spec_pen_after_segs(pen, segs, (k - 1) as nat), segs[k - 1]),
        )
    }
}

/// Whether the first `k` segments decode within the coordinate range.
pub open spec fn spec_contour_ok(pen: (int, int), segs: Seq<Segment>, k: nat) -> bool
    decreases k,
{
    if k == 0 {
        true
    } else {
        spec_contour_ok(pen, segs, (k - 1) as nat) && decode_in_coord(
            spec_pen_after_segs(pen, segs, (k - 1) as nat),
            segs[k - 1],
        )
    }
}

/// The pen position after the first `k` contours: the pen is never reset,
/// each contour starts from wherever the previous one ended.
pub open spec fn spec_pen_after_contours(pen0: (int, int), cs: Seq<Contour>, k: nat) -> (int, int)
    decreases k,
{
    if k == 0 {
        pen0
    } else {
        spec_pen_after_segs(
            shifted(spec_pen_after_contours(pen0, cs, (k - 1) as nat), cs[k - 1].offset),
            cs[k - 1].segments@,
            cs[k - 1].segments@.len(),
        )
    }
}

/// The pen position entering contour `i`'s first segment: the pen at the
/// end of the previous contour plus contour `i`'s own leading offset.
pub open spec fn spec_entry_pen(pen0: (int, int), cs: Seq<Contour>, i: int) -> (int, int) {
    shifted(spec_pen_after_contours(pen0, cs, i as nat), cs[i].offset)
}

/// Whether the first `k` contours decode within the coordinate range.
pub open spec fn spec_glyph_ok(pen0: (int, int), cs: Seq<Contour>, k: nat) -> bool
    decreases k,
{
    if k == 0 {
        true
    } else {
        spec_glyph_ok(pen0, cs, (k - 1) as nat) && pt_in_coord(spec_entry_pen(pen0, cs, k - 1))
            && spec_contour_ok(
            spec_entry_pen(pen0, cs, k - 1),
            cs[k - 1].segments@,
            cs[k - 1].segments@.len(),
        )
    }
}

/// The decoded absolute curves of the first `k` contours.
pub open spec fn spec_glyph_curves(pen0: (int, int), cs: Seq<Contour>, k: nat) -> Seq<
    Seq<Seq<(int, int)>>,
>
    decreases k,
{
    if k == 0 {
        Seq::empty()
    } else {
        spec_glyph_curves(pen0, cs, (k - 1) as nat).push(
            spec_contour_curves(
                spec_entry_pen(pen0, cs, k - 1),
                cs[k - 1].segments@,
                cs[k - 1].segments@.len(),
            ),
        )
    }
}

/// The control-point sequences of decoded curve lists.
pub open spec fn curves_view(v: Seq<Vec<CurvePrimitive>>) -> Seq<Seq<Seq<(int, int)>>> {
    v.map_values(|c: Vec<CurvePrimitive>| c@.map_values(|cp: CurvePrimitive| curve_points(cp)))
}

proof fn lemma_contour_ok_mono(pen: (int, int), segs: Seq<Segment>, k: nat, m: nat)
    requires
        k <= m,
        !spec_contour_ok(pen, segs, k),
    ensures
        !spec_contour_ok(pen, segs, m),
    decreases m,
{
    if m > k {
        lemma_contour_ok_mono(pen, segs, k, (m - 1) as nat);
    }
}

proof fn lemma_glyph_ok_mono(pen0: (int, int), cs: Seq<Contour>, k: nat, m: nat)
    requires
        k <= m,
        !spec_glyph_ok(pen0, cs, k),
    ensures
        !spec_glyph_ok(pen0, cs, m),
    decreases m,
{
    if m > k {
        lemma_glyph_ok_mono(pen0, cs, k, (m - 1) as nat);
    }
}

impl Glyph {
    /// Decode every contour into absolute curve primitives, threading the
    /// pen position across contour boundaries from the origin without ever
    /// resetting it. Fails only when an absolute coordinate leaves the
    /// accepted range.
    pub fn decode_contours(&self) -> (r: Result<Vec<Vec<CurvePrimitive>>, BuildError>)
        ensures
            match r {
                Ok(cv) => {
                    &&& spec_glyph_ok((0, 0), self.contours@, self.contours@.len())
                    &&& curves_view(cv@) == spec_glyph_curves(
                        (0, 0),
                        self.contours@,
                        self.contours@.len(),
                    )
                },
                Err(e) => {
                    &&& e == BuildError::CoordinateOverflow
                    &&& !spec_glyph_ok((0, 0), self.contours@, self.contours@.len())
                },
            },
    {
        let ghost cs = self.contours@;
        let mut out: Vec<Vec<CurvePrimitive>> = Vec::new();
        let mut pen = Point { x: 0, y: 0 };
        let mut i: usize = 0;
        proof {
            assert(curves_view(out@) =~= spec_glyph_curves((0, 0), cs, 0));
        }
        while i < self.contours.len()
            invariant
                i <= cs.len(),
                cs == self.contours@,
                out@.len() == i,
                pen@ == spec_pen_after_contours((0, 0), cs, i as nat),
                pt_in_coord(pen@),
                spec_glyph_ok((0, 0), cs, i as nat),
                curves_view(out@) == spec_glyph_curves((0, 0), cs, i as nat),
            decreases cs.len() - i,
        {
            let contour = &self.contours[i];
            let entry = match pen.checked_plus(contour.offset) {
                Some(p) => p,
                None => {
                    proof {
                        assert(!pt_in_coord(spec_entry_pen((0, 0), cs, i as int)));
                        assert(!spec_glyph_ok((0, 0), cs, (i + 1) as nat));
                        lemma_glyph_ok_mono((0, 0), cs, (i + 1) as nat, cs.len() as nat);
                    }
                    return Err(BuildError::CoordinateOverflow);
                },
            };
            if !point_ok(&entry) {
                proof {
                    assert(!pt_in_coord(spec_entry_pen((0, 0), cs, i as int)));
                    assert(!spec_glyph_ok((0, 0), cs, (i + 1) as nat));
                    lemma_glyph_ok_mono((0, 0), cs, (i + 1) as nat, cs.len() as nat);
                }
                return Err(BuildError::CoordinateOverflow);
            }
            let ghost epen = spec_entry_pen((0, 0), cs, i as int);
            let ghost segs = contour.segments@;
            let mut curves: Vec<CurvePrimitive> = Vec::new();
            let mut p = entry;
            let mut j: usize = 0;
            proof {
                assert(curves@.map_values(|cp: CurvePrimitive| curve_points(cp))
                    =~= spec_contour_curves(epen, segs, 0));
            }
            while j < contour.segments.len()
                invariant
                    j <= segs.len(),
                    cs == self.contours@,
                    segs == contour.segments@,
                    contour == &cs[i as int],
                    0 <= i < cs.len(),
                    epen == spec_entry_pen((0, 0), cs, i as int),
                    p@ == spec_pen_after_segs(epen, segs, j as nat),
                    pt_in_coord(p@),
                    spec_contour_ok(epen, segs, j as nat),
                    curves@.map_values(|cp: CurvePrimitive| curve_points(cp))
                        == spec_contour_curves(epen, segs, j as nat),
                decreases segs.len() - j,
            {
                match try_decode(&contour.segments[j], &p) {
                    Some((cp, np)) => {
                        let ghost before = curves@.map_values(
                            |c: CurvePrimitive| curve_points(c),
                        );
                        curves.push(cp);
                        p = np;
                        proof {
                            assert(curves@.map_values(|c: CurvePrimitive| curve_points(c))
                                =~= before.push(curve_points(cp)));
                        }
                    },
                    None => {
                        proof {
                            assert(!decode_in_coord(p@, segs[j as int]));
                            assert(!spec_contour_ok(epen, segs, (j + 1) as nat));
                            lemma_contour_ok_mono(epen, segs, (j + 1) as nat, segs.len() as nat);
                            assert(!spec_contour_ok(epen, segs, segs.len() as nat));
                            assert(segs == cs[i as int].segments@);
                            assert(!spec_glyph_ok((0, 0), cs, (i + 1) as nat));
                            lemma_glyph_ok_mono((0, 0), cs, (i + 1) as nat, cs.len() as nat);
                            assert(!spec_glyph_ok((0, 0), cs, cs.len()));
                            assert(cs.len() == self.contours@.len());
                        }
                        return Err(BuildError::CoordinateOverflow);
                    },
                }
                j += 1;
            }
            let ghost before_out = curves_view(out@);
            out.push(curves);
            pen = p;
            proof {
                assert(curves_view(out@) =~= before_out.push(
                    curves@.map_values(|c: CurvePrimitive| curve_points(c)),
                ));
                assert(curves_view(out@) =~= spec_glyph_curves((0, 0), cs, (i + 1) as nat));
            }
            i += 1;
        }
        Ok(out)
    }
}

/// Entering a later contour, the pen is the previous contour's final
/// position plus that contour's leading offset — never the origin plus
/// the offset alone: the first absolute point of contour `i`'s first
/// decoded curve shows the threaded pen.
pub proof fn lemma_pen_threading(pen0: (int, int), cs: Seq<Contour>, i: int)
    requires
        0 <= i < cs.len(),
        cs[i].segments@.len() > 0,
    ensures
        spec_glyph_curves(pen0, cs, cs.len())[i][0][0] == shifted(
            spec_pen_after_contours(pen0, cs, i as nat),
            cs[i].offset,
        ),
{
    lemma_glyph_curves_index(pen0, cs, i, cs.len() as nat);
    let epen = spec_entry_pen(pen0, cs, i);
    let segs = cs[i].segments@;
    lemma_contour_curves_first(epen, segs, segs.len() as nat);
}

/// Indexing into the curves of the first `k` contours reaches the curves
/// decoded from that contour's entry pen.
proof fn lemma_glyph_curves_index(pen0: (int, int), cs: Seq<Contour>, i: int, k: nat)
    requires
        0 <= i < k <= cs.len(),
    ensures
        spec_glyph_curves(pen0, cs, k).len() == k,
        spec_glyph_curves(pen0, cs, k)[i] == spec_contour_curves(
            spec_entry_pen(pen0, cs, i),
            cs[i].segments@,
            cs[i].segments@.len(),
        ),
    decreases k,
{
    if k > 0 && i < k - 1 {
        lemma_glyph_curves_index(pen0, cs, i, (k - 1) as nat);
    } else if k > 0 {
        lemma_glyph_curves_len(pen0, cs, (k - 1) as nat);
    }
}

proof fn lemma_glyph_curves_len(pen0: (int, int), cs: Seq<Contour>, k: nat)
    ensures
        spec_glyph_curves(pen0, cs, k).len() == k,
    decreases k,
{
    if k > 0 {
        lemma_glyph_curves_len(pen0, cs, (k - 1) as nat);
    }
}

/// A contour's first decoded curve starts at the contour's entry pen.
proof fn lemma_contour_curves_first(pen: (int, int), segs: Seq<Segment>, k: nat)
    requires
        k >= 1,
    ensures
        spec_contour_curves(pen, segs, k).len() == k,
        spec_contour_curves(pen, segs, k)[0][0] == pen,
    decreases k,
{
    if k == 1 {
        let d = spec_decode(pen, segs[0]);
        assert(spec_pen_after_segs(pen, segs, 0) == pen);
        assert(spec_contour_curves(pen, segs, 0) =~= Seq::<Seq<(int, int)>>::empty());
        assert(spec_contour_curves(pen, segs, 1) =~= Seq::<Seq<(int, int)>>::empty().push(d));
        assert(spec_contour_curves(pen, segs, 1)[0] == d);
        match segs[0] {
            Segment::Linear(_) => {
                assert(d[0] == pen);
            },
            Segment::Quadratic(_, _) => {
                assert(d[0] == pen);
            },
            Segment::Cubic(_, _, _) => {
                assert(d[0] == pen);
            },
        }
    } else {
        lemma_contour_curves_first(pen, segs, (k - 1) as nat);
    }
}

} // verus!

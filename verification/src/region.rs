use crate::arith::lemma_abs_mul_bound;
use crate::error::BuildError;
use crate::flatten::contours_coords;
use crate::point::{coords_of, Point, CONTOUR_POINTS_MAX};
use crate::transform::{out_in_range, PT_OUT_MAX};
use vstd::prelude::*;

verus! {

/// Twice one cross-product term of the shoelace sum.
pub const CROSS_MAX: i128 = 0x8000_0000_0000_0000_0000_0000;

/// The signed traversal direction of a closed polygon.
#[derive(Clone, Copy, Debug, PartialEq, Eq, Structural)]
pub enum Winding {
    CounterClockwise,
    Clockwise,
}

/// A filled planar area: a closed exterior boundary plus zero or more
/// interior hole boundaries. Boundaries are stored in the reversed
/// traversal direction the downstream geometry representation expects.
#[derive(Debug, PartialEq, Eq)]
pub struct Region {
    pub exterior: Vec<Point>,
    pub holes: Vec<Vec<Point>>,
}

/// The mathematical content of a `Region`: its boundary coordinate
/// sequences.
#[verifier::ext_equal]
pub ghost struct RegionView {
    pub exterior: Seq<(int, int)>,
    pub holes: Seq<Seq<(int, int)>>,
}

impl View for Region {
    type V = RegionView;

    open spec fn view(&self) -> RegionView {
        RegionView {
            exterior: coords_of(self.exterior@),
            holes: self.holes@.map_values(|h: Vec<Point>| coords_of(h@)),
        }
    }
}

pub open spec fn regions_view(s: Seq<Region>) -> Seq<RegionView> {
    s.map_values(|r: Region| r@)
}

/// The cross product of two points taken as vectors from the origin.
pub open spec fn cross(p: (int, int), q: (int, int)) -> int {
    p.0 * q.1 - q.0 * p.1
}

/// The cross terms of the consecutive edges `s[i] -> s[i + 1]` for
/// `a <= i < b`.
pub open spec fn edge_sum(s: Seq<(int, int)>, a: int, b: int) -> int
    decreases b - a,
{
    if a < b {
        cross(s[a], s[a + 1]) + edge_sum(s, a + 1, b)
    } else {
        0
    }
}

/// Twice the signed (shoelace) area of the closed polygon through `s`.
pub open spec fn signed_area2(s: Seq<(int, int)>) -> int {
    if s.len() < 2 {
        0
    } else {
        edge_sum(s, 0, s.len() - 1) + cross(s[s.len() - 1], s[0])
    }
}

/// A contour is clockwise exactly when its signed area is negative; a
/// degenerate zero-area contour counts as counter-clockwise, so it is
/// kept as an exterior rather than rejected.
pub open spec fn spec_winding(s: Seq<(int, int)>) -> Winding {
    if signed_area2(s) < 0 {
        Winding::Clockwise
    } else {
        Winding::CounterClockwise
    }
}

proof fn lemma_edge_sum_snoc(s: Seq<(int, int)>, a: int, b: int)
    requires
        0 <= a <= b,
    ensures
        edge_sum(s, a, b + 1) == edge_sum(s, a, b) + cross(s[b], s[b + 1]),
    decreases b - a,
{
    if a < b {
        lemma_edge_sum_snoc(s, a + 1, b);
    } else {
        assert(edge_sum(s, a, b + 1) == cross(s[a], s[a + 1]) + edge_sum(s, a + 1, b + 1));
        assert(edge_sum(s, a + 1, b + 1) == 0);
        assert(edge_sum(s, a, b) == 0);
    }
}

proof fn lemma_rev_edge_sum(s: Seq<(int, int)>, k: int)
    requires
        s.len() >= 1,
        0 <= k <= s.len() - 1,
    ensures
        edge_sum(s.reverse(), 0, k) == -edge_sum(s, s.len() - 1 - k, s.len() - 1),
    decreases k,
{
    let n = s.len() as int;
    let rev = s.reverse();
    if k > 0 {
        lemma_rev_edge_sum(s, k - 1);
        lemma_edge_sum_snoc(rev, 0, k - 1);
        assert(rev[k - 1] == s[n - k]);
        assert(rev[k] == s[n - 1 - k]);
        assert(cross(rev[k - 1], rev[k]) == -cross(s[n - 1 - k], s[n - k]));
        assert(edge_sum(s, n - 1 - k, n - 1) == cross(s[n - 1 - k], s[n - k]) + edge_sum(
            s,
            n - k,
            n - 1,
        ));
    }
}

/// Reversing a closed contour negates its signed area, so a contour whose
/// traversal is counter-clockwise classifies as an exterior while the same
/// points in the opposite order classify as a clockwise hole.
pub proof fn lemma_reverse_flips_winding(s: Seq<(int, int)>)
    ensures
        signed_area2(s.reverse()) == -signed_area2(s),
        signed_area2(s) > 0 ==> spec_winding(s) == Winding::CounterClockwise && spec_winding(
            s.reverse(),
        ) == Winding::Clockwise,
        signed_area2(s) < 0 ==> spec_winding(s) == Winding::Clockwise && spec_winding(s.reverse())
            == Winding::CounterClockwise,
    decreases s.len(),
{
    let n = s.len() as int;
    let rev = s.reverse();
    if n < 2 {
        assert(signed_area2(rev) == 0);
    } else {
        lemma_rev_edge_sum(s, n - 1);
        assert(rev[n - 1] == s[0]);
        assert(rev[0] == s[n - 1]);
        assert(cross(rev[n - 1], rev[0]) == cross(s[0], s[n - 1]));
        assert(cross(s[0], s[n - 1]) == -cross(s[n - 1], s[0]));
    }
}

/// A copy of the point list in the opposite traversal order.
pub fn reversed(v: &Vec<Point>) -> (r: Vec<Point>)
    ensures
        coords_of(r@) == coords_of(v@).reverse(),
        r@.len() == v@.len(),
{
    let mut out: Vec<Point> = Vec::new();
    let mut i: usize = v.len();
    while i > 0
        invariant
            i <= v.len(),
            out@.len() == v@.len() - i,
            forall|j: int| 0 <= j < out@.len() ==> #[trigger] out@[j]@ == v@[v@.len() - 1 - j]@,
        decreases i,
    {
        i -= 1;
        out.push(v[i]);
    }
    proof {
        assert(coords_of(out@) =~= coords_of(v@).reverse());
    }
    out
}

/// Twice the signed area of the closed polygon through the points.
pub fn signed_area2_i128(v: &Vec<Point>) -> (r: i128)
    requires
        forall|j: int| 0 <= j < v@.len() ==> out_in_range(#[trigger] v@[j]@),
        v@.len() <= CONTOUR_POINTS_MAX,
    ensures
        r as int == signed_area2(coords_of(v@)),
{
    let ghost cs = coords_of(v@);
    let n = v.len();
    if n < 2 {
        return 0;
    }
    let mut sum: i128 = 0;
    let mut i: usize = 0;
    while i < n - 1
        invariant
            2 <= n == v@.len() <= CONTOUR_POINTS_MAX,
            i <= n - 1,
            cs == coords_of(v@),
            forall|j: int| 0 <= j < v@.len() ==> out_in_range(#[trigger] v@[j]@),
            sum as int == edge_sum(cs, 0, i as int),
            -(i as int) * CROSS_MAX <= sum as int <= (i as int) * CROSS_MAX,
        decreases n - 1 - i,
    {
        let p = v[i];
        let q = v[i + 1];
        proof {
            assert(out_in_range(v@[i as int]@));
            assert(out_in_range(v@[i + 1]@));
            lemma_abs_mul_bound(p.x as int, q.y as int, PT_OUT_MAX as int, PT_OUT_MAX as int);
            lemma_abs_mul_bound(q.x as int, p.y as int, PT_OUT_MAX as int, PT_OUT_MAX as int);
            lemma_edge_sum_snoc(cs, 0, i as int);
            assert(cs[i as int] == v@[i as int]@);
            assert(cs[i + 1] == v@[i + 1]@);
        }
        let c = (p.x as i128) * (q.y as i128) - (q.x as i128) * (p.y as i128);
        sum = sum + c;
        i += 1;
    }
    let p = v[n - 1];
    let q = v[0];
    proof {
        assert(out_in_range(v@[n - 1]@));
        assert(out_in_range(v@[0]@));
        lemma_abs_mul_bound(p.x as int, q.y as int, PT_OUT_MAX as int, PT_OUT_MAX as int);
        lemma_abs_mul_bound(q.x as int, p.y as int, PT_OUT_MAX as int, PT_OUT_MAX as int);
        assert(cs[n - 1] == v@[n - 1]@);
        assert(cs[0] == v@[0]@);
    }
    let c = (p.x as i128) * (q.y as i128) - (q.x as i128) * (p.y as i128);
    sum + c
}

/// Classify a contour by the sign of its shoelace area.
pub fn winding(v: &Vec<Point>) -> (r: Winding)
    requires
        forall|j: int| 0 <= j < v@.len() ==> out_in_range(#[trigger] v@[j]@),
        v@.len() <= CONTOUR_POINTS_MAX,
    ensures
        r == spec_winding(coords_of(v@)),
{
    if signed_area2_i128(v) < 0 {
        Winding::Clockwise
    } else {
        Winding::CounterClockwise
    }
}

/// One step of the hole-attachment policy: a clockwise contour becomes an
/// interior ring of the first accumulated region (or fails when none
/// exists); a counter-clockwise contour is appended as a new exterior.
/// The stored boundary is the reversed point order.
pub open spec fn spec_attach(acc: Seq<RegionView>, pts: Seq<(int, int)>) -> Option<
    Seq<RegionView>,
> {
    let rev = pts.reverse();
    if spec_winding(pts) == Winding::Clockwise {
        if acc.len() == 0 {
            None
        } else {
            Some(
                acc.update(
                    0,
                    RegionView { exterior: acc[0].exterior, holes: acc[0].holes.push(rev) },
                ),
            )
        }
    } else {
        Some(acc.push(RegionView { exterior: rev, holes: Seq::empty() }))
    }
}

/// The regions assembled from the first `k` transformed contours, or
/// `None` when a clockwise contour arrived before any exterior existed.
pub open spec fn spec_assemble_take(cs: Seq<Seq<(int, int)>>, k: nat) -> Option<Seq<RegionView>>
    decreases k,
{
    if k == 0 {
        Some(Seq::empty())
    } else {
        match spec_assemble_take(cs, (k - 1) as nat) {
            None => None,
            Some(acc) => spec_attach(acc, cs[k - 1]),
        }
    }
}

pub open spec fn spec_assemble(cs: Seq<Seq<(int, int)>>) -> Option<Seq<RegionView>> {
    spec_assemble_take(cs, cs.len())
}

proof fn lemma_assemble_none(cs: Seq<Seq<(int, int)>>, k: nat, m: nat)
    requires
        k <= m,
        spec_assemble_take(cs, k) is None,
    ensures
        spec_assemble_take(cs, m) is None,
    decreases m,
{
    if m > k {
        lemma_assemble_none(cs, k, (m - 1) as nat);
    }
}

/// Assemble the transformed contours, in input order, into regions: each
/// clockwise contour becomes a hole of the first region accumulated so
/// far, each counter-clockwise contour a new exterior region.
pub fn assemble_regions(polys: &Vec<Vec<Point>>) -> (r: Result<Vec<Region>, BuildError>)
    requires
        forall|i: int, j: int|
            0 <= i < polys@.len() && 0 <= j < polys@[i]@.len() ==> out_in_range(
                #[trigger] polys@[i]@[j]@,
            ),
        forall|i: int| 0 <= i < polys@.len() ==> #[trigger] polys@[i]@.len() <= CONTOUR_POINTS_MAX,
    ensures
        match r {
            Ok(regs) => spec_assemble(contours_coords(polys@)) == Some(regions_view(regs@)),
            Err(e) => e == BuildError::HoleBeforeExterior && spec_assemble(
                contours_coords(polys@),
            ) is None,
        },
{
    let ghost cs = contours_coords(polys@);
    let mut regs: Vec<Region> = Vec::new();
    let mut i: usize = 0;
    proof {
        assert(regions_view(regs@) =~= Seq::<RegionView>::empty());
    }
    while i < polys.len()
        invariant
            i <= polys@.len(),
            cs == contours_coords(polys@),
            forall|k: int, j: int|
                0 <= k < polys@.len() && 0 <= j < polys@[k]@.len() ==> out_in_range(
                    #[trigger] polys@[k]@[j]@,
                ),
            forall|k: int|
                0 <= k < polys@.len() ==> #[trigger] polys@[k]@.len() <= CONTOUR_POINTS_MAX,
            spec_assemble_take(cs, i as nat) == Some(regions_view(regs@)),
        decreases polys@.len() - i,
    {
        let pts = &polys[i];
        proof {
            assert(cs[i as int] == coords_of(pts@));
        }
        let w = winding(pts);
        let rev = reversed(pts);
        let ghost acc = regions_view(regs@);
        if w == Winding::Clockwise {
            if regs.len() == 0 {
                proof {
                    assert(spec_assemble_take(cs, (i + 1) as nat) is None);
                    lemma_assemble_none(cs, (i + 1) as nat, cs.len() as nat);
                }
                return Err(BuildError::HoleBeforeExterior);
            }
            let mut first = regs.remove(0);
            first.holes.push(rev);
            regs.insert(0, first);
            proof {
                let updated = RegionView {
                    exterior: acc[0].exterior,
                    holes: acc[0].holes.push(coords_of(pts@).reverse()),
                };
                assert(first@.holes =~= updated.holes);
                assert(first@ =~~= updated);
                assert(regions_view(regs@) =~~= acc.update(0, updated));
                assert(spec_assemble_take(cs, (i + 1) as nat) == Some(regions_view(regs@)));
            }
        } else {
            let reg = Region { exterior: rev, holes: Vec::new() };
            proof {
                assert(reg@.holes =~= Seq::<Seq<(int, int)>>::empty());
                assert(reg@ =~~= (RegionView {
                    exterior: coords_of(pts@).reverse(),
                    holes: Seq::empty(),
                }));
            }
            regs.push(reg);
            proof {
                assert(regions_view(regs@) =~~= acc.push(
                    RegionView { exterior: coords_of(pts@).reverse(), holes: Seq::empty() },
                ));
            }
        }
        i += 1;
    }
    Ok(regs)
}

} // verus!

use crate::point::{coords_of, in_coord, pt_in_coord, Point};
use vstd::prelude::*;

verus! {

/// Append a point unless it is already present anywhere in the sequence.
pub open spec fn dedup_push(s: Seq<(int, int)>, p: (int, int)) -> Seq<(int, int)> {
    if s.contains(p) {
        s
    } else {
        s.push(p)
    }
}

/// The de-duplicated sequence built from the first `k` points of `t`,
/// in order of first appearance.
pub open spec fn dedup_take(t: Seq<(int, int)>, k: nat) -> Seq<(int, int)>
    decreases k,
{
    if k == 0 {
        Seq::empty()
    } else {
        dedup_push(dedup_take(t, (k - 1) as nat), t[k - 1])
    }
}

/// A contour's flattened point list: every sampled point in order, with a
/// point already present anywhere in the list not re-appended.
pub open spec fn spec_flatten(t: Seq<(int, int)>) -> Seq<(int, int)> {
    dedup_take(t, t.len())
}

pub open spec fn contours_coords(cs: Seq<Vec<Point>>) -> Seq<Seq<(int, int)>> {
    cs.map_values(|v: Vec<Point>| coords_of(v@))
}

/// De-duplication only keeps points that were in the input, so it
/// preserves the coordinate bound.
pub proof fn lemma_dedup_in_coord(t: Seq<(int, int)>, k: nat)
    requires
        k <= t.len(),
        forall|i: int| 0 <= i < t.len() ==> pt_in_coord(#[trigger] t[i]),
    ensures
        forall|j: int|
            0 <= j < dedup_take(t, k).len() ==> pt_in_coord(#[trigger] dedup_take(t, k)[j]),
    decreases k,
{
    if k > 0 {
        lemma_dedup_in_coord(t, (k - 1) as nat);
        let prev = dedup_take(t, (k - 1) as nat);
        assert forall|j: int| 0 <= j < dedup_take(t, k).len() implies pt_in_coord(
            #[trigger] dedup_take(t, k)[j],
        ) by {
            if !prev.contains(t[k - 1]) && j == prev.len() {
                assert(dedup_take(t, k)[j] == t[k - 1]);
            } else {
                assert(dedup_take(t, k)[j] == prev[j]);
            }
        }
    }
}

/// Sanity of a running extrema accumulator: coordinates in range and the
/// minimum no greater than the maximum.
pub open spec fn ext_wf(acc: Option<(int, int)>) -> bool {
    match acc {
        None => true,
        Some((lo, hi)) => in_coord(lo) && in_coord(hi) && lo <= hi,
    }
}

pub proof fn lemma_ext_list_bounds(ps: Seq<(int, int)>, k: nat, acc: Option<(int, int)>)
    requires
        k <= ps.len(),
        forall|i: int| 0 <= i < ps.len() ==> pt_in_coord(#[trigger] ps[i]),
        ext_wf(acc),
    ensures
        ext_wf(ext_list_take(ps, k, acc)),
    decreases k,
{
    if k > 0 {
        lemma_ext_list_bounds(ps, (k - 1) as nat, acc);
    }
}

pub proof fn lemma_ext_all_bounds(cs: Seq<Seq<(int, int)>>, k: nat, acc: Option<(int, int)>)
    requires
        k <= cs.len(),
        forall|i: int, j: int|
            0 <= i < cs.len() && 0 <= j < cs[i].len() ==> pt_in_coord(#[trigger] cs[i][j]),
        ext_wf(acc),
    ensures
        ext_wf(ext_all_take(cs, k, acc)),
    decreases k,
{
    if k > 0 {
        lemma_ext_all_bounds(cs, (k - 1) as nat, acc);
        lemma_ext_list_bounds(cs[k - 1], cs[k - 1].len(), ext_all_take(cs, (k - 1) as nat, acc));
    }
}

/// Whether a point is already present in the list.
pub fn contains_point(v: &Vec<Point>, p: Point) -> (r: bool)
    ensures
        r == coords_of(v@).contains(p@),
{
    let mut i: usize = 0;
    while i < v.len()
        invariant
            i <= v.len(),
            forall|j: int| 0 <= j < i ==> coords_of(v@)[j] != p@,
        decreases v.len() - i,
    {
        if v[i].x == p.x && v[i].y == p.y {
            proof {
                assert(coords_of(v@)[i as int] == p@);
            }
            return true;
        }
        i += 1;
    }
    proof {
        assert(!coords_of(v@).contains(p@)) by {
            if coords_of(v@).contains(p@) {
                let j = choose|j: int| 0 <= j < coords_of(v@).len() && coords_of(v@)[j] == p@;
                assert(coords_of(v@)[j] != p@);
            }
        }
    }
    false
}

/// Merge a contour's raw sampled points, in order, suppressing any point
/// that already appears earlier in the merged list.
pub fn flatten_contour(raw: &Vec<Point>) -> (r: Vec<Point>)
    ensures
        coords_of(r@) == spec_flatten(coords_of(raw@)),
        r@.len() <= raw@.len(),
{
    let mut res: Vec<Point> = Vec::new();
    let ghost t = coords_of(raw@);
    proof {
        assert(coords_of(res@) =~= dedup_take(t, 0));
    }
    let mut i: usize = 0;
    while i < raw.len()
        invariant
            i <= raw.len(),
            t == coords_of(raw@),
            coords_of(res@) == dedup_take(t, i as nat),
            res@.len() <= i,
        decreases raw.len() - i,
    {
        let p = raw[i];
        proof {
            assert(t[i as int] == p@);
        }
        if !contains_point(&res, p) {
            let ghost before = coords_of(res@);
            res.push(p);
            proof {
                assert(coords_of(res@) =~= before.push(p@));
                assert(coords_of(res@) =~= dedup_take(t, (i + 1) as nat));
            }
        } else {
            proof {
                assert(coords_of(res@) =~= dedup_take(t, (i + 1) as nat));
            }
        }
        i += 1;
    }
    proof {
        assert(coords_of(res@) =~= spec_flatten(coords_of(raw@)));
    }
    res
}

/// Flatten every contour's raw sample list.
pub fn flatten_all(samples: &Vec<Vec<Point>>) -> (r: Vec<Vec<Point>>)
    ensures
        r@.len() == samples@.len(),
        forall|i: int|
            0 <= i < r@.len() ==> coords_of(#[trigger] r@[i]@) == spec_flatten(
                coords_of(samples@[i]@),
            ),
        forall|i: int| 0 <= i < r@.len() ==> #[trigger] r@[i]@.len() <= samples@[i]@.len(),
{
    let mut res: Vec<Vec<Point>> = Vec::new();
    let mut i: usize = 0;
    while i < samples.len()
        invariant
            i <= samples.len(),
            res@.len() == i,
            forall|j: int|
                0 <= j < i ==> coords_of(#[trigger] res@[j]@) == spec_flatten(
                    coords_of(samples@[j]@),
                ),
            forall|j: int| 0 <= j < i ==> #[trigger] res@[j]@.len() <= samples@[j]@.len(),
        decreases samples.len() - i,
    {
        let f = flatten_contour(&samples[i]);
        res.push(f);
        i += 1;
    }
    res
}

/// Fold one point's height into the running vertical extrema.
pub open spec fn ext_pt(acc: Option<(int, int)>, p: (int, int)) -> Option<(int, int)> {
    match acc {
        None => Some((p.1, p.1)),
        Some((lo, hi)) => Some(
            (
                if p.1 < lo {
                    p.1
                } else {
                    lo
                },
                if p.1 > hi {
                    p.1
                } else {
                    hi
                },
            ),
        ),
    }
}

pub open spec fn ext_list_take(ps: Seq<(int, int)>, k: nat, acc: Option<(int, int)>) -> Option<
    (int, int),
>
    decreases k,
{
    if k == 0 {
        acc
    } else {
        ext_pt(ext_list_take(ps, (k - 1) as nat, acc), ps[k - 1])
    }
}

pub open spec fn ext_all_take(
    cs: Seq<Seq<(int, int)>>,
    k: nat,
    acc: Option<(int, int)>,
) -> Option<(int, int)>
    decreases k,
{
    if k == 0 {
        acc
    } else {
        ext_list_take(cs[k - 1], cs[k - 1].len(), ext_all_take(cs, (k - 1) as nat, acc))
    }
}

/// The least and greatest sampled height across all flattened contours,
/// or `None` when the glyph has no sampled points at all.
pub open spec fn spec_extrema(cs: Seq<Seq<(int, int)>>) -> Option<(int, int)> {
    ext_all_take(cs, cs.len(), None)
}

/// Scan every contour's points for the vertical extrema.
pub fn extrema(contours: &Vec<Vec<Point>>) -> (r: Option<(i64, i64)>)
    ensures
        match r {
            None => spec_extrema(contours_coords(contours@)) is None,
            Some((lo, hi)) => spec_extrema(contours_coords(contours@)) == Some(
                (lo as int, hi as int),
            ),
        },
{
    let ghost cs = contours_coords(contours@);
    let mut acc: Option<(i64, i64)> = None;
    let mut i: usize = 0;
    while i < contours.len()
        invariant
            i <= contours.len(),
            cs == contours_coords(contours@),
            match acc {
                None => ext_all_take(cs, i as nat, None) is None,
                Some((lo, hi)) => ext_all_take(cs, i as nat, None) == Some((lo as int, hi as int)),
            },
        decreases contours.len() - i,
    {
        let ghost acc_in = match acc {
            None => None,
            Some((lo, hi)) => Some((lo as int, hi as int)),
        };
        let ps = &contours[i];
        proof {
            assert(cs[i as int] == coords_of(ps@));
        }
        let mut j: usize = 0;
        while j < ps.len()
            invariant
                j <= ps.len(),
                cs == contours_coords(contours@),
                0 <= i < contours@.len(),
                ps == &contours@[i as int],
                cs[i as int] == coords_of(ps@),
                match acc {
                    None => ext_list_take(cs[i as int], j as nat, acc_in) is None,
                    Some((lo, hi)) => ext_list_take(cs[i as int], j as nat, acc_in) == Some(
                        (lo as int, hi as int),
                    ),
                },
            decreases ps.len() - j,
        {
            let y = ps[j].y;
            proof {
                assert(cs[i as int][j as int] == ps@[j as int]@);
            }
            acc = match acc {
                None => Some((y, y)),
                Some((lo, hi)) => Some(
                    (
                        if y < lo {
                            y
                        } else {
                            lo
                        },
                        if y > hi {
                            y
                        } else {
                            hi
                        },
                    ),
                ),
            };
            j += 1;
        }
        proof {
            assert(ext_list_take(cs[i as int], cs[i as int].len(), acc_in) == ext_all_take(
                cs,
                (i + 1) as nat,
                None,
            ));
        }
        i += 1;
    }
    acc
}

} // verus!

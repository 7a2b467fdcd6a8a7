use crate::arith::{div_floor_i64, lemma_abs_mul_bound, lemma_div_bound};
use crate::point::{coords_of, in_coord, pt_in_coord, Point, COORD_MAX, FP};
use vstd::arithmetic::div_mod::{
    lemma_div_is_ordered, lemma_div_is_ordered_by_denominator, lemma_div_multiples_vanish,
    lemma_div_pos_is_pos,
};
use vstd::arithmetic::mul::lemma_mul_inequality;
use vstd::prelude::*;

verus! {

/// Default samples per curve handed to the curve sampler.
pub const DEFAULT_RESOLUTION: usize = 5;

/// Half of `FP`, so that halved shifts stay exact.
pub const HALF_FP: i64 = 32768;

/// Largest accepted target height, in `FP` sub-units.
pub const HEIGHT_MAX: i64 = 16777216;

/// Largest accepted translation magnitude, in `FP` sub-units.
pub const TRANS_MAX: i64 = 68719476736;

/// Every transformed coordinate stays within this magnitude.
pub const PT_OUT_MAX: i64 = 140737488355328;

/// Horizontal reference edge aligned with `x = 0`, measured against the
/// glyph's advance width.
#[derive(Clone, Copy, Debug, PartialEq, Eq, Structural)]
pub enum HorizontalAlignment {
    Left,
    Center,
    Right,
}

/// Vertical reference line aligned with `y = 0`, measured against the
/// glyph's bounding-box height.
#[derive(Clone, Copy, Debug, PartialEq, Eq, Structural)]
pub enum VerticalAlignment {
    Bottom,
    Middle,
    Top,
}

/// Build-time configuration: rotation about the origin, alignment shifts,
/// uniform scale to a target height, translation, and sample resolution.
///
/// Angles are carried as a fixed-point cosine and sine pair in `FP`
/// sub-units; heights and translations are in `FP` sub-units as well.
#[derive(Clone, Copy, Debug, PartialEq, Eq, Structural)]
pub struct AlignmentConfig {
    pub horizontal: HorizontalAlignment,
    pub vertical: VerticalAlignment,
    /// Cosine of the rotation angle, in `FP` sub-units.
    pub rot_cos: i64,
    /// Sine of the rotation angle, in `FP` sub-units.
    pub rot_sin: i64,
    /// Target height of the scaled glyph, in `FP` sub-units.
    pub target_height: i64,
    /// Translation added after scaling, in `FP` sub-units.
    pub translate_x: i64,
    pub translate_y: i64,
    /// Samples per curve handed to the curve sampler.
    pub resolution: usize,
}

/// The bounds every build requires of its configuration.
pub open spec fn config_wf(cfg: AlignmentConfig) -> bool {
    &&& -(FP as int) <= cfg.rot_cos <= FP as int
    &&& -(FP as int) <= cfg.rot_sin <= FP as int
    &&& 1 <= cfg.target_height <= HEIGHT_MAX as int
    &&& -(TRANS_MAX as int) <= cfg.translate_x <= TRANS_MAX as int
    &&& -(TRANS_MAX as int) <= cfg.translate_y <= TRANS_MAX as int
    &&& cfg.resolution >= 1
}

/// The documented defaults: left- and bottom-aligned, no rotation,
/// target height one unit, no translation, five samples per curve.
pub open spec fn spec_default_config() -> AlignmentConfig {
    AlignmentConfig {
        horizontal: HorizontalAlignment::Left,
        vertical: VerticalAlignment::Bottom,
        rot_cos: FP,
        rot_sin: 0,
        target_height: FP,
        translate_x: 0,
        translate_y: 0,
        resolution: DEFAULT_RESOLUTION,
    }
}

impl AlignmentConfig {
    /// The documented defaults: left- and bottom-aligned, no rotation,
    /// target height one unit, no translation, five samples per curve.
    pub fn new() -> (r: Self)
        ensures
            r == spec_default_config(),
            config_wf(r),
    {
        AlignmentConfig {
            horizontal: HorizontalAlignment::Left,
            vertical: VerticalAlignment::Bottom,
            rot_cos: FP,
            rot_sin: 0,
            target_height: FP,
            translate_x: 0,
            translate_y: 0,
            resolution: DEFAULT_RESOLUTION,
        }
    }

    pub fn with_horizontal(self, h: HorizontalAlignment) -> (r: Self)
        ensures
            r == (AlignmentConfig { horizontal: h, ..self }),
    {
        AlignmentConfig { horizontal: h, ..self }
    }

    pub fn with_vertical(self, v: VerticalAlignment) -> (r: Self)
        ensures
            r == (AlignmentConfig { vertical: v, ..self }),
    {
        AlignmentConfig { vertical: v, ..self }
    }

    /// Set the rotation as a fixed-point cosine and sine pair.
    pub fn with_rotation(self, rot_cos: i64, rot_sin: i64) -> (r: Self)
        ensures
            r == (AlignmentConfig { rot_cos, rot_sin, ..self }),
    {
        AlignmentConfig { rot_cos, rot_sin, ..self }
    }

    pub fn with_target_height(self, target_height: i64) -> (r: Self)
        ensures
            r == (AlignmentConfig { target_height, ..self }),
    {
        AlignmentConfig { target_height, ..self }
    }

    pub fn with_translation(self, translate_x: i64, translate_y: i64) -> (r: Self)
        ensures
            r == (AlignmentConfig { translate_x, translate_y, ..self }),
    {
        AlignmentConfig { translate_x, translate_y, ..self }
    }

    pub fn with_resolution(self, resolution: usize) -> (r: Self)
        ensures
            r == (AlignmentConfig { resolution, ..self }),
    {
        AlignmentConfig { resolution, ..self }
    }
}

/// Whether a configuration is within the bounds every build requires.
pub fn config_ok(cfg: &AlignmentConfig) -> (r: bool)
    ensures
        r == config_wf(*cfg),
{
    -FP <= cfg.rot_cos && cfg.rot_cos <= FP && -FP <= cfg.rot_sin && cfg.rot_sin <= FP
        && 1 <= cfg.target_height && cfg.target_height <= HEIGHT_MAX && -TRANS_MAX
        <= cfg.translate_x && cfg.translate_x <= TRANS_MAX && -TRANS_MAX <= cfg.translate_y
        && cfg.translate_y <= TRANS_MAX && cfg.resolution >= 1
}

/// The horizontal shift subtracted from rotated points, in `FP` sub-units:
/// nothing, half the advance width, or the whole advance width.
pub open spec fn spec_hshift(cfg: AlignmentConfig, aw: int) -> int {
    match cfg.horizontal {
        HorizontalAlignment::Left => 0,
        HorizontalAlignment::Center => aw * HALF_FP,
        HorizontalAlignment::Right => aw * FP,
    }
}

/// The vertical shift subtracted from rotated points, in `FP` sub-units,
/// measured against the glyph's own bounding-box height.
pub open spec fn spec_vshift(cfg: AlignmentConfig, y0: int, y1: int) -> int {
    match cfg.vertical {
        VerticalAlignment::Bottom => 0,
        VerticalAlignment::Middle => (y1 - y0) * HALF_FP,
        VerticalAlignment::Top => (y1 - y0) * FP,
    }
}

/// Rotation about the origin by the fixed-point cosine and sine pair,
/// with flooring division back into `FP` sub-units.
pub open spec fn spec_rotate(p: (int, int), c: int, s: int) -> (int, int) {
    ((p.0 * c - p.1 * s) / (FP as int), (p.0 * s + p.1 * c) / (FP as int))
}

/// Uniform scale by `target / span`, where `span` is in font units, with
/// flooring division.
pub open spec fn spec_scale(v: int, target: int, span: int) -> int {
    (v * target) / (span * FP)
}

/// One point through the whole transform, in this fixed order: into `FP`
/// sub-units, rotation, alignment shifts, scale (skipped when the sampled
/// vertical span is absent or zero), translation.
pub open spec fn spec_transform_point(
    p: (int, int),
    cfg: AlignmentConfig,
    aw: int,
    y0: int,
    y1: int,
    span: Option<int>,
) -> (int, int) {
    let pf = (p.0 * FP, p.1 * FP);
    let pr = spec_rotate(pf, cfg.rot_cos as int, cfg.rot_sin as int);
    let px = pr.0 - spec_hshift(cfg, aw);
    let py = pr.1 - spec_vshift(cfg, y0, y1);
    let (pzx, pzy) = match span {
        Some(sp) => (
            spec_scale(px, cfg.target_height as int, sp),
            spec_scale(py, cfg.target_height as int, sp),
        ),
        None => (px, py),
    };
    (pzx + cfg.translate_x, pzy + cfg.translate_y)
}

/// One contour through the transform, pointwise.
pub open spec fn spec_transform_contour(
    ps: Seq<(int, int)>,
    cfg: AlignmentConfig,
    aw: int,
    y0: int,
    y1: int,
    span: Option<int>,
) -> Seq<(int, int)> {
    ps.map_values(|q: (int, int)| spec_transform_point(q, cfg, aw, y0, y1, span))
}

/// Every contour through the transform, pointwise.
pub open spec fn spec_transform_all(
    cs: Seq<Seq<(int, int)>>,
    cfg: AlignmentConfig,
    aw: int,
    y0: int,
    y1: int,
    span: Option<int>,
) -> Seq<Seq<(int, int)>> {
    cs.map_values(|ps: Seq<(int, int)>| spec_transform_contour(ps, cfg, aw, y0, y1, span))
}

pub open spec fn out_in_range(p: (int, int)) -> bool {
    &&& -(PT_OUT_MAX as int) <= p.0 <= PT_OUT_MAX as int
    &&& -(PT_OUT_MAX as int) <= p.1 <= PT_OUT_MAX as int
}

pub open spec fn spec_span(span: Option<i64>) -> Option<int> {
    match span {
        Some(v) => Some(v as int),
        None => None,
    }
}

pub open spec fn span_wf(span: Option<i64>) -> bool {
    match span {
        Some(v) => 1 <= v as int <= 2 * COORD_MAX as int,
        None => true,
    }
}

/// Rotate one `FP`-scaled coordinate pair: `(a * c - b * s) / FP`.
fn rotate_coord(a: i64, b: i64, c: i64, s: i64) -> (r: i64)
    requires
        -0x10_0000_0000 <= a as int <= 0x10_0000_0000,
        -0x10_0000_0000 <= b as int <= 0x10_0000_0000,
        -(FP as int) <= c as int <= FP as int,
        -(FP as int) <= s as int <= FP as int,
    ensures
        r as int == (a * c - b * s) / (FP as int),
        -0x20_0000_0001 <= r as int <= 0x20_0000_0000,
{
    proof {
        lemma_abs_mul_bound(a as int, c as int, 0x10_0000_0000, FP as int);
        lemma_abs_mul_bound(b as int, s as int, 0x10_0000_0000, FP as int);
    }
    let n = a * c - b * s;
    proof {
        lemma_div_bound(n as int, FP as int, 0x20_0000_0000_0000);
    }
    div_floor_i64(n, FP)
}

/// One point through the whole transform, exactly as `spec_transform_point`
/// states it.
pub fn transform_point(
    p: Point,
    cfg: &AlignmentConfig,
    aw: i64,
    y0: i64,
    y1: i64,
    span: Option<i64>,
) -> (r: Point)
    requires
        pt_in_coord(p@),
        config_wf(*cfg),
        in_coord(aw as int),
        in_coord(y0 as int),
        in_coord(y1 as int),
        span_wf(span),
    ensures
        r@ == spec_transform_point(p@, *cfg, aw as int, y0 as int, y1 as int, spec_span(span)),
        out_in_range(r@),
{
    let xf = p.x * FP;
    let yf = p.y * FP;
    let xr = rotate_coord(xf, yf, cfg.rot_cos, cfg.rot_sin);
    let yr = rotate_coord(yf, -xf, cfg.rot_cos, cfg.rot_sin);
    proof {
        assert(yr as int == (yf * cfg.rot_cos - (-(xf as int)) * cfg.rot_sin) / (FP as int));
        assert(yf * cfg.rot_cos - (-(xf as int)) * cfg.rot_sin == xf * cfg.rot_sin + yf
            * cfg.rot_cos) by (nonlinear_arith);
    }
    let hs = match cfg.horizontal {
        HorizontalAlignment::Left => 0,
        HorizontalAlignment::Center => aw * HALF_FP,
        HorizontalAlignment::Right => aw * FP,
    };
    let vs = match cfg.vertical {
        VerticalAlignment::Bottom => 0,
        VerticalAlignment::Middle => (y1 - y0) * HALF_FP,
        VerticalAlignment::Top => (y1 - y0) * FP,
    };
    let xs = xr - hs;
    let ys = yr - vs;
    let (xz, yz) = match span {
        Some(sp) => (
            scale_coord(xs, cfg.target_height, sp),
            scale_coord(ys, cfg.target_height, sp),
        ),
        None => (xs, ys),
    };
    Point { x: xz + cfg.translate_x, y: yz + cfg.translate_y }
}

/// Scale one shifted coordinate: `(v * target) / (span * FP)`.
fn scale_coord(v: i64, target: i64, span: i64) -> (r: i64)
    requires
        -0x40_0000_0001 <= v as int <= 0x40_0000_0001,
        1 <= target as int <= HEIGHT_MAX as int,
        1 <= span as int <= 2 * COORD_MAX as int,
    ensures
        r as int == spec_scale(v as int, target as int, span as int),
        -0x4000_0000_0102 <= r as int <= 0x4000_0000_0101,
{
    proof {
        lemma_abs_mul_bound(v as int, target as int, 0x40_0000_0001, HEIGHT_MAX as int);
    }
    let n = v * target;
    let d = span * FP;
    proof {
        lemma_div_bound(n as int, d as int, 0x4000_0000_0100_0000);
        lemma_div_is_ordered_by_denominator(0x4000_0000_0100_0000, FP as int, d as int);
    }
    div_floor_i64(n, d)
}

/// Scaling maps heights within the sampled span into the target height:
/// a coordinate between zero and the span scales to a value between zero
/// and the target, so a glyph sampled over `[0, span]` in font units ends
/// up within `[0, target]` after normalization.
pub proof fn lemma_scale_within_target(v: int, target: int, span: int)
    requires
        0 <= v <= span * FP,
        1 <= target,
        1 <= span,
    ensures
        0 <= spec_scale(v, target, span) <= target,
{
    let d = span * (FP as int);
    lemma_mul_inequality(v, d, target);
    lemma_div_is_ordered(v * target, d * target, d);
    assert(d * target == target * d) by (nonlinear_arith);
    lemma_div_multiples_vanish(target, d);
    assert(d * target / d == target);
    assert(v * target >= 0) by (nonlinear_arith)
        requires
            v >= 0,
            target >= 1,
    ;
    lemma_div_pos_is_pos(v * target, d);
}

/// Every point of every contour through the transform.
pub fn transform_contours(
    contours: &Vec<Vec<Point>>,
    cfg: &AlignmentConfig,
    aw: i64,
    y0: i64,
    y1: i64,
    span: Option<i64>,
) -> (r: Vec<Vec<Point>>)
    requires
        forall|i: int, j: int|
            0 <= i < contours@.len() && 0 <= j < contours@[i]@.len() ==> pt_in_coord(
                #[trigger] contours@[i]@[j]@,
            ),
        config_wf(*cfg),
        in_coord(aw as int),
        in_coord(y0 as int),
        in_coord(y1 as int),
        span_wf(span),
    ensures
        r@.len() == contours@.len(),
        forall|i: int|
            0 <= i < r@.len() ==> coords_of(#[trigger] r@[i]@) == spec_transform_contour(
                coords_of(contours@[i]@),
                *cfg,
                aw as int,
                y0 as int,
                y1 as int,
                spec_span(span),
            ),
        forall|i: int, j: int|
            0 <= i < r@.len() && 0 <= j < r@[i]@.len() ==> out_in_range(#[trigger] r@[i]@[j]@),
        forall|i: int| 0 <= i < r@.len() ==> #[trigger] r@[i]@.len() == contours@[i]@.len(),
{
    let mut res: Vec<Vec<Point>> = Vec::new();
    let mut i: usize = 0;
    while i < contours.len()
        invariant
            i <= contours.len(),
            res@.len() == i,
            forall|k: int, j: int|
                0 <= k < contours@.len() && 0 <= j < contours@[k]@.len() ==> pt_in_coord(
                    #[trigger] contours@[k]@[j]@,
                ),
            config_wf(*cfg),
            in_coord(aw as int),
            in_coord(y0 as int),
            in_coord(y1 as int),
            span_wf(span),
            forall|k: int|
                0 <= k < i ==> coords_of(#[trigger] res@[k]@) == spec_transform_contour(
                    coords_of(contours@[k]@),
                    *cfg,
                    aw as int,
                    y0 as int,
                    y1 as int,
                    spec_span(span),
                ),
            forall|k: int, j: int|
                0 <= k < i && 0 <= j < res@[k]@.len() ==> out_in_range(#[trigger] res@[k]@[j]@),
            forall|k: int| 0 <= k < i ==> #[trigger] res@[k]@.len() == contours@[k]@.len(),
        decreases contours.len() - i,
    {
        let src = &contours[i];
        let mut out: Vec<Point> = Vec::new();
        let mut j: usize = 0;
        while j < src.len()
            invariant
                j <= src.len(),
                out@.len() == j,
                src == &contours@[i as int],
                0 <= i < contours@.len(),
                forall|k: int, l: int|
                    0 <= k < contours@.len() && 0 <= l < contours@[k]@.len() ==> pt_in_coord(
                        #[trigger] contours@[k]@[l]@,
                    ),
                config_wf(*cfg),
                in_coord(aw as int),
                in_coord(y0 as int),
                in_coord(y1 as int),
                span_wf(span),
                forall|l: int|
                    0 <= l < j ==> out@[l]@ == spec_transform_point(
                        contours@[i as int]@[l]@,
                        *cfg,
                        aw as int,
                        y0 as int,
                        y1 as int,
                        spec_span(span),
                    ),
                forall|l: int| 0 <= l < j ==> out_in_range(#[trigger] out@[l]@),
            decreases src.len() - j,
        {
            let q = transform_point(src[j], cfg, aw, y0, y1, span);
            out.push(q);
            j += 1;
        }
        proof {
            assert(coords_of(out@) =~= spec_transform_contour(
                coords_of(contours@[i as int]@),
                *cfg,
                aw as int,
                y0 as int,
                y1 as int,
                spec_span(span),
            ));
        }
        res.push(out);
        i += 1;
    }
    res
}

} // verus!

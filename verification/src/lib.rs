//! Conversion of vector font glyph outlines into filled planar regions.
//!
//! A glyph arrives as contours of relative-coordinate Bézier segments. The
//! library decodes those segments into absolute curves, merges externally
//! sampled curve points into de-duplicated contour polylines, normalizes
//! them (rotation, alignment, uniform scale to a target height, translation)
//! in integer fixed-point arithmetic, and assembles the results into regions
//! whose clockwise contours become holes of the leading region.
//!
//! Coordinates are integers: glyph input and curve samples in font units,
//! transformed output in `FP` fixed-point sub-units. Curve sampling itself
//! is floating-point work done by the caller with a Bézier library against
//! the decoded curves; everything before and after it is verified here.

pub mod arith;
pub mod error;
pub mod flatten;
pub mod glyph;
pub mod point;
pub mod region;
pub mod segment;
pub mod transform;

use vstd::prelude::*;

use crate::error::BuildError;
use crate::flatten::{
    contours_coords, extrema, flatten_all, lemma_dedup_in_coord, lemma_ext_all_bounds,
    spec_extrema, spec_flatten,
};
use crate::glyph::Glyph;
use crate::point::{in_coord, pt_in_coord, Point, CONTOUR_POINTS_MAX};
use crate::region::{assemble_regions, regions_view, spec_assemble, Region, RegionView};
use crate::segment::{coord_ok, point_ok, CurvePrimitive};
use crate::transform::{
    config_wf, spec_default_config, spec_span, spec_transform_all, transform_contours,
    AlignmentConfig,
};

verus! {

/// The glyph-metadata bounds every build requires.
pub open spec fn glyph_meta_wf(g: Glyph) -> bool {
    &&& in_coord(g.advance_width as int)
    &&& in_coord(g.bounding_box.x0 as int)
    &&& in_coord(g.bounding_box.y0 as int)
    &&& in_coord(g.bounding_box.x1 as int)
    &&& in_coord(g.bounding_box.y1 as int)
}

/// The bounds every build requires of one contour's raw samples.
pub open spec fn contour_samples_wf(ps: Seq<(int, int)>) -> bool {
    &&& ps.len() <= CONTOUR_POINTS_MAX
    &&& forall|j: int| 0 <= j < ps.len() ==> pt_in_coord(#[trigger] ps[j])
}

pub open spec fn samples_wf(s: Seq<Seq<(int, int)>>) -> bool {
    forall|i: int| 0 <= i < s.len() ==> contour_samples_wf(#[trigger] s[i])
}

/// Every flattened contour pointwise, as `spec_flatten` states it.
pub open spec fn spec_flatten_all(s: Seq<Seq<(int, int)>>) -> Seq<Seq<(int, int)>> {
    s.map_values(|t: Seq<(int, int)>| spec_flatten(t))
}

/// The scale divisor derived from the sampled vertical extrema: absent
/// when the glyph has no sampled points or no vertical extent, in which
/// case scaling is skipped (multiplier one).
pub open spec fn spec_span_of(ext: Option<(int, int)>) -> Option<int> {
    match ext {
        None => None,
        Some((lo, hi)) => if hi - lo > 0 {
            Some(hi - lo)
        } else {
            None
        },
    }
}

/// The whole build, mathematically: flatten each contour's samples with
/// de-duplication, take the sampled vertical extrema, transform every
/// contour (rotation, alignment shifts against advance width and bounding
/// box, scale to the target height over the sampled span, translation),
/// then assemble regions, turning clockwise contours into holes of the
/// first region.
pub open spec fn spec_build(
    aw: int,
    y0: int,
    y1: int,
    cfg: AlignmentConfig,
    samples: Seq<Seq<(int, int)>>,
) -> Result<Seq<RegionView>, BuildError> {
    let flat = spec_flatten_all(samples);
    let span = spec_span_of(spec_extrema(flat));
    let tf = spec_transform_all(flat, cfg, aw, y0, y1, span);
    match spec_assemble(tf) {
        None => Err(BuildError::HoleBeforeExterior),
        Some(regs) => Ok(regs),
    }
}

/// Whether the glyph's metadata is within the accepted range.
pub fn glyph_meta_ok(g: &Glyph) -> (r: bool)
    ensures
        r == glyph_meta_wf(*g),
{
    coord_ok(g.advance_width) && coord_ok(g.bounding_box.x0) && coord_ok(g.bounding_box.y0)
        && coord_ok(g.bounding_box.x1) && coord_ok(g.bounding_box.y1)
}

/// Whether every raw sample list is within the accepted bounds.
pub fn samples_ok(samples: &Vec<Vec<Point>>) -> (r: bool)
    ensures
        r == samples_wf(contours_coords(samples@)),
{
    let ghost scs = contours_coords(samples@);
    let mut i: usize = 0;
    while i < samples.len()
        invariant
            i <= samples@.len(),
            scs == contours_coords(samples@),
            forall|k: int| 0 <= k < i ==> contour_samples_wf(#[trigger] scs[k]),
        decreases samples@.len() - i,
    {
        let ps = &samples[i];
        proof {
            assert(scs[i as int] == crate::point::coords_of(ps@));
        }
        if ps.len() > CONTOUR_POINTS_MAX {
            proof {
                assert(!contour_samples_wf(scs[i as int]));
            }
            return false;
        }
        let mut j: usize = 0;
        while j < ps.len()
            invariant
                j <= ps@.len(),
                scs == contours_coords(samples@),
                0 <= i < samples@.len(),
                ps == &samples@[i as int],
                scs[i as int] == crate::point::coords_of(ps@),
                forall|l: int| 0 <= l < j ==> pt_in_coord(#[trigger] scs[i as int][l]),
            decreases ps@.len() - j,
        {
            if !point_ok(&ps[j]) {
                proof {
                    assert(scs[i as int][j as int] == ps@[j as int]@);
                    assert(!contour_samples_wf(scs[i as int]));
                }
                return false;
            }
            j += 1;
        }
        proof {
            assert(contour_samples_wf(scs[i as int]));
        }
        i += 1;
    }
    true
}

/// Builds the filled regions of one glyph. Constructed from the font
/// provider's answer for a character; configured with an
/// `AlignmentConfig`; fed externally sampled curve points; produces the
/// ordered region sequence.
pub struct GlyphRegionBuilder {
    pub glyph: Glyph,
    pub config: AlignmentConfig,
}

impl GlyphRegionBuilder {
    /// Accept the font provider's answer for `character`: fail fast with a
    /// lookup error when the character is not mapped in the font, and
    /// perform no partial build.
    pub fn try_new(glyph: Option<Glyph>, character: char) -> (r: Result<Self, BuildError>)
        ensures
            match r {
                Ok(b) => {
                    &&& glyph is Some
                    &&& b.glyph == glyph->0
                    &&& b.config == spec_default_config()
                },
                Err(e) => {
                    &&& glyph is None
                    &&& e == BuildError::CharacterNotFound(character)
                },
            },
    {
        match glyph {
            Some(g) => Ok(GlyphRegionBuilder { glyph: g, config: AlignmentConfig::new() }),
            None => Err(BuildError::CharacterNotFound(character)),
        }
    }

    /// Replace the configuration before the terminal build call.
    pub fn with_config(self, config: AlignmentConfig) -> (r: Self)
        ensures
            r.glyph == self.glyph,
            r.config == config,
    {
        GlyphRegionBuilder { config, ..self }
    }

    /// Decode this builder's glyph into absolute curve primitives for the
    /// caller's curve sampler, threading the pen across contours.
    pub fn decode_contours(&self) -> (r: Result<Vec<Vec<CurvePrimitive>>, BuildError>)
        ensures
            match r {
                Ok(cv) => {
                    &&& crate::glyph::spec_glyph_ok(
                        (0, 0),
                        self.glyph.contours@,
                        self.glyph.contours@.len(),
                    )
                    &&& crate::glyph::curves_view(cv@) == crate::glyph::spec_glyph_curves(
                        (0, 0),
                        self.glyph.contours@,
                        self.glyph.contours@.len(),
                    )
                },
                Err(e) => {
                    &&& e == BuildError::CoordinateOverflow
                    &&& !crate::glyph::spec_glyph_ok(
                        (0, 0),
                        self.glyph.contours@,
                        self.glyph.contours@.len(),
                    )
                },
            },
    {
        self.glyph.decode_contours()
    }

    /// Run the whole pipeline over the sampled curve points of each
    /// contour, exactly as `spec_build` states it: flatten, take extrema,
    /// transform, assemble regions. A glyph with no contours yields an
    /// empty region sequence; identical inputs yield identical output.
    pub fn build(self, samples: &Vec<Vec<Point>>) -> (r: Result<Vec<Region>, BuildError>)
        requires
            config_wf(self.config),
            glyph_meta_wf(self.glyph),
            samples_wf(contours_coords(samples@)),
        ensures
            ({
                let sb = spec_build(
                    self.glyph.advance_width as int,
                    self.glyph.bounding_box.y0 as int,
                    self.glyph.bounding_box.y1 as int,
                    self.config,
                    contours_coords(samples@),
                );
                match r {
                    Ok(regs) => sb == Ok::<_, BuildError>(regions_view(regs@)),
                    Err(e) => sb == Err::<Seq<RegionView>, _>(e),
                }
            }),
            samples@.len() == 0 ==> (r matches Ok(regs) && regs@.len() == 0),
    {
        let ghost scs = contours_coords(samples@);
        let ghost aw = self.glyph.advance_width as int;
        let ghost by0 = self.glyph.bounding_box.y0 as int;
        let ghost by1 = self.glyph.bounding_box.y1 as int;
        let flat = flatten_all(samples);
        let ghost fcs = contours_coords(flat@);
        proof {
            assert forall|i: int| 0 <= i < fcs.len() implies #[trigger] fcs[i] == spec_flatten(
                scs[i],
            ) by {
                assert(fcs[i] == crate::point::coords_of(flat@[i]@));
                assert(scs[i] == crate::point::coords_of(samples@[i]@));
            }
            assert(spec_flatten_all(scs) =~= fcs);
            assert forall|i: int, j: int|
                0 <= i < fcs.len() && 0 <= j < fcs[i].len() implies pt_in_coord(
                #[trigger] fcs[i][j],
            ) by {
                assert(contour_samples_wf(scs[i]));
                lemma_dedup_in_coord(scs[i], scs[i].len());
            }
            assert forall|i: int, j: int|
                0 <= i < flat@.len() && 0 <= j < flat@[i]@.len() implies pt_in_coord(
                #[trigger] flat@[i]@[j]@,
            ) by {
                assert(fcs[i][j] == flat@[i]@[j]@);
            }
        }
        let ext = extrema(&flat);
        proof {
            lemma_ext_all_bounds(fcs, fcs.len(), None);
        }
        let span: Option<i64> = match ext {
            Some((lo, hi)) => if hi - lo > 0 {
                Some(hi - lo)
            } else {
                None
            },
            None => None,
        };
        proof {
            assert(spec_span(span) == spec_span_of(spec_extrema(fcs)));
        }
        let tf = transform_contours(
            &flat,
            &self.config,
            self.glyph.advance_width,
            self.glyph.bounding_box.y0,
            self.glyph.bounding_box.y1,
            span,
        );
        let ghost tcs = contours_coords(tf@);
        proof {
            assert forall|i: int| 0 <= i < tcs.len() implies #[trigger] tcs[i]
                == crate::transform::spec_transform_contour(
                fcs[i],
                self.config,
                aw,
                by0,
                by1,
                spec_span(span),
            ) by {
                assert(tcs[i] == crate::point::coords_of(tf@[i]@));
                assert(fcs[i] == crate::point::coords_of(flat@[i]@));
            }
            assert(spec_transform_all(fcs, self.config, aw, by0, by1, spec_span(span)) =~= tcs);
            assert forall|i: int|
                0 <= i < tf@.len() implies #[trigger] tf@[i]@.len() <= CONTOUR_POINTS_MAX by {
                assert(contour_samples_wf(scs[i]));
                assert(flat@[i]@.len() <= samples@[i]@.len());
                assert(scs[i].len() == samples@[i]@.len());
            }
        }
        let result = assemble_regions(&tf);
        proof {
            assert(spec_build(aw, by0, by1, self.config, scs) == (match spec_assemble(tcs) {
                None => Err::<Seq<RegionView>, BuildError>(BuildError::HoleBeforeExterior),
                Some(regs) => Ok::<Seq<RegionView>, BuildError>(regs),
            }));
        }
        match result {
            Ok(regs) => {
                proof {
                    if samples@.len() == 0 {
                        assert(tcs.len() == 0);
                        assert(spec_assemble(tcs) == Some(Seq::<RegionView>::empty()));
                        assert(regions_view(regs@).len() == regs@.len());
                    }
                }
                Ok(regs)
            },
            Err(e) => Err(e),
        }
    }
}

} // verus!


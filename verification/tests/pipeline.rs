use fj_text::error::BuildError;
use fj_text::glyph::{BoundingBox, Glyph};
use fj_text::point::Point;
use fj_text::transform::{AlignmentConfig, HorizontalAlignment, VerticalAlignment};
use fj_text::GlyphRegionBuilder;

fn p(x: i64, y: i64) -> Point {
    Point { x, y }
}

fn plain_glyph(advance_width: i64, y1: i64) -> Glyph {
    Glyph {
        advance_width,
        bounding_box: BoundingBox { x0: 0, y0: 0, x1: advance_width, y1 },
        contours: vec![],
    }
}

fn builder_for(glyph: Glyph) -> GlyphRegionBuilder {
    GlyphRegionBuilder::try_new(Some(glyph), 'a').unwrap()
}

#[test]
fn missing_character_fails_construction() {
    let r = GlyphRegionBuilder::try_new(None, 'q');
    assert_eq!(r.err(), Some(BuildError::CharacterNotFound('q')));
}

#[test]
fn empty_glyph_produces_no_regions() {
    let b = builder_for(plain_glyph(100, 100));
    let samples: Vec<Vec<Point>> = vec![];
    let regions = b.build(&samples).unwrap();
    assert!(regions.is_empty());
}

#[test]
fn building_twice_yields_identical_regions() {
    let samples = vec![vec![p(0, 0), p(4, 0), p(4, 4), p(0, 4)]];
    let cfg = AlignmentConfig::new()
        .with_horizontal(HorizontalAlignment::Center)
        .with_vertical(VerticalAlignment::Middle)
        .with_target_height(3 * 65536);
    let one = builder_for(plain_glyph(4, 4)).with_config(cfg).build(&samples).unwrap();
    let two = builder_for(plain_glyph(4, 4)).with_config(cfg).build(&samples).unwrap();
    assert_eq!(one, two);
}

#[test]
fn scale_maps_sampled_span_into_target_height() {
    // Sampled points span y in [0, 10]; target height 2.0 in fixed point.
    let samples = vec![vec![p(0, 0), p(3, 5), p(0, 10)]];
    let cfg = AlignmentConfig::new().with_target_height(2 * 65536);
    let regions = builder_for(plain_glyph(10, 10)).with_config(cfg).build(&samples).unwrap();
    assert_eq!(regions.len(), 1);
    let mut max_y = i64::MIN;
    for q in &regions[0].exterior {
        assert!(0 <= q.y && q.y <= 2 * 65536);
        max_y = max_y.max(q.y);
    }
    assert_eq!(max_y, 2 * 65536);
}

#[test]
fn hole_lies_strictly_inside_its_exterior() {
    // One counter-clockwise outer square followed by one clockwise inner
    // square: a single region with exactly one hole, every hole point
    // strictly inside the exterior boundary.
    let samples = vec![
        vec![p(0, 0), p(4, 0), p(4, 4), p(0, 4)],
        vec![p(1, 1), p(1, 3), p(3, 3), p(3, 1)],
    ];
    let regions = builder_for(plain_glyph(4, 4)).build(&samples).unwrap();
    assert_eq!(regions.len(), 1);
    assert_eq!(regions[0].holes.len(), 1);
    // The exterior spans [0, 65536] on both axes after scaling.
    assert_eq!(
        regions[0].exterior,
        vec![p(0, 65536), p(65536, 65536), p(65536, 0), p(0, 0)]
    );
    for q in &regions[0].holes[0] {
        assert!(0 < q.x && q.x < 65536);
        assert!(0 < q.y && q.y < 65536);
    }
    assert_eq!(
        regions[0].holes[0],
        vec![p(49152, 16384), p(49152, 49152), p(16384, 49152), p(16384, 16384)]
    );
}

#[test]
fn duplicate_samples_are_suppressed_once() {
    // The shared corner point appears once in the flattened contour; the
    // region still closes around the square.
    let samples = vec![vec![p(0, 0), p(4, 0), p(4, 0), p(4, 4), p(0, 4), p(0, 0)]];
    let regions = builder_for(plain_glyph(4, 4)).build(&samples).unwrap();
    assert_eq!(regions[0].exterior.len(), 4);
}

#[test]
fn center_alignment_shifts_against_advance_width() {
    let samples = vec![vec![p(0, 0), p(4, 0), p(4, 4), p(0, 4)]];
    let cfg = AlignmentConfig::new().with_horizontal(HorizontalAlignment::Center);
    let regions = builder_for(plain_glyph(4, 4)).with_config(cfg).build(&samples).unwrap();
    // x maps to (x - 2) * 16384 after the half-advance shift and scaling.
    assert_eq!(
        regions[0].exterior,
        vec![p(-32768, 65536), p(32768, 65536), p(32768, 0), p(-32768, 0)]
    );
}

#[test]
fn quarter_turn_rotation_is_exact() {
    // cosine 0, sine 1 in fixed point: (x, y) maps to (-y, x).
    let samples = vec![vec![p(1, 2)]];
    let cfg = AlignmentConfig::new().with_rotation(0, 65536);
    let regions = builder_for(plain_glyph(4, 4)).with_config(cfg).build(&samples).unwrap();
    assert_eq!(regions[0].exterior, vec![p(-2 * 65536, 65536)]);
}

#[test]
fn translation_is_added_after_scaling() {
    let samples = vec![vec![p(0, 0), p(4, 0), p(4, 4), p(0, 4)]];
    let cfg = AlignmentConfig::new().with_translation(1000, -500);
    let regions = builder_for(plain_glyph(4, 4)).with_config(cfg).build(&samples).unwrap();
    assert_eq!(
        regions[0].exterior,
        vec![p(1000, 65036), p(66536, 65036), p(66536, -500), p(1000, -500)]
    );
}

#[test]
fn clockwise_first_contour_fails_the_build() {
    let samples = vec![vec![p(1, 1), p(1, 3), p(3, 3), p(3, 1)]];
    let r = builder_for(plain_glyph(4, 4)).build(&samples);
    assert_eq!(r.err(), Some(BuildError::HoleBeforeExterior));
}

#[test]
fn zero_height_glyph_skips_scaling() {
    // All samples at one height: the span is zero, scaling is skipped and
    // points stay in plain fixed-point units.
    let samples = vec![vec![p(1, 5), p(2, 5)]];
    let regions = builder_for(plain_glyph(4, 4)).build(&samples).unwrap();
    assert_eq!(
        regions[0].exterior,
        vec![p(2 * 65536, 5 * 65536), p(65536, 5 * 65536)]
    );
}

#[test]
fn default_configuration_matches_the_documented_defaults() {
    let cfg = AlignmentConfig::new();
    assert_eq!(cfg.horizontal, HorizontalAlignment::Left);
    assert_eq!(cfg.vertical, VerticalAlignment::Bottom);
    assert_eq!(cfg.rot_cos, 65536);
    assert_eq!(cfg.rot_sin, 0);
    assert_eq!(cfg.target_height, 65536);
    assert_eq!(cfg.translate_x, 0);
    assert_eq!(cfg.translate_y, 0);
    assert_eq!(cfg.resolution, 5);
}

use fj_text::error::BuildError;
use fj_text::glyph::{BoundingBox, Contour, Glyph};
use fj_text::point::Point;
use fj_text::segment::{to_bezier, CurvePrimitive, Segment};

fn p(x: i64, y: i64) -> Point {
    Point { x, y }
}

#[test]
fn linear_decode_is_pen_plus_delta() {
    let (curve, pen) = to_bezier(&Segment::Linear(p(5, -3)), &p(10, 20));
    assert_eq!(curve, CurvePrimitive::Linear(p(10, 20), p(15, 17)));
    assert_eq!(pen, p(15, 17));
}

#[test]
fn quadratic_decode_chains_deltas_off_the_control() {
    // The endpoint delta is relative to the control point, not the pen.
    let (curve, pen) = to_bezier(&Segment::Quadratic(p(3, 4), p(5, -2)), &p(100, 200));
    assert_eq!(
        curve,
        CurvePrimitive::Quadratic(p(100, 200), p(103, 204), p(108, 202))
    );
    assert_eq!(pen, p(108, 202));
}

#[test]
fn cubic_decode_chains_all_three_deltas() {
    let (curve, pen) = to_bezier(&Segment::Cubic(p(1, 1), p(2, 2), p(3, 3)), &p(0, 0));
    assert_eq!(
        curve,
        CurvePrimitive::Cubic(p(0, 0), p(1, 1), p(3, 3), p(6, 6))
    );
    assert_eq!(pen, p(6, 6));
}

#[test]
fn round_trip_sampling_hits_exact_endpoints() {
    // Decode a segment, then sample the same curve with the Bezier library
    // at resolution 2 using arc-length parameterization: after rounding to
    // the integer grid the first and last samples are the decoded start
    // and end points.
    let (curve, pen) = to_bezier(&Segment::Quadratic(p(3, 4), p(5, -2)), &p(100, 200));
    let (start, control, end) = match curve {
        CurvePrimitive::Quadratic(a, b, c) => (a, b, c),
        _ => panic!("expected a quadratic curve"),
    };
    assert_eq!(end, pen);
    let bezier = bezier_rs::Bezier::from_quadratic_coordinates(
        start.x as f64,
        start.y as f64,
        control.x as f64,
        control.y as f64,
        end.x as f64,
        end.y as f64,
    );
    let samples: Vec<Point> = bezier
        .compute_lookup_table(Some(2), Some(bezier_rs::TValueType::Euclidean))
        .map(|q| Point {
            x: q.x.round() as i64,
            y: q.y.round() as i64,
        })
        .collect();
    assert_eq!(samples.len(), 3);
    assert_eq!(samples[0], start);
    assert_eq!(samples[2], end);
}

#[test]
fn pen_threads_across_contours() {
    // The pen entering the second contour is the first contour's final
    // position plus the second contour's leading offset - never the origin
    // plus the offset alone.
    let glyph = Glyph {
        advance_width: 100,
        bounding_box: BoundingBox { x0: 0, y0: 0, x1: 100, y1: 100 },
        contours: vec![
            Contour { offset: p(10, 20), segments: vec![Segment::Linear(p(5, 0))] },
            Contour { offset: p(1, 2), segments: vec![Segment::Linear(p(0, 3))] },
        ],
    };
    let curves = glyph.decode_contours().unwrap();
    assert_eq!(curves.len(), 2);
    assert_eq!(curves[0][0], CurvePrimitive::Linear(p(10, 20), p(15, 20)));
    // End of contour one is (15, 20); entry of contour two is (16, 22).
    assert_eq!(curves[1][0], CurvePrimitive::Linear(p(16, 22), p(16, 25)));
}

#[test]
fn decode_rejects_out_of_range_coordinates() {
    let glyph = Glyph {
        advance_width: 100,
        bounding_box: BoundingBox { x0: 0, y0: 0, x1: 100, y1: 100 },
        contours: vec![Contour {
            offset: p(9_000_000_000, 0),
            segments: vec![],
        }],
    };
    assert_eq!(
        glyph.decode_contours(),
        Err(BuildError::CoordinateOverflow)
    );
}

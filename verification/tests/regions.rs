use fj_text::error::BuildError;
use fj_text::point::Point;
use fj_text::region::{assemble_regions, reversed, signed_area2_i128, winding, Winding};

fn p(x: i64, y: i64) -> Point {
    Point { x, y }
}

fn square_ccw() -> Vec<Point> {
    vec![p(0, 0), p(1, 0), p(1, 1), p(0, 1)]
}

#[test]
fn ccw_square_classifies_as_exterior() {
    assert_eq!(winding(&square_ccw()), Winding::CounterClockwise);
}

#[test]
fn reversed_square_classifies_as_hole() {
    let cw = reversed(&square_ccw());
    assert_eq!(cw, vec![p(0, 1), p(1, 1), p(1, 0), p(0, 0)]);
    assert_eq!(winding(&cw), Winding::Clockwise);
}

#[test]
fn signed_area_of_square_is_twice_its_area() {
    let quad = vec![p(0, 0), p(4, 0), p(4, 4), p(0, 4)];
    assert_eq!(signed_area2_i128(&quad), 32);
    assert_eq!(signed_area2_i128(&reversed(&quad)), -32);
}

#[test]
fn hole_attaches_to_first_region_not_nearest() {
    // Two exteriors followed by a clockwise contour: the hole is merged
    // into whichever region is first in the accumulated list, even though
    // the second exterior was produced more recently.
    let first = vec![p(0, 0), p(1, 0), p(1, 1), p(0, 1)];
    let second = vec![p(10, 0), p(11, 0), p(11, 1), p(10, 1)];
    let hole = vec![p(10, 0), p(10, 1), p(11, 1), p(11, 0)];
    let regions = assemble_regions(&vec![first, second, hole]).unwrap();
    assert_eq!(regions.len(), 2);
    assert_eq!(regions[0].holes.len(), 1);
    assert_eq!(regions[1].holes.len(), 0);
}

#[test]
fn exterior_boundary_is_stored_reversed() {
    let regions = assemble_regions(&vec![square_ccw()]).unwrap();
    assert_eq!(regions.len(), 1);
    assert_eq!(regions[0].exterior, reversed(&square_ccw()));
    assert!(regions[0].holes.is_empty());
}

#[test]
fn hole_before_any_exterior_is_an_error() {
    let cw = reversed(&square_ccw());
    assert_eq!(
        assemble_regions(&vec![cw]),
        Err(BuildError::HoleBeforeExterior)
    );
}

#[test]
fn error_messages_name_the_failure() {
    assert_eq!(
        BuildError::CharacterNotFound('q').message(),
        "character not in font"
    );
    assert_eq!(
        BuildError::HoleBeforeExterior.message(),
        "clockwise contour before any exterior"
    );
    assert_eq!(
        BuildError::CoordinateOverflow.message(),
        "decoded coordinate out of range"
    );
}

use tudi::AbsoluteDirection;
use tudi::Bounded;
use tudi::Bounds;
use tudi::Coordinate;

#[test]
fn new() {
    let bounds = Bounds::new(0, 0, 0, 0);
    assert_eq!(bounds.northwest_corner(), Coordinate::default());
    assert_eq!(bounds.southwest_corner(), Coordinate::default());
    assert_eq!(bounds.northeast_corner(), Coordinate::default());
    assert_eq!(bounds.southeast_corner(), Coordinate::default());
    assert_eq!(bounds.x_count(), 1);
    assert_eq!(bounds.y_count(), 1);
}

#[test]
fn bounds_add_row_test() {
    let mut bounds = Bounds::new(-10, 1, -10, 2);
    assert_eq!(bounds.y_count(), 3);
    bounds.add_top_row();
    bounds.add_bottom_row();
    assert_eq!(bounds.x_count(), 2);
    assert_eq!(bounds.y_count(), 5);
}

#[test]
fn expansion_test() {
    let mut bounds = Bounds::new(0, 0, 0, 0);
    assert_eq!(bounds.y_count(), 1);
    bounds.expand_in_direction(AbsoluteDirection::North);
    assert_eq!(bounds.y_count(), 2);
    bounds.expand_in_direction(AbsoluteDirection::South);
    assert_eq!(bounds.y_count(), 3);

    assert_eq!(bounds.x_count(), 1);
    bounds.expand_in_direction(AbsoluteDirection::East);
    assert_eq!(bounds.x_count(), 2);
}

use tudi::Bounded;
use tudi::Bounds;
use tudi::OriginCenteredBounds;

fn assert_create_from_valid_bounds(bounds: Bounds) {
    let origin_centered_bounds = OriginCenteredBounds::try_from(bounds).unwrap();
    assert_eq!(origin_centered_bounds.x_min_boundary(), bounds.x_min_boundary());
    assert_eq!(origin_centered_bounds.x_max_boundary(), bounds.x_max_boundary());
    assert_eq!(origin_centered_bounds.y_min_boundary(), bounds.y_min_boundary());
    assert_eq!(origin_centered_bounds.y_max_boundary(), bounds.y_max_boundary());
}

fn assert_err_from_invalid_bounds(bounds: Bounds) {
    let origin_centered_bounds = OriginCenteredBounds::try_from(bounds);
    assert!(origin_centered_bounds.is_err());
}

#[test]
fn valid_create_test_from_bounds() {
    assert_create_from_valid_bounds(Bounds::new(-1, 2, -1, 2));
    assert_create_from_valid_bounds(Bounds::new(0, 0, 0, 0));
    assert_create_from_valid_bounds(Bounds::new(-1, 3, -1, 3));
    assert_create_from_valid_bounds(Bounds::new(0, 1, 0, 1));
    assert_create_from_valid_bounds(Bounds::new(0, 1, -2, 4));
    assert_create_from_valid_bounds(Bounds::new(0, 1, -2, 5));
}

#[test]
fn test_err_from_invalid_bounds() {
    assert_err_from_invalid_bounds(Bounds::new(0, 3, 0, 3));
    assert_err_from_invalid_bounds(Bounds::new(-5, 12, 0, 3));
    assert_err_from_invalid_bounds(Bounds::new(-2, 3, -5, 0));
}

#[test]
fn basic_row_expansion() {
    let mut bounds = OriginCenteredBounds::new(0, 0);
    bounds.expand_bounds_vertically();
    assert_eq!(bounds.y_max_boundary(), 1);
    assert_eq!(bounds.y_min_boundary(), 0);
    bounds.expand_bounds_vertically();
    assert_eq!(bounds.y_min_boundary(), -1);

    bounds.expand_bounds_horizontally();
    assert_eq!(bounds.x_max_boundary(), 1);
    assert_eq!(bounds.x_min_boundary(), 0);

    bounds.expand_bounds_horizontally();
    assert_eq!(bounds.x_max_boundary(), 1);
    assert_eq!(bounds.x_min_boundary(), -1);
}

#[test]
fn test_row_expansion() {
    let mut bounds = OriginCenteredBounds::try_from(Bounds::new(0, 0, 0, 0)).unwrap();
    for _ in 0..10 {
        bounds.expand_bounds_vertically();
    }

    let expected = OriginCenteredBounds::try_from(Bounds::new(0, 0, -5, 10)).unwrap();
    assert_eq!(bounds.x_min_boundary(), expected.x_min_boundary());
    assert_eq!(bounds.x_max_boundary(), expected.x_max_boundary());
    assert_eq!(bounds.y_min_boundary(), expected.y_min_boundary());
    assert_eq!(bounds.y_max_boundary(), expected.y_max_boundary());
}

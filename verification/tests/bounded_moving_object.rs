use tudi::AbsoluteDirection;
use tudi::Bounded;
use tudi::BoundedMovingObject;
use tudi::Bounds;
use tudi::Coordinate;
use tudi::DynamicallyBounded;
use tudi::Grid;
use tudi::Positioned;
use tudi::RelativeDirection;

enum Axis {
    X,
    Y,
}

enum MinMax {
    Min,
    Max,
}

fn create_at_origin() -> BoundedMovingObject {
    let x_min = 0;
    let x_max = 0;
    let y_min = 0;
    let y_max = 0;

    BoundedMovingObject::new(x_min, x_max, y_min, y_max)
}

fn check_boundary(input: &BoundedMovingObject, axis: Axis, minmax: MinMax, boundary: i32) {
    match (axis, minmax) {
        (Axis::Y, MinMax::Max) => assert_eq!(input.y_max_boundary(), boundary),
        (Axis::X, MinMax::Max) => assert_eq!(input.x_max_boundary(), boundary),
        (Axis::X, MinMax::Min) => assert_eq!(input.x_min_boundary(), boundary),
        (Axis::Y, MinMax::Min) => assert_eq!(input.y_min_boundary(), boundary),
    }
}

// check the count, also check if the geometric length is correct if the
// count is correct.
fn check_count_and_len(input: &BoundedMovingObject, axis: Axis, count: usize) {
    match axis {
        Axis::X => {
            assert_eq!(input.x_count(), count);
            if count > 0 {
                assert_eq!(input.x_geometric_len(), count - 1)
            } else {
                assert_eq!(input.x_geometric_len(), 0)
            }
        }

        Axis::Y => {
            assert_eq!(input.y_count(), count);
            if count > 0 {
                assert_eq!(input.y_geometric_len(), count - 1)
            } else {
                assert_eq!(input.y_geometric_len(), 0)
            }
        }
    }
}

fn set(
    input: &mut BoundedMovingObject,
    axis: Axis,
    minmax: MinMax,
    boundary: i32,
) -> Result<i32, String> {
    match (axis, minmax) {
        (Axis::Y, MinMax::Max) => input.set_y_max_boundary(boundary),
        (Axis::X, MinMax::Max) => input.set_x_max_boundary(boundary),
        (Axis::X, MinMax::Min) => input.set_x_min_boundary(boundary),
        (Axis::Y, MinMax::Min) => input.set_y_min_boundary(boundary),
    }
}

#[test]
pub fn create_from_bounds() {
    let bounds = Bounds::new(-5, 10, -5, 10);
    let pos = BoundedMovingObject::try_from((&bounds, &Coordinate::default())).unwrap();
    assert_eq!(pos.position(), &Coordinate::default());
}

#[test]
pub fn bounded_moving_object_simple_move_test() {
    let mut pos = BoundedMovingObject::new(-10, 10, -10, 10);
    let dir = RelativeDirection::Left;
    let mag = 2;
    pos.turn(dir);
    pos.move_in_current_direction_and_return_new_pos(mag);
    assert_eq!(pos.position(), &Coordinate { x: -2, y: 0 });
}

#[test]
pub fn new_from_bounded() {
    let grid: Grid<BoundedMovingObject> = Grid::new(9, 9);
    let pos = BoundedMovingObject::try_from((&grid, &Coordinate::default())).unwrap();
    check_boundary(&pos, Axis::X, MinMax::Min, -4);
    check_boundary(&pos, Axis::X, MinMax::Max, 4);
    check_boundary(&pos, Axis::Y, MinMax::Min, -4);
    check_boundary(&pos, Axis::Y, MinMax::Max, 4);
}

#[test]
pub fn simple_move_with_bound_test_y_neg() {
    let mut pos = BoundedMovingObject::new(-10, 10, -10, 10);
    pos.turn(RelativeDirection::Left);
    pos.turn(RelativeDirection::Left);
    pos.set_y_min_boundary(-5).unwrap();
    let magnitude = 2;
    pos.move_in_current_direction_and_return_new_pos(magnitude);
    assert_eq!(pos.position().y, -2);
    pos.move_in_current_direction_and_return_new_pos(magnitude);
    assert_eq!(pos.position().y, -4);
    pos.move_in_current_direction_and_return_new_pos(magnitude);
    assert_eq!(pos.position().y, -5);
    pos.move_in_current_direction_and_return_new_pos(magnitude);
    assert_eq!(pos.position().y, -5);
}

#[test]
pub fn simple_move_with_bound_test_x_neg() {
    let mut pos = BoundedMovingObject::new(-5, 100, -100, 100);
    pos.turn(RelativeDirection::Left);
    pos.set_x_min_boundary(-5).unwrap();
    let magnitude = 2;
    pos.move_in_current_direction_and_return_new_pos(magnitude);
    assert_eq!(pos.position().x, -2);
    pos.move_in_current_direction_and_return_new_pos(magnitude);
    assert_eq!(pos.position().x, -4);
    pos.move_in_current_direction_and_return_new_pos(magnitude);
    assert_eq!(pos.position().x, -5);
    pos.move_in_current_direction_and_return_new_pos(magnitude);
    assert_eq!(pos.position().x, -5);
}

#[test]
pub fn simple_move_with_bound_test_x_pos() {
    let mut pos = BoundedMovingObject::new(0, 5, -100, 100);
    pos.turn(RelativeDirection::Right);
    let magnitude = 2;
    pos.move_in_current_direction_and_return_new_pos(magnitude);
    assert_eq!(pos.position().x, 2);
    pos.move_in_current_direction_and_return_new_pos(magnitude);
    assert_eq!(pos.position().x, 4);
    pos.move_in_current_direction_and_return_new_pos(magnitude);
    assert_eq!(pos.position().x, 5);
    pos.move_in_current_direction_and_return_new_pos(magnitude);
    assert_eq!(pos.position().x, 5);
}

#[test]
pub fn simple_move_with_bound_test() {
    let mut pos = BoundedMovingObject::new(-100, 100, -100, 5);
    let magnitude = 2;
    pos.move_in_current_direction_and_return_new_pos(magnitude);
    assert_eq!(pos.position().y, 2);
    pos.move_in_current_direction_and_return_new_pos(magnitude);
    assert_eq!(pos.position().y, 4);
    pos.move_in_current_direction_and_return_new_pos(magnitude);
    assert_eq!(pos.position().y, 5);
    pos.move_in_current_direction_and_return_new_pos(magnitude);
    assert_eq!(pos.position().y, 5);
}

#[test]
pub fn neighbors_test() {
    let pos = BoundedMovingObject::new(0, 0, 0, 0);
    assert!(pos.bounded_neighbors().is_empty());
}

#[test]
pub fn bounds_test_origin_only() {
    let x_min = 0;
    let x_max = 0;
    let y_min = 0;
    let y_max = 0;

    let pos = BoundedMovingObject::new(x_min, x_max, y_min, y_max);
    check_boundary(&pos, Axis::X, MinMax::Min, x_min);
    check_boundary(&pos, Axis::X, MinMax::Max, x_max);
    check_boundary(&pos, Axis::Y, MinMax::Min, y_min);
    check_boundary(&pos, Axis::Y, MinMax::Max, y_max);
}

#[test]
pub fn bounds_test() {
    let pos = create_at_origin();
    check_boundary(&pos, Axis::X, MinMax::Min, 0);
    check_boundary(&pos, Axis::X, MinMax::Max, 0);
    check_boundary(&pos, Axis::Y, MinMax::Min, 0);
    check_boundary(&pos, Axis::Y, MinMax::Max, 0);
}

#[test]
fn valid_upwards_expansion() {
    let mut pos = create_at_origin();
    let _ = set(&mut pos, Axis::Y, MinMax::Max, 1);
    check_count_and_len(&pos, Axis::Y, 2);
    check_boundary(&pos, Axis::Y, MinMax::Max, 1);
}

#[test]
fn valid_downwards_expansion() {
    let mut pos = create_at_origin();
    let _ = set(&mut pos, Axis::Y, MinMax::Min, -1);
    check_count_and_len(&pos, Axis::Y, 2);
    check_boundary(&pos, Axis::Y, MinMax::Min, -1);
}

#[test]
fn valid_right_expansion() {
    let mut pos = create_at_origin();
    let _ = set(&mut pos, Axis::X, MinMax::Max, 1);
    check_count_and_len(&pos, Axis::X, 2);
    check_boundary(&pos, Axis::X, MinMax::Max, 1);
}

#[test]
fn valid_left_expansion() {
    let mut pos = create_at_origin();
    let _ = set(&mut pos, Axis::X, MinMax::Min, -1);
    check_count_and_len(&pos, Axis::X, 2);
    check_boundary(&pos, Axis::X, MinMax::Min, -1);
}

#[test]
fn refused_boundary_leaves_cursor_unchanged() {
    let mut pos = BoundedMovingObject::new(-2, 2, -2, 2);
    assert!(pos.set_x_min_boundary(3).is_err());
    assert!(pos.set_x_max_boundary(-3).is_err());
    assert!(pos.set_y_min_boundary(1).is_err());
    assert!(pos.set_y_max_boundary(-1).is_err());
    check_boundary(&pos, Axis::X, MinMax::Min, -2);
    check_boundary(&pos, Axis::X, MinMax::Max, 2);
    check_boundary(&pos, Axis::Y, MinMax::Min, -2);
    check_boundary(&pos, Axis::Y, MinMax::Max, 2);
}

#[test]
fn turn_toward_axis_target() {
    let mut pos = BoundedMovingObject::new(-5, 5, -5, 5);
    let turned = pos.turn_toward(&Coordinate { x: 0, y: 3 }).unwrap();
    assert_eq!(turned, AbsoluteDirection::North);
    assert!(pos.turn_toward(&Coordinate { x: 2, y: 2 }).is_err());
}

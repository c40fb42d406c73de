use tudi::AbsoluteDirection;
use tudi::Coordinate;
use tudi::MovingObject;
use tudi::Positioned;
use tudi::RelativeDirection;

#[test]
pub fn moving_object_simple_move_test() {
    let mut pos = MovingObject::default();
    let dir = RelativeDirection::Left;
    let mag = 2;
    pos.turn(dir);
    pos.move_in_current_direction(mag);

    assert_eq!(pos.position(), &Coordinate { x: -2, y: 0 });
}

#[test]
pub fn simple_move_y_neg() {
    let mut pos = MovingObject::default();
    pos.turn(RelativeDirection::Left);
    pos.turn(RelativeDirection::Left);
    let magnitude = 2;
    pos.move_in_current_direction(magnitude);
    assert_eq!(pos.position().y, -2);
    pos.move_in_current_direction(magnitude);
    assert_eq!(pos.position().y, -4);
    pos.move_in_current_direction(magnitude);
    assert_eq!(pos.position().y, -6);
}

#[test]
pub fn simple_move_with_x_neg() {
    let mut pos = MovingObject::default();
    pos.turn(RelativeDirection::Left);
    let magnitude = 2;
    pos.move_in_current_direction(magnitude);
    assert_eq!(pos.position().x, -2);
    pos.move_in_current_direction(magnitude);
    assert_eq!(pos.position().x, -4);
    pos.move_in_current_direction(magnitude);
    assert_eq!(pos.position().x, -6);
}

#[test]
pub fn simple_move_test_x_pos() {
    let mut pos = MovingObject::default();
    pos.turn(RelativeDirection::Right);
    let magnitude = 2;
    pos.move_in_current_direction(magnitude);
    assert_eq!(pos.position().x, 2);
    pos.move_in_current_direction(magnitude);
    assert_eq!(pos.position().x, 4);
    pos.move_in_current_direction(magnitude);
    assert_eq!(pos.position().x, 6);
}

#[test]
pub fn simple_move_y_with_test() {
    let mut pos = MovingObject::default();
    let magnitude = 2;
    pos.move_in_current_direction(magnitude);
    assert_eq!(pos.position().y, 2);
    pos.move_in_current_direction(magnitude);
    assert_eq!(pos.position().y, 4);
    pos.move_in_current_direction(magnitude);
    assert_eq!(pos.position().y, 6);
}

pub fn neighbor_test(x_diff: usize, y_diff: usize) {
    let mut pos = MovingObject::default();
    pos.move_in_direction(&AbsoluteDirection::East, x_diff);
    pos.move_in_direction(&AbsoluteDirection::North, y_diff);
    let neighbors = pos.euclid_neighbors();
    assert_eq!(neighbors.len(), 8);

    assert!(neighbors.contains(&Coordinate { x: 1 + x_diff as i32, y: y_diff as i32 }));
    assert!(neighbors.contains(&Coordinate { x: 1 + x_diff as i32, y: 1 + y_diff as i32 }));
    assert!(neighbors.contains(&Coordinate { x: x_diff as i32, y: 1 + y_diff as i32 }));
    assert!(neighbors.contains(&Coordinate { x: -1 + x_diff as i32, y: 1 + y_diff as i32 }));

    assert!(neighbors.contains(&Coordinate { x: -1 + x_diff as i32, y: y_diff as i32 }));
    assert!(neighbors.contains(&Coordinate { x: -1 + x_diff as i32, y: -1 + y_diff as i32 }));
    assert!(neighbors.contains(&Coordinate { x: x_diff as i32, y: -1 + y_diff as i32 }));
    assert!(neighbors.contains(&Coordinate { x: 1 + x_diff as i32, y: -1 + y_diff as i32 }));
}

#[test]
pub fn neighbor_tests() {
    for y_diff in 0..100 {
        for x_diff in 0..100 {
            neighbor_test(x_diff, y_diff);
        }
    }
}

use tudi::AbsoluteDirection;
use tudi::Coordinate;
use tudi::Positioned;

#[test]
pub fn simple_manhattan_distance() {
    assert_eq!(Coordinate { x: 5, y: 5 }.manhattan_distance_to_origin(), 10);
    assert_eq!(Coordinate { x: 5, y: -5 }.manhattan_distance_to_origin(), 10);
    assert_eq!(Coordinate { x: -5, y: 5 }.manhattan_distance_to_origin(), 10);
    assert_eq!(Coordinate { x: -5, y: -5 }.manhattan_distance_to_origin(), 10);
}

#[test]
pub fn test_move() {
    let mut coordinate = Coordinate { x: 10, y: 10 };
    coordinate.move_in_direction(&AbsoluteDirection::North, 1);
    assert_eq!(coordinate, Coordinate { x: 10, y: 11 });
    coordinate.move_in_direction(&AbsoluteDirection::South, 1);
    assert_eq!(coordinate, Coordinate { x: 10, y: 10 });
    coordinate.move_in_direction(&AbsoluteDirection::South, 10);
    assert_eq!(coordinate, Coordinate { x: 10, y: 0 });
    coordinate.move_in_direction(&AbsoluteDirection::West, 10);
    assert_eq!(coordinate, Coordinate { x: 0, y: 0 });
}

#[test]
pub fn add_and_manhattan_distance() {
    assert_eq!(
        (Coordinate { x: 5, y: 5 } + Coordinate { x: 1, y: 0 }).manhattan_distance_to_origin(),
        11
    );
}

#[test]
pub fn manhattan_neighbors() {
    let neighbors = Coordinate::default().manhattan_neighbors();
    assert_eq!(neighbors.len(), 4);
    for direction in [
        AbsoluteDirection::North,
        AbsoluteDirection::South,
        AbsoluteDirection::West,
        AbsoluteDirection::East,
    ] {
        assert!(neighbors.contains(&Coordinate::default().coordinate_in_direction(direction, 1)));
    }
}

#[test]
pub fn manhattan_neighbors_distance() {
    for x in -100..100 {
        for y in -100..100 {
            let main_coordinate = Coordinate { x, y };
            let neighbors = main_coordinate.manhattan_neighbors();
            assert!(neighbors.iter().all(|x| {
                x.manhattan_distance_to_origin()
                    .abs_diff(main_coordinate.manhattan_distance_to_origin())
                    == 1
            }))
        }
    }
}

#[test]
pub fn should_be_above_row() {
    let c = Coordinate::default();
    assert!(c.is_above_row(-2));
    assert!(c.is_above_row(0));
    assert!(!c.is_above_row(1));
}

#[test]
pub fn should_be_below_row() {
    let c = Coordinate::default();
    assert!(!c.is_below_row(-2));
    assert!(c.is_below_row(0));
    assert!(c.is_below_row(1));
}

#[test]
pub fn manhattan_distance_between_points() {
    let coord_1 = Coordinate { x: -1, y: 3 };
    let coord_2 = Coordinate { x: 2, y: -7 };
    assert_eq!(coord_1.manhattan_distance_to(&coord_2), 13);
}

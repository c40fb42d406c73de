use tudi::AbsoluteDirection;
use tudi::Bounded;
use tudi::BoundedMovingObject;
use tudi::Coordinate;
use tudi::Grid;
use tudi::GridError;
use tudi::Positioned;

/// Checks that the boundaries of the grid are centered around the origin.
fn assert_centered_around_origin<T>(input: &Grid<T>) {
    assert!(
        -input.x_min_boundary() == input.x_max_boundary()
            || input.x_max_boundary() == -input.x_min_boundary() + 1
    );
    assert!(
        -input.y_min_boundary() == input.y_max_boundary()
            || input.y_max_boundary() == -input.y_min_boundary() + 1
    );
}

/// Checks that element access works for any coordinate in bounds.
fn assert_coordinate_coverage<T>(input: &Grid<T>) {
    for x in input.x_min_boundary()..=input.x_max_boundary() {
        for y in input.y_min_boundary()..=input.y_max_boundary() {
            input.element_unchecked(&Coordinate { x, y });
        }
    }
}

fn check_grid_counts<T>(grid: &Grid<T>, x: usize, y: usize) {
    assert_eq!(grid.x_count(), x);
    assert_eq!(grid.y_count(), y)
}

fn empty_grid<T>(size: usize) -> Grid<T> {
    Grid::<T>::new(size, size)
}

fn rectangular_empty_grid(x_count: usize, y_count: usize) -> Grid<()> {
    Grid::new(x_count, y_count)
}

enum StoreValidity {
    Valid,
    OutOfBounds,
}

fn grid_with_occupied_corners_and_origin<T: Copy>(size: usize, element: T) -> Grid<T> {
    assert!(size > 0);
    let mut grid: Grid<T> = Grid::new(size, size);
    let (nw, sw, ne, se) = (
        grid.northwest_corner(),
        grid.southwest_corner(),
        grid.northeast_corner(),
        grid.southeast_corner(),
    );
    let origin = Coordinate::default();
    check_store(&mut grid, origin, element, StoreValidity::Valid);
    if size > 1 {
        check_store(&mut grid, nw, element, StoreValidity::Valid);
        if size > 2 {
            // would be the origin if size <= 2
            check_store(&mut grid, sw, element, StoreValidity::Valid);
        }
        check_store(&mut grid, ne, element, StoreValidity::Valid);
        check_store(&mut grid, se, element, StoreValidity::Valid);
    }
    grid
}

// create a grid occupied with the elements at the occupied coordinates
fn grid_with_occupied_at<T: Copy>(
    n: usize,
    occupied_coordinates: &[Coordinate],
    elements: &[T],
) -> Grid<T> {
    let mut grid = Grid::new(n, n);
    for (coordinate, element) in occupied_coordinates.iter().zip(elements) {
        check_store(&mut grid, *coordinate, *element, StoreValidity::Valid)
    }
    grid
}

fn grid_with_single_element<T: Default>(size: usize, coordinate: Coordinate) -> Grid<T> {
    let mut grid: Grid<T> = Grid::new(size, size);
    check_store(&mut grid, coordinate, T::default(), StoreValidity::Valid);
    grid
}

fn check_element<T: PartialEq + std::fmt::Debug>(grid: &Grid<T>, c: Coordinate, expected: &T) {
    if let Some(actual_element) = grid.element_unchecked(&c) {
        assert_eq!(actual_element, expected);
    } else {
        panic!();
    }

    if let Ok(actual_element) = grid.element(&c) {
        assert_eq!(actual_element, expected);
    } else {
        panic!();
    }
}

fn check_empty<T: PartialEq + std::fmt::Debug>(grid: &Grid<T>, c: Coordinate) {
    assert!(grid.element_unchecked(&c).is_none())
}

fn check_elements<T: PartialEq + std::fmt::Debug>(
    grid: &Grid<T>,
    coordinates: &[Coordinate],
    elements: &[&T],
) {
    for (coordinate, element) in coordinates.iter().zip(elements) {
        check_element(grid, *coordinate, element);
    }
}

fn check_valid_remove<T: PartialEq + std::fmt::Debug>(grid: &mut Grid<T>, c: Coordinate, expected: T) {
    let res = grid.remove_element(&c);
    if let Ok(actual) = res {
        assert_eq!(expected, actual);
    } else {
        panic!();
    }
}

fn check_store<T>(grid: &mut Grid<T>, c: Coordinate, element: T, is_valid: StoreValidity) {
    match is_valid {
        StoreValidity::OutOfBounds => {
            assert!(grid.store_element(&c, element).is_err())
        }

        StoreValidity::Valid => {
            if let Ok(previous_value) = grid.store_element(&c, element) {
                assert!(previous_value.is_none());
            }
        }
    }
}

#[derive(Debug, Clone, Copy)]
enum ExpectedMoveResponse {
    Valid,
    Collision,
    OutOfBounds,
}

fn check_move<T>(
    grid: &mut Grid<T>,
    c: Coordinate,
    direction: AbsoluteDirection,
    expected: ExpectedMoveResponse,
) {
    let res = grid.move_element_in_direction(&c, direction);

    match (expected, res) {
        (ExpectedMoveResponse::Valid, Ok(_)) => {}
        (ExpectedMoveResponse::Collision, Err(GridError::CollisionError)) => {}
        (ExpectedMoveResponse::OutOfBounds, Err(GridError::OutOfBoundsError(out_of_bounds_error))) => {
            assert_eq!(
                out_of_bounds_error.position(),
                c.coordinate_in_direction(direction, 1)
            );
        }
        _ => {
            panic!();
        }
    }
}

fn corners<T>(grid: &Grid<T>) -> [Coordinate; 4] {
    [
        grid.northwest_corner(),
        grid.southwest_corner(),
        grid.northeast_corner(),
        grid.southeast_corner(),
    ]
}

fn iter_count<T>(grid: &Grid<T>) -> usize {
    let mut it = grid.iter_new();
    let mut n = 0;
    while it.next().is_some() {
        n += 1;
    }
    n
}

#[test]
pub fn single_element() {
    let grid = grid_with_occupied_at(3, &[Coordinate::default()], &[1]);
    assert_centered_around_origin(&grid);
    check_element(&grid, Coordinate::default(), &1);
}

#[test]
pub fn single_element_two() {
    let grid = grid_with_occupied_at(4, &[Coordinate::default()], &[0]);
    assert_centered_around_origin(&grid);
    check_element(&grid, Coordinate::default(), &0);
}

#[test]
pub fn corners_and_origin() {
    let grid = grid_with_occupied_corners_and_origin(5, 1);
    assert_centered_around_origin(&grid);
    check_elements(&grid, &corners(&grid), &[&1; 4]);
    check_element(&grid, Coordinate::default(), &1);
}

#[test]
pub fn corners_and_origin_two() {
    let grid = grid_with_occupied_corners_and_origin(20, 1);
    assert_centered_around_origin(&grid);
    check_elements(&grid, &corners(&grid), &[&1; 4]);
    check_element(&grid, Coordinate::default(), &1);
}

#[test]
pub fn basic_remove() {
    let mut grid = grid_with_occupied_corners_and_origin(4, 1);
    check_valid_remove(&mut grid, Coordinate::default(), 1);
}

#[test]
pub fn should_move_element() {
    let mut grid: Grid<usize> = Grid::new(3, 3);
    let coordinate = Coordinate::default();
    let val: usize = 1;

    check_store(&mut grid, coordinate, val, StoreValidity::Valid);
    check_move(
        &mut grid,
        coordinate,
        AbsoluteDirection::North,
        ExpectedMoveResponse::Valid,
    );

    check_element(&grid, Coordinate { y: 1, x: 0 }, &1);
    check_empty(&grid, Coordinate::default());
}

#[test]
pub fn move_should_collide() {
    let mut grid = grid_with_occupied_corners_and_origin(3, 1);
    check_move(
        &mut grid,
        Coordinate { x: 1, y: 1 },
        AbsoluteDirection::South,
        ExpectedMoveResponse::Valid,
    );
    check_move(
        &mut grid,
        Coordinate { x: 1, y: 0 },
        AbsoluteDirection::South,
        ExpectedMoveResponse::Collision,
    );
}

#[test]
pub fn move_should_collide_two() {
    let mut grid = grid_with_occupied_corners_and_origin(2, 1);
    check_move(
        &mut grid,
        Coordinate { x: 1, y: 1 },
        AbsoluteDirection::South,
        ExpectedMoveResponse::Collision,
    );
}

#[test]
pub fn move_should_be_out_of_bounds() {
    let mut grid = grid_with_occupied_corners_and_origin(1, 1);
    check_move(
        &mut grid,
        Coordinate { x: 0, y: 0 },
        AbsoluteDirection::South,
        ExpectedMoveResponse::OutOfBounds,
    );
}

#[test]
fn test_boundaries() {
    for i in 1..=100 {
        let len = i;
        let grid: Grid<usize> = Grid::new(len, len);
        assert_eq!(grid.y_max_boundary() - grid.y_min_boundary(), (len - 1) as i32);
        assert_eq!(grid.x_max_boundary() - grid.x_min_boundary(), (len - 1) as i32);
        assert_centered_around_origin(&grid);
    }
}

#[test]
fn coordinate_to_index() {
    for n in 1..100 {
        let grid: Grid<()> = Grid::new(n, n);
        let cell_count = grid.x_count() * grid.y_count();
        assert_eq!(grid.coordinate_to_index(&grid.northwest_corner()).unwrap(), 0);
        assert_eq!(grid.coordinate_to_index(&grid.northeast_corner()).unwrap(), n - 1);
        assert_eq!(
            grid.coordinate_to_index(&grid.southwest_corner()).unwrap(),
            cell_count - n
        );
        assert_eq!(
            grid.coordinate_to_index(&grid.southeast_corner()).unwrap(),
            cell_count - 1
        );
    }
}

fn check_string<T>(grid: &Grid<T>, expected: &str) {
    assert_eq!(grid.element_statuses(), expected.to_string())
}

#[test]
fn empty_one_by_one() {
    let grid: Grid<()> = Grid::new(1, 1);
    check_string(&grid, ".");
}

#[test]
fn occupied_one_by_one() {
    let mut grid: Grid<()> = Grid::new(1, 1);
    let _ = grid.store_element(&Coordinate::default(), ());
    check_string(&grid, "#");
}

#[test]
fn partially_occupied_one_by_two() {
    let mut grid: Grid<()> = Grid::new(1, 2);
    let _ = grid.store_element(&Coordinate::default(), ());
    check_string(&grid, ".\n#");
}

#[test]
fn empty_two_by_two() {
    let grid: Grid<()> = Grid::new(2, 2);
    check_string(&grid, "..\n..");
}

#[test]
fn corner_occupied_three_by_three() {
    let mut grid: Grid<()> = Grid::new(3, 3);
    let _ = grid.store_element(&grid.northwest_corner(), ());
    let _ = grid.store_element(&grid.northeast_corner(), ());
    let _ = grid.store_element(&grid.southwest_corner(), ());
    let _ = grid.store_element(&grid.southeast_corner(), ());
    check_string(&grid, "#.#\n...\n#.#");
}

fn check_bounded_neighbors_to_count<T>(grid: &Grid<T>, coordinate: Coordinate, count: usize) {
    let neighbors = grid.bounded_neighbors_to(&coordinate);
    assert_eq!(neighbors.len(), count);
}

fn check_contains_corner<T>(grid: &Grid<T>, coordinate: Coordinate) {
    assert!(grid
        .bounded_neighbors_to(&coordinate)
        .contains(&coordinate.coordinate_in_direction(AbsoluteDirection::North, 1)));
    assert!(grid
        .bounded_neighbors_to(&coordinate)
        .contains(&coordinate.coordinate_in_direction(AbsoluteDirection::South, 1)));
    assert!(grid
        .bounded_neighbors_to(&coordinate)
        .contains(&coordinate.coordinate_in_direction(AbsoluteDirection::East, 1)));
    assert!(grid
        .bounded_neighbors_to(&coordinate)
        .contains(&coordinate.coordinate_in_direction(AbsoluteDirection::West, 1)))
}

#[test]
fn test_origin_only_grid() {
    let grid: Grid<()> = empty_grid(1);
    check_bounded_neighbors_to_count(&grid, Coordinate::default(), 0);
}

#[test]
fn test_three_by_three() {
    let grid: Grid<()> = empty_grid(3);
    check_bounded_neighbors_to_count(&grid, Coordinate::default(), 8);
    check_contains_corner(&grid, Coordinate::default());
}

#[test]
fn test_five_by_five() {
    let grid: Grid<()> = empty_grid(5);
    check_bounded_neighbors_to_count(&grid, Coordinate::default(), 8);
}

#[test]
fn test_three_by_one() {
    let grid: Grid<()> = rectangular_empty_grid(3, 1);
    check_bounded_neighbors_to_count(&grid, Coordinate::default(), 2);
}

#[test]
fn test_two_by_one() {
    let grid: Grid<()> = rectangular_empty_grid(2, 1);
    check_bounded_neighbors_to_count(&grid, Coordinate::default(), 1);
}

#[test]
fn empty_iterator_on_point_outside_bounds() {
    let grid: Grid<()> = empty_grid(2);
    check_bounded_neighbors_to_count(&grid, Coordinate { x: 5, y: 0 }, 0);
}

#[test]
fn iter_new_len() {
    for i in 1..100 {
        let grid: Grid<()> = Grid::new(i, i);
        let mut it = grid.iter_new();
        while let Some((_, element)) = it.next() {
            assert!(element.is_none());
        }
        assert_eq!(iter_count(&grid), i * i);
    }
}

#[test]
fn iter_new_with_element() {
    let n = 11;
    let origin = Coordinate::default();
    let grid = grid_with_occupied_corners_and_origin(n, 1);
    let corners = corners(&grid);
    let mut it = grid.iter_new();
    while let Some((coordinate, element)) = it.next() {
        if coordinate == origin || corners.contains(&coordinate) {
            assert_eq!(element, Some(&1));
        } else {
            assert_eq!(element, None);
        }
    }
}

#[test]
fn iter_elements_new_count() {
    let grid = grid_with_occupied_corners_and_origin(100, 1);
    assert_eq!(grid.iter_elements_new().len(), 5);
}

#[test]
fn coordinates_in_direction() {
    let len = 5;
    let grid: Grid<()> = Grid::new(len, len);
    let marker = BoundedMovingObject::try_from((&grid, &Coordinate::default())).unwrap();
    let result = marker.coordinates_in_direction(AbsoluteDirection::South);
    assert!(result.contains(&Coordinate { y: -1, x: 0 }));
    assert!(result.contains(&Coordinate { y: -2, x: 0 }));
    assert_eq!(result.len(), 2);
}

#[test]
fn coordinate_to_index_and_index_to_coordinate_inverse_functions() {
    let grid: Grid<Coordinate> = Grid::new(100, 100);
    let mut it = grid.iter_new();
    while let Some((grid_coordinate, _)) = it.next() {
        println!("check index for coordinate {:?}", grid_coordinate.position());
        let index = grid.coordinate_to_index(&grid_coordinate).unwrap();
        println!("index is {index}");
        let coordinate = grid.index_to_coordinate(index).unwrap();
        assert_eq!(grid_coordinate.position(), &coordinate);
    }
}

#[test]
fn neighbor_in_direction_from() {
    let grid: Grid<Coordinate> = Grid::new(20, 20);

    let directions = [
        AbsoluteDirection::North,
        AbsoluteDirection::East,
        AbsoluteDirection::South,
        AbsoluteDirection::West,
    ];
    let mut it = grid.iter_new();
    while let Some((coord, _)) = it.next() {
        for direction in directions.iter() {
            if let Some(neighbor) = grid.neighbor_in_direction_from(&coord, *direction) {
                assert_eq!(coord.manhattan_distance_to(&neighbor), 1);
                assert_eq!(coord.direction_toward(neighbor.position()).0, *direction);
                assert_eq!(coord.direction_toward(neighbor.position()).1, *direction);
            } else {
                assert!(grid.other_is_on_border(&coord));
            }
        }
    }
}

#[test]
fn generic_grid_new_from_str_test() {
    let input = "...";
    let map: Vec<(char, usize)> = Vec::new();
    let data = Grid::<usize>::from_str_by_map(input, &map).unwrap();
    check_grid_counts(&data, 3, 1);
    assert_eq!(data.iter_elements_new().len(), 0);
    assert_coordinate_coverage(&data);
    assert_centered_around_origin(&data);
}

#[test]
fn test_new_from_str_unwrapped_with_empty_with_deprecated_fns() {
    let input = "...";
    let map: Vec<(char, usize)> = Vec::new();
    let data = Grid::<usize>::from_str_by_map(input, &map).unwrap();
    check_grid_counts(&data, 3, 1);
    assert_eq!(data.iter_elements_new().len(), 0);
    assert_coordinate_coverage(&data);
    assert_centered_around_origin(&data);
}

#[test]
fn test_transpose() {
    let mut grid: Grid<usize> = Grid::new(3, 1);
    grid.transpose_new();
    check_grid_counts(&grid, 1, 3);

    let mut grid: Grid<usize> = Grid::new(1, 1);
    grid.transpose_new();
    check_grid_counts(&grid, 1, 1);

    let mut grid: Grid<usize> = Grid::new(3, 3);
    check_store(&mut grid, Coordinate { x: -1, y: -1 }, 1, StoreValidity::Valid);

    grid.transpose_new();
    check_element(&grid, Coordinate { x: 1, y: 1 }, &1);
    check_empty(&grid, Coordinate { x: -1, y: -1 });
    assert_centered_around_origin(&grid);
}

#[test]
fn transpose_new_trivial() {
    let n = 3;
    let element = 1;
    let mut grid: Grid<usize> = Grid::new(n, n);
    let [_, ne, sw, _] = corners(&grid);
    check_store(&mut grid, ne, element, StoreValidity::Valid);
    grid.transpose_new();
    check_element(&grid, sw, &1);
    check_empty(&grid, ne);
}

#[test]
fn generic_grid_add_row_test() {
    let mut grid: Grid<Coordinate> = Grid::new(3, 3);
    for _ in 1..10 {
        grid.add_row();
        assert_coordinate_coverage(&grid);
        assert_centered_around_origin(&grid);
    }
}

#[test]
fn row_expansion_test() {
    let old_len = 3;
    let mut grid: Grid<Coordinate> = Grid::new(old_len, old_len);
    assert_eq!(grid.y_count(), 3);
    assert_coordinate_coverage(&grid);
    assert_centered_around_origin(&grid);
    grid.add_row();
    assert_coordinate_coverage(&grid);
    assert_centered_around_origin(&grid);
    assert_eq!(grid.y_count(), 4);
}

#[test]
fn basic_upward_row_expansion_above_element() {
    let c = Coordinate { x: 0, y: 0 };
    let mut grid: Grid<usize> = grid_with_single_element(3, c);

    assert_eq!(grid.y_count(), 3);
    grid.expand_at_row(1);
    assert_eq!(grid.y_count(), 4);

    // expansion happens upwards above the element so the object should
    // not move.
    check_element(&grid, c, &0);
}

#[test]
fn basic_upward_row_expansion_below_element() {
    let c = Coordinate { x: 0, y: 0 };
    let mut grid: Grid<usize> = grid_with_single_element(3, c);
    grid.expand_at_row(-1);

    // expansion happens upwards below the element so the object should
    // move.
    check_empty(&grid, c);
    check_element(&grid, Coordinate { y: 1, x: 0 }, &0);
}

#[test]
fn basic_upward_row_expansion_on_element_row() {
    let c = Coordinate { x: 0, y: 0 };
    let mut grid: Grid<usize> = grid_with_single_element(3, c);
    grid.expand_at_row(0);

    // expansion happens on the element row so the object should move
    // upwards.
    check_empty(&grid, c);
    check_element(&grid, Coordinate { y: 1, x: 0 }, &0);
}

#[test]
fn basic_downward_row_expansion_below_element() {
    let c = Coordinate { x: 0, y: 0 };
    let mut grid: Grid<usize> = grid_with_single_element(4, c);
    grid.expand_at_row(-1);
    check_element(&grid, c, &0);
}

#[test]
fn basic_downward_row_expansion_above_element() {
    let c = Coordinate { x: 0, y: 0 };
    let mut grid: Grid<usize> = grid_with_single_element(4, c);
    grid.expand_at_row(1);
    check_empty(&grid, c);
}

#[test]
fn basic_downward_row_expansion_on_element_row() {
    let c = Coordinate { x: 0, y: 0 };
    let mut grid: Grid<usize> = grid_with_single_element(4, c);
    grid.expand_at_row(0);
    check_empty(&grid, c);
}

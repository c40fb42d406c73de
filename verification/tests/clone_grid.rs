use tudi::Bounded;
use tudi::Coordinate;
use tudi::Grid;

/// Checks that the boundaries of the grid are centered around the origin.
fn assert_centered_around_origin<T: Clone>(input: &Grid<T>) {
    assert!(
        -input.x_min_boundary() == input.x_max_boundary()
            || input.x_max_boundary() == -input.x_min_boundary() + 1
    );
    assert!(
        -input.y_min_boundary() == input.y_max_boundary()
            || input.y_max_boundary() == -input.y_min_boundary() + 1
    );
}

/// Checks that element access works for any coordinate in bounds.
fn assert_coordinate_coverage<T: Clone>(input: &Grid<T>) {
    for x in input.x_min_boundary()..=input.x_max_boundary() {
        for y in input.y_min_boundary()..=input.y_max_boundary() {
            input.element_unchecked(&Coordinate { x, y });
        }
    }
}

fn check_x_count<T>(grid: &Grid<T>, count: usize) {
    assert_eq!(grid.x_count(), count);
}

fn check_y_count<T>(grid: &Grid<T>, count: usize) {
    assert_eq!(grid.y_count(), count);
}

#[test]
fn clone_grid_new_from_str_test() {
    let input = "...";
    let map: Vec<(char, usize)> = Vec::new();
    let data = Grid::<usize>::from_str_by_map(input, &map).unwrap();
    check_x_count(&data, 3);
    check_y_count(&data, 1);
    assert_eq!(data.iter_elements_new().len(), 0);
    assert_coordinate_coverage(&data);
    assert_centered_around_origin(&data);
}

#[test]
fn new_from_str_test_two() {
    let input = ".x.";
    let mut map: Vec<(char, usize)> = Vec::new();
    map.push(('x', 1));
    let data = Grid::<usize>::from_str_by_map(input, &map).unwrap();
    check_x_count(&data, 3);
    check_y_count(&data, 1);
    assert_eq!(data.iter_elements_new().len(), 1);
    assert_eq!(*data.element(&Coordinate::default()).unwrap(), 1);
}

#[test]
fn test_new_from_str_unwrapped_with_empty() {
    let input = "...";
    let map: Vec<(char, usize)> = Vec::new();
    let data = Grid::<usize>::from_str_by_map(input, &map).unwrap();
    check_x_count(&data, 3);
    check_y_count(&data, 1);
    assert_eq!(data.iter_elements_new().len(), 0);
    assert_coordinate_coverage(&data);
    assert_centered_around_origin(&data);
}

#[test]
fn clone_grid_new_from_str_unwrapped_should_panic_when_rows_are_different_sizes() {
    let input = "...\n....";
    let map: Vec<(char, usize)> = Vec::new();
    let res = Grid::<usize>::from_str_by_map(input, &map);
    assert!(res.is_err())
}

#[test]
fn empty_rows_one() {
    let input = ".#.\n...";
    let mut map: Vec<(char, ())> = Vec::new();
    map.push(('#', ()));
    let data = Grid::<()>::from_str_by_map(input, &map).unwrap();
    assert_eq!(data.empty_rows(), vec![0]);
}

#[test]
fn empty_rows_two() {
    let input = "...\n.x.\n...";
    let mut map: Vec<(char, ())> = Vec::new();
    map.push(('x', ()));
    let data = Grid::<()>::from_str_by_map(input, &map).unwrap();
    assert_eq!(data.empty_rows(), vec![-1, 1]);
    assert_coordinate_coverage(&data);
    assert_centered_around_origin(&data);
}

#[test]
fn carriage_return_line_breaks_build_the_same_grid() {
    let input = ".x.\r\n...";
    let mut map: Vec<(char, usize)> = Vec::new();
    map.push(('x', 1));
    let data = Grid::<usize>::from_str_by_map(input, &map).unwrap();
    check_x_count(&data, 3);
    check_y_count(&data, 2);
    assert_eq!(*data.element(&Coordinate { x: 0, y: 1 }).unwrap(), 1);
    assert_eq!(data.element_statuses(), ".#.\n...");
}

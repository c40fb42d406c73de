use tudi::AbsoluteDirection;
use tudi::Bounded;
use tudi::Coordinate;
use tudi::Grid;
use tudi::GridError;
use tudi::OriginCenteredBounds;

fn occupied_count<T>(grid: &Grid<T>) -> usize {
    grid.iter_elements_new().len()
}

#[test]
fn three_by_three_grid_is_centered_and_indexed_from_the_northwest() {
    let grid: Grid<()> = Grid::new(3, 3);
    assert_eq!(grid.x_min_boundary(), -1);
    assert_eq!(grid.x_max_boundary(), 1);
    assert_eq!(grid.y_min_boundary(), -1);
    assert_eq!(grid.y_max_boundary(), 1);
    assert_eq!(grid.coordinate_to_index(&grid.northwest_corner()).unwrap(), 0);
    assert_eq!(grid.coordinate_to_index(&grid.southeast_corner()).unwrap(), 8);
}

#[test]
fn moving_north_from_the_origin_relocates_the_element() {
    let mut grid: Grid<u32> = Grid::new(5, 5);
    let origin = Coordinate { x: 0, y: 0 };
    assert!(grid.store_element(&origin, 7).unwrap().is_none());
    let destination = grid
        .move_element_in_direction(&origin, AbsoluteDirection::North)
        .unwrap();
    assert_eq!(destination, Coordinate { x: 0, y: 1 });
    assert!(grid.element_unchecked(&origin).is_none());
    assert_eq!(*grid.element(&destination).unwrap(), 7);
}

#[test]
fn vertical_expansion_of_a_single_point() {
    let mut bounds = OriginCenteredBounds::new(0, 0);
    bounds.expand_bounds_vertically();
    bounds.expand_bounds_vertically();
    assert_eq!(bounds.y_min_boundary(), -1);
    assert_eq!(bounds.y_max_boundary(), 1);
}

#[test]
fn sole_occupant_of_a_single_cell_cannot_move() {
    let mut grid: Grid<u32> = Grid::new(1, 1);
    let origin = Coordinate { x: 0, y: 0 };
    assert!(grid.store_element(&origin, 1).unwrap().is_none());
    match grid.move_element_in_direction(&origin, AbsoluteDirection::South) {
        Err(GridError::OutOfBoundsError(e)) => {
            assert_eq!(e.position(), Coordinate { x: 0, y: -1 });
        }
        _ => panic!(),
    }
    assert_eq!(*grid.element(&origin).unwrap(), 1);
}

#[test]
fn index_round_trip_spans_the_whole_grid() {
    let grid: Grid<()> = Grid::new(4, 7);
    let mut seen = vec![false; 28];
    for x in grid.x_min_boundary()..=grid.x_max_boundary() {
        for y in grid.y_min_boundary()..=grid.y_max_boundary() {
            let c = Coordinate { x, y };
            let index = grid.coordinate_to_index(&c).unwrap();
            assert!(index < 28);
            assert!(!seen[index]);
            seen[index] = true;
            assert_eq!(grid.index_to_coordinate(index).unwrap(), c);
        }
    }
    assert!(seen.iter().all(|b| *b));
    assert!(grid.index_to_coordinate(28).is_err());
}

#[test]
fn double_transpose_restores_shape_and_occupancy() {
    let mut grid: Grid<u8> = Grid::new(4, 3);
    let cells = [
        Coordinate { x: -1, y: 1 },
        Coordinate { x: 2, y: 0 },
        Coordinate { x: 0, y: -1 },
    ];
    for (k, c) in cells.iter().enumerate() {
        assert!(grid.store_element(c, k as u8).unwrap().is_none());
    }
    let before = grid.element_statuses();
    grid.transpose_new();
    assert_eq!(grid.x_count(), 3);
    assert_eq!(grid.y_count(), 4);
    grid.transpose_new();
    assert_eq!(grid.x_count(), 4);
    assert_eq!(grid.y_count(), 3);
    assert_eq!(grid.element_statuses(), before);
    for (k, c) in cells.iter().enumerate() {
        assert_eq!(*grid.element(c).unwrap(), k as u8);
    }
}

#[test]
fn expansion_preserves_count_and_centering_on_both_parities() {
    for n in [3usize, 4usize] {
        for row in [-1i32, 0, 1] {
            let mut grid: Grid<u8> = Grid::new(n, n);
            assert!(grid.store_element(&Coordinate { x: 0, y: 0 }, 1).unwrap().is_none());
            assert!(grid.store_element(&Coordinate { x: 1, y: 1 }, 2).unwrap().is_none());
            let before = occupied_count(&grid);
            grid.expand_at_row(row);
            assert_eq!(occupied_count(&grid), before);
            assert!(
                -grid.y_min_boundary() == grid.y_max_boundary()
                    || grid.y_max_boundary() == -grid.y_min_boundary() + 1
            );
            assert_eq!(grid.y_count(), n + 1);
        }
    }
}

#[test]
fn collision_leaves_both_cells_unchanged() {
    let mut grid: Grid<u8> = Grid::new(3, 3);
    let source = Coordinate { x: 0, y: 0 };
    let target = Coordinate { x: 0, y: 1 };
    assert!(grid.store_element(&source, 1).unwrap().is_none());
    assert!(grid.store_element(&target, 2).unwrap().is_none());
    let before = occupied_count(&grid);
    match grid.move_element_in_direction(&source, AbsoluteDirection::North) {
        Err(GridError::CollisionError) => {}
        _ => panic!(),
    }
    assert_eq!(occupied_count(&grid), before);
    assert_eq!(*grid.element(&source).unwrap(), 1);
    assert_eq!(*grid.element(&target).unwrap(), 2);
}

#[test]
fn moving_an_element_keeps_the_occupied_count() {
    let mut grid: Grid<u8> = Grid::new(4, 4);
    assert!(grid.store_element(&Coordinate { x: 0, y: 0 }, 1).unwrap().is_none());
    assert!(grid.store_element(&Coordinate { x: 1, y: 1 }, 2).unwrap().is_none());
    let before = occupied_count(&grid);
    grid.move_element_in_direction(&Coordinate { x: 0, y: 0 }, AbsoluteDirection::West)
        .unwrap();
    assert_eq!(occupied_count(&grid), before);
}

#[test]
fn unoccupied_and_out_of_bounds_errors() {
    let mut grid: Grid<u8> = Grid::new(2, 2);
    match grid.element(&Coordinate { x: 0, y: 0 }) {
        Err(GridError::UnoccupiedError(c)) => assert_eq!(c, Coordinate { x: 0, y: 0 }),
        _ => panic!(),
    }
    match grid.element(&Coordinate { x: 9, y: 9 }) {
        Err(GridError::OutOfBoundsError(e)) => assert_eq!(e.position(), Coordinate { x: 9, y: 9 }),
        _ => panic!(),
    }
    match grid.remove_element(&Coordinate { x: 0, y: 0 }) {
        Err(GridError::UnoccupiedError(c)) => assert_eq!(c, Coordinate { x: 0, y: 0 }),
        _ => panic!(),
    }
    match grid.store_element(&Coordinate { x: 9, y: 9 }, 1) {
        Err(GridError::OutOfBoundsError(e)) => assert_eq!(e.position(), Coordinate { x: 9, y: 9 }),
        _ => panic!(),
    }
}

#[test]
fn store_overwrites_and_returns_the_previous_occupant() {
    let mut grid: Grid<u8> = Grid::new(3, 3);
    let origin = Coordinate { x: 0, y: 0 };
    assert_eq!(grid.store_element(&origin, 1).unwrap(), None);
    assert_eq!(grid.store_element(&origin, 2).unwrap(), Some(1));
    assert_eq!(*grid.element(&origin).unwrap(), 2);
}

#[test]
fn empty_columns_are_listed_in_ascending_order() {
    let mut grid: Grid<u8> = Grid::new(3, 3);
    assert!(grid.store_element(&Coordinate { x: 0, y: 1 }, 1).unwrap().is_none());
    assert_eq!(grid.empty_columns(), vec![-1, 1]);
}

#[test]
fn degenerate_counts_collapse_to_a_single_point() {
    let grid: Grid<()> = Grid::new(0, 0);
    assert_eq!(grid.x_count(), 1);
    assert_eq!(grid.y_count(), 1);
    assert_eq!(grid.x_min_boundary(), 0);
    assert_eq!(grid.x_max_boundary(), 0);
}

#[test]
fn from_bounds_copies_the_counts() {
    let bounds = OriginCenteredBounds::new(4, 4);
    let grid: Grid<()> = Grid::from_bounds(&bounds);
    assert_eq!(grid.x_max_boundary(), 2);
    assert_eq!(grid.x_min_boundary(), -1);
    assert_eq!(grid.y_max_boundary(), 2);
    assert_eq!(grid.y_min_boundary(), -1);
}

#[test]
fn row_data_with_ragged_rows_is_refused() {
    let data: Vec<Vec<Option<u8>>> = vec![vec![None, Some(1)], vec![None]];
    assert!(Grid::try_from(data).is_err());
    let data: Vec<Vec<Option<u8>>> = vec![vec![None, Some(1)], vec![Some(2), None]];
    let grid = Grid::try_from(data).unwrap();
    assert_eq!(grid.x_count(), 2);
    assert_eq!(grid.y_count(), 2);
    assert_eq!(grid.element_statuses(), ".#\n#.");
}

#[test]
fn get_mut_element_updates_in_place() {
    let mut grid: Grid<u8> = Grid::new(3, 3);
    let origin = Coordinate { x: 0, y: 0 };
    assert!(grid.store_element(&origin, 1).unwrap().is_none());
    *grid.get_mut_element(&origin).unwrap() += 1;
    assert_eq!(*grid.element(&origin).unwrap(), 2);
    match grid.get_mut_element(&Coordinate { x: 1, y: 1 }) {
        Err(GridError::UnoccupiedError(c)) => assert_eq!(c, Coordinate { x: 1, y: 1 }),
        _ => panic!(),
    }
}

#[test]
fn relocation_with_an_occupied_boundary_row_but_empty_move_set() {
    let mut grid: Grid<u8> = Grid::new(3, 3);
    assert!(grid.store_element(&Coordinate { x: 0, y: 1 }, 9).unwrap().is_none());
    // The row lies above every element, so nothing relocates even
    // though the top boundary row is occupied.
    assert!(grid
        .move_elements_above_row_in_direction(2, AbsoluteDirection::North)
        .is_ok());
    assert_eq!(*grid.element(&Coordinate { x: 0, y: 1 }).unwrap(), 9);
}

#[test]
fn westward_relocation_shifts_a_chain_of_elements() {
    let mut grid: Grid<u8> = Grid::new(3, 3);
    assert!(grid.store_element(&Coordinate { x: 0, y: 0 }, 1).unwrap().is_none());
    assert!(grid.store_element(&Coordinate { x: 1, y: 0 }, 2).unwrap().is_none());
    assert!(grid
        .move_elements_above_row_in_direction(-1, AbsoluteDirection::West)
        .is_ok());
    assert_eq!(*grid.element(&Coordinate { x: -1, y: 0 }).unwrap(), 1);
    assert_eq!(*grid.element(&Coordinate { x: 0, y: 0 }).unwrap(), 2);
    assert!(grid.element_unchecked(&Coordinate { x: 1, y: 0 }).is_none());
}

#[test]
fn southward_relocation_below_a_row() {
    let mut grid: Grid<u8> = Grid::new(3, 3);
    assert!(grid.store_element(&Coordinate { x: 0, y: 0 }, 5).unwrap().is_none());
    assert!(grid
        .move_elements_below_row_in_direction(0, AbsoluteDirection::South)
        .is_ok());
    assert!(grid.element_unchecked(&Coordinate { x: 0, y: 0 }).is_none());
    assert_eq!(*grid.element(&Coordinate { x: 0, y: -1 }).unwrap(), 5);
}

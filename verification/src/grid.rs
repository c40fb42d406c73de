mod clone_grid;
mod generic_grid;
mod grid_coordinate;
mod grid_creation_error;
mod grid_error;
mod grid_iter;

pub use generic_grid::column_clear;
pub use generic_grid::count_some;
pub use generic_grid::expanded_cell;
pub use generic_grid::grid_statuses;
pub use generic_grid::lemma_count_some_concat;
pub use generic_grid::lemma_count_some_none;
pub use generic_grid::lemma_count_some_update;
pub use generic_grid::lemma_occupied_list_count;
pub use generic_grid::lemma_transpose_involutive;
pub use generic_grid::lemma_transpose_src_inverse;
pub use generic_grid::lemma_transpose_twice_restores;
pub use generic_grid::occupied_list;
pub use generic_grid::row_clear;
pub use generic_grid::row_match;
pub use generic_grid::shift_safe;
pub use generic_grid::shift_source;
pub use generic_grid::shifted_cell;
pub use generic_grid::status_char;
pub use generic_grid::status_prefix;
pub use generic_grid::status_row;
pub use generic_grid::transpose_src;
pub use generic_grid::transposed_cells;
pub use generic_grid::Grid;
pub use clone_grid::lines_of;
pub use clone_grid::map_lookup;
pub use clone_grid::split_acc;
pub use grid_coordinate::GridCoordinate;
pub use grid_creation_error::GridCreationError;
pub use grid_error::GridError;
pub use grid_iter::GridIter;

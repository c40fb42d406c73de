//! A bounded, integer-coordinate 2-D grid container.
//!
//! The grid keeps at most one element per point and always keeps its
//! occupied region centered on the origin under a parity rule.  The
//! bounds/indexing subsystem maintains that invariant while allowing
//! dynamic growth, bidirectional mapping between 2-D coordinates and a
//! flat storage index, element relocation with collision and
//! out-of-bounds detection, and transposition.

mod bounded;
mod bounded_moving_object;
mod bounds;
mod coordinate;
mod direction;
mod dynamically_bounded;
mod grid;
mod mover;
mod moving_object;
mod origin_centered_bounds;
mod out_of_bounds_error;
mod positioned;
mod region;

pub use bounded::in_region_pred;
pub use bounded::ray_len;
pub use bounded::Bounded;
pub use bounded::MaybeOriginBounded;
pub use bounded::OriginBounded;
pub use bounded_moving_object::BoundedMovingObject;
pub use bounds::region_expanded;
pub use bounds::Bounds;
pub use coordinate::move_in_range;
pub use coordinate::moved_point;
pub use coordinate::Coordinate;
pub use dynamically_bounded::DynamicallyBounded;
pub use grid::column_clear;
pub use grid::count_some;
pub use grid::expanded_cell;
pub use grid::grid_statuses;
pub use grid::lemma_count_some_concat;
pub use grid::lemma_count_some_none;
pub use grid::lemma_count_some_update;
pub use grid::lemma_occupied_list_count;
pub use grid::lemma_transpose_involutive;
pub use grid::lemma_transpose_src_inverse;
pub use grid::lemma_transpose_twice_restores;
pub use grid::lines_of;
pub use grid::map_lookup;
pub use grid::occupied_list;
pub use grid::row_clear;
pub use grid::row_match;
pub use grid::shift_safe;
pub use grid::shift_source;
pub use grid::shifted_cell;
pub use grid::split_acc;
pub use grid::status_char;
pub use grid::status_prefix;
pub use grid::status_row;
pub use grid::transpose_src;
pub use grid::transposed_cells;
pub use grid::Grid;
pub use grid::GridCoordinate;
pub use grid::GridCreationError;
pub use grid::GridError;
pub use grid::GridIter;
pub use mover::Mover;
pub use moving_object::MovingObject;
pub use origin_centered_bounds::InvalidRegionError;
pub use origin_centered_bounds::OriginCenteredBounds;
pub use out_of_bounds_error::OutOfBoundsError;
pub use direction::direction_score;
pub use direction::spec_decrement;
pub use direction::spec_increment;
pub use direction::spec_inverse;
pub use direction::spec_turned;
pub use direction::unit_dx;
pub use direction::unit_dy;
pub use direction::AbsoluteDirection;
pub use direction::RelativeDirection;
pub use positioned::euclid_neighbor_seq;
pub use positioned::spec_direction_toward;
pub use positioned::Positioned;
pub use region::centered_axis;
pub use region::centered_max;
pub use region::centered_min;
pub use region::centered_region;
pub use region::lemma_centered_axis_counts;
pub use region::lemma_centered_axis_unique;
pub use region::lemma_coord_at_index;
pub use region::lemma_counts_within_area;
pub use region::lemma_index_of_coord;
pub use region::lemma_index_of_injective;
pub use region::lemma_index_of_order;
pub use region::Region;

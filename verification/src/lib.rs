//! A terminal drawing toolkit: logical square-pixel coordinates are mapped to
//! discrete character-cell addresses, and fill, path and centering operations
//! are computed as explicit sequences of cell draws.
//!
//! The library itself performs no terminal I/O: every operation returns the
//! exact list of cell writes it calls for, so that a thin front end can replay
//! them on a real terminal.

mod cells;
mod center;
mod color;
mod fill;
mod path;

pub use cells::Draw;
pub use cells::cell;
pub use cells::cell_draws;
pub use cells::cell_positions;
pub use cells::colored;
pub use cells::left_col;
pub use cells::lemma_square_pixel_addressing;
pub use cells::real_cell;
pub use cells::sat_double;
pub use cells::square_pixel_cells;
pub use center::CenterCell;
pub use center::center;
pub use center::center_x_spec;
pub use center::center_y_spec;
pub use center::lemma_center_no_op;
pub use center::lemma_const_extent;
pub use center::lemma_range_nonneg;
pub use center::range_of;
pub use center::seq_max;
pub use center::seq_min;
pub use color::Rgb;
pub use color::rgb;
pub use fill::SurfaceError;
pub use fill::col_positions;
pub use fill::demo_row_positions;
pub use fill::demo_screen_positions;
pub use fill::draw_positions;
pub use fill::fill_colum_cell;
pub use fill::fill_colum_real_cell;
pub use fill::fill_row_cell;
pub use fill::fill_screen_cell;
pub use fill::lemma_colored_concat;
pub use fill::lemma_draw_positions_concat;
pub use fill::lemma_positions_of_colored;
pub use fill::row_positions;
pub use fill::row_test_cell;
pub use fill::screen_positions;
pub use fill::screen_test_cell;
pub use path::d2_map_cell;
pub use path::d2_path;
pub use path::lemma_degenerate_path;
pub use path::lemma_path_positions_len;
pub use path::path_positions;
pub use path::square;

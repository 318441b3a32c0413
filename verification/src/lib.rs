//! A Julia-set scan engine: an evenly spaced coordinate grid, an escape-time
//! kernel over the quadratic map, a row-chunked scanner whose output does not
//! depend on how the rows are chunked, a count-to-color mapping, and the
//! delimited table form of a count grid.

pub mod color;
pub mod coord;
pub mod kernel;
pub mod mapper;
pub mod par_iter;
pub mod params;
pub mod sample;
pub mod scan;
pub mod table;

pub use color::draw_image;
pub use color::make_color_map;
pub use color::Color;
pub use coord::Coordinate;
pub use coord::Point;
pub use kernel::converge_point;
pub use kernel::default_tolerance;
pub use kernel::transform_point;
pub use mapper::make_square_xy_pair;
pub use mapper::make_xy_coordinate_pair;
pub use mapper::map_coordinates;
pub use params::ParamSet;
pub use sample::succ_big;
pub use sample::succ_i32;
pub use scan::converge_point_set;
pub use scan::scan_points;
pub use scan::scan_points_chunked;
pub use table::grid_to_table;
pub use table::table_to_grid;

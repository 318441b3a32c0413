//! The immutable configuration of one scan.

use vstd::prelude::*;

use crate::coord::Coordinate;

verus! {

/// A parameter set to draw: the additive offset of the map, the iteration
/// cap, the square grid's side in pixels, and the optional output
/// destinations.
pub struct ParamSet {
    /// An x offset that is added in iterations.
    pub x_offset: Coordinate,
    /// A y offset that is added in iterations.
    pub y_offset: Coordinate,
    /// The maximum number of iterations.
    pub max_iter: i32,
    /// The width and height in pixels of an output image.
    pub n_pixels: isize,
    /// A path to save counts as a table.
    pub csv_filename: Option<String>,
    /// A path to save counts as an image.
    pub image_filename: Option<String>,
}

impl ParamSet {
    /// Creates a new instance holding exactly the given values.
    pub fn new(
        x_offset: Coordinate,
        y_offset: Coordinate,
        max_iter: i32,
        n_pixels: isize,
        csv_filename: &Option<String>,
        image_filename: &Option<String>,
    ) -> (r: ParamSet)
        ensures
            r.x_offset@ == x_offset@,
            r.y_offset@ == y_offset@,
            r.max_iter == max_iter,
            r.n_pixels == n_pixels,
            match (&r.csv_filename, csv_filename) {
                (Some(a), Some(b)) => a@ == b@,
                (None, None) => true,
                _ => false,
            },
            match (&r.image_filename, image_filename) {
                (Some(a), Some(b)) => a@ == b@,
                (None, None) => true,
                _ => false,
            },
    {
        let csv_copy = match csv_filename {
            Some(name) => Some(name.clone()),
            None => None,
        };
        let image_copy = match image_filename {
            Some(name) => Some(name.clone()),
            None => None,
        };
        ParamSet {
            x_offset,
            y_offset,
            max_iter,
            n_pixels,
            csv_filename: csv_copy,
            image_filename: image_copy,
        }
    }
}

} // verus!

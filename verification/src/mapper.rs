//! Evenly spaced pixel coordinates along one axis.

use vstd::prelude::*;

use crate::coord::{add_bits, div_bits, int_bits, mul_bits, neg_bits, sqrt_bits, sub_bits,
    Coordinate};

verus! {

/// The bit pattern of the coordinate at pixel `i` of `n` pixels spanning
/// `[lower, upper]`: the exact bounds at the ends, and
/// `lower + (i / (n - 1)) * (upper - lower)` between them.
pub open spec fn coordinate_at(lower: u32, upper: u32, n: int, i: int) -> u32 {
    if i == 0 {
        lower
    } else if i == n - 1 {
        upper
    } else {
        add_bits(lower, mul_bits(div_bits(int_bits(i), int_bits(n - 1)), sub_bits(upper, lower)))
    }
}

/// The bit pattern of the midpoint of `[lower, upper]`.
pub open spec fn midpoint_bits(lower: u32, upper: u32) -> u32 {
    div_bits(add_bits(lower, upper), int_bits(2))
}

/// Returns the pixel coordinates on one axis: none for a non-positive pixel
/// count, the single midpoint of the span for one pixel, and otherwise `n`
/// evenly spaced values whose first and last entries are exactly the given
/// bounds.
pub fn map_coordinates(lower: &Coordinate, upper: &Coordinate, n_pixels: isize) -> (r: Vec<
    Coordinate,
>)
    ensures
        n_pixels <= 0 ==> r@.len() == 0,
        n_pixels == 1 ==> r@.len() == 1 && r@[0]@ == midpoint_bits(lower@, upper@),
        n_pixels >= 2 ==> {
            &&& r@.len() == n_pixels
            &&& r@[0]@ == lower@
            &&& r@[n_pixels - 1]@ == upper@
            &&& forall|i: int|
                0 <= i < n_pixels ==> r@[i]@ == coordinate_at(lower@, upper@, n_pixels as int, i)
        },
{
    let mut values: Vec<Coordinate> = Vec::new();
    if n_pixels <= 0 {
        return values;
    }
    if n_pixels == 1 {
        values.push(lower.plus(upper).div(&Coordinate::from_int(2)));
        return values;
    }
    let n: usize = n_pixels as usize;
    let length = upper.minus(lower);
    let n_spans = Coordinate::from_int((n_pixels - 1) as i64);
    let mut i: usize = 0;
    while i < n
        invariant
            2 <= n <= isize::MAX,
            n == n_pixels,
            i <= n,
            values@.len() == i,
            length@ == sub_bits(upper@, lower@),
            n_spans@ == int_bits(n - 1),
            forall|k: int|
                1 <= k < i && k < n - 1 ==> values@[k]@ == coordinate_at(
                    lower@,
                    upper@,
                    n as int,
                    k,
                ),
        decreases n - i,
    {
        let step = Coordinate::from_int(i as i64).div(&n_spans).times(&length);
        values.push(lower.plus(&step));
        i = i + 1;
    }
    values.set(0, *lower);
    values.set(n - 1, *upper);
    values
}

/// Returns the x and y coordinate axes for a span of `[-half_width,
/// half_width]` by `[-half_height, half_height]`.
pub fn make_xy_coordinate_pair(
    half_width: &Coordinate,
    half_height: &Coordinate,
    n_pixels_x: isize,
    n_pixels_y: isize,
) -> (r: (Vec<Coordinate>, Vec<Coordinate>))
    ensures
        axis_matches(r.0@, neg_bits(half_width@), half_width@, n_pixels_x as int),
        axis_matches(r.1@, neg_bits(half_height@), half_height@, n_pixels_y as int),
{
    let xs = map_coordinates(&half_width.neg(), half_width, n_pixels_x);
    let ys = map_coordinates(&half_height.neg(), half_height, n_pixels_y);
    (xs, ys)
}

/// Whether an axis holds exactly the coordinates of `n` pixels spanning
/// `[lower, upper]`.
pub open spec fn axis_matches(axis: Seq<Coordinate>, lower: u32, upper: u32, n: int) -> bool {
    &&& axis.len() == if n >= 0 {
        n
    } else {
        0
    }
    &&& n == 1 ==> axis[0]@ == midpoint_bits(lower, upper)
    &&& n >= 2 ==> forall|i: int| 0 <= i < n ==> axis[i]@ == coordinate_at(lower, upper, n, i)
}

/// The bit pattern of the scan's half-extent on both axes: the square root of
/// two, plus one tenth.
pub open spec fn square_half_extent_bits() -> u32 {
    add_bits(sqrt_bits(int_bits(2)), div_bits(int_bits(1), int_bits(10)))
}

/// Returns equal x and y coordinate axes for the scan's square span.
pub fn make_square_xy_pair(n_pixels: isize) -> (r: (Vec<Coordinate>, Vec<Coordinate>))
    ensures
        axis_matches(
            r.0@,
            neg_bits(square_half_extent_bits()),
            square_half_extent_bits(),
            n_pixels as int,
        ),
        axis_matches(
            r.1@,
            neg_bits(square_half_extent_bits()),
            square_half_extent_bits(),
            n_pixels as int,
        ),
{
    let half_length = Coordinate::from_int(2).sqrt().plus(
        &Coordinate::from_int(1).div(&Coordinate::from_int(10)),
    );
    make_xy_coordinate_pair(&half_length, &half_length, n_pixels, n_pixels)
}

} // verus!

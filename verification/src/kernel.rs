//! The escape-time kernel: how many steps of the quadratic map a point
//! withstands before its trajectory escapes or stabilizes.

use vstd::prelude::*;

use crate::coord::{cadd_bits, cmul_bits, csub_bits, div_bits, int_bits, lt_bits, norm_sqr_bits,
    Coordinate, Point};

verus! {

/// The bit pattern of the squared escape radius, four.
pub open spec fn escape_limit_bits() -> u32 {
    int_bits(4)
}

/// The bit pattern of the default stabilization tolerance, one millionth.
pub open spec fn default_tolerance_bits() -> u32 {
    div_bits(int_bits(1), int_bits(1000000))
}

/// One step of the map: the square of the point, plus the offset.
pub open spec fn step_bits(z: (u32, u32), offset: (u32, u32)) -> (u32, u32) {
    let squared = cmul_bits(z.0, z.1, z.0, z.1);
    cadd_bits(squared.0, squared.1, offset.0, offset.1)
}

/// Whether the kernel stops after stepping from `z` to `next`: the next
/// point's squared magnitude exceeds the escape limit, or the squared
/// magnitude of the difference between `next` and `z` falls below the
/// tolerance, the trajectory having stabilized. Of the two common
/// stabilization tests, this library compares the difference of successive
/// iterates, not the difference of their squared magnitudes.
pub open spec fn step_stops(next: (u32, u32), z: (u32, u32), eps: u32) -> bool {
    let delta = csub_bits(next.0, next.1, z.0, z.1);
    ||| lt_bits(escape_limit_bits(), norm_sqr_bits(next.0, next.1))
    ||| lt_bits(norm_sqr_bits(delta.0, delta.1), eps)
}

/// How many full steps run from `z` before a stop condition fires, with at
/// most `fuel` steps taken.
pub open spec fn steps_from(z: (u32, u32), offset: (u32, u32), eps: u32, fuel: nat) -> nat
    decreases fuel,
{
    if fuel == 0 {
        0
    } else {
        let next = step_bits(z, offset);
        if step_stops(next, z, eps) {
            0
        } else {
            1 + steps_from(next, offset, eps, (fuel - 1) as nat)
        }
    }
}

/// The count the kernel reports for a starting point: the number of full
/// steps before escape or stabilization, saturated at `max_iter`, and zero
/// when `max_iter` is not positive.
pub open spec fn converge_count(
    x: u32,
    y: u32,
    offset: (u32, u32),
    max_iter: int,
    eps: u32,
) -> int {
    if max_iter <= 0 {
        0
    } else {
        steps_from((x, y), offset, eps, max_iter as nat) as int
    }
}

/// The step count never exceeds the fuel.
pub proof fn lemma_steps_bounded(z: (u32, u32), offset: (u32, u32), eps: u32, fuel: nat)
    ensures
        steps_from(z, offset, eps, fuel) <= fuel,
    decreases fuel,
{
    if fuel > 0 {
        let next = step_bits(z, offset);
        if !step_stops(next, z, eps) {
            lemma_steps_bounded(next, offset, eps, (fuel - 1) as nat);
        }
    }
}

/// The kernel's count lies between zero and the iteration cap, for every
/// point, offset and tolerance.
pub proof fn lemma_count_in_range(x: u32, y: u32, offset: (u32, u32), max_iter: int, eps: u32)
    ensures
        0 <= converge_count(x, y, offset, max_iter, eps),
        converge_count(x, y, offset, max_iter, eps) <= if max_iter >= 0 {
            max_iter
        } else {
            0
        },
{
    if max_iter > 0 {
        lemma_steps_bounded((x, y), offset, eps, max_iter as nat);
    }
}

proof fn lemma_steps_saturation(z: (u32, u32), offset: (u32, u32), eps: u32, f1: nat, f2: nat)
    requires
        f1 <= f2,
    ensures
        steps_from(z, offset, eps, f1) == if steps_from(z, offset, eps, f2) >= f1 {
            f1 as int
        } else {
            steps_from(z, offset, eps, f2) as int
        },
    decreases f1,
{
    lemma_steps_bounded(z, offset, eps, f2);
    if f1 > 0 {
        let next = step_bits(z, offset);
        if !step_stops(next, z, eps) {
            lemma_steps_saturation(next, offset, eps, (f1 - 1) as nat, (f2 - 1) as nat);
        }
    }
}

/// Raising the iteration cap never changes a count below the lower cap: the
/// count under the lower cap is the count under the higher cap, saturated at
/// the lower cap.
pub proof fn lemma_count_saturation(
    x: u32,
    y: u32,
    offset: (u32, u32),
    eps: u32,
    low: int,
    high: int,
)
    requires
        0 <= low <= high,
    ensures
        converge_count(x, y, offset, low, eps) == if converge_count(x, y, offset, high, eps)
            >= low {
            low
        } else {
            converge_count(x, y, offset, high, eps)
        },
{
    if low > 0 {
        lemma_steps_saturation((x, y), offset, eps, low as nat, high as nat);
    }
}

/// Returns the transformed point under the rule of the scan: the square of
/// the point, plus the offset.
pub fn transform_point(from: &Point, offset: &Point) -> (r: Point)
    ensures
        r@ == step_bits(from@, offset@),
{
    from.times(from).plus(offset)
}

/// Returns how many times a point is transformed before its trajectory
/// escapes or stabilizes, up to `max_iter` times.
pub fn converge_point(
    point_x: &Coordinate,
    point_y: &Coordinate,
    point_offset: &Point,
    max_iter: i32,
    eps: &Coordinate,
) -> (count: i32)
    ensures
        count == converge_count(point_x@, point_y@, point_offset@, max_iter as int, eps@),
        0 <= count,
        count <= if max_iter >= 0 {
            max_iter as int
        } else {
            0
        },
{
    let limit_modulus = Coordinate::from_int(4);
    let mut z = Point::new(point_x, point_y);
    let mut count: i32 = 0;
    proof {
        lemma_count_in_range(point_x@, point_y@, point_offset@, max_iter as int, eps@);
    }
    if max_iter <= 0 {
        return 0;
    }
    while count < max_iter
        invariant_except_break
            0 <= count <= max_iter,
            0 < max_iter,
            limit_modulus@ == escape_limit_bits(),
            steps_from((point_x@, point_y@), point_offset@, eps@, max_iter as nat) == count
                + steps_from(z@, point_offset@, eps@, (max_iter - count) as nat),
        ensures
            count == converge_count(point_x@, point_y@, point_offset@, max_iter as int, eps@),
            0 <= count <= max_iter,
        decreases max_iter - count,
    {
        let next_z = transform_point(&z, point_offset);
        let z_modulus = next_z.norm_sqr();
        proof {
            lemma_steps_bounded(next_z@, point_offset@, eps@, (max_iter - count - 1) as nat);
        }
        if limit_modulus.lt(&z_modulus) {
            break ;
        }
        let delta = next_z.minus(&z).norm_sqr();
        if delta.lt(eps) {
            break ;
        }
        count = count + 1;
        z = next_z;
    }
    count
}

/// Returns the stabilization tolerance used when none is chosen: one
/// millionth.
pub fn default_tolerance() -> (r: Coordinate)
    ensures
        r@ == default_tolerance_bits(),
{
    Coordinate::from_int(1).div(&Coordinate::from_int(1000000))
}

} // verus!

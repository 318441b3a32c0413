//! Scalar coordinates and complex points of the scan plane.
//!
//! A coordinate is one IEEE 754 single-precision value. Verus cannot reason
//! about such values directly, so the library stores each value twice: as the
//! scalar held inside a `num` complex number (whose imaginary part is zero and
//! never read), and as the value's bit pattern, a plain 32-bit integer. Every
//! contract in the crate speaks of bit patterns only. The arithmetic itself is
//! done by `num` and by the machine's scalar operations, behind trusted
//! wrappers; each wrapper names the resulting bit pattern with an
//! uninterpreted function of the operand bit patterns, which is sound because
//! the IEEE operations are functions of the operand bits alone.
//!
//! The fields are private, and every constructor in this module stores a
//! value together with that value's own bit pattern, so the two never part.

use vstd::prelude::*;

verus! {

#[verifier::external_type_specification]
#[verifier::external_body]
#[verifier::reject_recursive_types(T)]
pub struct ExComplex<T>(num::complex::Complex<T>);

/// One axis position in the scan plane.
///
/// `value` holds the scalar in the real part of a `num` complex number; the
/// imaginary part is zero and no operation reads it. `bits` is the scalar's
/// bit pattern, the only part that contracts mention.
#[derive(Clone, Copy)]
pub struct Coordinate {
    value: num::complex::Complex32,
    bits: u32,
}

/// One point of the scan plane, treated as a complex number.
#[derive(Clone, Copy)]
pub struct Point {
    value: num::complex::Complex32,
    x_bits: u32,
    y_bits: u32,
}

impl View for Coordinate {
    type V = u32;

    closed spec fn view(&self) -> u32 {
        self.bits
    }
}

impl View for Point {
    type V = (u32, u32);

    closed spec fn view(&self) -> (u32, u32) {
        (self.x_bits, self.y_bits)
    }
}

/// The bit pattern of the sum of two scalars.
pub uninterp spec fn add_bits(a: u32, b: u32) -> u32;

/// The bit pattern of the difference of two scalars.
pub uninterp spec fn sub_bits(a: u32, b: u32) -> u32;

/// The bit pattern of the product of two scalars.
pub uninterp spec fn mul_bits(a: u32, b: u32) -> u32;

/// The bit pattern of the quotient of two scalars.
pub uninterp spec fn div_bits(a: u32, b: u32) -> u32;

/// The bit pattern of a negated scalar.
pub uninterp spec fn neg_bits(a: u32) -> u32;

/// The bit pattern of the square root of a scalar.
pub uninterp spec fn sqrt_bits(a: u32) -> u32;

/// Whether the first scalar compares strictly below the second.
pub uninterp spec fn lt_bits(a: u32, b: u32) -> bool;

/// The bit pattern of the scalar nearest to a given integer.
pub uninterp spec fn int_bits(i: int) -> u32;

/// The scalar bit pattern read from a decimal text, if the text is readable.
pub uninterp spec fn parse_bits(s: Seq<char>) -> Option<u32>;

/// The componentwise sum of two complex points.
pub uninterp spec fn cadd_bits(ax: u32, ay: u32, bx: u32, by: u32) -> (u32, u32);

/// The componentwise difference of two complex points.
pub uninterp spec fn csub_bits(ax: u32, ay: u32, bx: u32, by: u32) -> (u32, u32);

/// The complex product of two points.
pub uninterp spec fn cmul_bits(ax: u32, ay: u32, bx: u32, by: u32) -> (u32, u32);

/// The squared magnitude of a complex point.
pub uninterp spec fn norm_sqr_bits(x: u32, y: u32) -> u32;

impl Coordinate {
    /// The bit pattern of this coordinate.
    pub fn bits(&self) -> (r: u32)
        ensures
            r == self@,
    {
        self.bits
    }

    /// Relies on the machine's scalar addition: the sum, correctly rounded,
    /// depends on the operand bits alone.
    #[verifier::external_body]
    pub fn plus(&self, other: &Coordinate) -> (r: Coordinate)
        ensures
            r@ == add_bits(self@, other@),
    {
        let q = self.value.re + other.value.re;
        Coordinate { value: num::complex::Complex32::from(q), bits: q.to_bits() }
    }

    /// Relies on the machine's scalar subtraction, a function of the operand
    /// bits alone.
    #[verifier::external_body]
    pub fn minus(&self, other: &Coordinate) -> (r: Coordinate)
        ensures
            r@ == sub_bits(self@, other@),
    {
        let q = self.value.re - other.value.re;
        Coordinate { value: num::complex::Complex32::from(q), bits: q.to_bits() }
    }

    /// Relies on the machine's scalar multiplication, a function of the
    /// operand bits alone.
    #[verifier::external_body]
    pub fn times(&self, other: &Coordinate) -> (r: Coordinate)
        ensures
            r@ == mul_bits(self@, other@),
    {
        let q = self.value.re * other.value.re;
        Coordinate { value: num::complex::Complex32::from(q), bits: q.to_bits() }
    }

    /// Relies on the machine's scalar division, a function of the operand
    /// bits alone. Dividing by zero yields an infinite or undefined scalar,
    /// never a fault.
    #[verifier::external_body]
    pub fn div(&self, other: &Coordinate) -> (r: Coordinate)
        ensures
            r@ == div_bits(self@, other@),
    {
        let q = self.value.re / other.value.re;
        Coordinate { value: num::complex::Complex32::from(q), bits: q.to_bits() }
    }

    /// Relies on the machine's scalar negation, a function of the operand
    /// bits alone.
    #[verifier::external_body]
    pub fn neg(&self) -> (r: Coordinate)
        ensures
            r@ == neg_bits(self@),
    {
        let q = -self.value.re;
        Coordinate { value: num::complex::Complex32::from(q), bits: q.to_bits() }
    }

    /// Relies on the machine's scalar square root, correctly rounded, a
    /// function of the operand bits alone.
    #[verifier::external_body]
    pub fn sqrt(&self) -> (r: Coordinate)
        ensures
            r@ == sqrt_bits(self@),
    {
        let q = self.value.re.sqrt();
        Coordinate { value: num::complex::Complex32::from(q), bits: q.to_bits() }
    }

    /// Relies on the machine's scalar ordering: whether one value is strictly
    /// below another depends on the operand bits alone.
    #[verifier::external_body]
    pub fn lt(&self, other: &Coordinate) -> (r: bool)
        ensures
            r == lt_bits(self@, other@),
    {
        self.value.re < other.value.re
    }

    /// Relies on num_traits::cast: an integer converts to the nearest scalar,
    /// which depends on the integer alone.
    #[verifier::external_body]
    pub fn from_int(i: i64) -> (r: Coordinate)
        ensures
            r@ == int_bits(i as int),
    {
        let v = num::complex::Complex32::new(num_traits::cast(i).unwrap(), num_traits::cast(0i64).unwrap());
        Coordinate { value: v, bits: v.re.to_bits() }
    }

    /// Relies on the `num` crate's text reading for complex scalars: the
    /// outcome depends on the text alone, and on a plain decimal text it is
    /// the nearest scalar.
    #[verifier::external_body]
    pub fn parse(s: &str) -> (r: Option<Coordinate>)
        ensures
            match r {
                Some(c) => parse_bits(s@) == Some(c@),
                None => parse_bits(s@) is None,
            },
    {
        match s.parse::<num::complex::Complex32>() {
            Ok(v) => Some(Coordinate {
                value: num::complex::Complex32::from(v.re),
                bits: v.re.to_bits(),
            }),
            Err(_) => None,
        }
    }
}

impl Point {
    /// Joins two coordinates into one point.
    #[verifier::external_body]
    pub fn new(x: &Coordinate, y: &Coordinate) -> (r: Point)
        ensures
            r@ == (x@, y@),
    {
        Point {
            value: num::complex::Complex32::new(x.value.re, y.value.re),
            x_bits: x.bits,
            y_bits: y.bits,
        }
    }

    /// The bit pattern of the real component.
    pub fn x_bits(&self) -> (r: u32)
        ensures
            r == self@.0,
    {
        self.x_bits
    }

    /// The bit pattern of the imaginary component.
    pub fn y_bits(&self) -> (r: u32)
        ensures
            r == self@.1,
    {
        self.y_bits
    }

    /// Relies on the `num` crate's complex addition, componentwise and a
    /// function of the operand bits alone.
    #[verifier::external_body]
    pub fn plus(&self, other: &Point) -> (r: Point)
        ensures
            r@ == cadd_bits(self@.0, self@.1, other@.0, other@.1),
    {
        let v = self.value + other.value;
        Point { value: v, x_bits: v.re.to_bits(), y_bits: v.im.to_bits() }
    }

    /// Relies on the `num` crate's complex subtraction, componentwise and a
    /// function of the operand bits alone.
    #[verifier::external_body]
    pub fn minus(&self, other: &Point) -> (r: Point)
        ensures
            r@ == csub_bits(self@.0, self@.1, other@.0, other@.1),
    {
        let v = self.value - other.value;
        Point { value: v, x_bits: v.re.to_bits(), y_bits: v.im.to_bits() }
    }

    /// Relies on the `num` crate's complex multiplication, a function of the
    /// operand bits alone.
    #[verifier::external_body]
    pub fn times(&self, other: &Point) -> (r: Point)
        ensures
            r@ == cmul_bits(self@.0, self@.1, other@.0, other@.1),
    {
        let v = self.value * other.value;
        Point { value: v, x_bits: v.re.to_bits(), y_bits: v.im.to_bits() }
    }

    /// Relies on the `num` crate's `norm_sqr`, the squared magnitude, a
    /// function of the operand bits alone.
    #[verifier::external_body]
    pub fn norm_sqr(&self) -> (r: Coordinate)
        ensures
            r@ == norm_sqr_bits(self@.0, self@.1),
    {
        let q = self.value.norm_sqr();
        Coordinate { value: num::complex::Complex32::from(q), bits: q.to_bits() }
    }
}

} // verus!

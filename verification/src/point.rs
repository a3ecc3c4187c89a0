//! The three-component vector primitive: norm, distance, displacement and
//! unit vector, over IEEE-754 double coordinates carried as `u64` bit
//! patterns.

use crate::scalar::{
    add_bits, div_bits, mul_bits, spec_add, spec_div, spec_mul, spec_sqrt, spec_sub, sqrt_bits,
    sub_bits,
};
use vstd::prelude::*;

verus! {

/// A point (or vector) in three-dimensional space. Each coordinate holds the
/// bit pattern of the IEEE-754 double it stands for.
#[derive(Clone, Copy, Debug, PartialEq, Eq, Structural)]
pub struct Point {
    pub x: u64,
    pub y: u64,
    pub z: u64,
}

/// The Euclidean norm of `p`: sqrt(x*x + y*y + z*z), every operation an
/// IEEE-754 double operation, summed left to right.
pub open spec fn spec_norm(p: Point) -> u64 {
    spec_sqrt(
        spec_add(
            spec_add(spec_mul(p.x, p.x), spec_mul(p.y, p.y)),
            spec_mul(p.z, p.z),
        ),
    )
}

/// The componentwise difference `p - o`.
pub open spec fn spec_displacement(p: Point, o: Point) -> Point {
    Point { x: spec_sub(p.x, o.x), y: spec_sub(p.y, o.y), z: spec_sub(p.z, o.z) }
}

/// The Euclidean distance between `p` and `o`: the norm of their difference.
pub open spec fn spec_distance(p: Point, o: Point) -> u64 {
    spec_norm(spec_displacement(p, o))
}

/// `p` scaled by the reciprocal of its norm, componentwise.
pub open spec fn spec_unit_vector(p: Point) -> Point {
    let n = spec_norm(p);
    Point { x: spec_div(p.x, n), y: spec_div(p.y, n), z: spec_div(p.z, n) }
}

impl Point {
    /// The Euclidean norm of this point.
    pub fn get_norm(&self) -> (r: u64)
        ensures
            r == spec_norm(*self),
    {
        let xx = mul_bits(self.x, self.x);
        let yy = mul_bits(self.y, self.y);
        let zz = mul_bits(self.z, self.z);
        sqrt_bits(add_bits(add_bits(xx, yy), zz))
    }

    /// The Euclidean distance from this point to `other`.
    pub fn get_distance(&self, other: &Point) -> (r: u64)
        ensures
            r == spec_distance(*self, *other),
    {
        let d = self.get_displacement(other);
        d.get_norm()
    }

    /// The componentwise difference `self - other`.
    pub fn get_displacement(&self, other: &Point) -> (r: Point)
        ensures
            r == spec_displacement(*self, *other),
    {
        Point {
            x: sub_bits(self.x, other.x),
            y: sub_bits(self.y, other.y),
            z: sub_bits(self.z, other.z),
        }
    }

    /// This point scaled to unit norm: each coordinate divided by the norm.
    /// On a zero vector the divisions yield non-finite coordinates, as the
    /// IEEE-754 rules prescribe; a caller owes it to itself to hand in coil
    /// data without zero-length segments.
    pub fn get_unit_vector(&self) -> (r: Point)
        ensures
            r == spec_unit_vector(*self),
    {
        let norm = self.get_norm();
        Point {
            x: div_bits(self.x, norm),
            y: div_bits(self.y, norm),
            z: div_bits(self.z, norm),
        }
    }
}

} // verus!

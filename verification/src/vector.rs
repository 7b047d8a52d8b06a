//! Exact vector types: three- and two-dimensional rational vectors.
//!
//! A vector stores integer numerators for its components and one positive
//! denominator shared by all of them, so the component values are
//! `x/d`, `y/d`, `z/d`. Equality is equality of the component values, not of
//! the representation: `(1,0,0)/1` and `(2,0,0)/2` are the same vector.

use vstd::prelude::*;
use crate::rat::{rat_eq, muli, lemma_mul_bound};

verus! {

/// A point or direction in space, with rational components `x/d`, `y/d`, `z/d`.
#[derive(Clone, Copy, Debug)]
pub struct Vec3 {
    pub x: i64,
    pub y: i64,
    pub z: i64,
    pub d: i64,
}

/// A texture coordinate, with rational components `x/d`, `y/d`.
#[derive(Clone, Copy, Debug)]
pub struct Vec2 {
    pub x: i64,
    pub y: i64,
    pub d: i64,
}

impl Vec3 {
    /// The denominator is positive and every numerator can be negated.
    pub open spec fn wf(self) -> bool {
        &&& 1 <= self.d
        &&& -i64::MAX <= self.x
        &&& -i64::MAX <= self.y
        &&& -i64::MAX <= self.z
    }

    /// Numerators and denominator all bounded in magnitude by `b`.
    pub open spec fn in_range(self, b: int) -> bool {
        &&& -b <= self.x <= b
        &&& -b <= self.y <= b
        &&& -b <= self.z <= b
        &&& 1 <= self.d <= b
    }

    pub fn new(x: i64, y: i64, z: i64, d: i64) -> (r: Self)
        requires
            1 <= d,
            -i64::MAX <= x,
            -i64::MAX <= y,
            -i64::MAX <= z,
        ensures
            r == (Vec3 { x, y, z, d }),
    {
        Vec3 { x, y, z, d }
    }

    /// The origin.
    pub fn zero() -> (r: Self)
        ensures
            r == (Vec3 { x: 0, y: 0, z: 0, d: 1 }),
    {
        Vec3 { x: 0, y: 0, z: 0, d: 1 }
    }
}

impl Vec2 {
    /// The denominator is positive and every numerator can be negated.
    pub open spec fn wf(self) -> bool {
        &&& 1 <= self.d
        &&& -i64::MAX <= self.x
        &&& -i64::MAX <= self.y
    }

    /// Numerators and denominator all bounded in magnitude by `b`.
    pub open spec fn in_range(self, b: int) -> bool {
        &&& -b <= self.x <= b
        &&& -b <= self.y <= b
        &&& 1 <= self.d <= b
    }

    pub fn new(x: i64, y: i64, d: i64) -> (r: Self)
        requires
            1 <= d,
            -i64::MAX <= x,
            -i64::MAX <= y,
        ensures
            r == (Vec2 { x, y, d }),
    {
        Vec2 { x, y, d }
    }

    /// The zero coordinate.
    pub fn zero() -> (r: Self)
        ensures
            r == (Vec2 { x: 0, y: 0, d: 1 }),
    {
        Vec2 { x: 0, y: 0, d: 1 }
    }
}

/// Two vectors hold the same point: the component values agree.
pub open spec fn vec3_eq(a: Vec3, b: Vec3) -> bool {
    &&& rat_eq(a.x as int, a.d as int, b.x as int, b.d as int)
    &&& rat_eq(a.y as int, a.d as int, b.y as int, b.d as int)
    &&& rat_eq(a.z as int, a.d as int, b.z as int, b.d as int)
}

/// Two coordinates hold the same value: the component values agree.
pub open spec fn vec2_eq(a: Vec2, b: Vec2) -> bool {
    &&& rat_eq(a.x as int, a.d as int, b.x as int, b.d as int)
    &&& rat_eq(a.y as int, a.d as int, b.y as int, b.d as int)
}

/// Numerator of the dot product of `a` and `b`; its denominator is
/// `a.d * b.d`.
pub open spec fn dot_num(a: Vec3, b: Vec3) -> int {
    a.x * b.x + a.y * b.y + a.z * b.z
}

/// Numerators of the cross product of `a` and `b`; its denominator is
/// `a.d * b.d`.
pub open spec fn cross_x(a: Vec3, b: Vec3) -> int {
    a.y * b.z - a.z * b.y
}

pub open spec fn cross_y(a: Vec3, b: Vec3) -> int {
    a.z * b.x - a.x * b.z
}

pub open spec fn cross_z(a: Vec3, b: Vec3) -> int {
    a.x * b.y - a.y * b.x
}

impl PartialEq for Vec3 {
    fn eq(&self, other: &Self) -> (r: bool) {
        proof {
            lemma_mul_bound(self.x as int, other.d as int, 0x8000000000000000, 0x8000000000000000);
            lemma_mul_bound(self.y as int, other.d as int, 0x8000000000000000, 0x8000000000000000);
            lemma_mul_bound(self.z as int, other.d as int, 0x8000000000000000, 0x8000000000000000);
            lemma_mul_bound(other.x as int, self.d as int, 0x8000000000000000, 0x8000000000000000);
            lemma_mul_bound(other.y as int, self.d as int, 0x8000000000000000, 0x8000000000000000);
            lemma_mul_bound(other.z as int, self.d as int, 0x8000000000000000, 0x8000000000000000);
        }
        (self.x as i128) * (other.d as i128) == (other.x as i128) * (self.d as i128)
            && (self.y as i128) * (other.d as i128) == (other.y as i128) * (self.d as i128)
            && (self.z as i128) * (other.d as i128) == (other.z as i128) * (self.d as i128)
    }
}

impl vstd::std_specs::cmp::PartialEqSpecImpl for Vec3 {
    open spec fn obeys_eq_spec() -> bool {
        true
    }

    open spec fn eq_spec(&self, other: &Self) -> bool {
        vec3_eq(*self, *other)
    }
}

impl PartialEq for Vec2 {
    fn eq(&self, other: &Self) -> (r: bool) {
        proof {
            lemma_mul_bound(self.x as int, other.d as int, 0x8000000000000000, 0x8000000000000000);
            lemma_mul_bound(self.y as int, other.d as int, 0x8000000000000000, 0x8000000000000000);
            lemma_mul_bound(other.x as int, self.d as int, 0x8000000000000000, 0x8000000000000000);
            lemma_mul_bound(other.y as int, self.d as int, 0x8000000000000000, 0x8000000000000000);
        }
        (self.x as i128) * (other.d as i128) == (other.x as i128) * (self.d as i128)
            && (self.y as i128) * (other.d as i128) == (other.y as i128) * (self.d as i128)
    }
}

impl vstd::std_specs::cmp::PartialEqSpecImpl for Vec2 {
    open spec fn obeys_eq_spec() -> bool {
        true
    }

    open spec fn eq_spec(&self, other: &Self) -> bool {
        vec2_eq(*self, *other)
    }
}

/// Numerator of the dot product, computed exactly, with a caller-supplied
/// magnitude bound on both arguments.
pub(crate) fn dot3(a: &Vec3, b: &Vec3, bound: Ghost<(int, int)>) -> (r: i128)
    requires
        a.in_range(bound@.0),
        b.in_range(bound@.1),
        3 * (bound@.0 * bound@.1) <= i128::MAX as int,
    ensures
        r == dot_num(*a, *b),
        -(3 * (bound@.0 * bound@.1)) <= r <= 3 * (bound@.0 * bound@.1),
{
    let xx: i128 = muli(a.x as i128, b.x as i128, Ghost((bound@.0, bound@.1)));
    let yy: i128 = muli(a.y as i128, b.y as i128, Ghost((bound@.0, bound@.1)));
    let zz: i128 = muli(a.z as i128, b.z as i128, Ghost((bound@.0, bound@.1)));
    xx + yy + zz
}

/// Numerators of the cross product, computed exactly, with a caller-supplied
/// magnitude bound on both arguments.
pub(crate) fn cross3(a: &Vec3, b: &Vec3, bound: Ghost<(int, int)>) -> (r: (i128, i128, i128))
    requires
        a.in_range(bound@.0),
        b.in_range(bound@.1),
        2 * (bound@.0 * bound@.1) <= i128::MAX as int,
    ensures
        r.0 == cross_x(*a, *b),
        r.1 == cross_y(*a, *b),
        r.2 == cross_z(*a, *b),
        -(2 * (bound@.0 * bound@.1)) <= r.0 <= 2 * (bound@.0 * bound@.1),
        -(2 * (bound@.0 * bound@.1)) <= r.1 <= 2 * (bound@.0 * bound@.1),
        -(2 * (bound@.0 * bound@.1)) <= r.2 <= 2 * (bound@.0 * bound@.1),
{
    let g: Ghost<(int, int)> = Ghost((bound@.0, bound@.1));
    let x: i128 = muli(a.y as i128, b.z as i128, g) - muli(a.z as i128, b.y as i128, g);
    let y: i128 = muli(a.z as i128, b.x as i128, g) - muli(a.x as i128, b.z as i128, g);
    let z: i128 = muli(a.x as i128, b.y as i128, g) - muli(a.y as i128, b.x as i128, g);
    (x, y, z)
}

} // verus!

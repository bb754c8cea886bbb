//! Integer 3-vectors and the exact products the geometry kernel is built on.
//!
//! All scene geometry is expressed with these vectors. Components are
//! `i128`; callers keep scene input on the grid bounded by
//! [`crate::COORD_LIMIT`], and the bound lemmas here let every derived
//! product be proved free of overflow.

use vstd::prelude::*;

verus! {

/// Largest component magnitude accepted by the elementwise products
/// (`dot`, `cross`, `scale`): generous enough for every intermediate
/// quantity the kernel computes, while keeping products inside `i128`.
pub const OP_LIMIT: i128 = 0x4000_0000_0000_0000;

#[derive(Clone, Copy, PartialEq, Eq, Structural, Debug)]
pub struct Vec3 {
    pub x: i128,
    pub y: i128,
    pub z: i128,
}

/// Every component of `v` lies in `[-b, b]`.
pub open spec fn in_range(v: Vec3, b: int) -> bool {
    &&& -b <= v.x <= b
    &&& -b <= v.y <= b
    &&& -b <= v.z <= b
}

/// Mathematical dot product of two integer vectors.
pub open spec fn dot_int(a: Vec3, b: Vec3) -> int {
    a.x * b.x + a.y * b.y + a.z * b.z
}

pub open spec fn cross_x_int(a: Vec3, b: Vec3) -> int {
    a.y * b.z - a.z * b.y
}

pub open spec fn cross_y_int(a: Vec3, b: Vec3) -> int {
    a.z * b.x - a.x * b.z
}

pub open spec fn cross_z_int(a: Vec3, b: Vec3) -> int {
    a.x * b.y - a.y * b.x
}

/// `r` is the cross product `a x b`.
pub open spec fn is_cross(r: Vec3, a: Vec3, b: Vec3) -> bool {
    &&& r.x == cross_x_int(a, b)
    &&& r.y == cross_y_int(a, b)
    &&& r.z == cross_z_int(a, b)
}

/// View of a vector as a triple of unbounded integers, for spec-level
/// algebra that must not truncate.
pub open spec fn t3(v: Vec3) -> (int, int, int) {
    (v.x as int, v.y as int, v.z as int)
}

pub open spec fn t3_add(a: (int, int, int), b: (int, int, int)) -> (int, int, int) {
    (a.0 + b.0, a.1 + b.1, a.2 + b.2)
}

pub open spec fn t3_sub(a: (int, int, int), b: (int, int, int)) -> (int, int, int) {
    (a.0 - b.0, a.1 - b.1, a.2 - b.2)
}

pub open spec fn t3_dot(a: (int, int, int), b: (int, int, int)) -> int {
    a.0 * b.0 + a.1 * b.1 + a.2 * b.2
}

pub open spec fn t3_cross(a: (int, int, int), b: (int, int, int)) -> (int, int, int) {
    (a.1 * b.2 - a.2 * b.1, a.2 * b.0 - a.0 * b.2, a.0 * b.1 - a.1 * b.0)
}

/// |a * b| <= am * bm whenever |a| <= am and |b| <= bm.
pub proof fn lemma_mul_bound(a: int, b: int, am: int, bm: int)
    by (nonlinear_arith)
    requires
        -am <= a <= am,
        -bm <= b <= bm,
        0 <= am,
        0 <= bm,
    ensures
        -(am * bm) <= a * b <= am * bm,
{
}

/// The dot product of vectors bounded by `am` and `bm` is bounded by
/// three times the product of the bounds.
pub proof fn lemma_dot_bound(a: Vec3, b: Vec3, am: int, bm: int)
    requires
        in_range(a, am),
        in_range(b, bm),
        0 <= am,
        0 <= bm,
    ensures
        -(3 * (am * bm)) <= dot_int(a, b) <= 3 * (am * bm),
{
    lemma_mul_bound(a.x as int, b.x as int, am, bm);
    lemma_mul_bound(a.y as int, b.y as int, am, bm);
    lemma_mul_bound(a.z as int, b.z as int, am, bm);
}

/// Each component of a cross product of vectors bounded by `am` and `bm`
/// is bounded by twice the product of the bounds.
pub proof fn lemma_cross_bound(r: Vec3, a: Vec3, b: Vec3, am: int, bm: int)
    requires
        is_cross(r, a, b),
        in_range(a, am),
        in_range(b, bm),
        0 <= am,
        0 <= bm,
    ensures
        in_range(r, 2 * (am * bm)),
{
    lemma_mul_bound(a.y as int, b.z as int, am, bm);
    lemma_mul_bound(a.z as int, b.y as int, am, bm);
    lemma_mul_bound(a.z as int, b.x as int, am, bm);
    lemma_mul_bound(a.x as int, b.z as int, am, bm);
    lemma_mul_bound(a.x as int, b.y as int, am, bm);
    lemma_mul_bound(a.y as int, b.x as int, am, bm);
}

impl Vec3 {
    pub fn new(x: i128, y: i128, z: i128) -> (r: Vec3)
        ensures
            r == (Vec3 { x, y, z }),
    {
        Vec3 { x, y, z }
    }

    pub fn add(self, other: Vec3) -> (r: Vec3)
        requires
            in_range(self, OP_LIMIT as int),
            in_range(other, OP_LIMIT as int),
        ensures
            r.x == self.x + other.x,
            r.y == self.y + other.y,
            r.z == self.z + other.z,
    {
        Vec3 { x: self.x + other.x, y: self.y + other.y, z: self.z + other.z }
    }

    pub fn sub(self, other: Vec3) -> (r: Vec3)
        requires
            in_range(self, OP_LIMIT as int),
            in_range(other, OP_LIMIT as int),
        ensures
            r.x == self.x - other.x,
            r.y == self.y - other.y,
            r.z == self.z - other.z,
    {
        Vec3 { x: self.x - other.x, y: self.y - other.y, z: self.z - other.z }
    }

    pub fn neg(self) -> (r: Vec3)
        requires
            in_range(self, OP_LIMIT as int),
        ensures
            r.x == -self.x,
            r.y == -self.y,
            r.z == -self.z,
    {
        Vec3 { x: -self.x, y: -self.y, z: -self.z }
    }

    pub fn scale(self, k: i128) -> (r: Vec3)
        requires
            in_range(self, OP_LIMIT as int),
            -OP_LIMIT <= k <= OP_LIMIT,
        ensures
            r.x == k * self.x,
            r.y == k * self.y,
            r.z == k * self.z,
    {
        proof {
            lemma_mul_bound(k as int, self.x as int, OP_LIMIT as int, OP_LIMIT as int);
            lemma_mul_bound(k as int, self.y as int, OP_LIMIT as int, OP_LIMIT as int);
            lemma_mul_bound(k as int, self.z as int, OP_LIMIT as int, OP_LIMIT as int);
        }
        Vec3 { x: k * self.x, y: k * self.y, z: k * self.z }
    }

    pub fn dot(self, other: Vec3) -> (r: i128)
        requires
            in_range(self, OP_LIMIT as int),
            in_range(other, OP_LIMIT as int),
        ensures
            r == dot_int(self, other),
    {
        proof {
            lemma_mul_bound(self.x as int, other.x as int, OP_LIMIT as int, OP_LIMIT as int);
            lemma_mul_bound(self.y as int, other.y as int, OP_LIMIT as int, OP_LIMIT as int);
            lemma_mul_bound(self.z as int, other.z as int, OP_LIMIT as int, OP_LIMIT as int);
        }
        self.x * other.x + self.y * other.y + self.z * other.z
    }

    pub fn cross(self, other: Vec3) -> (r: Vec3)
        requires
            in_range(self, OP_LIMIT as int),
            in_range(other, OP_LIMIT as int),
        ensures
            is_cross(r, self, other),
    {
        proof {
            lemma_mul_bound(self.y as int, other.z as int, OP_LIMIT as int, OP_LIMIT as int);
            lemma_mul_bound(self.z as int, other.y as int, OP_LIMIT as int, OP_LIMIT as int);
            lemma_mul_bound(self.z as int, other.x as int, OP_LIMIT as int, OP_LIMIT as int);
            lemma_mul_bound(self.x as int, other.z as int, OP_LIMIT as int, OP_LIMIT as int);
            lemma_mul_bound(self.x as int, other.y as int, OP_LIMIT as int, OP_LIMIT as int);
            lemma_mul_bound(self.y as int, other.x as int, OP_LIMIT as int, OP_LIMIT as int);
        }
        Vec3 {
            x: self.y * other.z - self.z * other.y,
            y: self.z * other.x - self.x * other.z,
            z: self.x * other.y - self.y * other.x,
        }
    }
}


} // verus!

//! Fixed-point geometry.
//!
//! Positions and velocities are vectors of 32-bit integers, [`UNIT`] steps to
//! one world unit. Every test the coordination passes make on them (a range
//! check, a heading check) is a comparison of sums of products, so it is
//! computed exactly, in wider integers, and never rounds.

use vstd::prelude::*;

verus! {

/// Number of fixed-point steps in one world unit.
pub const UNIT: u32 = 1000;

/// A point or a displacement in fixed-point coordinates.
#[derive(Clone, Copy, Debug, PartialEq, Eq, Structural)]
pub struct Vec3i {
    pub x: i32,
    pub y: i32,
    pub z: i32,
}

impl Vec3i {
    /// Scalar product.
    pub open spec fn dot(self, other: Vec3i) -> int {
        self.x * other.x + self.y * other.y + self.z * other.z
    }

    /// Square of the Euclidean length.
    pub open spec fn norm_sq(self) -> int {
        self.dot(self)
    }

    /// Square of the Euclidean distance to `other`.
    pub open spec fn dist_sq(self, other: Vec3i) -> int {
        (self.x - other.x) * (self.x - other.x) + (self.y - other.y) * (self.y - other.y) + (self.z
            - other.z) * (self.z - other.z)
    }

    /// The Euclidean distance to `other` is at most `range`.
    pub open spec fn within(self, other: Vec3i, range: u32) -> bool {
        self.dist_sq(other) <= range * range
    }

    /// The Euclidean distance to `other` is less than `range`.
    pub open spec fn closer_than(self, other: Vec3i, range: u32) -> bool {
        self.dist_sq(other) < range * range
    }

    /// Both vectors are nonzero and the angle between them is at most 60
    /// degrees: the cosine `dot / (|self| |other|)` is at least one half.
    /// A zero vector has no direction and agrees with nothing.
    pub open spec fn heading_agrees(self, other: Vec3i) -> bool {
        &&& self.norm_sq() > 0
        &&& other.norm_sq() > 0
        &&& self.dot(other) >= 0
        &&& 4 * (self.dot(other) * self.dot(other)) >= self.norm_sq() * other.norm_sq()
    }

    /// The vector with the given coordinates.
    pub fn new(x: i32, y: i32, z: i32) -> (v: Vec3i)
        ensures
            v == (Vec3i { x, y, z }),
    {
        Vec3i { x, y, z }
    }

    /// The origin.
    pub fn zero() -> (v: Vec3i)
        ensures
            v == (Vec3i { x: 0, y: 0, z: 0 }),
    {
        Vec3i { x: 0, y: 0, z: 0 }
    }

    /// Computes [`Vec3i::dot`].
    pub fn dot_product(&self, other: &Vec3i) -> (d: i128)
        ensures
            d == self.dot(*other),
            -0xC000_0000_0000_0000 <= d <= 0xC000_0000_0000_0000,
    {
        let xx: i128 = product(self.x, other.x);
        let yy: i128 = product(self.y, other.y);
        let zz: i128 = product(self.z, other.z);
        xx + yy + zz
    }

    /// Computes [`Vec3i::norm_sq`].
    pub fn length_sq(&self) -> (n: u128)
        ensures
            n == self.norm_sq(),
            n <= 0xC000_0000_0000_0000,
    {
        let d: i128 = self.dot_product(self);
        proof {
            lemma_square_nonnegative(self.x as int);
            lemma_square_nonnegative(self.y as int);
            lemma_square_nonnegative(self.z as int);
        }
        d as u128
    }

    /// Computes [`Vec3i::dist_sq`].
    pub fn distance_sq(&self, other: &Vec3i) -> (d: u128)
        ensures
            d == self.dist_sq(*other),
            d <= 0x3_0000_0000_0000_0000,
    {
        let dx: u128 = gap_sq(self.x, other.x);
        let dy: u128 = gap_sq(self.y, other.y);
        let dz: u128 = gap_sq(self.z, other.z);
        dx + dy + dz
    }

    /// Decides [`Vec3i::within`].
    pub fn is_within(&self, other: &Vec3i, range: u32) -> (b: bool)
        ensures
            b == self.within(*other, range),
    {
        let r: u128 = range as u128;
        assert(r * r == range * range && r * r <= 0xFFFF_FFFF * 0xFFFF_FFFF) by (nonlinear_arith)
            requires
                r == range,
                r <= 0xFFFF_FFFF,
        ;
        self.distance_sq(other) <= r * r
    }

    /// Decides [`Vec3i::closer_than`].
    pub fn is_closer_than(&self, other: &Vec3i, range: u32) -> (b: bool)
        ensures
            b == self.closer_than(*other, range),
    {
        let r: u128 = range as u128;
        assert(r * r == range * range && r * r <= 0xFFFF_FFFF * 0xFFFF_FFFF) by (nonlinear_arith)
            requires
                r == range,
                r <= 0xFFFF_FFFF,
        ;
        self.distance_sq(other) < r * r
    }

    /// Decides [`Vec3i::heading_agrees`].
    pub fn agrees_with(&self, other: &Vec3i) -> (b: bool)
        ensures
            b == self.heading_agrees(*other),
    {
        let na: u128 = self.length_sq();
        let nb: u128 = other.length_sq();
        let d: i128 = self.dot_product(other);
        if na == 0 || nb == 0 || d < 0 {
            return false;
        }
        let du: u128 = d as u128;
        assert(du * du <= 0xC000_0000_0000_0000 * 0xC000_0000_0000_0000 && na * nb
            <= 0xC000_0000_0000_0000 * 0xC000_0000_0000_0000) by (nonlinear_arith)
            requires
                du <= 0xC000_0000_0000_0000,
                na <= 0xC000_0000_0000_0000,
                nb <= 0xC000_0000_0000_0000,
        ;
        let dd: u128 = du * du;
        let nn: u128 = na * nb;
        // 4 * dd >= nn, without forming 4 * dd
        let quarter: u128 = nn / 4;
        if nn % 4 == 0 {
            dd >= quarter
        } else {
            dd > quarter
        }
    }
}

/// The product of two coordinates, widened so that it cannot overflow.
fn product(a: i32, b: i32) -> (p: i128)
    ensures
        p == a * b,
        -0x4000_0000_0000_0000 <= p <= 0x4000_0000_0000_0000,
{
    let wa: i128 = a as i128;
    let wb: i128 = b as i128;
    assert(-0x4000_0000_0000_0000 <= wa * wb <= 0x4000_0000_0000_0000) by (nonlinear_arith)
        requires
            -0x8000_0000 <= wa <= 0x8000_0000,
            -0x8000_0000 <= wb <= 0x8000_0000,
    ;
    wa * wb
}

/// The square of the difference of two coordinates.
fn gap_sq(a: i32, b: i32) -> (s: u128)
    ensures
        s == (a - b) * (a - b),
        s <= 0x1_0000_0000_0000_0000,
{
    let g: i128 = a as i128 - b as i128;
    assert(0 <= g * g <= 0x1_0000_0000_0000_0000) by (nonlinear_arith)
        requires
            -0x1_0000_0000 <= g <= 0x1_0000_0000,
    ;
    (g * g) as u128
}

proof fn lemma_square_nonnegative(a: int)
    ensures
        a * a >= 0,
{
    assert(a * a >= 0) by (nonlinear_arith);
}

} // verus!

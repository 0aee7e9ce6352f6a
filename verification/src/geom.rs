//! Fixed-point 3D vectors.
//!
//! World positions are integer vectors in milliunits: one world unit is
//! `UNIT` (1000) milliunits. Every position the game works with is bounded by
//! `COORD_LIMIT`, which keeps all vector arithmetic far away from `i64`
//! overflow.

use vstd::prelude::*;

verus! {

/// Milliunits per world unit.
pub const UNIT: i64 = 1000;

/// Largest coordinate magnitude, in milliunits, of a well-formed position.
pub const COORD_LIMIT: i64 = 1_000_000_000;

/// A 3D vector in fixed-point milliunits.
#[derive(Clone, Copy, Debug, PartialEq, Eq, Structural)]
pub struct Vec3Fix {
    pub x: i64,
    pub y: i64,
    pub z: i64,
}

impl Vec3Fix {
    /// All coordinates within `bound` in magnitude.
    pub open spec fn bounded(self, bound: int) -> bool {
        &&& -bound <= self.x <= bound
        &&& -bound <= self.y <= bound
        &&& -bound <= self.z <= bound
    }

    /// A well-formed world position.
    pub open spec fn wf(self) -> bool {
        self.bounded(COORD_LIMIT as int)
    }

    pub open spec fn add_spec(self, o: Vec3Fix) -> Vec3Fix {
        Vec3Fix { x: (self.x + o.x) as i64, y: (self.y + o.y) as i64, z: (self.z + o.z) as i64 }
    }

    pub open spec fn sub_spec(self, o: Vec3Fix) -> Vec3Fix {
        Vec3Fix { x: (self.x - o.x) as i64, y: (self.y - o.y) as i64, z: (self.z - o.z) as i64 }
    }

    /// The squared Euclidean length, exact (no truncation) for vectors
    /// bounded by `2 * COORD_LIMIT`.
    pub open spec fn norm_sq_spec(self) -> int {
        self.x * self.x + self.y * self.y + self.z * self.z
    }

    pub open spec fn is_zero(self) -> bool {
        self.x == 0 && self.y == 0 && self.z == 0
    }

    pub fn zero() -> (r: Vec3Fix)
        ensures
            r == (Vec3Fix { x: 0, y: 0, z: 0 }),
    {
        Vec3Fix { x: 0, y: 0, z: 0 }
    }

    pub fn new(x: i64, y: i64, z: i64) -> (r: Vec3Fix)
        ensures
            r == (Vec3Fix { x, y, z }),
    {
        Vec3Fix { x, y, z }
    }

    /// Component-wise sum; the bounds keep it free of overflow.
    pub fn add(self, o: Vec3Fix) -> (r: Vec3Fix)
        requires
            self.bounded(2 * COORD_LIMIT as int),
            o.bounded(2 * COORD_LIMIT as int),
        ensures
            r == self.add_spec(o),
    {
        Vec3Fix { x: self.x + o.x, y: self.y + o.y, z: self.z + o.z }
    }

    /// Component-wise difference; the bounds keep it free of overflow.
    pub fn sub(self, o: Vec3Fix) -> (r: Vec3Fix)
        requires
            self.bounded(2 * COORD_LIMIT as int),
            o.bounded(2 * COORD_LIMIT as int),
        ensures
            r == self.sub_spec(o),
    {
        Vec3Fix { x: self.x - o.x, y: self.y - o.y, z: self.z - o.z }
    }

    /// The squared Euclidean length of a difference of two well-formed
    /// positions (components up to `2 * COORD_LIMIT`).
    pub fn norm_sq(self) -> (r: u64)
        requires
            self.bounded(2 * COORD_LIMIT as int),
        ensures
            r == self.norm_sq_spec(),
            r == 0 <==> self.is_zero(),
    {
        let ax = mag(self.x);
        let ay = mag(self.y);
        let az = mag(self.z);
        proof {
            lemma_square_bound(ax as int);
            lemma_square_bound(ay as int);
            lemma_square_bound(az as int);
            lemma_square_zero(ax as int);
            lemma_square_zero(ay as int);
            lemma_square_zero(az as int);
        }
        ax * ax + ay * ay + az * az
    }
}

/// The magnitude of a coordinate as `u64`.
pub fn mag(v: i64) -> (r: u64)
    requires
        v != i64::MIN,
    ensures
        r == if v >= 0 { v as int } else { -v as int },
        r * r == v * v,
{
    proof {
        assert((-v) * (-v) == v * v) by (nonlinear_arith);
    }
    if v >= 0 {
        v as u64
    } else {
        (-v) as u64
    }
}

/// A square is zero exactly on zero, and never negative.
proof fn lemma_square_zero(a: int)
    ensures
        a * a >= 0,
        a * a == 0 <==> a == 0,
{
    assert(a * a >= 0 && (a * a == 0 <==> a == 0)) by (nonlinear_arith);
}

/// A square of a number bounded by `2 * COORD_LIMIT` stays well under
/// `u64::MAX / 3`.
proof fn lemma_square_bound(a: int)
    requires
        0 <= a <= 2 * COORD_LIMIT as int,
    ensures
        a * a <= 4_000_000_000_000_000_000,
{
    assert(a * a <= 4_000_000_000_000_000_000) by (nonlinear_arith)
        requires
            0 <= a <= 2_000_000_000,
    ;
}

} // verus!

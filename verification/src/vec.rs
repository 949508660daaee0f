//! Vector types: integer screen-space vectors and fixed-point 3D points.

use vstd::prelude::*;

verus! {

/// A screen-space vector or cell position, in whole character cells.
#[derive(Clone, Copy, Debug, PartialEq, Eq, Structural)]
pub struct IVec2 {
    pub x: i32,
    pub y: i32,
}

/// The perpendicular-dot (2D cross product) of `(ax, ay)` and `(bx, by)`:
/// the dot product of the first vector rotated a quarter turn with the
/// second, the signed area of the parallelogram the two vectors span.
pub open spec fn spec_perp_dot(ax: int, ay: int, bx: int, by: int) -> int {
    ay * bx - ax * by
}

impl IVec2 {
    pub fn new(x: i32, y: i32) -> (v: IVec2)
        ensures
            v.x == x,
            v.y == y,
    {
        IVec2 { x, y }
    }

    pub fn tuple(&self) -> (t: (i32, i32))
        ensures
            t.0 == self.x,
            t.1 == self.y,
    {
        (self.x, self.y)
    }

    /// The vector rotated a quarter turn: `(x, y)` to `(y, -x)`.
    pub fn perp(&self) -> (v: IVec2)
        requires
            self.x > i32::MIN,
        ensures
            v.x == self.y,
            v.y == -self.x,
    {
        IVec2 { x: self.y, y: -self.x }
    }

    /// Dot product, widened to `i64`.
    pub fn dot(&self, other: &IVec2) -> (r: i64)
        requires
            self.x > i32::MIN,
            self.y > i32::MIN,
        ensures
            r == self.x * other.x + self.y * other.y,
    {
        proof {
            let a = self.x as int;
            let b = other.x as int;
            let c = self.y as int;
            let d = other.y as int;
            assert((-0x4000_0000_0000_0000 < a * b < 0x4000_0000_0000_0000)
                && (-0x4000_0000_0000_0000 < c * d < 0x4000_0000_0000_0000))
                by (nonlinear_arith)
                requires
                    -0x8000_0000 < a < 0x8000_0000,
                    -0x8000_0000 <= b < 0x8000_0000,
                    -0x8000_0000 < c < 0x8000_0000,
                    -0x8000_0000 <= d < 0x8000_0000,
            ;
        }
        self.x as i64 * other.x as i64 + self.y as i64 * other.y as i64
    }

    /// The perpendicular-dot scalar `perp(self) . other`.
    pub fn perp_dot(&self, other: &IVec2) -> (r: i64)
        requires
            self.x > i32::MIN,
            self.y > i32::MIN,
        ensures
            r == spec_perp_dot(self.x as int, self.y as int, other.x as int, other.y as int),
    {
        let r = self.perp().dot(other);
        proof {
            assert((-(self.x as int)) * (other.y as int) == -((self.x as int) * (other.y as int)))
                by (nonlinear_arith);
        }
        r
    }
}

/// The vector rotated a quarter turn: `(x, y)` to `(y, -x)`.
pub fn perp_ivec2(vec: &IVec2) -> (v: IVec2)
    requires
        vec.x > i32::MIN,
    ensures
        v.x == vec.y,
        v.y == -vec.x,
{
    IVec2::new(vec.y, -vec.x)
}

/// A point or offset in world or camera space, in fixed-point units of
/// `1/FP_ONE` of a world unit.
#[derive(Clone, Copy, Debug, PartialEq, Eq, Structural)]
pub struct Vec3 {
    pub x: i64,
    pub y: i64,
    pub z: i64,
}

impl Vec3 {
    pub fn new(x: i64, y: i64, z: i64) -> (v: Vec3)
        ensures
            v.x == x,
            v.y == y,
            v.z == z,
    {
        Vec3 { x, y, z }
    }
}

} // verus!

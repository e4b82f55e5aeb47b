//! Fixed-point geometric primitives.
//!
//! World coordinates are integers in units of `1/COORD_ONE` of the scene's
//! unit length, so every constant of the puzzle's geometry is exact.

use vstd::prelude::*;

verus! {

/// Number of coordinate units that make up one world-space length unit.
pub const COORD_ONE: i64 = 100000;

/// Bound on the magnitude of any coordinate the puzzle geometry uses;
/// curve evaluation stays within it.
pub const COORD_LIMIT: i64 = 1000000;

/// Bound on the magnitude of any world-space position: a sum of a few
/// in-limit offsets always stays within it.
pub const POS_LIMIT: i64 = 10000000;

/// A three-dimensional point or offset in fixed-point world coordinates.
#[derive(Clone, Copy, Debug, PartialEq, Eq, Structural)]
pub struct Vec3 {
    pub x: i64,
    pub y: i64,
    pub z: i64,
}

impl Vec3 {
    /// All coordinates within the geometry bound.
    pub open spec fn in_limit(self) -> bool {
        &&& -COORD_LIMIT <= self.x <= COORD_LIMIT
        &&& -COORD_LIMIT <= self.y <= COORD_LIMIT
        &&& -COORD_LIMIT <= self.z <= COORD_LIMIT
    }

    /// All coordinates within the world-space position bound.
    pub open spec fn in_world(self) -> bool {
        &&& -POS_LIMIT <= self.x <= POS_LIMIT
        &&& -POS_LIMIT <= self.y <= POS_LIMIT
        &&& -POS_LIMIT <= self.z <= POS_LIMIT
    }

    /// Build a point from its three coordinates.
    pub fn new(x: i64, y: i64, z: i64) -> (r: Self)
        ensures
            r == (Vec3 { x, y, z }),
    {
        Vec3 { x, y, z }
    }

    /// Componentwise sum of two offsets.
    pub fn plus(self, o: Vec3) -> (r: Self)
        requires
            i64::MIN <= self.x + o.x <= i64::MAX,
            i64::MIN <= self.y + o.y <= i64::MAX,
            i64::MIN <= self.z + o.z <= i64::MAX,
        ensures
            r.x == self.x + o.x,
            r.y == self.y + o.y,
            r.z == self.z + o.z,
    {
        Vec3 { x: self.x + o.x, y: self.y + o.y, z: self.z + o.z }
    }

    /// Componentwise difference of two points.
    pub fn minus(self, o: Vec3) -> (r: Self)
        requires
            i64::MIN <= self.x - o.x <= i64::MAX,
            i64::MIN <= self.y - o.y <= i64::MAX,
            i64::MIN <= self.z - o.z <= i64::MAX,
        ensures
            r.x == self.x - o.x,
            r.y == self.y - o.y,
            r.z == self.z - o.z,
    {
        Vec3 { x: self.x - o.x, y: self.y - o.y, z: self.z - o.z }
    }
}

/// A two-dimensional screen-space vector, in fixed-point units of a pixel.
#[derive(Clone, Copy, Debug, PartialEq, Eq, Structural)]
pub struct Vec2 {
    pub x: i64,
    pub y: i64,
}

impl Vec2 {
    /// Build a vector from its two components.
    pub fn new(x: i64, y: i64) -> (r: Self)
        ensures
            r == (Vec2 { x, y }),
    {
        Vec2 { x, y }
    }
}

/// An axis-aligned box centered on the origin, stored by its extreme
/// coordinates on each axis.
#[derive(Clone, Copy, Debug, PartialEq, Eq, Structural)]
pub struct SensorBox {
    pub min_x: i64,
    pub max_x: i64,
    pub min_y: i64,
    pub max_y: i64,
    pub min_z: i64,
    pub max_z: i64,
}

impl SensorBox {
    /// A point lies in the box when it is within bounds on all three axes.
    pub open spec fn contains(self, p: Vec3) -> bool {
        &&& self.min_x <= p.x <= self.max_x
        &&& self.min_y <= p.y <= self.max_y
        &&& self.min_z <= p.z <= self.max_z
    }

    /// Build a box from its full extents along each axis, centered on the
    /// origin.
    pub fn new(x_length: i64, y_length: i64, z_length: i64) -> (r: Self)
        requires
            0 <= x_length,
            0 <= y_length,
            0 <= z_length,
        ensures
            r.min_x == -(x_length / 2) && r.max_x == x_length / 2,
            r.min_y == -(y_length / 2) && r.max_y == y_length / 2,
            r.min_z == -(z_length / 2) && r.max_z == z_length / 2,
    {
        let hx = x_length / 2;
        let hy = y_length / 2;
        let hz = z_length / 2;
        SensorBox { min_x: -hx, max_x: hx, min_y: -hy, max_y: hy, min_z: -hz, max_z: hz }
    }
}

} // verus!

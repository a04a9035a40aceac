use vstd::prelude::*;

verus! {

/// A position in world space, in whole world sub-units.
#[derive(Clone, Copy, Debug, PartialEq, Eq, Structural, Hash)]
pub struct Point3 {
    pub x: i32,
    pub y: i32,
    pub z: i32,
}

/// A position on the ground plane.
#[derive(Clone, Copy, Debug, PartialEq, Eq, Structural, Hash)]
pub struct Point2 {
    pub x: i32,
    pub y: i32,
}

/// Square of the Euclidean distance between two positions.
pub open spec fn distance_squared(a: Point3, b: Point3) -> int {
    (a.x - b.x) * (a.x - b.x) + (a.y - b.y) * (a.y - b.y) + (a.z - b.z) * (a.z - b.z)
}

/// Whether the Euclidean distance between `a` and `b` is at most `max`.
///
/// A distance is never negative, so no two positions are within a negative
/// `max`; for the others the comparison is made on the squares.
pub open spec fn within_distance(a: Point3, b: Point3, max: int) -> bool {
    max >= 0 && distance_squared(a, b) <= max * max
}

/// The point of the ground plane below or above `p`: the vertical axis `y`
/// is dropped, and the depth axis `z` becomes the second coordinate.
pub open spec fn ground_point(p: Point3) -> Point2 {
    Point2 { x: p.x, y: p.z }
}

/// Square of the difference of two coordinates.
fn squared_difference(a: i32, b: i32) -> (sq: u128)
    ensures
        sq == (a - b) * (a - b),
        sq <= 0xFFFF_FFFF * 0xFFFF_FFFF,
{
    let d: i64 = a as i64 - b as i64;
    let m: u64 = if d < 0 {
        (-d) as u64
    } else {
        d as u64
    };
    assert(m <= 0xFFFF_FFFF);
    assert(m * m == (a - b) * (a - b)) by (nonlinear_arith)
        requires
            m == a - b || m == -(a - b),
    ;
    assert(m * m <= 0xFFFF_FFFF * 0xFFFF_FFFF) by (nonlinear_arith)
        requires
            0 <= m <= 0xFFFF_FFFF,
    ;
    let wide: u128 = m as u128;
    wide * wide
}

impl Point3 {
    pub fn new(x: i32, y: i32, z: i32) -> (p: Point3)
        ensures
            p == (Point3 { x, y, z }),
    {
        Point3 { x, y, z }
    }

    /// Square of the Euclidean distance to `other`.
    pub fn distance_squared(&self, other: &Point3) -> (d: u128)
        ensures
            d == distance_squared(*self, *other),
    {
        let dx: u128 = squared_difference(self.x, other.x);
        let dy: u128 = squared_difference(self.y, other.y);
        let dz: u128 = squared_difference(self.z, other.z);
        dx + dy + dz
    }

    /// Whether `other` lies at most `max` away. The boundary counts as
    /// within.
    pub fn within_distance(&self, other: &Point3, max: i32) -> (within: bool)
        ensures
            within == within_distance(*self, *other, max as int),
    {
        if max < 0 {
            return false;
        }
        let limit: u128 = max as u128;
        assert(limit * limit <= 0x7FFF_FFFF * 0x7FFF_FFFF) by (nonlinear_arith)
            requires
                0 <= limit <= 0x7FFF_FFFF,
        ;
        self.distance_squared(other) <= limit * limit
    }

    /// Projection onto the ground plane.
    pub fn ground(&self) -> (g: Point2)
        ensures
            g == ground_point(*self),
    {
        Point2 { x: self.x, y: self.z }
    }
}

impl Point2 {
    pub fn new(x: i32, y: i32) -> (p: Point2)
        ensures
            p == (Point2 { x, y }),
    {
        Point2 { x, y }
    }
}

} // verus!

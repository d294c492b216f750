//! Lattice points and axis-aligned boxes.
//!
//! Coordinates are signed 32-bit lattice units, so every comparison and every
//! midpoint test is exact.

use vstd::prelude::*;

verus! {

/// A point of the coordinate lattice.
#[derive(Clone, Copy, Debug, PartialEq, Eq, Structural)]
pub struct Vec3 {
    pub x: i32,
    pub y: i32,
    pub z: i32,
}

impl Vec3 {
    /// The coordinate on axis `a` (0, 1 or 2); any other axis reads as axis 2.
    pub open spec fn axis(self, a: int) -> int {
        if a == 0 {
            self.x as int
        } else if a == 1 {
            self.y as int
        } else {
            self.z as int
        }
    }

/// The point with the given coordinates.
    pub fn new(x: i32, y: i32, z: i32) -> (p: Vec3)
        ensures
            p == (Vec3 { x, y, z }),
    {
        Vec3 { x, y, z }
    }

    /// The origin.
    pub fn zero() -> (p: Vec3)
        ensures
            p == (Vec3 { x: 0, y: 0, z: 0 }),
    {
        Vec3 { x: 0, y: 0, z: 0 }
    }

    /// Reads the coordinate on `axis`.
    pub fn get(&self, axis: usize) -> (c: i32)
        requires
            axis < 3,
        ensures
            c == self.axis(axis as int),
    {
        if axis == 0 {
            self.x
        } else if axis == 1 {
            self.y
        } else {
            self.z
        }
    }
}

/// The lesser of two coordinates.
pub open spec fn min_i32(a: i32, b: i32) -> i32 {
    if a <= b {
        a
    } else {
        b
    }
}

/// The greater of two coordinates.
pub open spec fn max_i32(a: i32, b: i32) -> i32 {
    if a >= b {
        a
    } else {
        b
    }
}

/// An axis-aligned box given by its two extreme corners.
///
/// A box whose `min` exceeds its `max` on some axis contains no point.
#[derive(Clone, Copy, Debug, PartialEq, Eq, Structural)]
pub struct Aabb {
    pub min: Vec3,
    pub max: Vec3,
}

impl Aabb {
    /// The box that contains nothing and lies within every other box.
    pub open spec fn empty() -> Aabb {
        Aabb {
            min: Vec3 { x: i32::MAX, y: i32::MAX, z: i32::MAX },
            max: Vec3 { x: i32::MIN, y: i32::MIN, z: i32::MIN },
        }
    }

/// The point `p` lies in the box, its faces included.
    pub open spec fn contains(self, p: Vec3) -> bool {
        &&& self.min.x <= p.x <= self.max.x
        &&& self.min.y <= p.y <= self.max.y
        &&& self.min.z <= p.z <= self.max.z
    }

    /// `self` reaches no further than `outer` on any axis.
    pub open spec fn within(self, outer: Aabb) -> bool {
        &&& outer.min.x <= self.min.x
        &&& outer.min.y <= self.min.y
        &&& outer.min.z <= self.min.z
        &&& self.max.x <= outer.max.x
        &&& self.max.y <= outer.max.y
        &&& self.max.z <= outer.max.z
    }

    /// The smallest box that reaches as far as `self` and contains `p`.
    pub open spec fn grown(self, p: Vec3) -> Aabb {
        Aabb {
            min: Vec3 {
                x: min_i32(self.min.x, p.x),
                y: min_i32(self.min.y, p.y),
                z: min_i32(self.min.z, p.z),
            },
            max: Vec3 {
                x: max_i32(self.max.x, p.x),
                y: max_i32(self.max.y, p.y),
                z: max_i32(self.max.z, p.z),
            },
        }
    }

    /// The smallest box that reaches as far as both `self` and `other`.
    pub open spec fn join(self, other: Aabb) -> Aabb {
        Aabb {
            min: Vec3 {
                x: min_i32(self.min.x, other.min.x),
                y: min_i32(self.min.y, other.min.y),
                z: min_i32(self.min.z, other.min.z),
            },
            max: Vec3 {
                x: max_i32(self.max.x, other.max.x),
                y: max_i32(self.max.y, other.max.y),
                z: max_i32(self.max.z, other.max.z),
            },
        }
    }

    /// Width of the box on axis `a`; negative where the box is inverted.
    pub open spec fn extent(self, a: int) -> int {
        self.max.axis(a) - self.min.axis(a)
    }

    /// The axis along which the box is split: the widest one, an earlier axis
    /// winning against a later one of the same width.
    pub open spec fn split_axis(self) -> int {
        let first: int = if self.extent(1) > self.extent(0) {
            1
        } else {
            0
        };
        if self.extent(2) > self.extent(first) {
            2
        } else {
            first
        }
    }

/// The empty box.
    pub fn new_empty() -> (b: Aabb)
        ensures
            b == Aabb::empty(),
    {
        Aabb {
            min: Vec3 { x: i32::MAX, y: i32::MAX, z: i32::MAX },
            max: Vec3 { x: i32::MIN, y: i32::MIN, z: i32::MIN },
        }
    }

    /// Stretches the box just far enough to contain `p`.
    pub fn extend(&mut self, p: Vec3)
        ensures
            *final(self) == old(self).grown(p),
    {
        if p.x < self.min.x {
            self.min.x = p.x;
        }
        if p.y < self.min.y {
            self.min.y = p.y;
        }
        if p.z < self.min.z {
            self.min.z = p.z;
        }
        if p.x > self.max.x {
            self.max.x = p.x;
        }
        if p.y > self.max.y {
            self.max.y = p.y;
        }
        if p.z > self.max.z {
            self.max.z = p.z;
        }
    }

    /// Chooses the split axis of the box.
    pub fn longest_axis(&self) -> (a: usize)
        ensures
            a < 3,
            a == self.split_axis(),
    {
        let e0: i64 = self.max.x as i64 - self.min.x as i64;
        let e1: i64 = self.max.y as i64 - self.min.y as i64;
        let e2: i64 = self.max.z as i64 - self.min.z as i64;
        let mut a: usize = 0;
        let mut widest: i64 = e0;
        if e1 > widest {
            a = 1;
            widest = e1;
        }
        if e2 > widest {
            a = 2;
        }
        a
    }
}

/// A box within another, and the other within it, are one box.
pub proof fn lemma_within_antisymmetric(a: Aabb, b: Aabb)
    requires
        a.within(b),
        b.within(a),
    ensures
        a == b,
{
}

} // verus!

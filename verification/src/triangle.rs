//! Triangles and hierarchy nodes, the records a mesh is made of.

use vstd::prelude::*;
use crate::geometry::{Aabb, Vec3};

verus! {

/// Three corner indices into a mesh's points and three into its normals.
#[derive(Clone, Copy, Debug, PartialEq, Eq, Structural)]
pub struct Triangle {
    pub p1: i32,
    pub p2: i32,
    pub p3: i32,
    pub n1: i32,
    pub n2: i32,
    pub n3: i32,
}

impl Triangle {
/// The triangle whose indices are all zero.
    pub open spec fn zeroed() -> Triangle {
        Triangle { p1: 0, p2: 0, p3: 0, n1: 0, n2: 0, n3: 0 }
    }
}

impl Default for Triangle {
    fn default() -> (t: Triangle)
        ensures
            t == Triangle::zeroed(),
    {
        Triangle { p1: 0, p2: 0, p3: 0, n1: 0, n2: 0, n3: 0 }
    }
}

/// One node of a bounding-volume hierarchy.
///
/// With `obj_count > 0` the node is a leaf: `left_child` is the offset of its
/// first entry in the lookup array and `obj_count` entries belong to it. With
/// `obj_count == 0` it is an interior node whose two children stand at
/// `left_child` and `left_child + 1` in the node array.
#[derive(Clone, Copy, Debug, PartialEq, Eq, Structural)]
pub struct Node {
    pub min_corner: Vec3,
    pub left_child: i32,
    pub max_corner: Vec3,
    pub obj_count: i32,
}

impl Node {
/// The node with both corners at the origin and no entries.
    pub open spec fn zeroed() -> Node {
        Node {
            min_corner: Vec3 { x: 0, y: 0, z: 0 },
            left_child: 0,
            max_corner: Vec3 { x: 0, y: 0, z: 0 },
            obj_count: 0,
        }
    }

    /// The node's bounding box.
    pub open spec fn bounds(self) -> Aabb {
        Aabb { min: self.min_corner, max: self.max_corner }
    }

/// The node holds entries of its own.
    pub open spec fn is_leaf(self) -> bool {
        self.obj_count > 0
    }

    /// A node with both corners at the origin and no entries.
    pub fn new() -> (n: Node)
        ensures
            n == Node::zeroed(),
    {
        Node {
            min_corner: Vec3::zero(),
            left_child: 0,
            max_corner: Vec3::zero(),
            obj_count: 0,
        }
    }

    /// A leaf over `count` lookup entries from `start` on, bounded by `bounds`.
    pub fn leaf(bounds: Aabb, start: i32, count: i32) -> (n: Node)
        ensures
            n == (Node {
                min_corner: bounds.min,
                left_child: start,
                max_corner: bounds.max,
                obj_count: count,
            }),
    {
        Node { min_corner: bounds.min, left_child: start, max_corner: bounds.max, obj_count: count }
    }

    /// Reads the bounding box.
    pub fn bounding_box(&self) -> (b: Aabb)
        ensures
            b == self.bounds(),
    {
        Aabb { min: self.min_corner, max: self.max_corner }
    }
}

impl Default for Node {
    fn default() -> (n: Node)
        ensures
            n == Node::zeroed(),
    {
        Node::new()
    }
}

/// The shape in which a node is handed to the device.
#[derive(Clone, Copy, Debug, PartialEq, Eq, Structural)]
pub struct NodeUniform {
    pub min_corner: Vec3,
    pub left_child: i32,
    pub max_corner: Vec3,
    pub obj_count: i32,
}

impl NodeUniform {
    /// The record that mirrors `node`: the same corners, child and count.
    pub open spec fn of(node: Node) -> NodeUniform {
        NodeUniform {
            min_corner: node.min_corner,
            left_child: node.left_child,
            max_corner: node.max_corner,
            obj_count: node.obj_count,
        }
    }
}

impl From<Node> for NodeUniform {
    fn from(val: Node) -> (record: NodeUniform) {
        NodeUniform {
            min_corner: val.min_corner,
            left_child: val.left_child,
            max_corner: val.max_corner,
            obj_count: val.obj_count,
        }
    }
}

impl vstd::std_specs::convert::FromSpecImpl<Node> for NodeUniform {
    open spec fn obeys_from_spec() -> bool {
        true
    }

    open spec fn from_spec(val: Node) -> NodeUniform {
        NodeUniform::of(val)
    }
}

impl Default for NodeUniform {
    fn default() -> (record: NodeUniform)
        ensures
            record == NodeUniform::of(Node::zeroed()),
    {
        NodeUniform {
            min_corner: Vec3::zero(),
            left_child: 0,
            max_corner: Vec3::zero(),
            obj_count: 0,
        }
    }
}

} // verus!

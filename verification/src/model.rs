//! A triangle mesh with its placement in the scene and its bounding-volume
//! hierarchy.

use vstd::prelude::*;
use vstd::string::*;
use crate::bvh::{
    all_finished, is_permutation, is_range_bounds, lemma_node_contains_subtree, lemma_single_entry_is_leaf, lemma_subtree_extent,
    mesh_valid, range_in_box, subdivide, subtree_count, subtree_start, tree_ok, tri_in_box,
    tri_valid, update_bounds, MAX_MODEL_VERTICES,
};
use crate::array_buffer::{ArrayBuffer, ArrayBufferUniform};
use crate::geometry::{Aabb, Vec3};
use crate::triangle::{Node, NodeUniform, Triangle};

verus! {

/// The most characters of a display name that a model keeps.
pub const MAX_IDENT_LENGTH: usize = 64;

/// The most models that a scene holds.
pub const MAX_MODELS: usize = 1;

/// Lattice units in one unit of scene length.
pub const LATTICE_UNITS: i32 = 1024;

/// The part of a name that a model keeps: its first `MAX_IDENT_LENGTH`
/// characters.
pub open spec fn ident_prefix(name: Seq<char>) -> Seq<char> {
    if name.len() <= MAX_IDENT_LENGTH {
        name
    } else {
        name.take(MAX_IDENT_LENGTH as int)
    }
}

/// Where a new model stands in the scene: 7 units of scene length back on
/// the first axis and 35 forward on the third.
pub open spec fn initial_position() -> Vec3 {
    Vec3 { x: (-7168i32), y: 0, z: 35840 }
}

/// The hierarchy of a mesh without triangles: one node with an empty box and
/// no entries.
pub open spec fn empty_hierarchy() -> Seq<Node> {
    seq![
        Node {
            min_corner: Aabb::empty().min,
            left_child: 0,
            max_corner: Aabb::empty().max,
            obj_count: 0,
        },
    ]
}

/// Copies the first `MAX_IDENT_LENGTH` characters of `name`.
pub fn ident_of(name: &str) -> (ident: Vec<char>)
    ensures
        ident@ == ident_prefix(name@),
{
    let total = name.unicode_len();
    let kept = if total <= MAX_IDENT_LENGTH {
        total
    } else {
        MAX_IDENT_LENGTH
    };
    let mut ident: Vec<char> = Vec::new();
    let mut i: usize = 0;
    while i < kept
        invariant
            i <= kept <= name@.len(),
            ident@ == name@.take(i as int),
        decreases kept - i,
    {
        ident.push(name.get_char(i));
        assert(name@.take(i as int).push(name@[i as int]) =~= name@.take(i + 1));
        i += 1;
    }
    assert(name@.take(name@.len() as int) =~= name@);
    ident
}

/// A mesh, its placement, and the hierarchy built over it.
///
/// The hierarchy is not kept up with the mesh: after a change of geometry it
/// is built anew by `build_bvh`.
#[derive(Clone, Debug)]
pub struct Model {
    pub ident: Vec<char>,
    pub position: Vec3,
    pub rotation: Vec3,
    pub visible: i32,
    pub points: Vec<Vec3>,
    pub normals: Vec<Vec3>,
    pub triangles: Vec<Triangle>,
    pub nodes: Vec<Node>,
    pub bvh_lookup: Vec<i32>,
}

impl Model {
    /// The mesh is ready for `build_bvh`: it is no larger than a mesh may be
    /// and its triangles name points that it holds.
    pub open spec fn buildable(&self) -> bool {
        &&& self.triangles.len() <= MAX_MODEL_VERTICES
        &&& mesh_valid(self.points@, self.triangles@)
    }

    /// The hierarchy that the model holds is finished and covers its whole
    /// mesh: the lookup array is a permutation of the triangle indices, every
    /// node heads a finished subtree, the root's subtree holds every lookup
    /// entry, and there are fewer nodes than twice the triangles. Over a
    /// mesh without triangles it is the empty hierarchy.
    pub open spec fn hierarchy_built(&self) -> bool {
        let n = self.triangles.len() as int;
        &&& is_permutation(self.bvh_lookup@, n)
        &&& n == 0 ==> self.nodes@ == empty_hierarchy()
        &&& n > 0 ==> {
            &&& forall|j: int|
                0 <= j < self.nodes@.len() ==> #[trigger] tree_ok(
                    self.points@,
                    self.triangles@,
                    self.bvh_lookup@,
                    self.nodes@,
                    j,
                )
            &&& subtree_start(self.nodes@, 0) == 0
            &&& subtree_count(self.nodes@, 0) == n
            &&& 1 <= self.nodes.len() <= 2 * n - 1
        }
    }

    /// An empty, visible model named by the first characters of `ident_str`.
    pub fn new(ident_str: &str) -> (m: Model)
        ensures
            m.ident@ == ident_prefix(ident_str@),
            m.position == initial_position(),
            m.rotation == (Vec3 { x: 0, y: 0, z: 0 }),
            m.visible == 1,
            m.points@.len() == 0,
            m.normals@.len() == 0,
            m.triangles@.len() == 0,
            m.nodes@.len() == 0,
            m.bvh_lookup@.len() == 0,
    {
        Model {
            ident: ident_of(ident_str),
            position: Vec3::new(-7 * LATTICE_UNITS, 0, 35 * LATTICE_UNITS),
            rotation: Vec3::zero(),
            visible: 1,
            points: Vec::new(),
            normals: Vec::new(),
            triangles: Vec::new(),
            nodes: Vec::new(),
            bvh_lookup: Vec::new(),
        }
    }

    /// Renames the model.
    pub fn set_ident(&mut self, ident_str: &str)
        ensures
            final(self).ident@ == ident_prefix(ident_str@),
            *final(self) == (Model { ident: final(self).ident, ..*old(self) }),
    {
        self.ident = ident_of(ident_str);
    }

    /// Appends a normal; its index is the count of normals before the call.
    pub fn add_normal(&mut self, normal: Vec3)
        requires
            old(self).normals.len() < MAX_MODEL_VERTICES,
        ensures
            final(self).normals@ == old(self).normals@.push(normal),
            *final(self) == (Model { normals: final(self).normals, ..*old(self) }),
    {
        self.normals.push(normal);
    }

    /// Appends a point; its index is the count of points before the call.
    pub fn add_vertex(&mut self, point: Vec3)
        requires
            old(self).points.len() < MAX_MODEL_VERTICES,
        ensures
            final(self).points@ == old(self).points@.push(point),
            *final(self) == (Model { points: final(self).points, ..*old(self) }),
    {
        self.points.push(point);
    }

    /// Appends a triangle.
    pub fn add_triangle(&mut self, triangle: Triangle)
        requires
            old(self).triangles.len() < MAX_MODEL_VERTICES,
        ensures
            final(self).triangles@ == old(self).triangles@.push(triangle),
            *final(self) == (Model { triangles: final(self).triangles, ..*old(self) }),
    {
        self.triangles.push(triangle);
    }

    /// Tells whether the mesh is ready for `build_bvh`.
    pub fn is_buildable(&self) -> (ready: bool)
        ensures
            ready == self.buildable(),
    {
        if self.triangles.len() > MAX_MODEL_VERTICES {
            return false;
        }
        let point_count = self.points.len();
        let mut i: usize = 0;
        while i < self.triangles.len()
            invariant
                i <= self.triangles.len(),
                point_count == self.points.len(),
                forall|k: int| 0 <= k < i ==> tri_valid(self.points@, #[trigger] self.triangles@[k]),
            decreases self.triangles.len() - i,
        {
            let t = self.triangles[i];
            let ok = 0 <= t.p1 && (t.p1 as usize) < point_count && 0 <= t.p2 && (t.p2 as usize)
                < point_count && 0 <= t.p3 && (t.p3 as usize) < point_count;
            if !ok {
                assert(!tri_valid(self.points@, self.triangles@[i as int]));
                return false;
            }
            i += 1;
        }
        true
    }

    /// Builds the hierarchy over the mesh as it stands, in place of whatever
    /// hierarchy the model held.
    pub fn build_bvh(&mut self)
        requires
            old(self).buildable(),
        ensures
            final(self).hierarchy_built(),
            final(self).nodes.len() >= 1,
            *final(self) == (Model {
                nodes: final(self).nodes,
                bvh_lookup: final(self).bvh_lookup,
                ..*old(self)
            }),
    {
        let n = self.triangles.len();
        let mut lookup: Vec<i32> = Vec::new();
        let mut i: usize = 0;
        while i < n
            invariant
                i <= n <= MAX_MODEL_VERTICES,
                lookup.len() == i,
                forall|k: int| 0 <= k < i ==> #[trigger] lookup@[k] == k,
            decreases n - i,
        {
            lookup.push(i as i32);
            i += 1;
        }
        let bounds = update_bounds(&self.points, &self.triangles, &lookup, 0, n);
        proof {
            if n == 0 {
                reveal(is_range_bounds);
                // The bounding box of no triangle lies within every box.
                assert(range_in_box(self.points@, self.triangles@, lookup@, 0, 0, Aabb::empty()));
                assert(bounds.within(Aabb::empty()));
                assert(bounds == Aabb::empty());
            }
        }
        let mut nodes: Vec<Node> = Vec::new();
        nodes.push(Node::leaf(bounds, 0, n as i32));
        let ghost root = nodes@;
        subdivide(&self.points, &self.triangles, &mut lookup, &mut nodes, 0);
        proof {
            if n == 0 {
                assert(nodes@ == root);
                assert(root =~= empty_hierarchy());
            } else {
                reveal(all_finished);
                assert forall|j: int| 0 <= j < nodes@.len() implies #[trigger] tree_ok(
                    self.points@,
                    self.triangles@,
                    lookup@,
                    nodes@,
                    j,
                ) by {
                    if j > 0 {
                        assert(root.len() <= j);
                    }
                }
            }
        }
        self.nodes = nodes;
        self.bvh_lookup = lookup;
    }
}

/// In a model whose hierarchy is built, the box of every node contains all
/// corners of every triangle that the lookup array names under that node.
pub proof fn lemma_boxes_contain_triangles(model: Model, i: int, k: int)
    requires
        model.hierarchy_built(),
        model.triangles@.len() > 0,
        0 <= i < model.nodes@.len(),
        subtree_start(model.nodes@, i) <= k < subtree_start(model.nodes@, i) + subtree_count(
            model.nodes@,
            i,
        ),
    ensures
        0 <= k < model.triangles@.len(),
        0 <= model.bvh_lookup@[k] < model.triangles@.len(),
        tri_in_box(
            model.points@,
            model.triangles@[model.bvh_lookup@[k] as int],
            model.nodes@[i].bounds(),
        ),
{
    assert(tree_ok(model.points@, model.triangles@, model.bvh_lookup@, model.nodes@, i));
    lemma_subtree_extent(model.points@, model.triangles@, model.bvh_lookup@, model.nodes@, i);
    lemma_node_contains_subtree(
        model.points@,
        model.triangles@,
        model.bvh_lookup@,
        model.nodes@,
        i,
        k,
    );
}

/// The hierarchy of a model with exactly one triangle is a single leaf that
/// holds that triangle.
pub proof fn lemma_one_triangle_one_leaf(model: Model)
    requires
        model.hierarchy_built(),
        model.triangles@.len() == 1,
    ensures
        model.nodes@.len() == 1,
        model.nodes@[0].obj_count == 1,
        model.nodes@[0].left_child == 0,
        model.bvh_lookup@ =~= seq![0i32],
{
    assert(tree_ok(model.points@, model.triangles@, model.bvh_lookup@, model.nodes@, 0));
    lemma_single_entry_is_leaf(
        model.points@,
        model.triangles@,
        model.bvh_lookup@,
        model.nodes@,
        0,
    );
    assert(model.bvh_lookup@[0] == 0);
}

impl Default for Model {
    fn default() -> (m: Model)
        ensures
            m.ident@ == ident_prefix("unnamed"@),
            m.position == initial_position(),
            m.rotation == (Vec3 { x: 0, y: 0, z: 0 }),
            m.visible == 1,
            m.points@.len() == 0,
            m.normals@.len() == 0,
            m.triangles@.len() == 0,
            m.nodes@.len() == 0,
            m.bvh_lookup@.len() == 0,
    {
        Model::new("unnamed")
    }
}

/// A count as the device reads it: the length itself, or the greatest
/// 32-bit count where the length exceeds it.
pub open spec fn device_count(len: nat) -> i32 {
    if len <= i32::MAX {
        len as i32
    } else {
        i32::MAX
    }
}

fn count_for_device(len: usize) -> (count: i32)
    ensures
        count == device_count(len as nat),
{
    if len <= i32::MAX as usize {
        len as i32
    } else {
        i32::MAX
    }
}

fn copy_of<T: Copy>(source: &Vec<T>) -> (copy: Vec<T>)
    ensures
        copy@ == source@,
{
    let mut copy: Vec<T> = Vec::new();
    let mut i: usize = 0;
    while i < source.len()
        invariant
            i <= source.len(),
            copy@ == source@.take(i as int),
        decreases source.len() - i,
    {
        copy.push(source[i]);
        assert(source@.take(i as int).push(source@[i as int]) =~= source@.take(i + 1));
        i += 1;
    }
    assert(source@.take(source@.len() as int) =~= source@);
    copy
}

/// The shape in which a model is handed to the device.
#[derive(Clone, Debug)]
pub struct ModelUniform {
    pub position: Vec3,
    pub visible: i32,
    pub rotation: Vec3,
    pub point_count: i32,
    pub normal_count: i32,
    pub triangle_count: i32,
    pub points: Vec<Vec3>,
    pub normals: Vec<Vec3>,
    pub triangles: Vec<Triangle>,
    pub nodes: Vec<NodeUniform>,
    pub bvh_lookup: Vec<i32>,
}

impl ModelUniform {
    /// The record of a free slot: invisible, at the origin, with no geometry.
    pub open spec fn is_blank(self) -> bool {
        &&& self.position == (Vec3 { x: 0, y: 0, z: 0 })
        &&& self.rotation == (Vec3 { x: 0, y: 0, z: 0 })
        &&& self.visible == 0
        &&& self.point_count == 0
        &&& self.normal_count == 0
        &&& self.triangle_count == 0
        &&& self.points@.len() == 0
        &&& self.normals@.len() == 0
        &&& self.triangles@.len() == 0
        &&& self.nodes@.len() == 0
        &&& self.bvh_lookup@.len() == 0
    }
}

impl Default for ModelUniform {
    fn default() -> (record: ModelUniform)
        ensures
            record.is_blank(),
    {
        ModelUniform {
            position: Vec3::zero(),
            visible: 0,
            rotation: Vec3::zero(),
            point_count: 0,
            normal_count: 0,
            triangle_count: 0,
            points: Vec::new(),
            normals: Vec::new(),
            triangles: Vec::new(),
            nodes: Vec::new(),
            bvh_lookup: Vec::new(),
        }
    }
}

impl ArrayBufferUniform<Model> for ModelUniform {
    /// A refresh copies the model's placement, visibility, geometry and
    /// hierarchy and the counts of its points and triangles. The count of
    /// normals is not among what it writes.
    open spec fn refreshes_to(self, entity: &Model, after: ModelUniform) -> bool {
        &&& after.position == entity.position
        &&& after.rotation == entity.rotation
        &&& after.visible == entity.visible
        &&& after.point_count == device_count(entity.points@.len())
        &&& after.triangle_count == device_count(entity.triangles@.len())
        &&& after.normal_count == self.normal_count
        &&& after.points@ == entity.points@
        &&& after.normals@ == entity.normals@
        &&& after.triangles@ == entity.triangles@
        &&& after.nodes@ == entity.nodes@.map_values(|n: Node| NodeUniform::of(n))
        &&& after.bvh_lookup@ == entity.bvh_lookup@
    }

    fn update(&mut self, model: &Model) {
        self.rotation = model.rotation;
        self.position = model.position;
        self.point_count = count_for_device(model.points.len());
        self.triangle_count = count_for_device(model.triangles.len());
        self.visible = model.visible;
        self.points = copy_of(&model.points);
        self.normals = copy_of(&model.normals);
        self.triangles = copy_of(&model.triangles);
        let mut nodes: Vec<NodeUniform> = Vec::new();
        let mut i: usize = 0;
        while i < model.nodes.len()
            invariant
                i <= model.nodes.len(),
                nodes@ == model.nodes@.take(i as int).map_values(|n: Node| NodeUniform::of(n)),
            decreases model.nodes.len() - i,
        {
            nodes.push(NodeUniform::from(model.nodes[i]));
            assert(model.nodes@.take(i as int).push(model.nodes@[i as int]) =~= model.nodes@.take(
                i + 1,
            ));
            assert(nodes@ =~= model.nodes@.take(i + 1).map_values(|n: Node| NodeUniform::of(n)));
            i += 1;
        }
        assert(model.nodes@.take(model.nodes@.len() as int) =~= model.nodes@);
        self.nodes = nodes;
        self.bvh_lookup = copy_of(&model.bvh_lookup);
    }
}

/// The pool of a scene's models.
pub type ModelArrayBuffer = ArrayBuffer<MAX_MODELS, Model, ModelUniform>;

} // verus!

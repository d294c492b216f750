//! Taking the meshes of a model file into a model.

use vstd::prelude::*;
use crate::bvh::{mesh_valid, MAX_MODEL_VERTICES};
use crate::geometry::Vec3;
use crate::model::Model;
use crate::triangle::Triangle;

verus! {

/// Why a mesh was not taken into a model.
#[derive(Clone, Copy, Debug, PartialEq, Eq, Structural)]
pub enum MeshError {
    /// The model has no room for the mesh's points, normals or triangles.
    TooLarge,
    /// There are fewer normal indices, or fewer face normals, than the
    /// triangles need.
    MissingNormals,
    /// A triangle names a point or a normal that the mesh does not hold.
    IndexOutOfRange,
}

/// The number of triangles that a flat list of corner indices describes.
pub open spec fn triangle_count(indices: Seq<u32>) -> int {
    indices.len() as int / 3
}

/// The mesh carries its own normal indices.
pub open spec fn has_normal_indices(normal_indices: Seq<u32>) -> bool {
    normal_indices.len() > 0
}

/// The model has room for the mesh.
pub open spec fn mesh_fits(
    model: Model,
    positions: Seq<Vec3>,
    normals: Seq<Vec3>,
    indices: Seq<u32>,
    normal_indices: Seq<u32>,
) -> bool {
    let added_normals = if has_normal_indices(normal_indices) {
        normals.len() as int
    } else {
        normals.len() + triangle_count(indices)
    };
    &&& model.points@.len() + positions.len() <= MAX_MODEL_VERTICES
    &&& model.normals@.len() + added_normals <= MAX_MODEL_VERTICES
    &&& model.triangles@.len() + triangle_count(indices) <= MAX_MODEL_VERTICES
}

/// There is a normal for every corner of every triangle: three normal
/// indices for each, or else one face normal for each.
pub open spec fn normals_supplied(
    indices: Seq<u32>,
    normal_indices: Seq<u32>,
    face_normals: Seq<Vec3>,
) -> bool {
    if has_normal_indices(normal_indices) {
        normal_indices.len() >= 3 * triangle_count(indices)
    } else {
        face_normals.len() >= triangle_count(indices)
    }
}

/// Every corner that a triangle uses names a point of the mesh, and every
/// normal index that it uses names a normal of the mesh.
pub open spec fn indices_in_range(
    positions: Seq<Vec3>,
    normals: Seq<Vec3>,
    indices: Seq<u32>,
    normal_indices: Seq<u32>,
) -> bool {
    &&& forall|k: int| 0 <= k < 3 * triangle_count(indices) ==> #[trigger] indices[k] < positions.len()
    &&& has_normal_indices(normal_indices) ==> forall|k: int|
        0 <= k < 3 * triangle_count(indices) ==> #[trigger] normal_indices[k] < normals.len()
}

/// Triangle `t` of the mesh as the model holds it: its corners count on from
/// the points that the model held before, its normals from the normals that
/// the model held before. Without normal indices, all three corners share
/// face normal `t`, which stands behind the mesh's own normals.
pub open spec fn mesh_triangle(
    point_offset: int,
    normal_offset: int,
    normals: Seq<Vec3>,
    indices: Seq<u32>,
    normal_indices: Seq<u32>,
    t: int,
) -> Triangle {
    let shared = (normal_offset + normals.len() + t) as i32;
    Triangle {
        p1: (indices[3 * t] + point_offset) as i32,
        p2: (indices[3 * t + 1] + point_offset) as i32,
        p3: (indices[3 * t + 2] + point_offset) as i32,
        n1: if has_normal_indices(normal_indices) {
            (normal_indices[3 * t] + normal_offset) as i32
        } else {
            shared
        },
        n2: if has_normal_indices(normal_indices) {
            (normal_indices[3 * t + 1] + normal_offset) as i32
        } else {
            shared
        },
        n3: if has_normal_indices(normal_indices) {
            (normal_indices[3 * t + 2] + normal_offset) as i32
        } else {
            shared
        },
    }
}

/// The triangles of the mesh as the model holds them.
pub open spec fn mesh_triangles(
    point_offset: int,
    normal_offset: int,
    normals: Seq<Vec3>,
    indices: Seq<u32>,
    normal_indices: Seq<u32>,
) -> Seq<Triangle> {
    Seq::new(
        triangle_count(indices) as nat,
        |t: int| mesh_triangle(point_offset, normal_offset, normals, indices, normal_indices, t),
    )
}

/// The normals that the mesh brings: its own, and without normal indices one
/// face normal for each triangle behind them.
pub open spec fn mesh_normals(
    normals: Seq<Vec3>,
    indices: Seq<u32>,
    normal_indices: Seq<u32>,
    face_normals: Seq<Vec3>,
) -> Seq<Vec3> {
    if has_normal_indices(normal_indices) {
        normals
    } else {
        normals + face_normals.take(triangle_count(indices))
    }
}

fn all_below(values: &Vec<u32>, upto: usize, bound: usize) -> (ok: bool)
    requires
        upto <= values.len(),
    ensures
        ok == forall|k: int| 0 <= k < upto ==> #[trigger] values@[k] < bound,
{
    let mut k: usize = 0;
    while k < upto
        invariant
            k <= upto <= values.len(),
            forall|j: int| 0 <= j < k ==> #[trigger] values@[j] < bound,
        decreases upto - k,
    {
        if values[k] as usize >= bound {
            return false;
        }
        k += 1;
    }
    true
}

impl Model {
    /// Takes one mesh of a model file into the model, behind what the model
    /// holds already.
    ///
    /// `indices` holds three corner indices for each triangle; entries past
    /// the last full triple are ignored. `normal_indices` holds three normal
    /// indices for each triangle, or nothing; where it holds nothing,
    /// `face_normals` holds one normal for each triangle.
    ///
    /// A mesh that is refused leaves the model as it was. The hierarchy is
    /// not rebuilt.
    pub fn add_mesh(
        &mut self,
        positions: &Vec<Vec3>,
        normals: &Vec<Vec3>,
        indices: &Vec<u32>,
        normal_indices: &Vec<u32>,
        face_normals: &Vec<Vec3>,
    ) -> (outcome: Result<(), MeshError>)
        ensures
            !mesh_fits(*old(self), positions@, normals@, indices@, normal_indices@) ==> outcome
                == Err::<(), MeshError>(MeshError::TooLarge),
            mesh_fits(*old(self), positions@, normals@, indices@, normal_indices@)
                && !normals_supplied(indices@, normal_indices@, face_normals@) ==> outcome == Err::<
                (),
                MeshError,
            >(MeshError::MissingNormals),
            mesh_fits(*old(self), positions@, normals@, indices@, normal_indices@)
                && normals_supplied(indices@, normal_indices@, face_normals@) && !indices_in_range(
                positions@,
                normals@,
                indices@,
                normal_indices@,
            ) ==> outcome == Err::<(), MeshError>(MeshError::IndexOutOfRange),
            mesh_fits(*old(self), positions@, normals@, indices@, normal_indices@)
                && normals_supplied(indices@, normal_indices@, face_normals@) && indices_in_range(
                positions@,
                normals@,
                indices@,
                normal_indices@,
            ) ==> outcome.is_ok(),
            outcome.is_err() ==> *final(self) == *old(self),
            outcome.is_ok() ==> {
                &&& mesh_fits(*old(self), positions@, normals@, indices@, normal_indices@)
                &&& normals_supplied(indices@, normal_indices@, face_normals@)
                &&& indices_in_range(positions@, normals@, indices@, normal_indices@)
                &&& final(self).points@ == old(self).points@ + positions@
                &&& final(self).normals@ == old(self).normals@ + mesh_normals(
                    normals@,
                    indices@,
                    normal_indices@,
                    face_normals@,
                )
                &&& final(self).triangles@ == old(self).triangles@ + mesh_triangles(
                    old(self).points@.len() as int,
                    old(self).normals@.len() as int,
                    normals@,
                    indices@,
                    normal_indices@,
                )
                &&& *final(self) == (Model {
                    points: final(self).points,
                    normals: final(self).normals,
                    triangles: final(self).triangles,
                    ..*old(self)
                })
            },
    {
        let count = indices.len() / 3;
        let explicit = normal_indices.len() > 0;
        let point_offset = self.points.len();
        let normal_offset = self.normals.len();
        if point_offset > MAX_MODEL_VERTICES || positions.len() > MAX_MODEL_VERTICES - point_offset {
            return Err(MeshError::TooLarge);
        }
        if normal_offset > MAX_MODEL_VERTICES || normals.len() > MAX_MODEL_VERTICES - normal_offset {
            return Err(MeshError::TooLarge);
        }
        if !explicit && count > MAX_MODEL_VERTICES - normal_offset - normals.len() {
            return Err(MeshError::TooLarge);
        }
        if self.triangles.len() > MAX_MODEL_VERTICES || count > MAX_MODEL_VERTICES
            - self.triangles.len() {
            return Err(MeshError::TooLarge);
        }
        if explicit {
            if normal_indices.len() / 3 < count {
                return Err(MeshError::MissingNormals);
            }
        } else if face_normals.len() < count {
            return Err(MeshError::MissingNormals);
        }
        if !all_below(indices, 3 * count, positions.len()) {
            return Err(MeshError::IndexOutOfRange);
        }
        if explicit && !all_below(normal_indices, 3 * count, normals.len()) {
            return Err(MeshError::IndexOutOfRange);
        }
        let ghost points0 = self.points@;
        let ghost normals0 = self.normals@;
        let ghost triangles0 = self.triangles@;
        let ghost added = mesh_triangles(
            point_offset as int,
            normal_offset as int,
            normals@,
            indices@,
            normal_indices@,
        );

        let mut i: usize = 0;
        while i < positions.len()
            invariant
                i <= positions.len(),
                point_offset + positions.len() <= MAX_MODEL_VERTICES,
                self.points@ == points0 + positions@.take(i as int),
                *self == (Model { points: self.points, ..*old(self) }),
            decreases positions.len() - i,
        {
            self.points.push(positions[i]);
            assert(positions@.take(i as int).push(positions@[i as int]) =~= positions@.take(i + 1));
            assert(self.points@ =~= points0 + positions@.take(i + 1));
            i += 1;
        }
        assert(positions@.take(positions@.len() as int) =~= positions@);

        let mut i: usize = 0;
        while i < normals.len()
            invariant
                i <= normals.len(),
                self.points@ == points0 + positions@,
                self.normals@ == normals0 + normals@.take(i as int),
                *self == (Model { points: self.points, normals: self.normals, ..*old(self) }),
            decreases normals.len() - i,
        {
            self.normals.push(normals[i]);
            assert(normals@.take(i as int).push(normals@[i as int]) =~= normals@.take(i + 1));
            assert(self.normals@ =~= normals0 + normals@.take(i + 1));
            i += 1;
        }
        assert(normals@.take(normals@.len() as int) =~= normals@);
        assert(normals@ + face_normals@.take(0) =~= normals@);
        assert(added.take(0) =~= Seq::<Triangle>::empty());
        assert(triangles0 + added.take(0) =~= triangles0);

        let mut t: usize = 0;
        while t < count
            invariant
                t <= count,
                count == triangle_count(indices@),
                explicit == has_normal_indices(normal_indices@),
                point_offset == points0.len(),
                normal_offset == normals0.len(),
                mesh_fits(*old(self), positions@, normals@, indices@, normal_indices@),
                normals_supplied(indices@, normal_indices@, face_normals@),
                indices_in_range(positions@, normals@, indices@, normal_indices@),
                points0 == old(self).points@,
                normals0 == old(self).normals@,
                triangles0 == old(self).triangles@,
                added == mesh_triangles(
                    point_offset as int,
                    normal_offset as int,
                    normals@,
                    indices@,
                    normal_indices@,
                ),
                self.points@ == points0 + positions@,
                self.normals@ == normals0 + if explicit {
                    normals@
                } else {
                    normals@ + face_normals@.take(t as int)
                },
                self.triangles@ == triangles0 + added.take(t as int),
                *self == (Model {
                    points: self.points,
                    normals: self.normals,
                    triangles: self.triangles,
                    ..*old(self)
                }),
            decreases count - t,
        {
            let p1 = (indices[3 * t] as usize + point_offset) as i32;
            let p2 = (indices[3 * t + 1] as usize + point_offset) as i32;
            let p3 = (indices[3 * t + 2] as usize + point_offset) as i32;
            let triangle = if explicit {
                Triangle {
                    p1,
                    p2,
                    p3,
                    n1: (normal_indices[3 * t] as usize + normal_offset) as i32,
                    n2: (normal_indices[3 * t + 1] as usize + normal_offset) as i32,
                    n3: (normal_indices[3 * t + 2] as usize + normal_offset) as i32,
                }
            } else {
                let shared = (normal_offset + normals.len() + t) as i32;
                self.normals.push(face_normals[t]);
                assert(face_normals@.take(t as int).push(face_normals@[t as int])
                    =~= face_normals@.take(t + 1));
                assert(self.normals@ =~= normals0 + (normals@ + face_normals@.take(t + 1)));
                Triangle { p1, p2, p3, n1: shared, n2: shared, n3: shared }
            };
            assert(triangle == added[t as int]);
            self.triangles.push(triangle);
            assert(added.take(t as int).push(added[t as int]) =~= added.take(t + 1));
            assert(self.triangles@ =~= triangles0 + added.take(t + 1));
            t += 1;
        }
        assert(added.take(count as int) =~= added);
        Ok(())
    }
}

/// A mesh whose triangles name points of the mesh, taken into a model whose
/// triangles name points of the model, leaves a model whose triangles name
/// points of the model: it can be built.
pub proof fn lemma_added_mesh_is_valid(
    points: Seq<Vec3>,
    triangles: Seq<Triangle>,
    positions: Seq<Vec3>,
    normals: Seq<Vec3>,
    indices: Seq<u32>,
    normal_indices: Seq<u32>,
    normal_offset: int,
)
    requires
        mesh_valid(points, triangles),
        points.len() + positions.len() <= MAX_MODEL_VERTICES,
        indices_in_range(positions, normals, indices, normal_indices),
    ensures
        mesh_valid(
            points + positions,
            triangles + mesh_triangles(
                points.len() as int,
                normal_offset,
                normals,
                indices,
                normal_indices,
            ),
        ),
{
    let added = mesh_triangles(
        points.len() as int,
        normal_offset,
        normals,
        indices,
        normal_indices,
    );
    let all = triangles + added;
    assert forall|i: int| 0 <= i < all.len() implies crate::bvh::tri_valid(
        points + positions,
        #[trigger] all[i],
    ) by {
        if i < triangles.len() {
            assert(all[i] == triangles[i]);
            assert(crate::bvh::tri_valid(points, triangles[i]));
        } else {
            let t = i - triangles.len();
            assert(all[i] == added[t]);
            assert(indices[3 * t] < positions.len());
            assert(indices[3 * t + 1] < positions.len());
            assert(indices[3 * t + 2] < positions.len());
        }
    }
}

} // verus!

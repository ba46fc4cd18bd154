//! Picking a mesh by a ray.
//!
//! Whether a ray meets a triangle is arithmetic on coordinates and belongs
//! to the host, which passes it in as a test. This module decides which
//! triangles are tested, in which order, and which mesh is picked: the
//! triangles of the scene are tested model by model, mesh by mesh and
//! triangle by triangle, and the mesh of the first one that the test accepts
//! is picked. The first in this order need not be the nearest along the ray.

use vstd::prelude::*;
use crate::mesh::{Mesh, MeshView, Model};
use crate::scalar::Vec3;

verus! {

/// The corners of a triangle, in the mesh's own coordinates.
#[derive(Clone, Copy, Debug, PartialEq, Eq, Structural)]
pub struct Triangle {
    pub a: Vec3,
    pub b: Vec3,
    pub c: Vec3,
}

/// The number of triangles of a mesh: one for every three full entries of
/// its index list.
pub open spec fn triangle_count(mesh: MeshView) -> nat {
    mesh.indices.len() / 3
}

/// The mesh has a triangle `k`, and each of its corners is a vertex of the
/// mesh.
pub open spec fn has_triangle(mesh: MeshView, k: int) -> bool {
    &&& 0 <= k < triangle_count(mesh)
    &&& mesh.indices[3 * k] < mesh.vertices.len()
    &&& mesh.indices[3 * k + 1] < mesh.vertices.len()
    &&& mesh.indices[3 * k + 2] < mesh.vertices.len()
}

/// Triangle `k` of a mesh.
pub open spec fn triangle_at(mesh: MeshView, k: int) -> Triangle {
    Triangle {
        a: mesh.vertices[mesh.indices[3 * k] as int].position,
        b: mesh.vertices[mesh.indices[3 * k + 1] as int].position,
        c: mesh.vertices[mesh.indices[3 * k + 2] as int].position,
    }
}

impl Mesh {
    /// The number of triangles of the mesh.
    pub fn triangles(&self) -> (n: usize)
        ensures
            n == triangle_count(self@),
    {
        self.indices.len() / 3
    }

    /// Triangle `k` of the mesh, where it has one whose corners are all
    /// vertices of the mesh.
    pub fn triangle(&self, k: usize) -> (t: Option<Triangle>)
        ensures
            t == if has_triangle(self@, k as int) {
                Some(triangle_at(self@, k as int))
            } else {
                None
            },
    {
        if k >= self.indices.len() / 3 {
            return None;
        }
        let a = self.indices[3 * k] as usize;
        let b = self.indices[3 * k + 1] as usize;
        let c = self.indices[3 * k + 2] as usize;
        let n = self.vertices.len();
        if a < n && b < n && c < n {
            Some(
                Triangle {
                    a: self.vertices[a].position,
                    b: self.vertices[b].position,
                    c: self.vertices[c].position,
                },
            )
        } else {
            None
        }
    }
}

/// Mesh `j` of model `i` of the scene has a triangle `k` to test.
pub open spec fn testable(scene: Seq<Model>, i: int, j: int, k: int) -> bool {
    &&& 0 <= i < scene.len()
    &&& 0 <= j < scene[i].meshes@.len()
    &&& has_triangle(scene[i].meshes@[j]@, k)
}

/// The first place comes before the second in the order of testing.
pub open spec fn earlier(i2: int, j2: int, k2: int, i: int, j: int, k: int) -> bool {
    i2 < i || (i2 == i && (j2 < j || (j2 == j && k2 < k)))
}

/// The test, put to triangle `k` of mesh `j` of model `i`, may answer
/// `answer`.
pub open spec fn reported<F: Fn(&Mesh, &Triangle) -> bool>(
    hit: F,
    scene: Seq<Model>,
    i: int,
    j: int,
    k: int,
    answer: bool,
) -> bool {
    call_ensures(
        hit,
        (&scene[i].meshes@[j], &triangle_at(scene[i].meshes@[j]@, k)),
        answer,
    )
}

/// The test rejected every triangle of the scene that comes before the
/// place `(i, j, k)`.
pub open spec fn missed_before<F: Fn(&Mesh, &Triangle) -> bool>(
    hit: F,
    scene: Seq<Model>,
    i: int,
    j: int,
    k: int,
) -> bool {
    forall|i2: int, j2: int, k2: int|
        testable(scene, i2, j2, k2) && earlier(i2, j2, k2, i, j, k) ==> #[trigger] reported(
            hit,
            scene,
            i2,
            j2,
            k2,
            false,
        )
}

/// The mesh with the id `id` holds the first triangle of the scene that the
/// test accepted.
pub open spec fn first_hit<F: Fn(&Mesh, &Triangle) -> bool>(
    hit: F,
    scene: Seq<Model>,
    id: u64,
) -> bool {
    exists|i: int, j: int, k: int|
        {
            &&& testable(scene, i, j, k)
            &&& #[trigger] reported(hit, scene, i, j, k, true)
            &&& missed_before(hit, scene, i, j, k)
            &&& scene[i].meshes@[j].id == id
        }
}

/// Tests the triangles of the scene in order and returns the id of the mesh
/// of the first one that `hit` accepts; nothing where it accepts none. No
/// triangle after the accepted one is tested.
pub fn pick<F: Fn(&Mesh, &Triangle) -> bool>(scene: &Vec<Model>, hit: F) -> (picked: Option<u64>)
    requires
        forall|mesh: &Mesh, t: &Triangle| call_requires(hit, (mesh, t)),
    ensures
        match picked {
            Some(id) => first_hit(hit, scene@, id),
            None => missed_before(hit, scene@, scene@.len() as int, 0, 0),
        },
{
    let mut i: usize = 0;
    while i < scene.len()
        invariant
            i <= scene@.len(),
            forall|mesh: &Mesh, t: &Triangle| call_requires(hit, (mesh, t)),
            missed_before(hit, scene@, i as int, 0, 0),
        decreases scene@.len() - i,
    {
        let model = &scene[i];
        let mut j: usize = 0;
        while j < model.meshes.len()
            invariant
                i < scene@.len(),
                *model == scene@[i as int],
                j <= model.meshes@.len(),
                forall|mesh: &Mesh, t: &Triangle| call_requires(hit, (mesh, t)),
                missed_before(hit, scene@, i as int, j as int, 0),
            decreases model.meshes@.len() - j,
        {
            let mesh = &model.meshes[j];
            let n = mesh.triangles();
            let mut k: usize = 0;
            while k < n
                invariant
                    i < scene@.len(),
                    *model == scene@[i as int],
                    j < model.meshes@.len(),
                    *mesh == model.meshes@[j as int],
                    n == triangle_count(mesh@),
                    k <= n,
                    forall|mesh: &Mesh, t: &Triangle| call_requires(hit, (mesh, t)),
                    missed_before(hit, scene@, i as int, j as int, k as int),
                decreases n - k,
            {
                match mesh.triangle(k) {
                    Some(t) => {
                        if hit(mesh, &t) {
                            assert(reported(hit, scene@, i as int, j as int, k as int, true));
                            return Some(mesh.id);
                        }
                        assert(reported(hit, scene@, i as int, j as int, k as int, false));
                    },
                    None => {},
                }
                k = k + 1;
            }
            j = j + 1;
        }
        i = i + 1;
    }
    None
}

} // verus!

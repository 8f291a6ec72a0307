use vstd::prelude::*;

use crate::mesh::TriangleMesh;
use crate::point::Vec3;

verus! {

/// The renderer-facing view of a mesh: one coordinate triple per vertex
/// (the sentinel infinite vertex included — consumers filter it), and one
/// vertex-index triple per triangle (ghost triangles included).
#[derive(Debug, Clone)]
pub struct DrawableMesh {
    pub vertices: Vec<Vec3>,
    pub triangles: Vec<[usize; 3]>,
}

impl DrawableMesh {
    /// The empty export.
    pub fn new() -> (r: DrawableMesh)
        ensures
            r.vertices@.len() == 0,
            r.triangles@.len() == 0,
    {
        DrawableMesh { vertices: Vec::new(), triangles: Vec::new() }
    }

    /// Flattens the mesh store: vertex `i`'s coordinates at position `i`,
    /// triangle `t`'s vertex references at position `t`.
    pub fn from_mesh(mesh: &TriangleMesh) -> (r: DrawableMesh)
        ensures
            r.vertices@.len() == mesh.vertices@.len(),
            forall|i: int|
                0 <= i < mesh.vertices@.len() ==> r.vertices@[i] == mesh.vertices@[i].point,
            r.triangles@.len() == mesh.triangles@.len(),
            forall|t: int|
                0 <= t < mesh.triangles@.len() ==> r.triangles@[t]
                    == mesh.triangles@[t].vertices,
    {
        let mut vertices: Vec<Vec3> = Vec::new();
        let mut i: usize = 0;
        while i < mesh.vertices.len()
            invariant
                i <= mesh.vertices@.len(),
                vertices@.len() == i,
                forall|j: int| 0 <= j < i ==> vertices@[j] == mesh.vertices@[j].point,
            decreases mesh.vertices@.len() - i,
        {
            vertices.push(mesh.vertices[i].point);
            i += 1;
        }

        let mut triangles: Vec<[usize; 3]> = Vec::new();
        let mut t: usize = 0;
        while t < mesh.triangles.len()
            invariant
                t <= mesh.triangles@.len(),
                triangles@.len() == t,
                forall|s: int| 0 <= s < t ==> triangles@[s] == mesh.triangles@[s].vertices,
            decreases mesh.triangles@.len() - t,
        {
            triangles.push(mesh.triangles[t].vertices);
            t += 1;
        }

        DrawableMesh { vertices, triangles }
    }
}

} // verus!

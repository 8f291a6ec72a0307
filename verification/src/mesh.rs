use vstd::prelude::*;

use crate::id::{LocalId, TriIt};
use crate::point::{Vec3, INF_BITS};

verus! {

/// The reserved sentinel vertex: the "point at infinity" closing the hull.
pub const INFINITE: usize = 0;

/// The invalid vertex reference.
pub const INVALID_VERTEX: usize = usize::MAX;

/// The invalid triangle reference.
pub const INVALID_TRIANGLE: usize = usize::MAX;

/// The successor of a corner index in `{0, 1, 2}`, cyclically.
pub open spec fn nxt(k: int) -> int {
    if k == 2 {
        0
    } else {
        k + 1
    }
}

/// The predecessor of a corner index in `{0, 1, 2}`, cyclically.
pub open spec fn prv(k: int) -> int {
    if k == 0 {
        2
    } else {
        k - 1
    }
}

/// A triangle: three vertex references and, for each corner `i`, the
/// neighbor `adjacent[i]` sharing the edge *opposite* corner `i`
/// (the edge `(vertices[nxt(i)], vertices[prv(i)])`).
#[derive(Debug, Clone, Copy)]
pub struct Triangle {
    pub vertices: [usize; 3],
    pub adjacent: [usize; 3],
}

/// A vertex: its coordinates plus a back-reference to one triangle that
/// contains it (`INVALID_TRIANGLE` while not yet linked).
#[derive(Debug, Clone, Copy)]
pub struct Vertex {
    pub point: Vec3,
    pub incident_tri: usize,
}

/// The mesh store: append-only arenas of vertices and triangles, both
/// addressed by plain indices.
#[derive(Debug)]
pub struct TriangleMesh {
    pub vertices: Vec<Vertex>,
    pub triangles: Vec<Triangle>,
}

/// A read-only fan cursor: a triangle together with one vertex it contains.
/// The mesh is passed to each stepping call rather than borrowed.
#[derive(Debug, Clone, Copy, PartialEq, Eq, Structural)]
pub struct FaceIt {
    pub triangle: usize,
    pub vertex: usize,
}

impl Vertex {
    pub fn new(p: Vec3, tri: usize) -> (r: Self)
        ensures
            r.point == p,
            r.incident_tri == tri,
    {
        Self { point: p, incident_tri: tri }
    }
}

impl Triangle {
    /// The vertex reference at corner `k`.
    pub open spec fn vert(self, k: int) -> usize {
        self.vertices[k]
    }

    /// The neighbor reference across the edge opposite corner `k`.
    pub open spec fn adj(self, k: int) -> usize {
        self.adjacent[k]
    }

    /// The corner of `self` holding vertex `v`: the first match, or the
    /// invalid sentinel.
    pub open spec fn spec_id_of_v(self, v: usize) -> TriIt {
        if self.vert(0) == v {
            TriIt { i: 0 }
        } else if self.vert(1) == v {
            TriIt { i: 1 }
        } else if self.vert(2) == v {
            TriIt { i: 2 }
        } else {
            TriIt { i: -1 as i8 }
        }
    }

    /// The corner of `self` whose opposite edge borders triangle `t`: the
    /// first match, or the invalid sentinel.
    pub open spec fn spec_id_of_t(self, t: usize) -> TriIt {
        if self.adj(0) == t {
            TriIt { i: 0 }
        } else if self.adj(1) == t {
            TriIt { i: 1 }
        } else if self.adj(2) == t {
            TriIt { i: 2 }
        } else {
            TriIt { i: -1 as i8 }
        }
    }

    /// Whether `self` is a ghost triangle, one referencing the sentinel
    /// infinite vertex.
    pub open spec fn spec_is_infinite(self) -> bool {
        self.vert(0) == INFINITE || self.vert(1) == INFINITE || self.vert(2) == INFINITE
    }

    pub fn new(v: [usize; 3], tri: [usize; 3]) -> (r: Self)
        ensures
            r.vertices == v,
            r.adjacent == tri,
    {
        Self { vertices: v, adjacent: tri }
    }

    pub fn id_of_v(&self, v: usize) -> (r: TriIt)
        ensures
            r == self.spec_id_of_v(v),
            r.wf(),
    {
        if self.vertices[0] == v {
            TriIt { i: 0 }
        } else if self.vertices[1] == v {
            TriIt { i: 1 }
        } else if self.vertices[2] == v {
            TriIt { i: 2 }
        } else {
            TriIt { i: -1 }
        }
    }

    pub fn id_of_t(&self, t: usize) -> (r: TriIt)
        ensures
            r == self.spec_id_of_t(t),
            r.wf(),
    {
        if self.adjacent[0] == t {
            TriIt { i: 0 }
        } else if self.adjacent[1] == t {
            TriIt { i: 1 }
        } else if self.adjacent[2] == t {
            TriIt { i: 2 }
        } else {
            TriIt { i: -1 }
        }
    }

    /// The edge opposite corner `i`, as its two endpoint vertex references.
    pub fn get_edge(&self, i: TriIt) -> (r: (usize, usize))
        requires
            i.spec_valid(),
        ensures
            r.0 == self.vert(nxt(i.i as int)),
            r.1 == self.vert(prv(i.i as int)),
    {
        (self.vertices[i.next().id()], self.vertices[i.prev().id()])
    }

    pub fn is_infinite(&self) -> (r: bool)
        ensures
            r == self.spec_is_infinite(),
    {
        self.id_of_v(INFINITE).is_valid()
    }
}

impl TriangleMesh {
    /// Whether `v` is a reference into the vertex arena.
    pub open spec fn spec_valid_v(self, v: int) -> bool {
        0 <= v < self.vertices@.len()
    }

    /// Whether `t` is a reference into the triangle arena.
    pub open spec fn spec_valid_t(self, t: int) -> bool {
        0 <= t < self.triangles@.len()
    }

    pub fn is_v_id_valid(&self, v: usize) -> (r: bool)
        ensures
            r == self.spec_valid_v(v as int),
    {
        v < self.vertices.len()
    }

    pub fn is_tri_id_valid(&self, t: usize) -> (r: bool)
        ensures
            r == self.spec_valid_t(t as int),
    {
        t < self.triangles.len()
    }

    /// The coordinates of corner `i` of triangle `tri`.
    pub fn get_v(&self, tri: &Triangle, i: usize) -> (r: Vec3)
        requires
            i < 3,
            self.spec_valid_v(tri.vert(i as int) as int),
        ensures
            r == self.vertices@[tri.vert(i as int) as int].point,
    {
        self.vertices[tri.vertices[i]].point
    }

    /// The coordinates of the three corners of `tri`.
    pub fn get_vertices(&self, tri: &Triangle) -> (r: [Vec3; 3])
        requires
            self.spec_valid_v(tri.vert(0) as int),
            self.spec_valid_v(tri.vert(1) as int),
            self.spec_valid_v(tri.vert(2) as int),
        ensures
            r[0] == self.vertices@[tri.vert(0) as int].point,
            r[1] == self.vertices@[tri.vert(1) as int].point,
            r[2] == self.vertices@[tri.vert(2) as int].point,
    {
        [
            self.vertices[tri.vertices[0]].point,
            self.vertices[tri.vertices[1]].point,
            self.vertices[tri.vertices[2]].point,
        ]
    }

    /// The neighbor of `tri` across the edge opposite corner `v`.
    pub fn get_tri(&self, tri: &Triangle, v: TriIt) -> (r: &Triangle)
        requires
            v.spec_valid(),
            self.spec_valid_t(tri.adj(v.i as int) as int),
        ensures
            *r == self.triangles@[tri.adj(v.i as int) as int],
    {
        &self.triangles[tri.adjacent[v.id()]]
    }

    /// A fan cursor positioned at `v`'s incident triangle. The incident
    /// reference must be valid (a not-yet-linked vertex has none).
    pub fn face_it(&self, v: usize) -> (r: FaceIt)
        requires
            self.spec_valid_v(v as int),
            self.spec_valid_t(self.vertices@[v as int].incident_tri as int),
        ensures
            r.triangle == self.vertices@[v as int].incident_tri,
            r.vertex == v,
    {
        let tri = self.vertices[v].incident_tri;
        FaceIt::new(tri, v)
    }

    /// Appends a new vertex with no incident triangle yet; the caller is
    /// responsible for later setting a valid back-reference.
    pub fn add_point(&mut self, point: Vec3) -> (id: usize)
        requires
            old(self).vertices@.len() < usize::MAX,
        ensures
            id == old(self).vertices@.len(),
            final(self).vertices@ == old(self).vertices@.push(
                Vertex { point, incident_tri: INVALID_TRIANGLE },
            ),
            final(self).triangles@ == old(self).triangles@,
    {
        let id = self.vertices.len();
        self.vertices.push(Vertex { point, incident_tri: INVALID_TRIANGLE });
        id
    }
}

impl Default for TriangleMesh {
    /// The empty mesh: no triangles, and only the sentinel infinite vertex
    /// (coordinates `(+0.0, +0.0, +inf)` as bit patterns, not yet linked).
    fn default() -> (r: Self)
        ensures
            r.triangles@.len() == 0,
            r.vertices@.len() == 1,
            r.vertices@[0].point == (Vec3 { x: 0, y: 0, z: INF_BITS }),
            r.vertices@[0].incident_tri == INVALID_TRIANGLE,
    {
        let mut vertices: Vec<Vertex> = Vec::new();
        vertices.push(
            Vertex { point: Vec3 { x: 0, y: 0, z: INF_BITS }, incident_tri: INVALID_TRIANGLE },
        );
        Self { triangles: Vec::new(), vertices }
    }
}

impl FaceIt {
    /// The position a step lands on in direction `sign`: across the edge
    /// adjacent to the cursor vertex on one side.
    pub open spec fn spec_step(self, mesh: TriangleMesh, sign: bool) -> Option<FaceIt> {
        let t = mesh.triangles@[self.triangle as int];
        let k = t.spec_id_of_v(self.vertex).i as int;
        let o = if sign {
            t.adj(nxt(k))
        } else {
            t.adj(prv(k))
        };
        if mesh.spec_valid_t(o as int) {
            Some(FaceIt { triangle: o, vertex: self.vertex })
        } else {
            None
        }
    }

    pub fn new(tri: usize, v: usize) -> (r: Self)
        ensures
            r.triangle == tri,
            r.vertex == v,
    {
        Self { triangle: tri, vertex: v }
    }

    pub fn prev(self, mesh: &TriangleMesh) -> (r: Option<Self>)
        requires
            mesh.spec_valid_t(self.triangle as int),
            mesh.triangles@[self.triangle as int].spec_id_of_v(self.vertex).spec_valid(),
        ensures
            r == self.spec_step(*mesh, false),
    {
        let tri = &mesh.triangles[self.triangle];
        let v_id = tri.id_of_v(self.vertex);
        let o_tri = tri.adjacent[v_id.prev().id()];
        if !mesh.is_tri_id_valid(o_tri) {
            return None;
        }

        Some(FaceIt::new(o_tri, self.vertex))
    }

    pub fn next(self, mesh: &TriangleMesh) -> (r: Option<Self>)
        requires
            mesh.spec_valid_t(self.triangle as int),
            mesh.triangles@[self.triangle as int].spec_id_of_v(self.vertex).spec_valid(),
        ensures
            r == self.spec_step(*mesh, true),
    {
        let tri = &mesh.triangles[self.triangle];
        let v_id = tri.id_of_v(self.vertex);
        let o_tri = tri.adjacent[v_id.next().id()];
        if !mesh.is_tri_id_valid(o_tri) {
            return None;
        }

        Some(FaceIt::new(o_tri, self.vertex))
    }

    /// `next` when `sign` is true, `prev` otherwise.
    pub fn step(self, mesh: &TriangleMesh, sign: bool) -> (r: Option<Self>)
        requires
            mesh.spec_valid_t(self.triangle as int),
            mesh.triangles@[self.triangle as int].spec_id_of_v(self.vertex).spec_valid(),
        ensures
            r == self.spec_step(*mesh, sign),
    {
        if sign {
            self.next(mesh)
        } else {
            self.prev(mesh)
        }
    }

    pub fn get_tri_id(&self) -> (r: usize)
        ensures
            r == self.triangle,
    {
        self.triangle
    }

    pub fn get_tri<'a>(&self, mesh: &'a TriangleMesh) -> (r: &'a Triangle)
        requires
            mesh.spec_valid_t(self.triangle as int),
        ensures
            *r == mesh.triangles@[self.triangle as int],
    {
        &mesh.triangles[self.triangle]
    }
}

} // verus!

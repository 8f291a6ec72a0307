use vstd::prelude::*;

use crate::id::TriIt;
use crate::mesh::{nxt, prv, FaceIt, Triangle, TriangleMesh, INFINITE, INVALID_TRIANGLE};
use crate::point::Vec3;
use crate::utils::TriOrient;

verus! {

broadcast use vstd::std_specs::vec::axiom_spec_len;

/// A failure of a mesh mutation. Broken invariants are programming-level
/// defects; they are reported loudly instead of being repaired.
#[derive(Debug, Clone, Copy, PartialEq, Eq, Structural)]
pub enum MeshError {
    /// A point falling exactly on an existing edge has no defined mutation.
    UnsupportedEdgeSplit,
    /// A required neighbor or corner was missing mid-operation.
    BrokenTopology,
}

/// The number of ghost triangles (those referencing the sentinel
/// infinite vertex) in an arena. With the hull closed by one ghost
/// triangle per hull edge, this is the number of hull edges.
pub open spec fn ghost_count(s: Seq<Triangle>) -> int
    decreases s.len(),
{
    if s.len() == 0 {
        0
    } else {
        ghost_count(s.drop_last()) + if s.last().spec_is_infinite() {
            1int
        } else {
            0int
        }
    }
}

/// The number of non-ghost (real) triangles in an arena.
pub open spec fn real_count(s: Seq<Triangle>) -> int {
    s.len() - ghost_count(s)
}

/// Euler relation: once the hull is closed, the triangle arena of a mesh
/// over `n >= 3` real points (plus the sentinel) holds `2n - 2` slots in
/// all, so with `h` hull edges — one ghost triangle each — the number of
/// non-ghost triangles is exactly `2n - 2 - h`.
pub proof fn lemma_euler_relation(m: TriangleMesh)
    requires
        m.vertices@.len() >= 4,
        m.triangles@.len() == 2 * m.vertices@.len() - 4,
    ensures
        real_count(m.triangles@) == 2 * (m.vertices@.len() - 1) - 2 - ghost_count(
            m.triangles@,
        ),
{
}

/// Each insertion step keeps the arena at `2n - 2` slots: the bootstrap
/// opens it with four slots over four vertices, and every later insertion
/// adds one vertex and two triangle slots (a face split reuses one slot
/// and appends two; the flips of a hull extension rewrite slots in place).
pub proof fn lemma_euler_step(
    v_pre: int,
    t_pre: int,
    v_post: int,
    t_post: int,
)
    requires
        v_pre >= 4,
        t_pre == 2 * v_pre - 4,
        v_post == v_pre + 1,
        t_post == t_pre + 2,
    ensures
        t_post == 2 * v_post - 4,
{
}

/// The three vertex references of `t` are pairwise distinct.
pub open spec fn tri_unique(t: Triangle) -> bool {
    t.vert(0) != t.vert(1) && t.vert(1) != t.vert(2) && t.vert(2) != t.vert(0)
}

/// Exactly one corner of `a` has its opposite edge bordered by `t`.
pub open spec fn back_ref_unique(a: Triangle, t: usize) -> bool {
    let n0 = a.adj(0) == t;
    let n1 = a.adj(1) == t;
    let n2 = a.adj(2) == t;
    (n0 && !n1 && !n2) || (!n0 && n1 && !n2) || (!n0 && !n1 && n2)
}

/// The triangle `t` has exactly the given vertex and adjacency references.
pub open spec fn tri_is(t: Triangle, v0: int, v1: int, v2: int, a0: int, a1: int, a2: int) -> bool {
    t.vert(0) as int == v0 && t.vert(1) as int == v1 && t.vert(2) as int == v2 && t.adj(0) as int
        == a0 && t.adj(1) as int == a1 && t.adj(2) as int == a2
}

/// The edge of `t` opposite corner `k` and the edge of `a` opposite corner
/// `j` have the same two endpoints (as an unordered pair of distinct ids).
pub open spec fn edge_matches(t: Triangle, k: int, a: Triangle, j: int) -> bool {
    let e0 = t.vert(nxt(k));
    let e1 = t.vert(prv(k));
    let f0 = a.vert(nxt(j));
    let f1 = a.vert(prv(j));
    e0 != e1 && f0 != f1 && (e0 == f0 || e0 == f1) && (e1 == f0 || e1 == f1)
}

impl TriangleMesh {
    /// All three vertex references of triangle `t` point into the arena.
    pub open spec fn tri_ids_ok(self, t: int) -> bool {
        self.spec_valid_v(self.triangles@[t].vert(0) as int)
            && self.spec_valid_v(self.triangles@[t].vert(1) as int)
            && self.spec_valid_v(self.triangles@[t].vert(2) as int)
    }

    /// Adjacency symmetry at triangle `t`, corner `k`: if the neighbor
    /// across the opposite edge is a valid reference, it points back at `t`
    /// from exactly one corner, and the shared edge endpoints agree.
    pub open spec fn adj_sym_at(self, t: int, k: int) -> bool {
        let tr = self.triangles@[t];
        let a = tr.adj(k) as int;
        self.spec_valid_t(a) ==> {
            let atr = self.triangles@[a];
            let j = atr.spec_id_of_t(t as usize);
            j.spec_valid() && back_ref_unique(atr, t as usize) && edge_matches(
                tr,
                k,
                atr,
                j.i as int,
            )
        }
    }

    /// The vertex `v` has a valid incident triangle that contains it.
    pub open spec fn incident_ok(self, v: int) -> bool {
        let it = self.vertices@[v].incident_tri as int;
        self.spec_valid_t(it) && self.triangles@[it].spec_id_of_v(
            v as usize,
        ).spec_valid()
    }

    /// The combinatorial mesh invariants: every vertex's back-reference is
    /// right (for the sentinel vertex only once it has been linked), every
    /// triangle's vertex references are valid and pairwise distinct, and
    /// adjacency is symmetric with matching shared edges.
    pub open spec fn topo_valid(self) -> bool {
        &&& self.vertices@.len() > 0 ==> (self.spec_valid_t(
            self.vertices@[0].incident_tri as int,
        ) ==> self.incident_ok(0))
        &&& forall|v: int| 1 <= v < self.vertices@.len() ==> self.incident_ok(v)
        &&& forall|t: int|
            0 <= t < self.triangles@.len() ==> self.tri_ids_ok(t) && tri_unique(
                #[trigger] self.triangles@[t],
            )
        &&& forall|t: int, k: int|
            0 <= t < self.triangles@.len() && 0 <= k < 3 ==> self.adj_sym_at(t, k)
    }

    /// Reference hygiene: every adjacency slot, and the sentinel vertex's
    /// incident reference, either points into the arena or is the
    /// designated invalid reference — no dangling value that a growing
    /// arena could turn into an accidental neighbor.
    pub open spec fn refs_hygienic(self) -> bool {
        &&& forall|t: int, k: int|
            0 <= t < self.triangles@.len() && 0 <= k < 3
                ==> ((#[trigger] self.triangles@[t].adj(k)) < self.triangles@.len()
                || self.triangles@[t].adj(k) == INVALID_TRIANGLE)
        &&& self.vertices@.len() > 0 ==> (self.vertices@[0].incident_tri
            < self.triangles@.len() || self.vertices@[0].incident_tri == INVALID_TRIANGLE)
    }

    /// The orientation invariant for triangle `t`, given the classification
    /// `os[t]` of its corner points: a non-ghost triangle is never clockwise.
    pub open spec fn orient_ok_at(self, os: Seq<TriOrient>, t: int) -> bool {
        !self.triangles@[t].spec_is_infinite() ==> os[t] != TriOrient::CW
    }

    /// The orientation invariant for the whole mesh.
    pub open spec fn orient_ok(self, os: Seq<TriOrient>) -> bool {
        forall|t: int| 0 <= t < self.triangles@.len() ==> self.orient_ok_at(os, t)
    }

    fn check_adj_at(&self, t: usize, k: usize) -> (r: bool)
        requires
            self.spec_valid_t(t as int),
            k < 3,
        ensures
            r == self.adj_sym_at(t as int, k as int),
    {
        let tri = &self.triangles[t];
        let a = tri.adjacent[k];
        if !self.is_tri_id_valid(a) {
            return true;
        }
        let atr = &self.triangles[a];
        let j = atr.id_of_t(t);
        if !j.is_valid() {
            return false;
        }
        let j_id = j.id();
        if j_id == 0 && (atr.adjacent[1] == t || atr.adjacent[2] == t) {
            return false;
        }
        if j_id == 1 && atr.adjacent[2] == t {
            return false;
        }
        let edge = tri.get_edge(TriIt::new(k as i8));
        let adj_edge = atr.get_edge(j);
        if edge.0 == edge.1 || adj_edge.0 == adj_edge.1 {
            return false;
        }
        (edge.0 == adj_edge.0 || edge.0 == adj_edge.1) && (edge.1 == adj_edge.0 || edge.1
            == adj_edge.1)
    }

    fn check_tri(&self, t: usize) -> (r: bool)
        requires
            self.spec_valid_t(t as int),
        ensures
            r == (self.tri_ids_ok(t as int) && tri_unique(self.triangles@[t as int])
                && self.adj_sym_at(t as int, 0) && self.adj_sym_at(t as int, 1)
                && self.adj_sym_at(t as int, 2)),
    {
        let tri = &self.triangles[t];
        if !self.is_v_id_valid(tri.vertices[0]) || !self.is_v_id_valid(tri.vertices[1])
            || !self.is_v_id_valid(tri.vertices[2]) {
            return false;
        }
        if tri.vertices[0] == tri.vertices[1] || tri.vertices[1] == tri.vertices[2]
            || tri.vertices[2] == tri.vertices[0] {
            return false;
        }
        self.check_adj_at(t, 0) && self.check_adj_at(t, 1) && self.check_adj_at(t, 2)
    }

    /// The full invariant audit (O(triangles), intended for debug builds and
    /// tests): reports whether the combinatorial invariants hold and — when
    /// the corner-point classifications of the triangles are supplied —
    /// whether every non-ghost triangle is non-clockwise.
    pub fn assert_mesh_validity(&self, orients: Option<&Vec<TriOrient>>) -> (r: bool)
        requires
            orients is Some ==> orients.unwrap()@.len() == self.triangles@.len(),
        ensures
            r == (self.topo_valid() && (orients is Some ==> self.orient_ok(
                orients.unwrap()@,
            ))),
    {
        let vlen = self.vertices.len();
        if vlen > 0 {
            let inc0 = self.vertices[0].incident_tri;
            if self.is_tri_id_valid(inc0) {
                if !self.triangles[inc0].id_of_v(INFINITE).is_valid() {
                    return false;
                }
            }
            let mut v: usize = 1;
            while v < vlen
                invariant
                    1 <= v <= vlen,
                    vlen == self.vertices@.len(),
                    forall|w: int| 1 <= w < v ==> self.incident_ok(w),
                decreases vlen - v,
            {
                let inc = self.vertices[v].incident_tri;
                if !self.is_tri_id_valid(inc) {
                    assert(!self.incident_ok(v as int));
                    return false;
                }
                if !self.triangles[inc].id_of_v(v).is_valid() {
                    assert(!self.incident_ok(v as int));
                    return false;
                }
                v += 1;
            }
        }

        let tlen = self.triangles.len();
        let mut t: usize = 0;
        while t < tlen
            invariant
                t <= tlen,
                tlen == self.triangles@.len(),
                orients is Some ==> orients.unwrap()@.len() == self.triangles@.len(),
                forall|s: int|
                    0 <= s < t ==> self.tri_ids_ok(s) && tri_unique(
                        #[trigger] self.triangles@[s],
                    ),
                forall|s: int, k: int| 0 <= s < t && 0 <= k < 3 ==> self.adj_sym_at(s, k),
                forall|s: int|
                    0 <= s < t ==> (orients is Some ==> self.orient_ok_at(
                        orients.unwrap()@,
                        s,
                    )),
            decreases tlen - t,
        {
            if !self.check_tri(t) {
                return false;
            }
            match orients {
                Some(os) => {
                    if !self.triangles[t].is_infinite() && os[t].is_cw() {
                        assert(!self.orient_ok_at(os@, t as int));
                        return false;
                    }
                },
                None => {},
            }
            t += 1;
        }

        true
    }

    /// A neighbor of `tri_id` that exists must be a different triangle and
    /// point back at `tri_id` from some corner (else the rewiring of a face
    /// split would have nowhere to write).
    pub open spec fn split_neighbor_ok(self, tri_id: int, k: int) -> bool {
        let a = self.triangles@[tri_id].adj(k) as int;
        self.spec_valid_t(a) ==> a != tri_id && self.triangles@[a].spec_id_of_t(
            tri_id as usize,
        ).spec_valid()
    }

    /// The valid neighbors of `tri_id` are pairwise distinct triangles.
    pub open spec fn neighbors_distinct(self, tri_id: int) -> bool {
        let t = self.triangles@[tri_id];
        let a0 = t.adj(0) as int;
        let a1 = t.adj(1) as int;
        let a2 = t.adj(2) as int;
        &&& self.spec_valid_t(a0) && self.spec_valid_t(a1) ==> a0 != a1
        &&& self.spec_valid_t(a1) && self.spec_valid_t(a2) ==> a1 != a2
        &&& self.spec_valid_t(a0) && self.spec_valid_t(a2) ==> a0 != a2
    }

    /// What a face split needs of its target triangle: a valid, locally
    /// well-formed corner of the mesh, and room to append.
    pub open spec fn split_face_pre(self, tri_id: int) -> bool {
        &&& self.spec_valid_t(tri_id)
        &&& self.tri_ids_ok(tri_id)
        &&& tri_unique(self.triangles@[tri_id])
        &&& self.vertices@.len() < usize::MAX
        &&& self.triangles@.len() + 2 <= usize::MAX
        &&& self.split_neighbor_ok(tri_id, 0)
        &&& self.split_neighbor_ok(tri_id, 1)
        &&& self.split_neighbor_ok(tri_id, 2)
        &&& self.neighbors_distinct(tri_id)
    }

    /// Whether `s` is a valid neighbor of `tri_id` (one whose back-reference
    /// a face split repoints).
    pub open spec fn is_neighbor_of(self, tri_id: int, s: int) -> bool {
        let t = self.triangles@[tri_id];
        (self.spec_valid_t(t.adj(0) as int) && s == t.adj(0) as int) || (self.spec_valid_t(
            t.adj(1) as int,
        ) && s == t.adj(1) as int) || (self.spec_valid_t(t.adj(2) as int) && s == t.adj(
            2,
        ) as int)
    }

    /// The neighbor of `tri_id` across corner `k` (if any) ends up with its
    /// back-reference repointed to `nt` and nothing else changed.
    pub open spec fn split_neighbor_post(
        pre: TriangleMesh,
        post: TriangleMesh,
        tri_id: int,
        k: int,
        nt: int,
    ) -> bool {
        let a = pre.triangles@[tri_id].adj(k) as int;
        pre.spec_valid_t(a) ==> {
            let j = pre.triangles@[a].spec_id_of_t(tri_id as usize).i as int;
            &&& post.triangles@[a].vertices == pre.triangles@[a].vertices
            &&& post.triangles@[a].adj(j) as int == nt
            &&& forall|m: int|
                0 <= m < 3 && m != j ==> post.triangles@[a].adj(m) == pre.triangles@[a].adj(
                    m,
                )
        }
    }

    /// The exact effect of a face split: the reused and appended
    /// sub-triangle slots, the repointed neighbors, the refreshed incident
    /// references, and everything else untouched.
    pub open spec fn split_face_post(
        pre: TriangleMesh,
        post: TriangleMesh,
        tri_id: int,
        point: Vec3,
        r: (usize, [usize; 3]),
    ) -> bool {
        let p = pre.vertices@.len() as int;
        let n0 = pre.triangles@.len() as int;
        let t = pre.triangles@[tri_id];
        &&& r.0 == p
        &&& r.1[0] as int == tri_id && r.1[1] as int == n0 && r.1[2] as int == n0 + 1
        &&& post.vertices@.len() == p + 1
        &&& post.triangles@.len() == n0 + 2
        &&& forall|v: int| 0 <= v < p ==> post.vertices@[v].point == pre.vertices@[v].point
        &&& post.vertices@[p].point == point
        &&& post.vertices@[p].incident_tri as int == tri_id
        &&& post.vertices@[t.vert(1) as int].incident_tri as int == tri_id
        &&& post.vertices@[t.vert(2) as int].incident_tri as int == n0
        &&& post.vertices@[t.vert(0) as int].incident_tri as int == n0 + 1
        &&& forall|v: int|
            0 <= v < p && v != t.vert(0) && v != t.vert(1) && v != t.vert(2)
                ==> post.vertices@[v].incident_tri == pre.vertices@[v].incident_tri
        &&& tri_is(
            post.triangles@[tri_id],
            p,
            t.vert(1) as int,
            t.vert(2) as int,
            t.adj(0) as int,
            n0,
            n0 + 1,
        )
        &&& tri_is(
            post.triangles@[n0],
            p,
            t.vert(2) as int,
            t.vert(0) as int,
            t.adj(1) as int,
            n0 + 1,
            tri_id,
        )
        &&& tri_is(
            post.triangles@[n0 + 1],
            p,
            t.vert(0) as int,
            t.vert(1) as int,
            t.adj(2) as int,
            tri_id,
            n0,
        )
        &&& Self::split_neighbor_post(pre, post, tri_id, 0, tri_id)
        &&& Self::split_neighbor_post(pre, post, tri_id, 1, n0)
        &&& Self::split_neighbor_post(pre, post, tri_id, 2, n0 + 1)
        &&& forall|s: int|
            0 <= s < n0 && s != tri_id && !pre.is_neighbor_of(tri_id, s)
                ==> post.triangles@[s] == pre.triangles@[s]
    }

    /// Splits triangle `tri_id` into three sub-triangles fanning around the
    /// inserted point `point`. The original slot is reused for the first
    /// sub-triangle and two fresh slots are appended; each old neighbor's
    /// back-reference is repointed to the sub-triangle now bordering it, and
    /// every touched vertex's incident triangle is refreshed.
    ///
    /// Returns the new vertex reference and the three sub-triangle slots.
    pub fn split_face(&mut self, tri_id: usize, point: Vec3) -> (r: (usize, [usize; 3]))
        requires
            old(self).split_face_pre(tri_id as int),
        ensures
            Self::split_face_post(*old(self), *final(self), tri_id as int, point, r),
    {
        let old_tri = self.triangles[tri_id];
        let point_id = self.add_point(point);
        let n0 = self.triangles.len();
        let new_tris = [tri_id, n0, n0 + 1];

        let a0 = old_tri.adjacent[0];
        if self.is_tri_id_valid(a0) {
            let j = self.triangles[a0].id_of_t(tri_id);
            let mut nb = self.triangles[a0];
            nb.adjacent[j.id()] = new_tris[0];
            self.triangles[a0] = nb;
        }
        let a1 = old_tri.adjacent[1];
        if self.is_tri_id_valid(a1) {
            let j = self.triangles[a1].id_of_t(tri_id);
            let mut nb = self.triangles[a1];
            nb.adjacent[j.id()] = new_tris[1];
            self.triangles[a1] = nb;
        }
        let a2 = old_tri.adjacent[2];
        if self.is_tri_id_valid(a2) {
            let j = self.triangles[a2].id_of_t(tri_id);
            let mut nb = self.triangles[a2];
            nb.adjacent[j.id()] = new_tris[2];
            self.triangles[a2] = nb;
        }

        self.triangles[tri_id] = Triangle {
            vertices: [point_id, old_tri.vertices[1], old_tri.vertices[2]],
            adjacent: [old_tri.adjacent[0], new_tris[1], new_tris[2]],
        };
        self.triangles.push(
            Triangle {
                vertices: [point_id, old_tri.vertices[2], old_tri.vertices[0]],
                adjacent: [old_tri.adjacent[1], new_tris[2], new_tris[0]],
            },
        );
        self.triangles.push(
            Triangle {
                vertices: [point_id, old_tri.vertices[0], old_tri.vertices[1]],
                adjacent: [old_tri.adjacent[2], new_tris[0], new_tris[1]],
            },
        );

        let mut vx = self.vertices[old_tri.vertices[1]];
        vx.incident_tri = new_tris[0];
        self.vertices[old_tri.vertices[1]] = vx;
        let mut vy = self.vertices[old_tri.vertices[2]];
        vy.incident_tri = new_tris[1];
        self.vertices[old_tri.vertices[2]] = vy;
        let mut vz = self.vertices[old_tri.vertices[0]];
        vz.incident_tri = new_tris[2];
        self.vertices[old_tri.vertices[0]] = vz;

        let mut vp = self.vertices[point_id];
        vp.incident_tri = tri_id;
        self.vertices[point_id] = vp;

        (point_id, new_tris)
    }

    /// What a bistellar flip across the edge of `t0` opposite corner `e`
    /// needs: the neighbor across that edge exists, both triangles are
    /// locally well formed, the shared edge is found on both sides, the two
    /// apexes differ, and the two outer neighbors to be repointed are
    /// distinct from everything being rewritten.
    pub open spec fn edge_flip_pre(self, t0: int, e: int) -> bool {
        &&& self.spec_valid_t(t0)
        &&& 0 <= e < 3
        &&& {
            let tr0 = self.triangles@[t0];
            let t1 = tr0.adj(e) as int;
            &&& tri_unique(tr0)
            &&& self.tri_ids_ok(t0)
            &&& self.spec_valid_t(t1)
            &&& t1 != t0
            &&& {
                let tr1 = self.triangles@[t1];
                let o = tr1.spec_id_of_t(t0 as usize);
                let e0v = tr0.vert(nxt(e));
                let e1v = tr0.vert(prv(e));
                &&& tri_unique(tr1)
                &&& self.tri_ids_ok(t1)
                &&& o.spec_valid()
                &&& tr1.spec_id_of_v(e0v).spec_valid()
                &&& tr1.spec_id_of_v(e1v).spec_valid()
                &&& tr1.vert(o.i as int) != e0v
                &&& tr1.vert(o.i as int) != e1v
                &&& tr0.vert(e) != tr1.vert(o.i as int)
                &&& {
                    let a0 = tr1.adj(tr1.spec_id_of_v(e1v).i as int) as int;
                    let a1 = tr0.adj(nxt(e)) as int;
                    &&& (self.spec_valid_t(a0) ==> a0 != t0 && a0 != t1
                        && self.triangles@[a0].spec_id_of_t(t1 as usize).spec_valid())
                    &&& (self.spec_valid_t(a1) ==> a1 != t0 && a1 != t1
                        && self.triangles@[a1].spec_id_of_t(t0 as usize).spec_valid())
                    &&& (self.spec_valid_t(a0) && self.spec_valid_t(a1) ==> a0 != a1)
                }
            }
        }
    }

    /// The exact effect of a bistellar flip: the rewritten pair, the two
    /// repointed outer neighbors, the refreshed incident references, and
    /// everything else untouched.
    pub open spec fn edge_flip_post(pre: TriangleMesh, post: TriangleMesh, t0: int, e: int) -> bool {
        let tr0 = pre.triangles@[t0];
        let t1 = tr0.adj(e) as int;
        let tr1 = pre.triangles@[t1];
        let o = tr1.spec_id_of_t(t0 as usize).i as int;
        let e0v = tr0.vert(nxt(e));
        let e1v = tr0.vert(prv(e));
        let k0 = tr1.spec_id_of_v(e0v).i as int;
        let k1 = tr1.spec_id_of_v(e1v).i as int;
        let apex0 = tr0.vert(e);
        let apex1 = tr1.vert(o);
        let a0 = tr1.adj(k1) as int;
        let a1 = tr0.adj(nxt(e)) as int;
        &&& post.vertices@.len() == pre.vertices@.len()
        &&& post.triangles@.len() == pre.triangles@.len()
        &&& forall|v: int|
            0 <= v < pre.vertices@.len() ==> post.vertices@[v].point
                == pre.vertices@[v].point
        // the rewritten pair
        &&& post.triangles@[t0].vert(e) == apex0
        &&& post.triangles@[t0].vert(nxt(e)) == e0v
        &&& post.triangles@[t0].vert(prv(e)) == apex1
        &&& post.triangles@[t0].adj(e) as int == a0
        &&& post.triangles@[t0].adj(nxt(e)) as int == t1
        &&& post.triangles@[t0].adj(prv(e)) == tr0.adj(prv(e))
        &&& post.triangles@[t1].vert(o) == apex1
        &&& post.triangles@[t1].vert(k0) == apex0
        &&& post.triangles@[t1].vert(k1) == e1v
        &&& post.triangles@[t1].adj(o) as int == a1
        &&& post.triangles@[t1].adj(k1) as int == t0
        &&& forall|m: int|
            0 <= m < 3 && m != o && m != k1 ==> post.triangles@[t1].adj(m)
                == tr1.adj(m)
        // outer neighbors repointed
        &&& pre.spec_valid_t(a0) ==> {
            let j = pre.triangles@[a0].spec_id_of_t(t1 as usize).i as int;
            &&& post.triangles@[a0].vertices == pre.triangles@[a0].vertices
            &&& post.triangles@[a0].adj(j) as int == t0
            &&& forall|m: int|
                0 <= m < 3 && m != j ==> post.triangles@[a0].adj(m)
                    == pre.triangles@[a0].adj(m)
        }
        &&& pre.spec_valid_t(a1) ==> {
            let j = pre.triangles@[a1].spec_id_of_t(t0 as usize).i as int;
            &&& post.triangles@[a1].vertices == pre.triangles@[a1].vertices
            &&& post.triangles@[a1].adj(j) as int == t1
            &&& forall|m: int|
                0 <= m < 3 && m != j ==> post.triangles@[a1].adj(m)
                    == pre.triangles@[a1].adj(m)
        }
        // every other triangle untouched
        &&& forall|s: int|
            0 <= s < pre.triangles@.len() && s != t0 && s != t1 && s != a0
                && s != a1 ==> post.triangles@[s] == pre.triangles@[s]
        // incident triangles of the four touched vertices
        &&& post.vertices@[apex0 as int].incident_tri as int == t0
        &&& post.vertices@[e0v as int].incident_tri as int == t0
        &&& post.vertices@[e1v as int].incident_tri as int == t1
        &&& post.vertices@[apex1 as int].incident_tri as int == t1
        &&& forall|v: int|
            0 <= v < pre.vertices@.len() && v != apex0 && v != e0v && v != e1v
                && v != apex1 ==> post.vertices@[v].incident_tri
                == pre.vertices@[v].incident_tri
    }

    /// Replaces the diagonal shared by `tri_id_0` and its neighbor across
    /// the edge opposite corner `edge_id` with the opposite diagonal of
    /// their quadrilateral. Exactly the two triangles' shared diagonal
    /// changes; vertex and triangle counts are untouched, the two outer
    /// neighbors' back-references are repointed, and the four touched
    /// vertices' incident triangles are refreshed.
    pub fn edge_flip(&mut self, tri_id_0: usize, edge_id: TriIt)
        requires
            old(self).edge_flip_pre(tri_id_0 as int, edge_id.i as int),
        ensures
            Self::edge_flip_post(*old(self), *final(self), tri_id_0 as int, edge_id.i as int),
    {
        let tri_0 = self.triangles[tri_id_0];
        let tri_id_1 = tri_0.adjacent[edge_id.id()];
        let edge = tri_0.get_edge(edge_id);
        let tri_1 = self.triangles[tri_id_1];
        let o_edge_id = tri_1.id_of_t(tri_id_0);

        let tri_0_e0 = edge_id.next();
        let tri_0_e1 = edge_id.prev();
        let tri_1_e0 = tri_1.id_of_v(edge.0);
        let tri_1_e1 = tri_1.id_of_v(edge.1);

        let mut t0 = tri_0;
        t0.vertices[tri_0_e1.id()] = tri_1.vertices[o_edge_id.id()];
        t0.adjacent[edge_id.id()] = tri_1.adjacent[tri_1_e1.id()];
        t0.adjacent[tri_0_e0.id()] = tri_id_1;
        self.triangles[tri_id_0] = t0;

        let mut t1 = tri_1;
        t1.vertices[tri_1_e0.id()] = tri_0.vertices[edge_id.id()];
        t1.adjacent[o_edge_id.id()] = tri_0.adjacent[tri_0_e0.id()];
        t1.adjacent[tri_1_e1.id()] = tri_id_0;
        self.triangles[tri_id_1] = t1;

        let mut va = self.vertices[tri_0.vertices[edge_id.id()]];
        va.incident_tri = tri_id_0;
        self.vertices[tri_0.vertices[edge_id.id()]] = va;
        let mut vb = self.vertices[tri_0.vertices[tri_0_e0.id()]];
        vb.incident_tri = tri_id_0;
        self.vertices[tri_0.vertices[tri_0_e0.id()]] = vb;
        let mut vc = self.vertices[tri_0.vertices[tri_0_e1.id()]];
        vc.incident_tri = tri_id_1;
        self.vertices[tri_0.vertices[tri_0_e1.id()]] = vc;
        let mut vd = self.vertices[tri_1.vertices[o_edge_id.id()]];
        vd.incident_tri = tri_id_1;
        self.vertices[tri_1.vertices[o_edge_id.id()]] = vd;

        let adj_tri_0 = tri_1.adjacent[tri_1_e1.id()];
        let adj_tri_1 = tri_0.adjacent[tri_0_e0.id()];

        if self.is_tri_id_valid(adj_tri_0) {
            let j = self.triangles[adj_tri_0].id_of_t(tri_id_1);
            let mut nb = self.triangles[adj_tri_0];
            nb.adjacent[j.id()] = tri_id_0;
            self.triangles[adj_tri_0] = nb;
        }
        if self.is_tri_id_valid(adj_tri_1) {
            let j = self.triangles[adj_tri_1].id_of_t(tri_id_0);
            let mut nb = self.triangles[adj_tri_1];
            nb.adjacent[j.id()] = tri_id_1;
            self.triangles[adj_tri_1] = nb;
        }
    }

    /// Decides at run time whether a face split of `tri_id` may proceed;
    /// the triangulator fails loudly instead of splitting when this does
    /// not hold.
    pub fn check_split_face_pre(&self, tri_id: usize) -> (r: bool)
        ensures
            r == self.split_face_pre(tri_id as int),
    {
        if !self.is_tri_id_valid(tri_id) {
            return false;
        }
        let t = self.triangles[tri_id];
        if !self.is_v_id_valid(t.vertices[0]) || !self.is_v_id_valid(t.vertices[1])
            || !self.is_v_id_valid(t.vertices[2]) {
            return false;
        }
        if t.vertices[0] == t.vertices[1] || t.vertices[1] == t.vertices[2] || t.vertices[2]
            == t.vertices[0] {
            return false;
        }
        if self.vertices.len() == usize::MAX {
            return false;
        }
        if self.triangles.len() > usize::MAX - 2 {
            return false;
        }
        let a0 = t.adjacent[0];
        let a1 = t.adjacent[1];
        let a2 = t.adjacent[2];
        if self.is_tri_id_valid(a0) && (a0 == tri_id || !self.triangles[a0].id_of_t(
            tri_id,
        ).is_valid()) {
            return false;
        }
        if self.is_tri_id_valid(a1) && (a1 == tri_id || !self.triangles[a1].id_of_t(
            tri_id,
        ).is_valid()) {
            return false;
        }
        if self.is_tri_id_valid(a2) && (a2 == tri_id || !self.triangles[a2].id_of_t(
            tri_id,
        ).is_valid()) {
            return false;
        }
        if self.is_tri_id_valid(a0) && self.is_tri_id_valid(a1) && a0 == a1 {
            return false;
        }
        if self.is_tri_id_valid(a1) && self.is_tri_id_valid(a2) && a1 == a2 {
            return false;
        }
        if self.is_tri_id_valid(a0) && self.is_tri_id_valid(a2) && a0 == a2 {
            return false;
        }
        true
    }

    /// Decides at run time whether a flip across the edge of `tri_id_0`
    /// opposite `edge_id` may proceed.
    pub fn check_edge_flip_pre(&self, tri_id_0: usize, edge_id: TriIt) -> (r: bool)
        requires
            edge_id.wf(),
        ensures
            r == self.edge_flip_pre(tri_id_0 as int, edge_id.i as int),
    {
        if !edge_id.is_valid() {
            return false;
        }
        if !self.is_tri_id_valid(tri_id_0) {
            return false;
        }
        let tr0 = self.triangles[tri_id_0];
        if tr0.vertices[0] == tr0.vertices[1] || tr0.vertices[1] == tr0.vertices[2]
            || tr0.vertices[2] == tr0.vertices[0] {
            return false;
        }
        if !self.is_v_id_valid(tr0.vertices[0]) || !self.is_v_id_valid(tr0.vertices[1])
            || !self.is_v_id_valid(tr0.vertices[2]) {
            return false;
        }
        let t1 = tr0.adjacent[edge_id.id()];
        if !self.is_tri_id_valid(t1) || t1 == tri_id_0 {
            return false;
        }
        let tr1 = self.triangles[t1];
        if tr1.vertices[0] == tr1.vertices[1] || tr1.vertices[1] == tr1.vertices[2]
            || tr1.vertices[2] == tr1.vertices[0] {
            return false;
        }
        if !self.is_v_id_valid(tr1.vertices[0]) || !self.is_v_id_valid(tr1.vertices[1])
            || !self.is_v_id_valid(tr1.vertices[2]) {
            return false;
        }
        let o = tr1.id_of_t(tri_id_0);
        if !o.is_valid() {
            return false;
        }
        let e0v = tr0.vertices[edge_id.next().id()];
        let e1v = tr0.vertices[edge_id.prev().id()];
        if !tr1.id_of_v(e0v).is_valid() || !tr1.id_of_v(e1v).is_valid() {
            return false;
        }
        let apex1 = tr1.vertices[o.id()];
        if apex1 == e0v || apex1 == e1v {
            return false;
        }
        if tr0.vertices[edge_id.id()] == apex1 {
            return false;
        }
        let a0 = tr1.adjacent[tr1.id_of_v(e1v).id()];
        let a1 = tr0.adjacent[edge_id.next().id()];
        if self.is_tri_id_valid(a0) && (a0 == tri_id_0 || a0 == t1
            || !self.triangles[a0].id_of_t(t1).is_valid()) {
            return false;
        }
        if self.is_tri_id_valid(a1) && (a1 == tri_id_0 || a1 == t1
            || !self.triangles[a1].id_of_t(tri_id_0).is_valid()) {
            return false;
        }
        if self.is_tri_id_valid(a0) && self.is_tri_id_valid(a1) && a0 == a1 {
            return false;
        }
        true
    }


    /// A face split preserves the combinatorial mesh invariants: applied
    /// to a well-formed corner of a valid, reference-hygienic mesh, the
    /// resulting mesh is again valid and hygienic. Together with the
    /// audit's exact contract this shows that adjacency symmetry, vertex
    /// uniqueness and incident-triangle correctness are not merely checked
    /// but maintained by the split.
    pub proof fn lemma_split_face_preserves_topology(
        pre: TriangleMesh,
        post: TriangleMesh,
        tri_id: int,
        point: Vec3,
        r: (usize, [usize; 3]),
    )
        requires
            pre.topo_valid(),
            pre.refs_hygienic(),
            pre.split_face_pre(tri_id),
            TriangleMesh::split_face_post(pre, post, tri_id, point, r),
        ensures
            post.topo_valid(),
            post.refs_hygienic(),
    {
        let p = pre.vertices@.len() as int;
        let n0 = pre.triangles@.len() as int;
        let t = pre.triangles@[tri_id];
        let nt0 = tri_id;
        let nt1 = n0;
        let nt2 = n0 + 1;

        // incident references
        assert forall|v: int| 1 <= v < post.vertices@.len() implies post.incident_ok(v) by {
            if v == p {
            } else if v == t.vert(0) || v == t.vert(1) || v == t.vert(2) {
            } else {
                assert(pre.incident_ok(v));
                let it = pre.vertices@[v].incident_tri as int;
                if it == tri_id {
                    assert(pre.triangles@[tri_id].spec_id_of_v(v as usize).spec_valid());
                    assert(false);
                } else if pre.is_neighbor_of(tri_id, it) {
                    assert(post.triangles@[it].vertices == pre.triangles@[it].vertices);
                    assert(post.triangles@[it].vert(0) == pre.triangles@[it].vert(0));
                    assert(post.triangles@[it].vert(1) == pre.triangles@[it].vert(1));
                    assert(post.triangles@[it].vert(2) == pre.triangles@[it].vert(2));
                } else {
                    assert(post.triangles@[it] == pre.triangles@[it]);
                }
            }
        }
        assert(post.spec_valid_t(post.vertices@[0].incident_tri as int) ==> post.incident_ok(
            0,
        )) by {
            let it0 = post.vertices@[0].incident_tri as int;
            if post.spec_valid_t(it0) {
                if 0 == t.vert(0) || 0 == t.vert(1) || 0 == t.vert(2) {
                } else {
                    let it = pre.vertices@[0].incident_tri as int;
                    assert(it == it0);
                    assert(it < n0 || pre.vertices@[0].incident_tri == INVALID_TRIANGLE);
                    assert(pre.spec_valid_t(it));
                    assert(pre.incident_ok(0));
                    if it == tri_id {
                        assert(false);
                    } else if pre.is_neighbor_of(tri_id, it) {
                        assert(post.triangles@[it].vert(0) == pre.triangles@[it].vert(0));
                        assert(post.triangles@[it].vert(1) == pre.triangles@[it].vert(1));
                        assert(post.triangles@[it].vert(2) == pre.triangles@[it].vert(2));
                    } else {
                        assert(post.triangles@[it] == pre.triangles@[it]);
                    }
                }
            }
        }

        // vertex ids valid and pairwise distinct
        assert forall|s: int|
            0 <= s < post.triangles@.len() implies post.tri_ids_ok(s) && tri_unique(
                post.triangles@[s],
            ) by {
            if s == nt0 || s == nt1 || s == nt2 {
            } else if pre.is_neighbor_of(tri_id, s) {
                assert(pre.tri_ids_ok(s) && tri_unique(pre.triangles@[s]));
                assert(post.triangles@[s].vert(0) == pre.triangles@[s].vert(0));
                assert(post.triangles@[s].vert(1) == pre.triangles@[s].vert(1));
                assert(post.triangles@[s].vert(2) == pre.triangles@[s].vert(2));
            } else {
                assert(pre.tri_ids_ok(s) && tri_unique(pre.triangles@[s]));
                assert(post.triangles@[s] == pre.triangles@[s]);
            }
        }

        // adjacency symmetry
        assert forall|s: int, k: int|
            0 <= s < post.triangles@.len() && 0 <= k < 3 implies post.adj_sym_at(s, k) by {
            TriangleMesh::lemma_split_face_adj_sym(pre, post, tri_id, point, r, s, k);
        }

        // hygiene
        assert forall|s: int, k: int|
            0 <= s < post.triangles@.len() && 0 <= k < 3 implies ((post.triangles@[s].adj(
                k,
            )) < post.triangles@.len() || post.triangles@[s].adj(k) == INVALID_TRIANGLE) by {
            if s == nt0 || s == nt1 || s == nt2 {
            } else if pre.is_neighbor_of(tri_id, s) {
                let j = pre.triangles@[s].spec_id_of_t(tri_id as usize).i as int;
                if k != j {
                    assert(post.triangles@[s].adj(k) == pre.triangles@[s].adj(k));
                }
            } else {
                assert(post.triangles@[s] == pre.triangles@[s]);
            }
        }
    }

    /// Adjacency symmetry at a sub-triangle slot of the split mesh.
    #[verifier::spinoff_prover]
    #[verifier::rlimit(100)]
    proof fn lemma_split_face_adj_sym_new(
        pre: TriangleMesh,
        post: TriangleMesh,
        tri_id: int,
        point: Vec3,
        r: (usize, [usize; 3]),
        s: int,
        k: int,
    )
        requires
            pre.topo_valid(),
            pre.refs_hygienic(),
            pre.split_face_pre(tri_id),
            TriangleMesh::split_face_post(pre, post, tri_id, point, r),
            0 <= s < post.triangles@.len(),
            0 <= k < 3,
            s == tri_id || s == pre.triangles@.len() || s == pre.triangles@.len() + 1,
        ensures
            post.adj_sym_at(s, k),
    {
        let p = pre.vertices@.len() as int;
        let n0 = pre.triangles@.len() as int;
        let t = pre.triangles@[tri_id];
        let nt0 = tri_id;
        let nt1 = n0;
        let nt2 = n0 + 1;
        assert(pre.adj_sym_at(tri_id, 0));
        assert(pre.adj_sym_at(tri_id, 1));
        assert(pre.adj_sym_at(tri_id, 2));
        if s == nt0 || s == nt1 || s == nt2 {
            let i: int = if s == nt0 { 0 } else if s == nt1 { 1 } else { 2 };
            if k == 0 {
                // the old neighbor across edge i, repointed to this slot
                let a = t.adj(i) as int;
                assert(post.triangles@[s].adj(0) == t.adj(i));
                if post.spec_valid_t(a) {
                    assert(a < n0 || t.adj(i) == INVALID_TRIANGLE);
                    assert(pre.spec_valid_t(a));
                    assert(pre.adj_sym_at(tri_id, i));
                    let j = pre.triangles@[a].spec_id_of_t(tri_id as usize).i as int;
                    assert(post.triangles@[a].adj(j) as int == s);
                    assert(back_ref_unique(pre.triangles@[a], tri_id as usize));
                    assert forall|m: int| 0 <= m < 3 && m != j implies post.triangles@[a].adj(
                        m,
                    ) != s as usize by {
                        assert(post.triangles@[a].adj(m) == pre.triangles@[a].adj(m));
                        if s == nt0 {
                        } else {
                            assert(pre.triangles@[a].adj(m) < n0 || pre.triangles@[a].adj(
                                m,
                            ) == INVALID_TRIANGLE);
                        }
                    }
                }
            } else {
                // the other two sub-triangles
                let m: int = if k == 1 { if i == 2 { 0 } else { i + 1 } } else {
                    if i == 0 { 2 } else { i - 1 }
                };
                let sm: int = if m == 0 { nt0 } else if m == 1 { nt1 } else { nt2 };
                assert(post.triangles@[s].adj(k) as int == sm);
                let am = t.adj(m) as int;
                assert(post.triangles@[sm].adj(0) == t.adj(m));
                assert(t.adj(m) as int != s) by {
                    if pre.spec_valid_t(am) {
                        assert(am != tri_id);
                        assert(am < n0);
                    } else {
                        assert(t.adj(m) == INVALID_TRIANGLE);
                        assert(INVALID_TRIANGLE >= post.triangles@.len());
                    }
                }
            }
        }
    }

    /// Adjacency symmetry at a repointed neighbor, across the corner that
    /// borders the split triangle.
    #[verifier::spinoff_prover]
    #[verifier::rlimit(100)]
    proof fn lemma_split_face_adj_sym_neighbor_back(
        pre: TriangleMesh,
        post: TriangleMesh,
        tri_id: int,
        point: Vec3,
        r: (usize, [usize; 3]),
        s: int,
        k: int,
    )
        requires
            pre.topo_valid(),
            pre.refs_hygienic(),
            pre.split_face_pre(tri_id),
            TriangleMesh::split_face_post(pre, post, tri_id, point, r),
            0 <= s < post.triangles@.len(),
            0 <= k < 3,
            s != tri_id && s != pre.triangles@.len() && s != pre.triangles@.len() + 1,
            pre.is_neighbor_of(tri_id, s),
            k == pre.triangles@[s].spec_id_of_t(tri_id as usize).i as int,
        ensures
            post.adj_sym_at(s, k),
    {
        let p = pre.vertices@.len() as int;
        let n0 = pre.triangles@.len() as int;
        let t = pre.triangles@[tri_id];
        let nt0 = tri_id;
        let nt1 = n0;
        let nt2 = n0 + 1;
        assert(pre.adj_sym_at(tri_id, 0));
        assert(pre.adj_sym_at(tri_id, 1));
        assert(pre.adj_sym_at(tri_id, 2));
        if s == nt0 || s == nt1 || s == nt2 {
        } else if pre.is_neighbor_of(tri_id, s) {
            let j = pre.triangles@[s].spec_id_of_t(tri_id as usize).i as int;
            let i: int = if t.adj(0) as int == s && pre.spec_valid_t(t.adj(0) as int) {
                0
            } else if t.adj(1) as int == s && pre.spec_valid_t(t.adj(1) as int) {
                1
            } else {
                2
            };
            let nti: int = if i == 0 { nt0 } else if i == 1 { nt1 } else { nt2 };
            assert(pre.adj_sym_at(tri_id, i));
            if k == j {
                // this corner now borders the sub-triangle nti
                assert(post.triangles@[s].adj(k) as int == nti);
                assert(post.triangles@[nti].adj(0) as int == s);
                assert(pre.triangles@[s].adj(k) as int == tri_id);
                assert(edge_matches(t, i, pre.triangles@[s], j));
            }
        }
    }

    /// Adjacency symmetry at a repointed neighbor, across its other two
    /// corners.
    #[verifier::spinoff_prover]
    #[verifier::rlimit(100)]
    proof fn lemma_split_face_adj_sym_neighbor_side(
        pre: TriangleMesh,
        post: TriangleMesh,
        tri_id: int,
        point: Vec3,
        r: (usize, [usize; 3]),
        s: int,
        k: int,
    )
        requires
            pre.topo_valid(),
            pre.refs_hygienic(),
            pre.split_face_pre(tri_id),
            TriangleMesh::split_face_post(pre, post, tri_id, point, r),
            0 <= s < post.triangles@.len(),
            0 <= k < 3,
            s != tri_id && s != pre.triangles@.len() && s != pre.triangles@.len() + 1,
            pre.is_neighbor_of(tri_id, s),
            k != pre.triangles@[s].spec_id_of_t(tri_id as usize).i as int,
        ensures
            post.adj_sym_at(s, k),
    {
        let p = pre.vertices@.len() as int;
        let n0 = pre.triangles@.len() as int;
        let t = pre.triangles@[tri_id];
        let nt0 = tri_id;
        let nt1 = n0;
        let nt2 = n0 + 1;
        assert(pre.adj_sym_at(tri_id, 0));
        assert(pre.adj_sym_at(tri_id, 1));
        assert(pre.adj_sym_at(tri_id, 2));
        if s == nt0 || s == nt1 || s == nt2 {
        } else if pre.is_neighbor_of(tri_id, s) {
            let j = pre.triangles@[s].spec_id_of_t(tri_id as usize).i as int;
            let i: int = if t.adj(0) as int == s && pre.spec_valid_t(t.adj(0) as int) {
                0
            } else if t.adj(1) as int == s && pre.spec_valid_t(t.adj(1) as int) {
                1
            } else {
                2
            };
            let nti: int = if i == 0 { nt0 } else if i == 1 { nt1 } else { nt2 };
            assert(pre.adj_sym_at(tri_id, i));
            if k == j {
            } else {
                let b = post.triangles@[s].adj(k) as int;
                assert(post.triangles@[s].adj(k) == pre.triangles@[s].adj(k));
                assert(back_ref_unique(pre.triangles@[s], tri_id as usize));
                assert(pre.triangles@[s].adj(k) as int != tri_id);
                if post.spec_valid_t(b) {
                    assert(b < n0 || pre.triangles@[s].adj(k) == INVALID_TRIANGLE);
                    assert(pre.spec_valid_t(b));
                    assert(pre.adj_sym_at(s, k));
                    let jb = pre.triangles@[b].spec_id_of_t(s as usize).i as int;
                    if b == tri_id {
                        // s points at the split slot away from the shared
                        // edge: impossible, the back reference is unique
                        assert(pre.adj_sym_at(b, jb));
                        assert(false);
                    } else if pre.is_neighbor_of(tri_id, b) {
                        let jb2 = pre.triangles@[b].spec_id_of_t(tri_id as usize).i as int;
                        assert(jb2 != jb);
                        assert(post.triangles@[b].adj(jb) == pre.triangles@[b].adj(jb));
                        assert forall|m2: int| 0 <= m2 < 3 implies (post.triangles@[b].adj(
                            m2,
                        ) == s as usize) == (pre.triangles@[b].adj(m2) == s as usize) by {
                            if m2 == jb2 {
                                assert(pre.triangles@[b].adj(m2) as int == tri_id);
                                assert(post.triangles@[b].adj(m2) as int == nt0
                                    || post.triangles@[b].adj(m2) as int == nt1
                                    || post.triangles@[b].adj(m2) as int == nt2);
                            } else {
                                assert(post.triangles@[b].adj(m2) == pre.triangles@[b].adj(
                                    m2,
                                ));
                            }
                        }
                        assert(post.triangles@[b].vertices == pre.triangles@[b].vertices);
                        assert(post.triangles@[b].vert(0) == pre.triangles@[b].vert(0));
                        assert(post.triangles@[b].vert(1) == pre.triangles@[b].vert(1));
                        assert(post.triangles@[b].vert(2) == pre.triangles@[b].vert(2));
                    } else {
                        assert(post.triangles@[b] == pre.triangles@[b]);
                    }
                    assert(post.triangles@[s].vertices == pre.triangles@[s].vertices);
                    assert(post.triangles@[s].vert(0) == pre.triangles@[s].vert(0));
                    assert(post.triangles@[s].vert(1) == pre.triangles@[s].vert(1));
                    assert(post.triangles@[s].vert(2) == pre.triangles@[s].vert(2));
                }            }
        }
    }

    /// Adjacency symmetry at a repointed neighbor of the split triangle.
    proof fn lemma_split_face_adj_sym_neighbor(
        pre: TriangleMesh,
        post: TriangleMesh,
        tri_id: int,
        point: Vec3,
        r: (usize, [usize; 3]),
        s: int,
        k: int,
    )
        requires
            pre.topo_valid(),
            pre.refs_hygienic(),
            pre.split_face_pre(tri_id),
            TriangleMesh::split_face_post(pre, post, tri_id, point, r),
            0 <= s < post.triangles@.len(),
            0 <= k < 3,
            s != tri_id && s != pre.triangles@.len() && s != pre.triangles@.len() + 1,
            pre.is_neighbor_of(tri_id, s),
        ensures
            post.adj_sym_at(s, k),
    {
        if k == pre.triangles@[s].spec_id_of_t(tri_id as usize).i as int {
            TriangleMesh::lemma_split_face_adj_sym_neighbor_back(pre, post, tri_id, point, r, s, k);
        } else {
            TriangleMesh::lemma_split_face_adj_sym_neighbor_side(pre, post, tri_id, point, r, s, k);
        }
    }

    /// Adjacency symmetry at a slot the split leaves untouched.
    #[verifier::spinoff_prover]
    #[verifier::rlimit(100)]
    proof fn lemma_split_face_adj_sym_other(
        pre: TriangleMesh,
        post: TriangleMesh,
        tri_id: int,
        point: Vec3,
        r: (usize, [usize; 3]),
        s: int,
        k: int,
    )
        requires
            pre.topo_valid(),
            pre.refs_hygienic(),
            pre.split_face_pre(tri_id),
            TriangleMesh::split_face_post(pre, post, tri_id, point, r),
            0 <= s < post.triangles@.len(),
            0 <= k < 3,
            s != tri_id && s != pre.triangles@.len() && s != pre.triangles@.len() + 1,
            !pre.is_neighbor_of(tri_id, s),
        ensures
            post.adj_sym_at(s, k),
    {
        let p = pre.vertices@.len() as int;
        let n0 = pre.triangles@.len() as int;
        let t = pre.triangles@[tri_id];
        let nt0 = tri_id;
        let nt1 = n0;
        let nt2 = n0 + 1;
        assert(pre.adj_sym_at(tri_id, 0));
        assert(pre.adj_sym_at(tri_id, 1));
        assert(pre.adj_sym_at(tri_id, 2));
        if s == nt0 || s == nt1 || s == nt2 {
        } else if pre.is_neighbor_of(tri_id, s) {
        } else {
            assert(post.triangles@[s] == pre.triangles@[s]);
            let b = pre.triangles@[s].adj(k) as int;
            if post.spec_valid_t(b) {
                assert(b < n0 || pre.triangles@[s].adj(k) == INVALID_TRIANGLE);
                assert(pre.spec_valid_t(b));
                assert(pre.adj_sym_at(s, k));
                let jb = pre.triangles@[b].spec_id_of_t(s as usize).i as int;
                if b == tri_id {
                    // then tri_id points back at s, making s a neighbor
                    assert(back_ref_unique(t, s as usize));
                    assert(pre.is_neighbor_of(tri_id, s)) by {
                        if t.adj(0) as int == s {
                            assert(pre.adj_sym_at(tri_id, 0));
                        } else if t.adj(1) as int == s {
                            assert(pre.adj_sym_at(tri_id, 1));
                        } else {
                            assert(pre.adj_sym_at(tri_id, 2));
                        }
                    }
                    assert(false);
                } else if pre.is_neighbor_of(tri_id, b) {
                    let jb2 = pre.triangles@[b].spec_id_of_t(tri_id as usize).i as int;
                    assert(jb2 != jb);
                    assert(post.triangles@[b].adj(jb) == pre.triangles@[b].adj(jb));
                    assert forall|m2: int| 0 <= m2 < 3 implies (post.triangles@[b].adj(m2)
                        == s as usize) == (pre.triangles@[b].adj(m2) == s as usize) by {
                        if m2 == jb2 {
                            assert(pre.triangles@[b].adj(m2) as int == tri_id);
                            assert(post.triangles@[b].adj(m2) as int == nt0
                                || post.triangles@[b].adj(m2) as int == nt1
                                || post.triangles@[b].adj(m2) as int == nt2);
                            assert(s != nt1 && s != nt2);
                        } else {
                            assert(post.triangles@[b].adj(m2) == pre.triangles@[b].adj(m2));
                        }
                    }
                    assert(post.triangles@[b].vertices == pre.triangles@[b].vertices);
                    assert(post.triangles@[b].vert(0) == pre.triangles@[b].vert(0));
                    assert(post.triangles@[b].vert(1) == pre.triangles@[b].vert(1));
                    assert(post.triangles@[b].vert(2) == pre.triangles@[b].vert(2));
                } else {
                    assert(post.triangles@[b] == pre.triangles@[b]);
                }
            }
                }
    }

    /// Adjacency symmetry at one slot of the split mesh; dispatches the
    /// case analysis behind the preservation lemma.
    proof fn lemma_split_face_adj_sym(
        pre: TriangleMesh,
        post: TriangleMesh,
        tri_id: int,
        point: Vec3,
        r: (usize, [usize; 3]),
        s: int,
        k: int,
    )
        requires
            pre.topo_valid(),
            pre.refs_hygienic(),
            pre.split_face_pre(tri_id),
            TriangleMesh::split_face_post(pre, post, tri_id, point, r),
            0 <= s < post.triangles@.len(),
            0 <= k < 3,
        ensures
            post.adj_sym_at(s, k),
    {
        let n0 = pre.triangles@.len() as int;
        if s == tri_id || s == n0 || s == n0 + 1 {
            TriangleMesh::lemma_split_face_adj_sym_new(pre, post, tri_id, point, r, s, k);
        } else if pre.is_neighbor_of(tri_id, s) {
            TriangleMesh::lemma_split_face_adj_sym_neighbor(pre, post, tri_id, point, r, s, k);
        } else {
            TriangleMesh::lemma_split_face_adj_sym_other(pre, post, tri_id, point, r, s, k);
        }
    }


    /// The bootstrap establishes the mesh invariants: one non-clockwise
    /// triangle over the three real vertices plus three ghost triangles
    /// fanning out to the sentinel form a valid, reference-hygienic mesh.
    #[verifier::spinoff_prover]
    #[verifier::rlimit(100)]
    pub proof fn lemma_bootstrap_topology(m: TriangleMesh)
        requires
            m.vertices@.len() == 4,
            m.triangles@.len() == 4,
            ({
                let t = m.triangles@[0];
                &&& (tri_is(t, 1, 2, 3, 1, 2, 3) || tri_is(t, 2, 1, 3, 1, 2, 3))
                &&& tri_is(m.triangles@[1], 0, t.vert(2) as int, t.vert(1) as int, 0, 3, 2)
                &&& tri_is(m.triangles@[2], 0, t.vert(0) as int, t.vert(2) as int, 0, 1, 3)
                &&& tri_is(m.triangles@[3], 0, t.vert(1) as int, t.vert(0) as int, 0, 2, 1)
                &&& m.vertices@[0].incident_tri == 1
                &&& m.vertices@[1].incident_tri == 0
                &&& m.vertices@[2].incident_tri == 0
                &&& m.vertices@[3].incident_tri == 0
            }),
        ensures
            m.topo_valid(),
            m.refs_hygienic(),
    {
        assert forall|v: int| 1 <= v < m.vertices@.len() implies m.incident_ok(v) by {
            assert(1 <= v < 4);
        }
        assert forall|t: int|
            0 <= t < m.triangles@.len() implies m.tri_ids_ok(t) && tri_unique(
                m.triangles@[t],
            ) by {
            assert(t == 0 || t == 1 || t == 2 || t == 3);
        }
        assert forall|t: int, k: int|
            0 <= t < m.triangles@.len() && 0 <= k < 3 implies m.adj_sym_at(t, k) by {
            assert(t == 0 || t == 1 || t == 2 || t == 3);
            assert(k == 0 || k == 1 || k == 2);
        }
        assert forall|t: int, k: int|
            0 <= t < m.triangles@.len() && 0 <= k < 3 implies ((#[trigger] m.triangles@[t].adj(
                k,
            )) < m.triangles@.len() || m.triangles@[t].adj(k) == INVALID_TRIANGLE) by {
            assert(t == 0 || t == 1 || t == 2 || t == 3);
        }
    }


    /// The two outer neighbors that a flip repoints are not otherwise
    /// adjacent to the flipped pair: the neighbor beyond the new `t0` side
    /// nowhere else borders `t0` (and is distinct from `t0`'s kept
    /// neighbor), and symmetrically for the new `t1` side.
    pub open spec fn edge_flip_isolated(self, t0: int, e: int) -> bool {
        let tr0 = self.triangles@[t0];
        let t1 = tr0.adj(e) as int;
        let tr1 = self.triangles@[t1];
        let e0v = tr0.vert(nxt(e));
        let e1v = tr0.vert(prv(e));
        let k0 = tr1.spec_id_of_v(e0v).i as int;
        let k1 = tr1.spec_id_of_v(e1v).i as int;
        let a0 = tr1.adj(k1) as int;
        let a1 = tr0.adj(nxt(e)) as int;
        let c = tr0.adj(prv(e)) as int;
        let d = tr1.adj(k0) as int;
        &&& self.spec_valid_t(a0) ==> (self.triangles@[a0].adj(0) as int != t0
            && self.triangles@[a0].adj(1) as int != t0 && self.triangles@[a0].adj(2) as int
            != t0)
        &&& self.spec_valid_t(a1) ==> (self.triangles@[a1].adj(0) as int != t1
            && self.triangles@[a1].adj(1) as int != t1 && self.triangles@[a1].adj(2) as int
            != t1)
        &&& self.spec_valid_t(a0) && self.spec_valid_t(c) ==> a0 != c
        &&& self.spec_valid_t(a1) && self.spec_valid_t(d) ==> a1 != d
    }

    /// Shared consequences of validity at a flippable edge: the corner
    /// positions in the neighbor are pairwise distinct and cover all
    /// three corners, back-references are unique, and the kept neighbors
    /// differ from the repointed ones.
    #[verifier::spinoff_prover]
    #[verifier::rlimit(100)]
    proof fn lemma_edge_flip_facts(pre: TriangleMesh, t0: int, e: int)
        requires
            pre.topo_valid(),
            pre.edge_flip_pre(t0, e),
        ensures
            ({
                let tr0 = pre.triangles@[t0];
                let t1 = tr0.adj(e) as int;
                let tr1 = pre.triangles@[t1];
                let o = tr1.spec_id_of_t(t0 as usize).i as int;
                let e0v = tr0.vert(nxt(e));
                let e1v = tr0.vert(prv(e));
                let k0 = tr1.spec_id_of_v(e0v).i as int;
                let k1 = tr1.spec_id_of_v(e1v).i as int;
                let a0 = tr1.adj(k1) as int;
                let a1 = tr0.adj(nxt(e)) as int;
                let c = tr0.adj(prv(e)) as int;
                let d = tr1.adj(k0) as int;
                &&& 0 <= o < 3 && 0 <= k0 < 3 && 0 <= k1 < 3
                &&& o != k0 && o != k1 && k0 != k1
                &&& tr1.adj(o) as int == t0
                &&& tr1.vert(k0) == e0v && tr1.vert(k1) == e1v
                &&& back_ref_unique(tr1, t0 as usize)
                &&& back_ref_unique(tr0, t1 as usize)
                &&& d != t0
                &&& c != t1
                &&& a1 != t1
                &&& a0 != t0
                &&& (pre.spec_valid_t(a1) && pre.spec_valid_t(c) ==> c != a1)
                &&& (pre.spec_valid_t(a0) && pre.spec_valid_t(d) ==> d != a0)
                &&& edge_matches(tr0, e, tr1, o)
                &&& (forall|m: int|
                    0 <= m < 3 ==> ((#[trigger] tr0.vert(m)) == tr0.vert(e) || tr0.vert(m)
                        == e0v || tr0.vert(m) == e1v))
                &&& (forall|m: int|
                    0 <= m < 3 ==> ((#[trigger] tr1.vert(m)) == tr1.vert(o) || tr1.vert(m)
                        == e0v || tr1.vert(m) == e1v))
            }),
    {
        let tr0 = pre.triangles@[t0];
        let t1 = tr0.adj(e) as int;
        let tr1 = pre.triangles@[t1];
        let o = tr1.spec_id_of_t(t0 as usize).i as int;
        let e0v = tr0.vert(nxt(e));
        let e1v = tr0.vert(prv(e));
        let k0 = tr1.spec_id_of_v(e0v).i as int;
        let k1 = tr1.spec_id_of_v(e1v).i as int;
        let a0 = tr1.adj(k1) as int;
        let a1 = tr0.adj(nxt(e)) as int;
        let c = tr0.adj(prv(e)) as int;
        let d = tr1.adj(k0) as int;
        assert(e == 0 || e == 1 || e == 2);
        vstd::std_specs::vec::axiom_spec_len(&pre.triangles);
        vstd::std_specs::vec::axiom_spec_len(&pre.vertices);
        assert(tr1.adj(o) as int == t0);
        assert(tr1.vert(k0) == e0v);
        assert(tr1.vert(k1) == e1v);
        assert(o != k0 && o != k1 && k0 != k1);
        assert(pre.adj_sym_at(t0, e));
        assert(pre.adj_sym_at(t1, o));
        assert(back_ref_unique(tr1, t0 as usize));
        assert(back_ref_unique(tr0, t1 as usize));
        assert(d != t0);
        assert(c != t1 && a1 != t1);
        assert(a0 != t0);
        if pre.spec_valid_t(a1) && pre.spec_valid_t(c) {
            assert(pre.adj_sym_at(t0, nxt(e)));
            let m1 = pre.triangles@[a1].spec_id_of_t(t0 as usize).i as int;
            assert(pre.triangles@[a1].adj(m1) as int == t0);
            assert(pre.adj_sym_at(a1, m1));
            assert(back_ref_unique(tr0, a1 as usize));
            assert(nxt(e) != prv(e));
            assert(c != a1);
        }
        if pre.spec_valid_t(a0) && pre.spec_valid_t(d) {
            assert(pre.adj_sym_at(t1, k1));
            let jb0 = pre.triangles@[a0].spec_id_of_t(t1 as usize).i as int;
            assert(pre.triangles@[a0].adj(jb0) as int == t1);
            assert(pre.adj_sym_at(a0, jb0));
            assert(back_ref_unique(tr1, a0 as usize));
            assert(d != a0);
        }
    }

    /// The incident references survive a flip: the four touched vertices
    /// are moved onto triangles that contain them, nothing else changes.
    #[verifier::spinoff_prover]
    #[verifier::rlimit(100)]
    proof fn lemma_edge_flip_incident(pre: TriangleMesh, post: TriangleMesh, t0: int, e: int)
        requires
            pre.topo_valid(),
            pre.refs_hygienic(),
            pre.edge_flip_pre(t0, e),
            TriangleMesh::edge_flip_post(pre, post, t0, e),
        ensures
            forall|v: int| 1 <= v < post.vertices@.len() ==> post.incident_ok(v),
            post.spec_valid_t(post.vertices@[0].incident_tri as int) ==> post.incident_ok(0),
    {
        vstd::std_specs::vec::axiom_spec_len(&pre.triangles);
        vstd::std_specs::vec::axiom_spec_len(&pre.vertices);
        TriangleMesh::lemma_edge_flip_facts(pre, t0, e);
        let tr0 = pre.triangles@[t0];
        let t1 = tr0.adj(e) as int;
        let tr1 = pre.triangles@[t1];
        let o = tr1.spec_id_of_t(t0 as usize).i as int;
        let e0v = tr0.vert(nxt(e));
        let e1v = tr0.vert(prv(e));
        let apex0 = tr0.vert(e);
        let apex1 = tr1.vert(o);
        let k0 = tr1.spec_id_of_v(e0v).i as int;
        let k1 = tr1.spec_id_of_v(e1v).i as int;
        let a0 = tr1.adj(k1) as int;
        let a1 = tr0.adj(nxt(e)) as int;
        assert(e == 0 || e == 1 || e == 2);
        assert forall|v: int| 1 <= v < post.vertices@.len() implies post.incident_ok(v) by {
            if v == apex0 || v == e0v || v == e1v || v == apex1 {
            } else {
                assert(pre.incident_ok(v));
                let it = pre.vertices@[v].incident_tri as int;
                if it == t0 || it == t1 {
                    assert(false);
                } else if it == a0 || it == a1 {
                    assert(post.triangles@[it].vert(0) == pre.triangles@[it].vert(0));
                    assert(post.triangles@[it].vert(1) == pre.triangles@[it].vert(1));
                    assert(post.triangles@[it].vert(2) == pre.triangles@[it].vert(2));
                } else {
                    assert(post.triangles@[it] == pre.triangles@[it]);
                }
            }
        }
        assert(post.spec_valid_t(post.vertices@[0].incident_tri as int) ==> post.incident_ok(
            0,
        )) by {
            let it0 = post.vertices@[0].incident_tri as int;
            if post.spec_valid_t(it0) {
                if 0 == apex0 || 0 == e0v || 0 == e1v || 0 == apex1 {
                } else {
                    let it = pre.vertices@[0].incident_tri as int;
                    assert(it == it0);
                    assert(pre.spec_valid_t(it));
                    assert(pre.incident_ok(0));
                    if it == t0 || it == t1 {
                        assert(false);
                    } else if it == a0 || it == a1 {
                        assert(post.triangles@[it].vert(0) == pre.triangles@[it].vert(0));
                        assert(post.triangles@[it].vert(1) == pre.triangles@[it].vert(1));
                        assert(post.triangles@[it].vert(2) == pre.triangles@[it].vert(2));
                    } else {
                        assert(post.triangles@[it] == pre.triangles@[it]);
                    }
                }
            }
        }
    }

    /// Vertex references stay valid and pairwise distinct across a flip.
    #[verifier::spinoff_prover]
    #[verifier::rlimit(100)]
    proof fn lemma_edge_flip_tris(pre: TriangleMesh, post: TriangleMesh, t0: int, e: int)
        requires
            pre.topo_valid(),
            pre.refs_hygienic(),
            pre.edge_flip_pre(t0, e),
            TriangleMesh::edge_flip_post(pre, post, t0, e),
        ensures
            forall|s: int|
                0 <= s < post.triangles@.len() ==> post.tri_ids_ok(s) && tri_unique(
                    #[trigger] post.triangles@[s],
                ),
    {
        vstd::std_specs::vec::axiom_spec_len(&pre.triangles);
        vstd::std_specs::vec::axiom_spec_len(&pre.vertices);
        TriangleMesh::lemma_edge_flip_facts(pre, t0, e);
        let tr0 = pre.triangles@[t0];
        let t1 = tr0.adj(e) as int;
        let tr1 = pre.triangles@[t1];
        let e0v = tr0.vert(nxt(e));
        let e1v = tr0.vert(prv(e));
        let k1 = tr1.spec_id_of_v(e1v).i as int;
        let a0 = tr1.adj(k1) as int;
        let a1 = tr0.adj(nxt(e)) as int;
        assert(e == 0 || e == 1 || e == 2);
        assert forall|s: int|
            0 <= s < post.triangles@.len() implies post.tri_ids_ok(s) && tri_unique(
                #[trigger] post.triangles@[s],
            ) by {
            if s == t0 || s == t1 {
            } else if s == a0 || s == a1 {
                assert(pre.tri_ids_ok(s) && tri_unique(pre.triangles@[s]));
                assert(post.triangles@[s].vert(0) == pre.triangles@[s].vert(0));
                assert(post.triangles@[s].vert(1) == pre.triangles@[s].vert(1));
                assert(post.triangles@[s].vert(2) == pre.triangles@[s].vert(2));
            } else {
                assert(pre.tri_ids_ok(s) && tri_unique(pre.triangles@[s]));
                assert(post.triangles@[s] == pre.triangles@[s]);
            }
        }
    }

    /// Decides at run time whether the outer neighbors of a flip are
    /// isolated as the preservation lemma assumes; the triangulator fails
    /// loudly instead of flipping when this does not hold.
    pub fn check_edge_flip_isolated(&self, tri_id_0: usize, edge_id: TriIt) -> (r: bool)
        requires
            self.edge_flip_pre(tri_id_0 as int, edge_id.i as int),
        ensures
            r == self.edge_flip_isolated(tri_id_0 as int, edge_id.i as int),
    {
        let tr0 = self.triangles[tri_id_0];
        let t1 = tr0.adjacent[edge_id.id()];
        let tr1 = self.triangles[t1];
        let e0v = tr0.vertices[edge_id.next().id()];
        let e1v = tr0.vertices[edge_id.prev().id()];
        let k0 = tr1.id_of_v(e0v);
        let k1 = tr1.id_of_v(e1v);
        let a0 = tr1.adjacent[k1.id()];
        let a1 = tr0.adjacent[edge_id.next().id()];
        let c = tr0.adjacent[edge_id.prev().id()];
        let d = tr1.adjacent[k0.id()];
        if self.is_tri_id_valid(a0) {
            let x = &self.triangles[a0];
            if x.adjacent[0] == tri_id_0 || x.adjacent[1] == tri_id_0 || x.adjacent[2]
                == tri_id_0 {
                return false;
            }
            if self.is_tri_id_valid(c) && a0 == c {
                return false;
            }
        }
        if self.is_tri_id_valid(a1) {
            let x = &self.triangles[a1];
            if x.adjacent[0] == t1 || x.adjacent[1] == t1 || x.adjacent[2] == t1 {
                return false;
            }
            if self.is_tri_id_valid(d) && a1 == d {
                return false;
            }
        }
        true
    }

    /// A bistellar flip preserves the combinatorial mesh invariants:
    /// applied across a well-formed interior edge of a valid mesh whose
    /// outer neighbors are isolated as above, the resulting mesh is again
    /// valid and reference-hygienic.
    pub proof fn lemma_edge_flip_preserves_topology(
        pre: TriangleMesh,
        post: TriangleMesh,
        t0: int,
        e: int,
    )
        requires
            pre.topo_valid(),
            pre.refs_hygienic(),
            pre.edge_flip_pre(t0, e),
            pre.edge_flip_isolated(t0, e),
            TriangleMesh::edge_flip_post(pre, post, t0, e),
        ensures
            post.topo_valid(),
            post.refs_hygienic(),
    {
        vstd::std_specs::vec::axiom_spec_len(&pre.triangles);
        vstd::std_specs::vec::axiom_spec_len(&pre.vertices);
        TriangleMesh::lemma_edge_flip_facts(pre, t0, e);
        TriangleMesh::lemma_edge_flip_incident(pre, post, t0, e);
        TriangleMesh::lemma_edge_flip_tris(pre, post, t0, e);
        let tr0 = pre.triangles@[t0];
        let t1 = tr0.adj(e) as int;
        let tr1 = pre.triangles@[t1];
        let o = tr1.spec_id_of_t(t0 as usize).i as int;
        let e0v = tr0.vert(nxt(e));
        let e1v = tr0.vert(prv(e));
        let k0 = tr1.spec_id_of_v(e0v).i as int;
        let k1 = tr1.spec_id_of_v(e1v).i as int;
        let a0 = tr1.adj(k1) as int;
        let a1 = tr0.adj(nxt(e)) as int;

        assert forall|s: int, k: int|
            0 <= s < post.triangles@.len() && 0 <= k < 3 implies post.adj_sym_at(s, k) by {
            TriangleMesh::lemma_edge_flip_adj_sym(pre, post, t0, e, s, k);
        }

        assert forall|s: int, k: int|
            0 <= s < post.triangles@.len() && 0 <= k < 3 implies ((post.triangles@[s].adj(
                k,
            )) < post.triangles@.len() || post.triangles@[s].adj(k) == INVALID_TRIANGLE) by {
            if s == t0 || s == t1 {
            } else if s == a0 || s == a1 {
                let other: int = if s == a0 { t1 } else { t0 };
                let j = pre.triangles@[s].spec_id_of_t(other as usize).i as int;
                if k != j {
                    assert(post.triangles@[s].adj(k) == pre.triangles@[s].adj(k));
                }
            } else {
                assert(post.triangles@[s] == pre.triangles@[s]);
            }
        }
    }

    /// Adjacency symmetry after a flip, at the first rewritten slot.
    #[verifier::spinoff_prover]
    #[verifier::rlimit(100)]
    proof fn lemma_edge_flip_adj_sym_t0(pre: TriangleMesh, post: TriangleMesh, t0: int, e: int, k: int)
        requires
            pre.topo_valid(),
            pre.refs_hygienic(),
            pre.edge_flip_pre(t0, e),
            pre.edge_flip_isolated(t0, e),
            TriangleMesh::edge_flip_post(pre, post, t0, e),
            0 <= k < 3,
        ensures
            post.adj_sym_at(t0, k),
    {
        vstd::std_specs::vec::axiom_spec_len(&pre.triangles);
        vstd::std_specs::vec::axiom_spec_len(&pre.vertices);
        TriangleMesh::lemma_edge_flip_facts(pre, t0, e);
        let tr0 = pre.triangles@[t0];
        let t1 = tr0.adj(e) as int;
        let tr1 = pre.triangles@[t1];
        let o = tr1.spec_id_of_t(t0 as usize).i as int;
        let e0v = tr0.vert(nxt(e));
        let e1v = tr0.vert(prv(e));
        let k0 = tr1.spec_id_of_v(e0v).i as int;
        let k1 = tr1.spec_id_of_v(e1v).i as int;
        let apex0 = tr0.vert(e);
        let apex1 = tr1.vert(o);
        let a0 = tr1.adj(k1) as int;
        let a1 = tr0.adj(nxt(e)) as int;
        let c = tr0.adj(prv(e)) as int;
        assert(e == 0 || e == 1 || e == 2);
        if k == e {
            if post.spec_valid_t(a0) {
                assert(pre.adj_sym_at(t1, k1));
                let jb0 = pre.triangles@[a0].spec_id_of_t(t1 as usize).i as int;
                assert(post.triangles@[a0].adj(jb0) as int == t0);
                assert forall|m: int| 0 <= m < 3 && m != jb0 implies post.triangles@[a0].adj(
                    m,
                ) as int != t0 by {
                    assert(post.triangles@[a0].adj(m) == pre.triangles@[a0].adj(m));
                }
                assert(edge_matches(tr1, k1, pre.triangles@[a0], jb0));
                assert(post.triangles@[a0].vert(0) == pre.triangles@[a0].vert(0));
                assert(post.triangles@[a0].vert(1) == pre.triangles@[a0].vert(1));
                assert(post.triangles@[a0].vert(2) == pre.triangles@[a0].vert(2));
            }
        } else if k == nxt(e) {
            assert(pre.adj_sym_at(t1, k0));
        } else {
            assert(pre.adj_sym_at(t0, prv(e)));
            if post.spec_valid_t(c) {
                if c == t0 {
                } else {
                    let jc = pre.triangles@[c].spec_id_of_t(t0 as usize).i as int;
                    assert(pre.adj_sym_at(c, jc));
                    assert(post.triangles@[c] == pre.triangles@[c]);
                }
            }
        }
    }

    /// Adjacency symmetry after a flip, at the second rewritten slot.
    #[verifier::spinoff_prover]
    #[verifier::rlimit(100)]
    proof fn lemma_edge_flip_adj_sym_t1(pre: TriangleMesh, post: TriangleMesh, t0: int, e: int, k: int)
        requires
            pre.topo_valid(),
            pre.refs_hygienic(),
            pre.edge_flip_pre(t0, e),
            pre.edge_flip_isolated(t0, e),
            TriangleMesh::edge_flip_post(pre, post, t0, e),
            0 <= k < 3,
        ensures
            post.adj_sym_at(pre.triangles@[t0].adj(e) as int, k),
    {
        vstd::std_specs::vec::axiom_spec_len(&pre.triangles);
        vstd::std_specs::vec::axiom_spec_len(&pre.vertices);
        TriangleMesh::lemma_edge_flip_facts(pre, t0, e);
        let tr0 = pre.triangles@[t0];
        let t1 = tr0.adj(e) as int;
        let tr1 = pre.triangles@[t1];
        let o = tr1.spec_id_of_t(t0 as usize).i as int;
        let e0v = tr0.vert(nxt(e));
        let e1v = tr0.vert(prv(e));
        let k0 = tr1.spec_id_of_v(e0v).i as int;
        let k1 = tr1.spec_id_of_v(e1v).i as int;
        let apex0 = tr0.vert(e);
        let apex1 = tr1.vert(o);
        let a0 = tr1.adj(k1) as int;
        let a1 = tr0.adj(nxt(e)) as int;
        let d = tr1.adj(k0) as int;
        assert(e == 0 || e == 1 || e == 2);
        if k == o {
            if post.spec_valid_t(a1) {
                assert(pre.adj_sym_at(t0, nxt(e)));
                let m1 = pre.triangles@[a1].spec_id_of_t(t0 as usize).i as int;
                assert(post.triangles@[a1].adj(m1) as int == t1);
                assert forall|m: int| 0 <= m < 3 && m != m1 implies post.triangles@[a1].adj(
                    m,
                ) as int != t1 by {
                    assert(post.triangles@[a1].adj(m) == pre.triangles@[a1].adj(m));
                }
                assert(edge_matches(tr0, nxt(e), pre.triangles@[a1], m1));
                assert(post.triangles@[a1].vert(0) == pre.triangles@[a1].vert(0));
                assert(post.triangles@[a1].vert(1) == pre.triangles@[a1].vert(1));
                assert(post.triangles@[a1].vert(2) == pre.triangles@[a1].vert(2));
            }
        } else if k == k1 {
            assert(post.triangles@[t1].adj(k1) as int == t0);
        } else {
            assert(pre.adj_sym_at(t1, k0));
            if post.spec_valid_t(d) {
                if d == t1 {
                } else {
                    let jd = pre.triangles@[d].spec_id_of_t(t1 as usize).i as int;
                    assert(pre.adj_sym_at(d, jd));
                    assert(post.triangles@[d] == pre.triangles@[d]);
                }
            }
        }
    }

    /// Adjacency symmetry after a flip, at the repointed corner of an
    /// outer neighbor.
    #[verifier::spinoff_prover]
    #[verifier::rlimit(100)]
    proof fn lemma_edge_flip_adj_sym_outer_back(
        pre: TriangleMesh,
        post: TriangleMesh,
        t0: int,
        e: int,
        s: int,
        k: int,
    )
        requires
            pre.topo_valid(),
            pre.refs_hygienic(),
            pre.edge_flip_pre(t0, e),
            pre.edge_flip_isolated(t0, e),
            TriangleMesh::edge_flip_post(pre, post, t0, e),
            0 <= k < 3,
            pre.spec_valid_t(s),
            ({
                let tr0 = pre.triangles@[t0];
                let t1 = tr0.adj(e) as int;
                let tr1 = pre.triangles@[t1];
                let e1v = tr0.vert(prv(e));
                let k1 = tr1.spec_id_of_v(e1v).i as int;
                s == tr1.adj(k1) as int || s == tr0.adj(nxt(e)) as int
            }),
            k == pre.triangles@[s].spec_id_of_t(
                (if s == pre.triangles@[pre.triangles@[t0].adj(e) as int].adj(
                    pre.triangles@[pre.triangles@[t0].adj(e) as int].spec_id_of_v(
                        pre.triangles@[t0].vert(prv(e)),
                    ).i as int,
                ) as int {
                    pre.triangles@[t0].adj(e) as int
                } else {
                    t0
                }) as usize,
            ).i as int,
        ensures
            post.adj_sym_at(s, k),
    {
        vstd::std_specs::vec::axiom_spec_len(&pre.triangles);
        vstd::std_specs::vec::axiom_spec_len(&pre.vertices);
        TriangleMesh::lemma_edge_flip_facts(pre, t0, e);
        let tr0 = pre.triangles@[t0];
        let t1 = tr0.adj(e) as int;
        let tr1 = pre.triangles@[t1];
        let o = tr1.spec_id_of_t(t0 as usize).i as int;
        let e0v = tr0.vert(nxt(e));
        let e1v = tr0.vert(prv(e));
        let k0 = tr1.spec_id_of_v(e0v).i as int;
        let k1 = tr1.spec_id_of_v(e1v).i as int;
        let a0 = tr1.adj(k1) as int;
        let a1 = tr0.adj(nxt(e)) as int;
        assert(e == 0 || e == 1 || e == 2);
        let other: int = if s == a0 { t1 } else { t0 };
        assert(pre.adj_sym_at(t1, k1));
        assert(pre.adj_sym_at(t0, nxt(e)));
        let j = pre.triangles@[s].spec_id_of_t(other as usize).i as int;
        assert(0 <= j < 3);
        assert(pre.triangles@[s].adj(j) as int == other);
        if k == j {
            if s == a0 {
                assert(post.triangles@[s].adj(k) as int == t0);
            } else {
                assert(post.triangles@[s].adj(k) as int == t1);
            }
        }
    }

    /// Adjacency symmetry after a flip, at the untouched corners of an
    /// outer neighbor.
    #[verifier::spinoff_prover]
    #[verifier::rlimit(100)]
    proof fn lemma_edge_flip_adj_sym_outer_side(
        pre: TriangleMesh,
        post: TriangleMesh,
        t0: int,
        e: int,
        s: int,
        k: int,
    )
        requires
            pre.topo_valid(),
            pre.refs_hygienic(),
            pre.edge_flip_pre(t0, e),
            pre.edge_flip_isolated(t0, e),
            TriangleMesh::edge_flip_post(pre, post, t0, e),
            0 <= k < 3,
            pre.spec_valid_t(s),
            ({
                let tr0 = pre.triangles@[t0];
                let t1 = tr0.adj(e) as int;
                let tr1 = pre.triangles@[t1];
                let e1v = tr0.vert(prv(e));
                let k1 = tr1.spec_id_of_v(e1v).i as int;
                s == tr1.adj(k1) as int || s == tr0.adj(nxt(e)) as int
            }),
            k != pre.triangles@[s].spec_id_of_t(
                (if s == pre.triangles@[pre.triangles@[t0].adj(e) as int].adj(
                    pre.triangles@[pre.triangles@[t0].adj(e) as int].spec_id_of_v(
                        pre.triangles@[t0].vert(prv(e)),
                    ).i as int,
                ) as int {
                    pre.triangles@[t0].adj(e) as int
                } else {
                    t0
                }) as usize,
            ).i as int,
        ensures
            post.adj_sym_at(s, k),
    {
        vstd::std_specs::vec::axiom_spec_len(&pre.triangles);
        vstd::std_specs::vec::axiom_spec_len(&pre.vertices);
        TriangleMesh::lemma_edge_flip_facts(pre, t0, e);
        let tr0 = pre.triangles@[t0];
        let t1 = tr0.adj(e) as int;
        let tr1 = pre.triangles@[t1];
        let o = tr1.spec_id_of_t(t0 as usize).i as int;
        let e0v = tr0.vert(nxt(e));
        let e1v = tr0.vert(prv(e));
        let k0 = tr1.spec_id_of_v(e0v).i as int;
        let k1 = tr1.spec_id_of_v(e1v).i as int;
        let a0 = tr1.adj(k1) as int;
        let a1 = tr0.adj(nxt(e)) as int;
        assert(e == 0 || e == 1 || e == 2);
        let other: int = if s == a0 { t1 } else { t0 };
        assert(pre.adj_sym_at(t1, k1));
        assert(pre.adj_sym_at(t0, nxt(e)));
        let j = pre.triangles@[s].spec_id_of_t(other as usize).i as int;
        assert(0 <= j < 3);
        assert(pre.triangles@[s].adj(j) as int == other);
        if k == j {
        } else {
            assert(post.triangles@[s].adj(k) == pre.triangles@[s].adj(k));
            let b = pre.triangles@[s].adj(k) as int;
            if post.spec_valid_t(b) {
                assert(pre.spec_valid_t(b));
                assert(pre.adj_sym_at(s, k));
                assert(back_ref_unique(pre.triangles@[s], other as usize));
                assert(b != other);
                if s == a0 {
                    assert(b != t0);
                } else {
                    assert(b != t1);
                }
                let jb = pre.triangles@[b].spec_id_of_t(s as usize).i as int;
                assert(0 <= jb < 3);
                assert(pre.triangles@[b].adj(jb) as int == s);
                assert(pre.adj_sym_at(b, jb));
                if b == a0 || b == a1 {
                    let bo: int = if b == a0 { t1 } else { t0 };
                    let jre = pre.triangles@[b].spec_id_of_t(bo as usize).i as int;
                    assert(pre.triangles@[b].adj(jre) as int == bo);
                    assert(s != t0 && s != t1);
                    assert(jre != jb);
                    assert(jre == 0 || jre == 1 || jre == 2);
                    assert(post.triangles@[b].adj(jre) as int == t0
                        || post.triangles@[b].adj(jre) as int == t1);
                    assert((post.triangles@[b].adj(0) as int == s)
                        == (pre.triangles@[b].adj(0) as int == s));
                    assert((post.triangles@[b].adj(1) as int == s)
                        == (pre.triangles@[b].adj(1) as int == s));
                    assert((post.triangles@[b].adj(2) as int == s)
                        == (pre.triangles@[b].adj(2) as int == s));
                    assert(post.triangles@[b].vert(0) == pre.triangles@[b].vert(0));
                    assert(post.triangles@[b].vert(1) == pre.triangles@[b].vert(1));
                    assert(post.triangles@[b].vert(2) == pre.triangles@[b].vert(2));
                } else {
                    assert(post.triangles@[b] == pre.triangles@[b]);
                }
                assert(post.triangles@[s].vert(0) == pre.triangles@[s].vert(0));
                assert(post.triangles@[s].vert(1) == pre.triangles@[s].vert(1));
                assert(post.triangles@[s].vert(2) == pre.triangles@[s].vert(2));
            }        }
    }

    /// Adjacency symmetry after a flip, at a repointed outer neighbor.
    proof fn lemma_edge_flip_adj_sym_outer(
        pre: TriangleMesh,
        post: TriangleMesh,
        t0: int,
        e: int,
        s: int,
        k: int,
    )
        requires
            pre.topo_valid(),
            pre.refs_hygienic(),
            pre.edge_flip_pre(t0, e),
            pre.edge_flip_isolated(t0, e),
            TriangleMesh::edge_flip_post(pre, post, t0, e),
            0 <= k < 3,
            pre.spec_valid_t(s),
            ({
                let tr0 = pre.triangles@[t0];
                let t1 = tr0.adj(e) as int;
                let tr1 = pre.triangles@[t1];
                let e1v = tr0.vert(prv(e));
                let k1 = tr1.spec_id_of_v(e1v).i as int;
                s == tr1.adj(k1) as int || s == tr0.adj(nxt(e)) as int
            }),
        ensures
            post.adj_sym_at(s, k),
    {
        let tr0 = pre.triangles@[t0];
        let t1 = tr0.adj(e) as int;
        let tr1 = pre.triangles@[t1];
        let e1v = tr0.vert(prv(e));
        let k1 = tr1.spec_id_of_v(e1v).i as int;
        let a0 = tr1.adj(k1) as int;
        let other: int = if s == a0 { t1 } else { t0 };
        if k == pre.triangles@[s].spec_id_of_t(other as usize).i as int {
            TriangleMesh::lemma_edge_flip_adj_sym_outer_back(pre, post, t0, e, s, k);
        } else {
            TriangleMesh::lemma_edge_flip_adj_sym_outer_side(pre, post, t0, e, s, k);
        }
    }

    /// Adjacency symmetry after a flip, at a slot the flip leaves alone.
    #[verifier::spinoff_prover]
    #[verifier::rlimit(100)]
    proof fn lemma_edge_flip_adj_sym_other(
        pre: TriangleMesh,
        post: TriangleMesh,
        t0: int,
        e: int,
        s: int,
        k: int,
    )
        requires
            pre.topo_valid(),
            pre.refs_hygienic(),
            pre.edge_flip_pre(t0, e),
            pre.edge_flip_isolated(t0, e),
            TriangleMesh::edge_flip_post(pre, post, t0, e),
            0 <= k < 3,
            pre.spec_valid_t(s),
            s != t0,
            s != pre.triangles@[t0].adj(e) as int,
            ({
                let tr0 = pre.triangles@[t0];
                let t1 = tr0.adj(e) as int;
                let tr1 = pre.triangles@[t1];
                let e1v = tr0.vert(prv(e));
                let k1 = tr1.spec_id_of_v(e1v).i as int;
                s != tr1.adj(k1) as int && s != tr0.adj(nxt(e)) as int
            }),
        ensures
            post.adj_sym_at(s, k),
    {
        vstd::std_specs::vec::axiom_spec_len(&pre.triangles);
        vstd::std_specs::vec::axiom_spec_len(&pre.vertices);
        TriangleMesh::lemma_edge_flip_facts(pre, t0, e);
        let tr0 = pre.triangles@[t0];
        let t1 = tr0.adj(e) as int;
        let tr1 = pre.triangles@[t1];
        let o = tr1.spec_id_of_t(t0 as usize).i as int;
        let e0v = tr0.vert(nxt(e));
        let e1v = tr0.vert(prv(e));
        let k0 = tr1.spec_id_of_v(e0v).i as int;
        let k1 = tr1.spec_id_of_v(e1v).i as int;
        let a0 = tr1.adj(k1) as int;
        let a1 = tr0.adj(nxt(e)) as int;
        assert(e == 0 || e == 1 || e == 2);
        assert(post.triangles@[s] == pre.triangles@[s]);
        let b = pre.triangles@[s].adj(k) as int;
        if post.spec_valid_t(b) {
            assert(pre.spec_valid_t(b));
            assert(pre.adj_sym_at(s, k));
            let jb = pre.triangles@[b].spec_id_of_t(s as usize).i as int;
            assert(0 <= jb < 3);
            assert(pre.triangles@[b].adj(jb) as int == s);
            assert(pre.adj_sym_at(b, jb));
            if b == t0 {
                // the only untouched slot bordering t0 is its kept neighbor
                assert(tr0.adj(jb) as int == s);
                assert(jb != e && jb != nxt(e));
                assert(jb == prv(e));
                assert(post.triangles@[t0].adj(prv(e)) as int == s);
                assert(back_ref_unique(tr0, s as usize));
            } else if b == t1 {
                assert(tr1.adj(jb) as int == s);
                assert(jb != o && jb != k1);
                assert(jb == k0);
                assert(post.triangles@[t1].adj(k0) as int == s);
                assert(back_ref_unique(tr1, s as usize));
            } else if b == a0 || b == a1 {
                let bo: int = if b == a0 { t1 } else { t0 };
                let jre = pre.triangles@[b].spec_id_of_t(bo as usize).i as int;
                assert(pre.triangles@[b].adj(jre) as int == bo);
                assert(s != t0 && s != t1);
                assert(jre != jb);
                assert forall|m2: int| 0 <= m2 < 3 implies (post.triangles@[b].adj(m2)
                    as int == s) == (pre.triangles@[b].adj(m2) as int == s) by {
                    if m2 == jre {
                        assert(post.triangles@[b].adj(m2) as int == t0
                            || post.triangles@[b].adj(m2) as int == t1);
                    } else {
                        assert(post.triangles@[b].adj(m2) == pre.triangles@[b].adj(m2));
                    }
                }
                assert(post.triangles@[b].vert(0) == pre.triangles@[b].vert(0));
                assert(post.triangles@[b].vert(1) == pre.triangles@[b].vert(1));
                assert(post.triangles@[b].vert(2) == pre.triangles@[b].vert(2));
            } else {
                assert(post.triangles@[b] == pre.triangles@[b]);
            }
        }
    }

    /// Adjacency symmetry at one slot after a flip; the dispatcher behind
    /// the preservation lemma.
    proof fn lemma_edge_flip_adj_sym(
        pre: TriangleMesh,
        post: TriangleMesh,
        t0: int,
        e: int,
        s: int,
        k: int,
    )
        requires
            pre.topo_valid(),
            pre.refs_hygienic(),
            pre.edge_flip_pre(t0, e),
            pre.edge_flip_isolated(t0, e),
            TriangleMesh::edge_flip_post(pre, post, t0, e),
            0 <= s < post.triangles@.len(),
            0 <= k < 3,
        ensures
            post.adj_sym_at(s, k),
    {
        let tr0 = pre.triangles@[t0];
        let t1 = tr0.adj(e) as int;
        let tr1 = pre.triangles@[t1];
        let e1v = tr0.vert(prv(e));
        let k1 = tr1.spec_id_of_v(e1v).i as int;
        let a0 = tr1.adj(k1) as int;
        let a1 = tr0.adj(nxt(e)) as int;
        if s == t0 {
            TriangleMesh::lemma_edge_flip_adj_sym_t0(pre, post, t0, e, k);
        } else if s == t1 {
            TriangleMesh::lemma_edge_flip_adj_sym_t1(pre, post, t0, e, k);
        } else if (s == a0 && pre.spec_valid_t(a0)) || (s == a1 && pre.spec_valid_t(a1)) {
            TriangleMesh::lemma_edge_flip_adj_sym_outer(pre, post, t0, e, s, k);
        } else {
            TriangleMesh::lemma_edge_flip_adj_sym_other(pre, post, t0, e, s, k);
        }
    }


    /// One fan step stays on the cursor vertex: in a valid mesh, when a
    /// cursor standing on a triangle that contains its vertex finds a
    /// neighbor across the edge adjacent to that vertex, the neighbor
    /// contains the vertex as well — so the cursor can keep rotating
    /// around it (the full ring closure is exercised by tests).
    pub proof fn lemma_fan_step_keeps_vertex(mesh: TriangleMesh, it: FaceIt, sign: bool)
        requires
            mesh.topo_valid(),
            mesh.spec_valid_t(it.triangle as int),
            mesh.triangles@[it.triangle as int].spec_id_of_v(it.vertex).spec_valid(),
            it.spec_step(mesh, sign) is Some,
        ensures
            ({
                let n = it.spec_step(mesh, sign).unwrap();
                &&& n.vertex == it.vertex
                &&& mesh.spec_valid_t(n.triangle as int)
                &&& mesh.triangles@[n.triangle as int].spec_id_of_v(it.vertex).spec_valid()
            }),
    {
        let t = mesh.triangles@[it.triangle as int];
        let m = t.spec_id_of_v(it.vertex).i as int;
        let c: int = if sign {
            nxt(m)
        } else {
            prv(m)
        };
        assert(t.vert(m) == it.vertex);
        assert(mesh.adj_sym_at(it.triangle as int, c));
        let a = t.adj(c) as int;
        let atr = mesh.triangles@[a];
        let j = atr.spec_id_of_t(it.triangle).i as int;
        assert(edge_matches(t, c, atr, j));
        assert(t.vert(nxt(c)) == it.vertex || t.vert(prv(c)) == it.vertex);
        assert(atr.vert(nxt(j)) == it.vertex || atr.vert(prv(j)) == it.vertex);
    }

    /// Insertion of a point lying exactly on an existing edge is a
    /// documented gap of this design: it is reported as unsupported rather
    /// than silently mishandled.
    pub fn split_edge(&mut self, tri_id: usize, edge_id: TriIt, point: Vec3) -> (r: Result<
        usize,
        MeshError,
    >)
        ensures
            r == Result::<usize, MeshError>::Err(MeshError::UnsupportedEdgeSplit),
            *final(self) == *old(self),
    {
        let _ = tri_id;
        let _ = edge_id;
        let _ = point;
        Err(MeshError::UnsupportedEdgeSplit)
    }
}

} // verus!

use vstd::prelude::*;

use rand::Rng;

use crate::algo::MeshError;
use crate::id::TriIt;
use crate::mesh::{nxt, prv, FaceIt, Triangle, TriangleMesh, INFINITE};
use crate::point::Vec3;
use crate::utils::{to_ccw, TriOrient};

verus! {

/// The orientation predicate may be called on any three points.
pub open spec fn oracle_total<F: Fn(Vec3, Vec3, Vec3) -> TriOrient>(f: F) -> bool {
    forall|args: (Vec3, Vec3, Vec3)| #[trigger] call_requires(f, args)
}

/// The located classification truly describes the query point: it is one
/// of the predicate's possible answers on the located edge's endpoints
/// (in edge order) and the query point.
pub open spec fn located_ok<F: Fn(Vec3, Vec3, Vec3) -> TriOrient>(
    mesh: TriangleMesh,
    f: F,
    point: Vec3,
    tri_id: usize,
    edge_id: TriIt,
    o: TriOrient,
) -> bool {
    let t = mesh.triangles@[tri_id as int];
    let a = t.vert(nxt(edge_id.i as int)) as int;
    let b = t.vert(prv(edge_id.i as int)) as int;
    &&& mesh.spec_valid_v(a)
    &&& mesh.spec_valid_v(b)
    &&& call_ensures(f, (mesh.vertices@[a].point, mesh.vertices@[b].point, point), o)
}

/// The walk stopped at the hull: the neighbor across the located edge is
/// a ghost triangle or an invalid reference.
pub open spec fn hull_exit(mesh: TriangleMesh, tri_id: usize, edge_id: TriIt) -> bool {
    let a = mesh.triangles@[tri_id as int].adj(edge_id.i as int) as int;
    !mesh.spec_valid_t(a) || mesh.triangles@[a].spec_is_infinite()
}

/// Relies on rand::Rng::gen_range over rand::thread_rng: a uniformly random
/// index below the (non-zero) bound; nothing more is assumed of the draw.
#[verifier::external_body]
fn random_index(n: usize) -> (r: usize)
    requires
        n > 0,
    ensures
        r < n,
{
    rand::thread_rng().gen_range(0..n)
}

/// The incremental triangulator: a mesh store fed one point at a time.
/// The first three real points are buffered; the fourth arrival bootstraps
/// the hull; afterwards each point is located by a randomized walk and
/// dispatched to a face split, an edge split or a hull extension.
#[derive(Debug)]
pub struct Triangulation2D {
    pub mesh: TriangleMesh,
}

impl Default for Triangulation2D {
    /// A triangulator over the empty mesh.
    fn default() -> (r: Self)
        ensures
            r.mesh.triangles@.len() == 0,
            r.mesh.vertices@.len() == 1,
            r.mesh.vertices@[0].incident_tri == crate::mesh::INVALID_TRIANGLE,
    {
        Self { mesh: TriangleMesh::default() }
    }
}

impl Triangulation2D {
    /// Bootstraps the hull once the third real point has arrived: orients
    /// the three real vertices as one non-clockwise triangle and closes the
    /// hull with three ghost triangles fanning out to the infinite vertex.
    fn init_first_triangle<F: Fn(Vec3, Vec3, Vec3) -> TriOrient + Copy>(
        &mut self,
        f: F,
    ) -> (r: Result<(), MeshError>)
        requires
            oracle_total(f),
            old(self).mesh.vertices@.len() == 4,
            old(self).mesh.triangles@.len() == 0,
        ensures
            final(self).mesh.vertices@.len() == 4,
            forall|v: int|
                0 <= v < 4 ==> final(self).mesh.vertices@[v].point
                    == old(self).mesh.vertices@[v].point,
            r is Ok ==> {
                let post = final(self).mesh;
                let t = post.triangles@[0];
                &&& post.triangles@.len() == 4
                &&& (crate::algo::tri_is(t, 1, 2, 3, 1, 2, 3) || crate::algo::tri_is(
                    t,
                    2,
                    1,
                    3,
                    1,
                    2,
                    3,
                ))
                &&& crate::algo::tri_is(
                    post.triangles@[1],
                    0,
                    t.vert(2) as int,
                    t.vert(1) as int,
                    0,
                    3,
                    2,
                )
                &&& crate::algo::tri_is(
                    post.triangles@[2],
                    0,
                    t.vert(0) as int,
                    t.vert(2) as int,
                    0,
                    1,
                    3,
                )
                &&& crate::algo::tri_is(
                    post.triangles@[3],
                    0,
                    t.vert(1) as int,
                    t.vert(0) as int,
                    0,
                    2,
                    1,
                )
                &&& post.vertices@[0].incident_tri == 1
                &&& post.vertices@[1].incident_tri == 0
                &&& post.vertices@[2].incident_tri == 0
                &&& post.vertices@[3].incident_tri == 0
            },
            r is Err ==> final(self).mesh.triangles@ == old(self).mesh.triangles@
                && final(self).mesh.vertices@ == old(self).mesh.vertices@ && r
                == Result::<(), MeshError>::Err(MeshError::BrokenTopology),
    {
        let p1 = self.mesh.vertices[1].point;
        let p2 = self.mesh.vertices[2].point;
        let p3 = self.mesh.vertices[3].point;

        let first = Triangle::new([1, 2, 3], [1, 2, 3]);
        let tri = to_ccw(first, f(p1, p2, p3));

        let q1 = self.mesh.vertices[tri.vertices[0]].point;
        let q2 = self.mesh.vertices[tri.vertices[1]].point;
        let q3 = self.mesh.vertices[tri.vertices[2]].point;
        if f(q1, q2, q3).is_cw() {
            return Err(MeshError::BrokenTopology);
        }

        self.mesh.triangles.push(tri);
        self.mesh.triangles.push(
            Triangle {
                vertices: [INFINITE, tri.vertices[2], tri.vertices[1]],
                adjacent: [0, 3, 2],
            },
        );
        self.mesh.triangles.push(
            Triangle {
                vertices: [INFINITE, tri.vertices[0], tri.vertices[2]],
                adjacent: [0, 1, 3],
            },
        );
        self.mesh.triangles.push(
            Triangle {
                vertices: [INFINITE, tri.vertices[1], tri.vertices[0]],
                adjacent: [0, 2, 1],
            },
        );

        let mut v0 = self.mesh.vertices[0];
        v0.incident_tri = 1;
        self.mesh.vertices[0] = v0;
        let mut v1 = self.mesh.vertices[1];
        v1.incident_tri = 0;
        self.mesh.vertices[1] = v1;
        let mut v2 = self.mesh.vertices[2];
        v2.incident_tri = 0;
        self.mesh.vertices[2] = v2;
        let mut v3 = self.mesh.vertices[3];
        v3.incident_tri = 0;
        self.mesh.vertices[3] = v3;

        Ok(())
    }

    /// Locates the region containing `point`: starts at a random non-ghost
    /// triangle and repeatedly steps across the most strongly clockwise
    /// edge, until an enclosing (or hull-exit) triangle/edge pair is found.
    /// Returns that triangle, the located edge, and the edge's
    /// classification (`CW` means the walk stopped at the hull).
    fn find_nearest_tri<F: Fn(Vec3, Vec3, Vec3) -> TriOrient + Copy>(
        &self,
        point: Vec3,
        f: F,
    ) -> (r: Result<(usize, TriIt, TriOrient), MeshError>)
        requires
            oracle_total(f),
        ensures
            r is Ok ==> {
                let (tri_id, edge_id, o) = r.unwrap();
                &&& self.mesh.spec_valid_t(tri_id as int)
                &&& !self.mesh.triangles@[tri_id as int].spec_is_infinite()
                &&& edge_id.spec_valid()
                &&& located_ok(self.mesh, f, point, tri_id, edge_id, o)
                &&& o == TriOrient::CW ==> hull_exit(self.mesh, tri_id, edge_id)
            },
            r is Err ==> r == Result::<(usize, TriIt, TriOrient), MeshError>::Err(
                MeshError::BrokenTopology,
            ),
            self.mesh.triangles@.len() == 0 ==> r is Err,
            (forall|t: int|
                0 <= t < self.mesh.triangles@.len()
                    ==> (#[trigger] self.mesh.triangles@[t]).spec_is_infinite()) ==> r
                is Err,
    {
        let tlen = self.mesh.triangles.len();
        if tlen == 0 {
            return Err(MeshError::BrokenTopology);
        }

        let mut tri_id: usize = 0;
        let mut found = false;
        let mut tries: usize = 0;
        while tries < tlen && !found
            invariant
                tlen == self.mesh.triangles@.len(),
                tries <= tlen,
                found ==> tri_id < tlen
                    && !self.mesh.triangles@[tri_id as int].spec_is_infinite(),
            decreases tlen - tries,
        {
            let cand = random_index(tlen);
            if !self.mesh.triangles[cand].is_infinite() {
                tri_id = cand;
                found = true;
            }
            tries += 1;
        }
        if !found {
            let mut i: usize = 0;
            while i < tlen && !found
                invariant
                    tlen == self.mesh.triangles@.len(),
                    i <= tlen,
                    found ==> tri_id < tlen
                        && !self.mesh.triangles@[tri_id as int].spec_is_infinite(),
                decreases tlen - i,
            {
                if !self.mesh.triangles[i].is_infinite() {
                    tri_id = i;
                    found = true;
                }
                i += 1;
            }
        }
        if !found {
            return Err(MeshError::BrokenTopology);
        }

        let mut tri = self.mesh.triangles[tri_id];
        if !self.mesh.is_v_id_valid(tri.vertices[0]) || !self.mesh.is_v_id_valid(
            tri.vertices[1],
        ) || !self.mesh.is_v_id_valid(tri.vertices[2]) {
            return Err(MeshError::BrokenTopology);
        }
        let vertices = self.mesh.get_vertices(&tri);

        let o0 = f(vertices[1], vertices[2], point);
        let mut min_edge_id = TriIt::new(0);
        let mut min_orient = o0;

        let o1 = f(vertices[2], vertices[0], point);
        if o1.le(min_orient) {
            min_edge_id = TriIt::new(1);
            min_orient = o1;
        }
        let o2 = f(vertices[0], vertices[1], point);
        if o2.le(min_orient) {
            min_edge_id = TriIt::new(2);
            min_orient = o2;
        }
        assert(located_ok(self.mesh, f, point, tri_id, min_edge_id, min_orient));

        if !min_orient.is_cw() {
            return Ok((tri_id, min_edge_id, min_orient));
        }

        let mut fuel = tlen;
        while min_orient.is_cw()
            invariant
                oracle_total(f),
                tlen == self.mesh.triangles@.len(),
                tri_id < tlen,
                !self.mesh.triangles@[tri_id as int].spec_is_infinite(),
                tri == self.mesh.triangles@[tri_id as int],
                min_edge_id.spec_valid(),
                located_ok(self.mesh, f, point, tri_id, min_edge_id, min_orient),
            decreases fuel,
        {
            if fuel == 0 {
                return Err(MeshError::BrokenTopology);
            }
            fuel -= 1;

            let tri_adj_id = tri.adjacent[min_edge_id.id()];
            if !self.mesh.is_tri_id_valid(tri_adj_id) {
                // the hull is open here: report the exit edge
                return Ok((tri_id, min_edge_id, min_orient));
            }
            let tri_adj = self.mesh.triangles[tri_adj_id];
            if tri_adj.is_infinite() {
                // the point lies outside the current hull beyond this edge
                return Ok((tri_id, min_edge_id, min_orient));
            }

            let edge_id = tri_adj.id_of_t(tri_id);
            if !edge_id.is_valid() {
                return Err(MeshError::BrokenTopology);
            }
            if !self.mesh.is_v_id_valid(tri_adj.vertices[0]) || !self.mesh.is_v_id_valid(
                tri_adj.vertices[1],
            ) || !self.mesh.is_v_id_valid(tri_adj.vertices[2]) {
                return Err(MeshError::BrokenTopology);
            }
            let vertices = self.mesh.get_vertices(&tri_adj);

            min_orient = f(vertices[edge_id.prev().id()], vertices[edge_id.id()], point);
            min_edge_id = edge_id.next();

            let orient_1 = f(vertices[edge_id.id()], vertices[edge_id.next().id()], point);
            if !min_orient.le(orient_1) {
                min_orient = orient_1;
                min_edge_id = edge_id.prev();
            }

            tri_id = tri_adj_id;
            tri = tri_adj;
            assert(located_ok(self.mesh, f, point, tri_id, min_edge_id, min_orient));
        }

        Ok((tri_id, min_edge_id, min_orient))
    }

    /// Collects, sweeping from `hull_start` in direction `sign`, the run of
    /// ghost-adjacent triangles from which the new point is visible beyond
    /// a straight hull edge; each is recorded with the edge to flip.
    fn get_faces_to_flip<F: Fn(Vec3, Vec3, Vec3) -> TriOrient + Copy>(
        &self,
        hull_start: FaceIt,
        sign: bool,
        point: Vec3,
        f: F,
        out: &mut Vec<(usize, TriIt)>,
    ) -> (r: Result<(), MeshError>)
        requires
            oracle_total(f),
            hull_start.vertex == INFINITE,
            self.mesh.spec_valid_t(hull_start.triangle as int),
            self.mesh.triangles@[hull_start.triangle as int].spec_id_of_v(
                hull_start.vertex,
            ).spec_valid(),
            forall|k: int|
                0 <= k < old(out)@.len() ==> (#[trigger] old(out)@[k]).1.spec_valid()
                    && self.mesh.spec_valid_t(old(out)@[k].0 as int),
        ensures
            forall|k: int|
                0 <= k < final(out)@.len() ==> (#[trigger] final(out)@[k]).1.spec_valid()
                    && self.mesh.spec_valid_t(final(out)@[k].0 as int),
            forall|k: int| 0 <= k < old(out)@.len() ==> final(out)@[k] == old(out)@[k],
            final(out)@.len() >= old(out)@.len(),
            r is Err ==> r == Result::<(), MeshError>::Err(MeshError::BrokenTopology),
            hull_start.spec_step(self.mesh, sign) is None ==> r is Err,
    {
        let mut face_it = match hull_start.step(&self.mesh, sign) {
            Some(it) => it,
            None => { return Err(MeshError::BrokenTopology) },
        };

        let mut fuel = self.mesh.triangles.len();
        loop
            invariant
                oracle_total(f),
                face_it.vertex == INFINITE,
                self.mesh.spec_valid_t(face_it.triangle as int),
                forall|k: int|
                    0 <= k < out@.len() ==> (#[trigger] out@[k]).1.spec_valid()
                        && self.mesh.spec_valid_t(out@[k].0 as int),
                forall|k: int| 0 <= k < old(out)@.len() ==> out@[k] == old(out)@[k],
                out@.len() >= old(out)@.len(),
            decreases fuel,
        {
            if fuel == 0 {
                return Err(MeshError::BrokenTopology);
            }
            fuel -= 1;

            let ftri = self.mesh.triangles[face_it.triangle];
            let inf_id = ftri.id_of_v(INFINITE);
            if !inf_id.is_valid() {
                return Err(MeshError::BrokenTopology);
            }
            let va_id = ftri.vertices[inf_id.next().id()];
            let vb_id = ftri.vertices[inf_id.prev().id()];
            if !self.mesh.is_v_id_valid(va_id) || !self.mesh.is_v_id_valid(vb_id) {
                return Err(MeshError::BrokenTopology);
            }
            let va = self.mesh.vertices[va_id].point;
            let vb = self.mesh.vertices[vb_id].point;

            if f(va, vb, point).is_cw() {
                break;
            }
            out.push((face_it.triangle, inf_id.step(!sign)));

            face_it = match face_it.step(&self.mesh, sign) {
                Some(it) => it,
                None => { return Err(MeshError::BrokenTopology) },
            };
            if face_it == hull_start {
                break;
            }
        }

        Ok(())
    }

    /// Extends the hull: splits the ghost triangle beyond the crossed hull
    /// edge around the new point (connecting it to the edge's endpoints),
    /// then restores local hull convexity by flipping the collected run of
    /// ghost-adjacent triangles in both directions.
    fn add_point_outside_hull<F: Fn(Vec3, Vec3, Vec3) -> TriOrient + Copy>(
        &mut self,
        tri_id: usize,
        edge_id: TriIt,
        point: Vec3,
        f: F,
    ) -> (r: Result<usize, MeshError>)
        requires
            oracle_total(f),
            edge_id.spec_valid(),
        ensures
            r is Ok ==> {
                &&& r.unwrap() == old(self).mesh.vertices@.len()
                &&& final(self).mesh.vertices@.len() == old(self).mesh.vertices@.len() + 1
                &&& final(self).mesh.vertices@[r.unwrap() as int].point == point
                &&& final(self).mesh.triangles@.len() == old(self).mesh.triangles@.len()
                    + 2
            },
            r is Err ==> r == Result::<usize, MeshError>::Err(MeshError::BrokenTopology),
            // whatever happens, the arena only appends and stored points stay
            final(self).mesh.vertices@.len() == old(self).mesh.vertices@.len()
                || final(self).mesh.vertices@.len() == old(self).mesh.vertices@.len() + 1,
            forall|v: int|
                0 <= v < old(self).mesh.vertices@.len()
                    ==> final(self).mesh.vertices@[v].point
                    == old(self).mesh.vertices@[v].point,
            // the extension's own guards, decided before any mutation
            !old(self).mesh.spec_valid_t(tri_id as int) ==> r is Err && *final(self)
                == *old(self),
            old(self).mesh.spec_valid_t(tri_id as int) && !old(self).mesh.split_face_pre(
                old(self).mesh.triangles@[tri_id as int].adj(edge_id.i as int) as int,
            ) ==> r is Err && *final(self) == *old(self),
            // conversely, once those guards pass the split has happened:
            // the new vertex is in the arena even if a later step fails
            old(self).mesh.spec_valid_t(tri_id as int) && old(self).mesh.split_face_pre(
                old(self).mesh.triangles@[tri_id as int].adj(edge_id.i as int) as int,
            ) ==> final(self).mesh.vertices@.len() == old(self).mesh.vertices@.len() + 1
                && final(self).mesh.vertices@[old(self).mesh.vertices@.len() as int].point
                == point,
            // a successful extension of a valid mesh yields a valid mesh
            r is Ok && old(self).mesh.topo_valid() && old(self).mesh.refs_hygienic()
                ==> final(self).mesh.topo_valid() && final(self).mesh.refs_hygienic(),
    {
        let ghost vld = old(self).mesh.topo_valid() && old(self).mesh.refs_hygienic();
        if !self.mesh.is_tri_id_valid(tri_id) {
            return Err(MeshError::BrokenTopology);
        }
        let tri = self.mesh.triangles[tri_id];
        let hull_tri_id = tri.adjacent[edge_id.id()];
        if !self.mesh.check_split_face_pre(hull_tri_id) {
            return Err(MeshError::BrokenTopology);
        }
        let ghost m_pre = self.mesh;
        let sp = self.mesh.split_face(hull_tri_id, point);
        let point_id = sp.0;
        let faces_id = sp.1;
        proof {
            if vld {
                TriangleMesh::lemma_split_face_preserves_topology(
                    m_pre,
                    self.mesh,
                    hull_tri_id as int,
                    point,
                    sp,
                );
            }
        }

        let mut result: Option<(FaceIt, FaceIt)> = None;
        let mut i: usize = 0;
        while i < 3 && result.is_none()
            invariant
                0 <= i <= 3,
                forall|k: int| 0 <= k < 3 ==> self.mesh.spec_valid_t(#[trigger] faces_id[k] as int),
                point_id == old(self).mesh.vertices@.len(),
                self.mesh.vertices@.len() == old(self).mesh.vertices@.len() + 1,
                self.mesh.triangles@.len() == old(self).mesh.triangles@.len() + 2,
                self.mesh.vertices@[point_id as int].point == point,
                forall|v: int|
                    0 <= v < old(self).mesh.vertices@.len() ==> self.mesh.vertices@[v].point
                        == old(self).mesh.vertices@[v].point,
                old(self).mesh.spec_valid_t(tri_id as int),
                old(self).mesh.split_face_pre(
                    old(self).mesh.triangles@[tri_id as int].adj(edge_id.i as int) as int,
                ),
                vld == (old(self).mesh.topo_valid() && old(self).mesh.refs_hygienic()),
                vld ==> self.mesh.topo_valid() && self.mesh.refs_hygienic(),
                result is Some ==> {
                    let (h0, h1) = result.unwrap();
                    &&& self.mesh.spec_valid_t(h0.triangle as int)
                    &&& self.mesh.spec_valid_t(h1.triangle as int)
                    &&& h0.vertex == INFINITE && h1.vertex == INFINITE
                    &&& self.mesh.triangles@[h0.triangle as int].spec_id_of_v(
                        INFINITE,
                    ).spec_valid()
                    &&& self.mesh.triangles@[h1.triangle as int].spec_id_of_v(
                        INFINITE,
                    ).spec_valid()
                },
            decreases 3 - i,
        {
            let h1 = FaceIt::new(faces_id[i], INFINITE);
            let h1_tri = self.mesh.triangles[h1.triangle];
            if h1_tri.id_of_v(INFINITE).is_valid() && h1_tri.id_of_v(point_id).is_valid() {
                match h1.prev(&self.mesh) {
                    Some(h0) => {
                        let h0_tri = self.mesh.triangles[h0.triangle];
                        if h0_tri.id_of_v(INFINITE).is_valid() && h0_tri.id_of_v(
                            point_id,
                        ).is_valid() {
                            result = Some((h0, h1));
                        }
                    },
                    None => {},
                }
            }
            i += 1;
        }

        let (hull_0, hull_1) = match result {
            Some(pair) => pair,
            None => { return Err(MeshError::BrokenTopology) },
        };

        let mut tris_to_flip: Vec<(usize, TriIt)> = Vec::new();
        match self.get_faces_to_flip(hull_0, false, point, f, &mut tris_to_flip) {
            Ok(()) => {},
            Err(e) => { return Err(e) },
        }
        match self.get_faces_to_flip(hull_1, true, point, f, &mut tris_to_flip) {
            Ok(()) => {},
            Err(e) => { return Err(e) },
        }

        let ghost mid = self.mesh.vertices@;
        let ghost tlen_mid = self.mesh.triangles@.len();
        let mut k: usize = 0;
        while k < tris_to_flip.len()
            invariant
                self.mesh.triangles@.len() == tlen_mid,
                tlen_mid == old(self).mesh.triangles@.len() + 2,
                self.mesh.vertices@.len() == mid.len(),
                point_id == old(self).mesh.vertices@.len(),
                mid.len() == old(self).mesh.vertices@.len() + 1,
                mid[point_id as int].point == point,
                forall|v: int|
                    0 <= v < old(self).mesh.vertices@.len() ==> mid[v].point == old(
                        self,
                    ).mesh.vertices@[v].point,
                forall|v: int|
                    0 <= v < old(self).mesh.vertices@.len() ==> self.mesh.vertices@[v].point
                        == old(self).mesh.vertices@[v].point,
                old(self).mesh.spec_valid_t(tri_id as int),
                old(self).mesh.split_face_pre(
                    old(self).mesh.triangles@[tri_id as int].adj(edge_id.i as int) as int,
                ),
                vld == (old(self).mesh.topo_valid() && old(self).mesh.refs_hygienic()),
                forall|v: int|
                    0 <= v < mid.len() ==> self.mesh.vertices@[v].point == mid[v].point,
                forall|m: int|
                    0 <= m < tris_to_flip@.len() ==> (#[trigger] tris_to_flip@[m]).1.spec_valid(),
                vld ==> self.mesh.topo_valid() && self.mesh.refs_hygienic(),
            decreases tris_to_flip@.len() - k,
        {
            let (t, e) = tris_to_flip[k];
            if !self.mesh.check_edge_flip_pre(t, e) {
                return Err(MeshError::BrokenTopology);
            }
            if !self.mesh.check_edge_flip_isolated(t, e) {
                return Err(MeshError::BrokenTopology);
            }
            let ghost m_before = self.mesh;
            self.mesh.edge_flip(t, e);
            proof {
                if vld {
                    TriangleMesh::lemma_edge_flip_preserves_topology(
                        m_before,
                        self.mesh,
                        t as int,
                        e.i as int,
                    );
                }
            }
            k += 1;
        }

        Ok(point_id)
    }

    /// Inserts one point. The first three real points are only buffered
    /// (the third arrival bootstraps the hull); afterwards the point is
    /// located and dispatched. Returns the new vertex reference; a point
    /// exactly on an existing edge is reported as unsupported (and the
    /// mesh left unchanged), a broken invariant aborts the operation.
    pub fn add_point<F: Fn(Vec3, Vec3, Vec3) -> TriOrient + Copy>(
        &mut self,
        point: Vec3,
        f: F,
    ) -> (r: Result<usize, MeshError>)
        requires
            oracle_total(f),
            old(self).mesh.vertices@.len() < usize::MAX,
        ensures
            r is Ok ==> {
                &&& r.unwrap() == old(self).mesh.vertices@.len()
                &&& final(self).mesh.vertices@.len() == old(self).mesh.vertices@.len() + 1
                &&& final(self).mesh.vertices@[r.unwrap() as int].point == point
                &&& final(self).mesh.triangles@.len() as int == (
                    if old(self).mesh.vertices@.len() >= 4 {
                        old(self).mesh.triangles@.len() + 2int
                    } else if old(self).mesh.vertices@.len() == 3 {
                        4int
                    } else {
                        old(self).mesh.triangles@.len() as int
                    })
                &&& forall|v: int|
                    0 <= v < old(self).mesh.vertices@.len()
                        ==> final(self).mesh.vertices@[v].point
                        == old(self).mesh.vertices@[v].point
            },
            r == Result::<usize, MeshError>::Err(MeshError::UnsupportedEdgeSplit)
                ==> final(self).mesh.vertices@ == old(self).mesh.vertices@
                && final(self).mesh.triangles@ == old(self).mesh.triangles@,
            // the unsupported report comes exactly from a located edge the
            // predicate classified as flat (the point lies on that edge)
            r == Result::<usize, MeshError>::Err(MeshError::UnsupportedEdgeSplit)
                ==> exists|t: usize, e2: TriIt|
                {
                    &&& #[trigger] located_ok(
                        old(self).mesh,
                        f,
                        point,
                        t,
                        e2,
                        TriOrient::Flat,
                    )
                    &&& old(self).mesh.spec_valid_t(t as int)
                    &&& !old(self).mesh.triangles@[t as int].spec_is_infinite()
                    &&& e2.spec_valid()
                },
            r is Ok && old(self).mesh.vertices@.len() == 3 ==> {
                let post = final(self).mesh;
                let t = post.triangles@[0];
                &&& post.triangles@.len() == 4
                &&& (crate::algo::tri_is(t, 1, 2, 3, 1, 2, 3) || crate::algo::tri_is(
                    t,
                    2,
                    1,
                    3,
                    1,
                    2,
                    3,
                ))
                &&& crate::algo::tri_is(
                    post.triangles@[1],
                    0,
                    t.vert(2) as int,
                    t.vert(1) as int,
                    0,
                    3,
                    2,
                )
                &&& crate::algo::tri_is(
                    post.triangles@[2],
                    0,
                    t.vert(0) as int,
                    t.vert(2) as int,
                    0,
                    1,
                    3,
                )
                &&& crate::algo::tri_is(
                    post.triangles@[3],
                    0,
                    t.vert(1) as int,
                    t.vert(0) as int,
                    0,
                    2,
                    1,
                )
                &&& post.vertices@[0].incident_tri == 1
                &&& post.vertices@[1].incident_tri == 0
                &&& post.vertices@[2].incident_tri == 0
                &&& post.vertices@[3].incident_tri == 0
            },
            // a pure buffering insert consults nothing outside and succeeds
            old(self).mesh.vertices@.len() < 3 ==> r is Ok,
            // the one pre-dispatch defect this function detects itself
            old(self).mesh.vertices@.len() == 3 && old(self).mesh.triangles@.len() != 0
                ==> r == Result::<usize, MeshError>::Err(MeshError::BrokenTopology),
            // whatever happens, the arena only appends and stored points stay
            final(self).mesh.vertices@.len() == old(self).mesh.vertices@.len()
                || final(self).mesh.vertices@.len() == old(self).mesh.vertices@.len() + 1,
            forall|v: int|
                0 <= v < old(self).mesh.vertices@.len()
                    ==> final(self).mesh.vertices@[v].point
                    == old(self).mesh.vertices@[v].point,
            // every successful insertion into a bootstrapped valid mesh
            // preserves the combinatorial invariants, and the bootstrap
            // itself establishes them
            r is Ok && old(self).mesh.vertices@.len() >= 4 && old(self).mesh.topo_valid()
                && old(self).mesh.refs_hygienic() ==> final(self).mesh.topo_valid()
                && final(self).mesh.refs_hygienic(),
            r is Ok && old(self).mesh.vertices@.len() == 3 ==> final(self).mesh.topo_valid()
                && final(self).mesh.refs_hygienic(),
    {
        if self.mesh.vertices.len() < 4 {
            let point_id = self.mesh.add_point(point);
            if point_id >= 3 {
                if self.mesh.triangles.len() != 0 {
                    return Err(MeshError::BrokenTopology);
                }
                match self.init_first_triangle(f) {
                    Ok(()) => {},
                    Err(e) => { return Err(e) },
                }
                proof {
                    TriangleMesh::lemma_bootstrap_topology(self.mesh);
                }
            }
            return Ok(point_id);
        }

        let (tri_id, edge_id, tri_orient) = match self.find_nearest_tri(point, f) {
            Ok(x) => x,
            Err(e) => { return Err(e) },
        };

        match tri_orient {
            TriOrient::CW => self.add_point_outside_hull(tri_id, edge_id, point, f),
            TriOrient::Flat => {
                proof {
                    assert(located_ok(old(self).mesh, f, point, tri_id, edge_id, TriOrient::Flat));
                }
                self.mesh.split_edge(tri_id, edge_id, point)
            },
            TriOrient::CCW => {
                if !self.mesh.check_split_face_pre(tri_id) {
                    return Err(MeshError::BrokenTopology);
                }
                let ghost m_pre = self.mesh;
                let sp = self.mesh.split_face(tri_id, point);
                proof {
                    if m_pre.topo_valid() && m_pre.refs_hygienic() {
                        TriangleMesh::lemma_split_face_preserves_topology(
                            m_pre,
                            self.mesh,
                            tri_id as int,
                            point,
                            sp,
                        );
                    }
                }
                Ok(sp.0)
            },
        }
    }
}

} // verus!

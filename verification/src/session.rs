use vstd::prelude::*;

use crate::algo::MeshError;
use crate::export::DrawableMesh;
use crate::point::Vec3;
use crate::triangulation::{oracle_total, Triangulation2D};
use crate::utils::TriOrient;

verus! {

/// The triangulation strategy chosen at session construction. The
/// `Delaunay` variant currently inserts exactly as `Naive` does (only the
/// hull-extension path legalizes by edge flips); a full re-legalization
/// pass after interior face splits is an open gap of this design.
#[derive(Debug, Clone, Copy, PartialEq, Eq, Structural)]
pub enum Strategy {
    Naive,
    Delaunay,
}

/// An incremental triangulation session: the point queue with its cursor,
/// the chosen strategy and the triangulator. The caller owns the session
/// and passes it into each advance, so no shared global state is needed to
/// resume work across repeated calls.
#[derive(Debug)]
pub struct Session {
    pub cloud: Vec<Vec3>,
    pub cursor: usize,
    pub strategy: Strategy,
    pub triangulation: Triangulation2D,
}

impl Session {
    /// A fresh session over an already loaded (and already scaled) point
    /// queue; nothing has been inserted yet.
    pub fn new(cloud: Vec<Vec3>, strategy: Strategy) -> (r: Session)
        ensures
            r.cloud == cloud,
            r.cursor == 0,
            r.strategy == strategy,
            r.triangulation.mesh.vertices@.len() == 1,
            r.triangulation.mesh.triangles@.len() == 0,
    {
        Session { cloud, cursor: 0, strategy, triangulation: Triangulation2D::default() }
    }

    /// Inserts the next queued point and re-exports the mesh; `None` once
    /// the queue is exhausted (the session is then unchanged).
    pub fn compute_next<F: Fn(Vec3, Vec3, Vec3) -> TriOrient + Copy>(&mut self, f: F) -> (r:
        Result<Option<DrawableMesh>, MeshError>)
        requires
            oracle_total(f),
        ensures
            old(self).cursor >= old(self).cloud@.len() ==> r == Result::<
                Option<DrawableMesh>,
                MeshError,
            >::Ok(None) && *final(self) == *old(self),
            old(self).cursor < old(self).cloud@.len()
                && old(self).triangulation.mesh.vertices@.len() == usize::MAX ==> r
                == Result::<Option<DrawableMesh>, MeshError>::Err(MeshError::BrokenTopology)
                && *final(self) == *old(self),
            r is Ok && old(self).cursor < old(self).cloud@.len() ==> {
                &&& final(self).cursor == old(self).cursor + 1
                &&& final(self).cloud == old(self).cloud
                &&& final(self).strategy == old(self).strategy
                &&& r.unwrap() is Some
                &&& {
                    let d = r.unwrap().unwrap();
                    let mesh = final(self).triangulation.mesh;
                    &&& d.vertices@.len() == mesh.vertices@.len()
                    &&& forall|i: int|
                        0 <= i < mesh.vertices@.len() ==> d.vertices@[i]
                            == mesh.vertices@[i].point
                    &&& d.triangles@.len() == mesh.triangles@.len()
                    &&& forall|t: int|
                        0 <= t < mesh.triangles@.len() ==> d.triangles@[t]
                            == mesh.triangles@[t].vertices
                }
            },
    {
        if self.cursor >= self.cloud.len() {
            return Ok(None);
        }

        let point = self.cloud[self.cursor];
        if self.triangulation.mesh.vertices.len() == usize::MAX {
            return Err(MeshError::BrokenTopology);
        }
        self.cursor += 1;

        let inserted = match self.strategy {
            Strategy::Naive => self.triangulation.add_point(point, f),
            Strategy::Delaunay => self.triangulation.add_point(point, f),
        };
        match inserted {
            Ok(_) => {},
            Err(e) => { return Err(e) },
        }

        Ok(Some(DrawableMesh::from_mesh(&self.triangulation.mesh)))
    }
}

/// Builds a triangulation of the whole (already scaled) point queue and
/// exports it: vertex `0` of the result is the sentinel infinite vertex,
/// and vertex `i + 1` carries the coordinates of queue entry `i`.
pub fn triangulate_cloud<F: Fn(Vec3, Vec3, Vec3) -> TriOrient + Copy>(
    cloud: &Vec<Vec3>,
    f: F,
) -> (r: Result<DrawableMesh, MeshError>)
    requires
        oracle_total(f),
        cloud@.len() < usize::MAX,
    ensures
        r is Ok ==> {
            let d = r.unwrap();
            &&& d.vertices@.len() == cloud@.len() + 1
            &&& forall|i: int| 0 <= i < cloud@.len() ==> d.vertices@[i + 1] == cloud@[i]
        },
        cloud@.len() <= 2 ==> r is Ok,
{
    let mut tri = Triangulation2D::default();
    let mut i: usize = 0;
    while i < cloud.len()
        invariant
            oracle_total(f),
            i <= cloud@.len(),
            cloud@.len() < usize::MAX,
            tri.mesh.vertices@.len() == i + 1,
            forall|j: int| 0 <= j < i ==> tri.mesh.vertices@[j + 1].point == cloud@[j],
        decreases cloud@.len() - i,
    {
        match tri.add_point(cloud[i], f) {
            Ok(_) => {},
            Err(e) => { return Err(e) },
        }
        i += 1;
    }

    Ok(DrawableMesh::from_mesh(&tri.mesh))
}

} // verus!

use delaunay::algo::MeshError;
use delaunay::export::DrawableMesh;
use delaunay::id::{LocalId, TriIt};
use delaunay::mesh::{FaceIt, Triangle, TriangleMesh, Vertex, INFINITE, INVALID_TRIANGLE};
use delaunay::point::{Vec3, INF_BITS};
use delaunay::session::{Session, Strategy};
use delaunay::triangulation::Triangulation2D;
use delaunay::utils::{to_ccw, TriOrient};

fn v3(x: f64, y: f64, z: f64) -> Vec3 {
    Vec3 { x: x.to_bits(), y: y.to_bits(), z: z.to_bits() }
}

fn orient(a: Vec3, b: Vec3, c: Vec3) -> TriOrient {
    let (ax, ay) = (f64::from_bits(a.x), f64::from_bits(a.y));
    let (bx, by) = (f64::from_bits(b.x), f64::from_bits(b.y));
    let (cx, cy) = (f64::from_bits(c.x), f64::from_bits(c.y));
    let u = (bx - ax, by - ay);
    let v = (cx - ax, cy - ay);
    let orientation = u.0 * v.1 - u.1 * v.0;
    let epsilon = f64::EPSILON * orientation.abs() * 16.;
    if orientation > epsilon {
        TriOrient::CCW
    } else if orientation < -epsilon {
        TriOrient::CW
    } else {
        TriOrient::Flat
    }
}

fn orients_of(mesh: &TriangleMesh) -> Vec<TriOrient> {
    mesh.triangles
        .iter()
        .map(|t| {
            orient(
                mesh.vertices[t.vertices[0]].point,
                mesh.vertices[t.vertices[1]].point,
                mesh.vertices[t.vertices[2]].point,
            )
        })
        .collect()
}

fn real_triangles(mesh: &TriangleMesh) -> usize {
    mesh.triangles.iter().filter(|t| !t.is_infinite()).count()
}

#[test]
fn local_id_next_prev_wrap() {
    let i0: TriIt = LocalId::new(0);
    assert_eq!(i0.next().id(), 1);
    assert_eq!(i0.prev().id(), 2);
    let i2: TriIt = LocalId::new(2);
    assert_eq!(i2.next().id(), 0);
    assert_eq!(i2.prev().id(), 1);
    assert_eq!(i2.step(true).id(), 0);
    assert_eq!(i2.step(false).id(), 1);
}

#[test]
fn local_id_invalid_and_range() {
    let bad: TriIt = LocalId::make_invalid();
    assert!(!bad.is_valid());
    assert!(LocalId::<3>::new(1).is_valid());
    let r: Vec<TriIt> = LocalId::range();
    assert_eq!(r.len(), 3);
    for (k, id) in r.iter().enumerate() {
        assert_eq!(id.id(), k);
    }
}

#[test]
fn triangle_lookups() {
    let t = Triangle::new([5, 7, 9], [2, 3, 4]);
    assert_eq!(t.id_of_v(5).id(), 0);
    assert_eq!(t.id_of_v(7).id(), 1);
    assert_eq!(t.id_of_v(9).id(), 2);
    assert!(!t.id_of_v(6).is_valid());
    assert_eq!(t.id_of_t(3).id(), 1);
    assert!(!t.id_of_t(8).is_valid());
    let e = t.get_edge(LocalId::new(0));
    assert_eq!(e, (7, 9));
    let e = t.get_edge(LocalId::new(1));
    assert_eq!(e, (9, 5));
    assert!(!t.is_infinite());
    let g = Triangle::new([4, 0, 2], [1, 1, 1]);
    assert!(g.is_infinite());
}

#[test]
fn to_ccw_swaps_only_clockwise() {
    let t = Triangle::new([1, 2, 3], [4, 5, 6]);
    let kept = to_ccw(t, TriOrient::CCW);
    assert_eq!(kept.vertices, [1, 2, 3]);
    let kept = to_ccw(t, TriOrient::Flat);
    assert_eq!(kept.vertices, [1, 2, 3]);
    let swapped = to_ccw(t, TriOrient::CW);
    assert_eq!(swapped.vertices, [2, 1, 3]);
    assert_eq!(swapped.adjacent, [4, 5, 6]);
}

#[test]
fn orient_order_helper() {
    assert!(TriOrient::CW.le(TriOrient::Flat));
    assert!(TriOrient::Flat.le(TriOrient::CCW));
    assert!(TriOrient::CCW.le(TriOrient::CCW));
    assert!(!TriOrient::CCW.le(TriOrient::Flat));
    assert!(TriOrient::CW.is_cw());
    assert!(TriOrient::Flat.is_flat());
}

#[test]
fn default_mesh_has_sentinel() {
    let mesh = TriangleMesh::default();
    assert_eq!(mesh.vertices.len(), 1);
    assert_eq!(mesh.triangles.len(), 0);
    assert_eq!(mesh.vertices[0].point.z, INF_BITS);
    assert_eq!(INF_BITS, f64::INFINITY.to_bits());
    assert_eq!(mesh.vertices[0].incident_tri, INVALID_TRIANGLE);
}

#[test]
fn add_point_appends_unlinked_vertex() {
    let mut mesh = TriangleMesh::default();
    let id = mesh.add_point(v3(1.0, 2.0, 3.0));
    assert_eq!(id, 1);
    assert_eq!(mesh.vertices.len(), 2);
    assert_eq!(mesh.vertices[1].point, v3(1.0, 2.0, 3.0));
    assert_eq!(mesh.vertices[1].incident_tri, INVALID_TRIANGLE);
}

#[test]
fn split_face_of_isolated_triangle() {
    let mut mesh = TriangleMesh::default();
    for _ in 0..3 {
        mesh.add_point(v3(0.0, 0.0, 0.0));
    }
    mesh.triangles.push(Triangle::new([1, 2, 3], [
        INVALID_TRIANGLE,
        INVALID_TRIANGLE,
        INVALID_TRIANGLE,
    ]));
    mesh.vertices[1] = Vertex::new(mesh.vertices[1].point, 0);
    mesh.vertices[2] = Vertex::new(mesh.vertices[2].point, 0);
    mesh.vertices[3] = Vertex::new(mesh.vertices[3].point, 0);

    let (p, tris) = mesh.split_face(0, v3(1.0, 1.0, 0.0));
    assert_eq!(p, 4);
    assert_eq!(tris, [0, 1, 2]);
    assert_eq!(mesh.vertices.len(), 5);
    assert_eq!(mesh.triangles.len(), 3);
    assert_eq!(mesh.triangles[0].vertices, [4, 2, 3]);
    assert_eq!(mesh.triangles[1].vertices, [4, 3, 1]);
    assert_eq!(mesh.triangles[2].vertices, [4, 1, 2]);
    assert_eq!(mesh.triangles[0].adjacent, [INVALID_TRIANGLE, 1, 2]);
    assert_eq!(mesh.triangles[1].adjacent, [INVALID_TRIANGLE, 2, 0]);
    assert_eq!(mesh.triangles[2].adjacent, [INVALID_TRIANGLE, 0, 1]);
    assert_eq!(mesh.vertices[4].incident_tri, 0);
    assert!(mesh.assert_mesh_validity(None));
}

#[test]
fn split_edge_is_reported_unsupported() {
    let mut mesh = TriangleMesh::default();
    let r = mesh.split_edge(0, LocalId::new(0), v3(0.0, 0.0, 0.0));
    assert_eq!(r, Err(MeshError::UnsupportedEdgeSplit));
}

#[test]
fn validity_audit_rejects_duplicate_vertex() {
    let mut mesh = TriangleMesh::default();
    for _ in 0..2 {
        mesh.add_point(v3(0.0, 0.0, 0.0));
    }
    mesh.triangles.push(Triangle::new([1, 1, 2], [
        INVALID_TRIANGLE,
        INVALID_TRIANGLE,
        INVALID_TRIANGLE,
    ]));
    mesh.vertices[1] = Vertex::new(mesh.vertices[1].point, 0);
    mesh.vertices[2] = Vertex::new(mesh.vertices[2].point, 0);
    assert!(!mesh.assert_mesh_validity(None));
}

#[test]
fn validity_audit_rejects_asymmetric_adjacency() {
    let mut mesh = TriangleMesh::default();
    for _ in 0..4 {
        mesh.add_point(v3(0.0, 0.0, 0.0));
    }
    // triangle 1 claims triangle 0 as neighbor, but 0 does not point back
    mesh.triangles.push(Triangle::new([1, 2, 3], [
        INVALID_TRIANGLE,
        INVALID_TRIANGLE,
        INVALID_TRIANGLE,
    ]));
    mesh.triangles.push(Triangle::new([2, 1, 4], [0, INVALID_TRIANGLE, INVALID_TRIANGLE]));
    for v in 1..=4 {
        let inc = if v == 4 { 1 } else { 0 };
        mesh.vertices[v] = Vertex::new(mesh.vertices[v].point, inc);
    }
    assert!(!mesh.assert_mesh_validity(None));
}

#[test]
fn scenario_square_insertion() {
    let mut tri = Triangulation2D::default();
    assert_eq!(tri.add_point(v3(0., 0., 0.), orient), Ok(1));
    assert_eq!(tri.add_point(v3(5., 5., 0.), orient), Ok(2));
    assert_eq!(tri.add_point(v3(5., 0., 0.), orient), Ok(3));

    // the bootstrap: one real triangle, three ghosts closing the hull
    assert_eq!(tri.mesh.triangles.len(), 4);
    assert_eq!(real_triangles(&tri.mesh), 1);
    let os = orients_of(&tri.mesh);
    assert!(tri.mesh.assert_mesh_validity(Some(&os)));

    // the fourth point lies outside the hull and extends it
    assert_eq!(tri.add_point(v3(0., 5., 0.), orient), Ok(4));
    assert_eq!(real_triangles(&tri.mesh), 2);
    for v in 1..=4 {
        let inc = tri.mesh.vertices[v].incident_tri;
        assert!(tri.mesh.is_tri_id_valid(inc));
        assert!(tri.mesh.triangles[inc].id_of_v(v).is_valid());
    }
    let os = orients_of(&tri.mesh);
    assert!(tri.mesh.assert_mesh_validity(Some(&os)));
}

#[test]
fn scenario_collinear_point_is_unsupported() {
    let mut tri = Triangulation2D::default();
    tri.add_point(v3(0., 0., 0.), orient).unwrap();
    tri.add_point(v3(2., 0., 0.), orient).unwrap();
    tri.add_point(v3(1., 1., 0.), orient).unwrap();
    let vertices_before = tri.mesh.vertices.len();
    let triangles_before = tri.mesh.triangles.len();

    // exactly on the hull edge (0,0)-(2,0): Flat classification
    let r = tri.add_point(v3(1., 0., 0.), orient);
    assert_eq!(r, Err(MeshError::UnsupportedEdgeSplit));
    assert_eq!(tri.mesh.vertices.len(), vertices_before);
    assert_eq!(tri.mesh.triangles.len(), triangles_before);
    assert!(tri.mesh.assert_mesh_validity(Some(&orients_of(&tri.mesh))));
}

#[test]
fn scenario_edge_flip_audit() {
    let mut tri = Triangulation2D::default();
    tri.add_point(v3(0., 0., 0.), orient).unwrap();
    tri.add_point(v3(5., 5., 0.), orient).unwrap();
    tri.add_point(v3(5., 0., 0.), orient).unwrap();
    tri.add_point(v3(0., 5., 0.), orient).unwrap();

    // find the diagonal shared by the two real triangles
    let mesh = &mut tri.mesh;
    let mut flip: Option<(usize, TriIt, (usize, usize))> = None;
    for t in 0..mesh.triangles.len() {
        if mesh.triangles[t].is_infinite() {
            continue;
        }
        for k in 0..3u8 {
            let e = LocalId::new(k as i8);
            let a = mesh.triangles[t].adjacent[e.id()];
            if mesh.is_tri_id_valid(a) && !mesh.triangles[a].is_infinite() {
                flip = Some((t, e, mesh.triangles[t].get_edge(e)));
                break;
            }
        }
        if flip.is_some() {
            break;
        }
    }
    let (t, e, old_diagonal) = flip.expect("two real triangles must share the diagonal");
    let other = mesh.triangles[t].adjacent[e.id()];

    let vertices_before = mesh.vertices.len();
    let triangles_before = mesh.triangles.len();
    assert!(mesh.check_edge_flip_pre(t, e));
    mesh.edge_flip(t, e);

    assert_eq!(mesh.vertices.len(), vertices_before);
    assert_eq!(mesh.triangles.len(), triangles_before);
    let new_diagonal = mesh.triangles[t].get_edge(mesh.triangles[t].id_of_t(other));
    // the shared edge now joins the other two corners of the quadrilateral
    assert!(new_diagonal.0 != old_diagonal.0 && new_diagonal.0 != old_diagonal.1);
    let os = orients_of(mesh);
    assert!(mesh.assert_mesh_validity(Some(&os)));
}

#[test]
fn fan_closure_around_every_vertex() {
    let mut tri = Triangulation2D::default();
    tri.add_point(v3(0., 0., 0.), orient).unwrap();
    tri.add_point(v3(5., 5., 0.), orient).unwrap();
    tri.add_point(v3(5., 0., 0.), orient).unwrap();
    tri.add_point(v3(0., 5., 0.), orient).unwrap();
    let mesh = &tri.mesh;

    for v in 0..mesh.vertices.len() {
        let begin = mesh.face_it(v);
        let mut it = begin;
        let mut steps = 0usize;
        loop {
            it = it.next(mesh).expect("faces should be circular");
            steps += 1;
            assert!(steps <= mesh.triangles.len(), "fan did not close");
            if it == begin {
                break;
            }
        }
        // stepping backwards closes the same ring
        let mut back = begin;
        let mut back_steps = 0usize;
        loop {
            back = back.prev(mesh).expect("faces should be circular");
            back_steps += 1;
            if back == begin {
                break;
            }
        }
        assert_eq!(steps, back_steps);
    }
}

#[test]
fn face_cursor_reports_position() {
    let mut tri = Triangulation2D::default();
    tri.add_point(v3(0., 0., 0.), orient).unwrap();
    tri.add_point(v3(2., 0., 0.), orient).unwrap();
    tri.add_point(v3(1., 1., 0.), orient).unwrap();
    let mesh = &tri.mesh;
    let it = mesh.face_it(1);
    assert_eq!(it.get_tri_id(), mesh.vertices[1].incident_tri);
    assert!(it.get_tri(mesh).id_of_v(1).is_valid());
    let made = FaceIt::new(2, INFINITE);
    assert_eq!(made.get_tri_id(), 2);
}

#[test]
fn euler_relation_on_growing_mesh() {
    let points = [
        (0., 0.),
        (10., 0.),
        (5., 8.),
        (5., 3.),
        (2., 2.),
        (7., 2.),
        (5., 12.),
    ];
    let mut tri = Triangulation2D::default();
    for (x, y) in points.iter() {
        tri.add_point(v3(*x, *y, 0.), orient).unwrap();
        let n_real_vertices = tri.mesh.vertices.len() - 1;
        if n_real_vertices >= 3 {
            let h = tri.mesh.triangles.iter().filter(|t| t.is_infinite()).count();
            let real = real_triangles(&tri.mesh);
            assert_eq!(real, 2 * n_real_vertices - 2 - h);
            assert_eq!(tri.mesh.triangles.len(), 2 * tri.mesh.vertices.len() - 4);
            let os = orients_of(&tri.mesh);
            assert!(tri.mesh.assert_mesh_validity(Some(&os)));
        }
    }
}

#[test]
fn session_advances_one_point_at_a_time() {
    let cloud = vec![
        v3(0., 0., 0.),
        v3(5., 5., 0.),
        v3(5., 0., 0.),
        v3(0., 5., 0.),
    ];
    let mut session = Session::new(cloud, Strategy::Naive);
    assert_eq!(session.cursor, 0);
    let mut exports = 0usize;
    loop {
        match session.compute_next(orient).unwrap() {
            Some(d) => {
                exports += 1;
                assert_eq!(d.vertices.len(), session.triangulation.mesh.vertices.len());
                assert_eq!(d.triangles.len(), session.triangulation.mesh.triangles.len());
            }
            None => break,
        }
    }
    assert_eq!(exports, 4);
    assert_eq!(session.cursor, 4);
    // exhausted session stays put
    assert!(matches!(session.compute_next(orient), Ok(None)));
    assert_eq!(session.cursor, 4);
}

#[test]
fn triangulate_cloud_exports_all_points() {
    let cloud = vec![
        v3(0., 0., 0.),
        v3(5., 5., 0.),
        v3(5., 0., 0.),
        v3(0., 5., 0.),
    ];
    let d = delaunay::session::triangulate_cloud(&cloud, orient).unwrap();
    assert_eq!(d.vertices.len(), 5);
    for (i, p) in cloud.iter().enumerate() {
        assert_eq!(d.vertices[i + 1], *p);
    }
    assert_eq!(d.triangles.len(), 6);
}

#[test]
fn small_clouds_always_triangulate() {
    // below the bootstrap threshold nothing outside is consulted, so the
    // build is owed success: buffered vertices, no triangles yet
    let d = delaunay::session::triangulate_cloud(&vec![], orient).unwrap();
    assert_eq!(d.vertices.len(), 1);
    assert_eq!(d.triangles.len(), 0);
    let d = delaunay::session::triangulate_cloud(&vec![v3(1., 2., 0.)], orient).unwrap();
    assert_eq!(d.vertices.len(), 2);
    assert_eq!(d.triangles.len(), 0);
    let cloud = vec![v3(1., 2., 0.), v3(3., 4., 0.)];
    let d = delaunay::session::triangulate_cloud(&cloud, orient).unwrap();
    assert_eq!(d.vertices.len(), 3);
    assert_eq!(d.triangles.len(), 0);
    assert_eq!(d.vertices[1], cloud[0]);
    assert_eq!(d.vertices[2], cloud[1]);
}

#[test]
fn drawable_mesh_matches_store() {
    let mut tri = Triangulation2D::default();
    tri.add_point(v3(0., 0., 0.), orient).unwrap();
    tri.add_point(v3(2., 0., 0.), orient).unwrap();
    tri.add_point(v3(1., 1., 0.), orient).unwrap();
    let d = DrawableMesh::from_mesh(&tri.mesh);
    assert_eq!(d.vertices.len(), tri.mesh.vertices.len());
    assert_eq!(d.triangles.len(), tri.mesh.triangles.len());
    for t in 0..d.triangles.len() {
        assert_eq!(d.triangles[t], tri.mesh.triangles[t].vertices);
    }
    let empty = DrawableMesh::new();
    assert_eq!(empty.vertices.len(), 0);
    assert_eq!(empty.triangles.len(), 0);
}

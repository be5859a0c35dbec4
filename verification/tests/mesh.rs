use r_flightsim::mesh::{grid_indices, icosphere_topology, merge_mesh, quad_face_indices, subdivide, MeshData};

#[test]
fn quads_become_two_triangles_each() {
    assert_eq!(quad_face_indices(2), vec![0, 1, 2, 0, 2, 3, 4, 5, 6, 4, 6, 7]);
    assert_eq!(quad_face_indices(6).len(), 36);
    assert!(quad_face_indices(0).is_empty());
}

#[test]
fn grid_cells_wind_counter_clockwise() {
    assert_eq!(grid_indices(1, 2), vec![0, 1, 3, 1, 4, 3, 1, 2, 4, 2, 5, 4]);
    let g = grid_indices(3, 4);
    assert_eq!(g.len(), 6 * 3 * 4);
    assert!(g.iter().all(|&i| i < 4 * 5));
    assert!(grid_indices(0, 5).is_empty());
}

#[test]
fn one_triangle_splits_into_four() {
    let (out, pairs) = subdivide(&vec![0, 1, 2], 3);
    assert_eq!(pairs, vec![(0, 1), (1, 2), (0, 2)]);
    assert_eq!(out, vec![0, 3, 5, 1, 4, 3, 2, 5, 4, 3, 4, 5]);
}

#[test]
fn shared_edges_get_one_midpoint() {
    let (out, pairs) = subdivide(&vec![0, 1, 2, 0, 2, 3], 4);
    assert_eq!(pairs, vec![(0, 1), (1, 2), (0, 2), (2, 3), (0, 3)]);
    assert_eq!(out.len(), 24);
    assert_eq!(&out[12..], &[0, 6, 8, 2, 7, 6, 3, 8, 7, 6, 7, 8]);
}

#[test]
fn icosahedron_subdivision_counts() {
    let ico: Vec<u32> = vec![
        0, 11, 5, 0, 5, 1, 0, 1, 7, 0, 7, 10, 0, 10, 11, 1, 5, 9, 5, 11, 4, 11, 10, 2, 10, 7, 6,
        7, 1, 8, 3, 9, 4, 3, 4, 2, 3, 2, 6, 3, 6, 8, 3, 8, 9, 4, 9, 5, 2, 4, 11, 6, 2, 10, 8, 6, 7,
        9, 8, 1,
    ];
    let (out, pairs) = subdivide(&ico, 12);
    // 30 edges, 80 triangles after one level.
    assert_eq!(pairs.len(), 30);
    assert_eq!(out.len(), 240);
    let (out2, pairs2) = subdivide(&out, 42);
    assert_eq!(pairs2.len(), 120);
    assert_eq!(out2.len(), 960);
    assert!(out2.iter().all(|&i| i < 162));
}

#[test]
fn merge_offsets_indices() {
    let mut base = MeshData { vertices: vec!['a', 'b', 'c'], indices: vec![0, 1, 2] };
    let other = MeshData { vertices: vec!['x', 'y', 'z', 'w'], indices: vec![0, 1, 2, 0, 2, 3] };
    merge_mesh(&mut base, &other);
    assert_eq!(base.vertices, vec!['a', 'b', 'c', 'x', 'y', 'z', 'w']);
    assert_eq!(base.indices, vec![0, 1, 2, 3, 4, 5, 3, 5, 6]);
    for (k, &i) in other.indices.iter().enumerate() {
        assert_eq!(base.vertices[base.indices[3 + k] as usize], other.vertices[i as usize]);
    }
}

#[test]
fn icosphere_counts() {
    for n in 0..5u32 {
        let (tris, nv, mids) = icosphere_topology(n);
        let p = 4u32.pow(n);
        assert_eq!(tris.len() as u32, 60 * p);
        assert_eq!(nv, 10 * p + 2);
        assert_eq!(mids.len() as u32, nv - 12);
        assert!(tris.iter().all(|&i| i < nv));
        for (k, &(a, b)) in mids.iter().enumerate() {
            assert!(a < 12 + k as u32 && b < 12 + k as u32 && a < b);
        }
    }
    let (tris, _, mids) = icosphere_topology(0);
    assert_eq!(&tris[..6], &[0, 11, 5, 0, 5, 1]);
    assert!(mids.is_empty());
    let (tris, nv, mids) = icosphere_topology(1);
    assert_eq!(nv, 42);
    // The first triangle (0, 11, 5) splits at the midpoints of 0-11, 11-5 and 5-0.
    assert_eq!(&mids[..3], &[(0, 11), (5, 11), (0, 5)]);
    assert_eq!(&tris[..12], &[0, 12, 14, 11, 13, 12, 5, 14, 13, 12, 13, 14]);
}

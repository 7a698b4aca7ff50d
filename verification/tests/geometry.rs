use swarmframe::geometry::{cube_indices, cube_vertices, Vertex};

#[test]
fn vertex_new_fixes_homogeneous_coordinate() {
    let v = Vertex::new([-1, -1, 1], [0, 1]);
    assert_eq!(v.pos, [-1, -1, 1, 1]);
    assert_eq!(v.tex_coord, [0, 1]);
    let w = Vertex::new([127, -128, 0], [1, 0]);
    assert_eq!(w.pos, [127, -128, 0, 1]);
}

#[test]
fn cube_has_four_vertices_per_face() {
    let v = cube_vertices();
    assert_eq!(v.len(), 24);
    for vert in &v {
        assert_eq!(vert.pos[3], 1);
        for c in 0..3 {
            assert!(vert.pos[c] == 1 || vert.pos[c] == -1);
        }
    }
    // The first face is the top of the cube.
    assert_eq!(v[0].pos, [-1, -1, 1, 1]);
    assert_eq!(v[2].pos, [1, 1, 1, 1]);
}

#[test]
fn cube_indices_draw_two_triangles_per_face() {
    let idx = cube_indices();
    assert_eq!(
        idx,
        vec![
            0, 1, 2, 2, 3, 0, //
            4, 5, 6, 6, 7, 4, //
            8, 9, 10, 10, 11, 8, //
            12, 13, 14, 14, 15, 12, //
            16, 17, 18, 18, 19, 16, //
            20, 21, 22, 22, 23, 20,
        ]
    );
    assert!(idx.iter().all(|&i| i < 24));
}

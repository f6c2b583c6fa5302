use voxel_mesher::cubemesh::{translation, Face, Vertex, INDICES};

fn vertex(px: i32, py: i32, pz: i32, u: i32, v: i32) -> Vertex {
    Vertex { position: [px, py, pz, 1], tex_coords: [u, v] }
}

#[test]
fn index_pattern_is_two_triangles() {
    assert_eq!(INDICES, [0u32, 1, 2, 0, 2, 3]);
}

#[test]
fn north_template() {
    assert_eq!(
        Face::North.template(),
        [vertex(1, 0, 1, 1, 0), vertex(1, 1, 1, 1, 1), vertex(0, 1, 1, 0, 1), vertex(0, 0, 1, 0, 0)]
    );
}

#[test]
fn south_template() {
    assert_eq!(
        Face::South.template(),
        [vertex(0, 0, 0, 0, 0), vertex(0, 1, 0, 0, 1), vertex(1, 1, 0, 1, 1), vertex(1, 0, 0, 1, 0)]
    );
}

#[test]
fn east_template() {
    assert_eq!(
        Face::East.template(),
        [vertex(1, 1, 0, 0, 1), vertex(1, 0, 0, 0, 0), vertex(1, 0, 1, 1, 0), vertex(1, 1, 1, 1, 1)]
    );
}

#[test]
fn west_template() {
    assert_eq!(
        Face::West.template(),
        [vertex(0, 0, 0, 1, 0), vertex(0, 1, 0, 1, 1), vertex(0, 1, 1, 0, 1), vertex(0, 0, 1, 0, 0)]
    );
}

#[test]
fn top_template() {
    assert_eq!(
        Face::Top.template(),
        [vertex(0, 1, 0, 0, 0), vertex(0, 1, 1, 0, 1), vertex(1, 1, 1, 1, 1), vertex(1, 1, 0, 1, 0)]
    );
}

#[test]
fn bottom_template() {
    assert_eq!(
        Face::Bottom.template(),
        [vertex(0, 0, 0, 0, 1), vertex(0, 0, 1, 0, 0), vertex(1, 0, 1, 1, 0), vertex(1, 0, 0, 1, 1)]
    );
}

#[test]
fn every_template_lies_on_its_face_of_the_unit_cube() {
    let faces = [
        (Face::East, 0usize, 1i32),
        (Face::West, 0, 0),
        (Face::Top, 1, 1),
        (Face::Bottom, 1, 0),
        (Face::North, 2, 1),
        (Face::South, 2, 0),
    ];
    for (face, axis, plane) in faces {
        let quad = face.template();
        for (i, v) in quad.iter().enumerate() {
            assert_eq!(v.position[axis], plane);
            assert_eq!(v.position[3], 1);
            for c in 0usize..3 {
                assert!(v.position[c] == 0 || v.position[c] == 1);
            }
            for c in 0usize..2 {
                assert!(v.tex_coords[c] == 0 || v.tex_coords[c] == 1);
            }
            for w in quad.iter().skip(i + 1) {
                assert_ne!(v.position, w.position);
                assert_ne!(v.tex_coords, w.tex_coords);
            }
        }
    }
}

#[test]
fn translation_is_the_column_major_matrix() {
    assert_eq!(
        translation(3, 5, 7),
        [[1, 0, 0, 0], [0, 1, 0, 0], [0, 0, 1, 0], [3, 5, 7, 1]]
    );
    assert_eq!(
        translation(0, 0, 0),
        [[1, 0, 0, 0], [0, 1, 0, 0], [0, 0, 1, 0], [0, 0, 0, 1]]
    );
}

#[test]
fn transform_by_translation_moves_the_position() {
    let mut v = vertex(1, 0, 1, 1, 0);
    v.transform(translation(3, 5, 7));
    assert_eq!(v, vertex(4, 5, 8, 1, 0));
}

#[test]
fn transform_by_identity_keeps_the_vertex() {
    let mut v = Vertex { position: [4, -2, 9, 1], tex_coords: [0, 1] };
    v.transform(translation(0, 0, 0));
    assert_eq!(v, Vertex { position: [4, -2, 9, 1], tex_coords: [0, 1] });
}

#[test]
fn transform_multiplies_rows_across_columns() {
    let mat: [[i32; 4]; 4] = [[1, 2, 3, 4], [5, 6, 7, 8], [9, 10, 11, 12], [13, 14, 15, 16]];
    let mut v = Vertex { position: [1, 10, 100, 1000], tex_coords: [1, 1] };
    v.transform(mat);
    assert_eq!(
        v.position,
        [
            1 + 5 * 10 + 9 * 100 + 13 * 1000,
            2 + 6 * 10 + 10 * 100 + 14 * 1000,
            3 + 7 * 10 + 11 * 100 + 15 * 1000,
            4 + 8 * 10 + 12 * 100 + 16 * 1000
        ]
    );
    assert_eq!(v.tex_coords, [1, 1]);
}

#[test]
fn transform_scales_with_w() {
    let mut v = Vertex { position: [1, 1, 1, 2], tex_coords: [0, 0] };
    v.transform(translation(10, 20, 30));
    assert_eq!(v.position, [21, 41, 61, 2]);
}

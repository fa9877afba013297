use tri_terrain::error::TerrainError;
use tri_terrain::height_field::{
    map_noise_to_height, noise_window, HeightField, NoiseWindow, BOUND_FACTOR, FIELD_SIDE,
    HEIGHT_MAX, HEIGHT_MIN, NOISE_MAX, NOISE_MIN, WINDOW_PIXELS, WINDOW_STEP_X, WINDOW_STEP_Y,
};
use tri_terrain::mesh::{
    calculate_normal, create_chunk_data, generate_assignments, generate_colors, generate_mesh,
    generate_normals_from_trimesh, generate_vertices_3s, vertex_color, ChunkMesh, Color, Normal,
    Vertex, COORDINATE_LIMIT, TRIANGLES_PER_CHUNK, VERTICES_PER_CHUNK,
};
use tri_terrain::tricoord::{
    halfsides_altitude_to_tricoord, Coord, TriCoord, TRI_ALTITUDE, TRI_HALFSIDE, TRI_HALF_ALT,
    TRI_SIDE, WORLD_UNIT,
};

fn sample_at(row: usize, col: usize) -> i32 {
    (row as i32) * 1_000_000 + (col as i32) * 1_000 + 7
}

fn numbered_field(rows: usize, cols: usize) -> HeightField {
    let mut samples = Vec::new();
    for row in 0..rows {
        for col in 0..cols {
            samples.push(sample_at(row, col));
        }
    }
    HeightField::new(rows, cols, samples).unwrap()
}

fn flat_field() -> HeightField {
    HeightField::new(33, 33, vec![0; 33 * 33]).unwrap()
}

fn vertex_on(row: i64, col: i64) -> Vertex {
    Vertex {
        x: (col - 16) * TRI_HALFSIDE,
        y: 100 * sample_at(row as usize, col as usize) as i64,
        z: (row - 16) * TRI_HALF_ALT,
    }
}

#[test]
fn height_field_takes_exactly_its_samples() {
    let field = HeightField::new(2, 3, vec![1, 2, 3, 4, 5, 6]).unwrap();
    assert_eq!(field.row_count(), 2);
    assert_eq!(field.col_count(), 3);
    assert_eq!(field.sample(0, 0), Ok(1));
    assert_eq!(field.sample(0, 2), Ok(3));
    assert_eq!(field.sample(1, 0), Ok(4));
    assert_eq!(field.sample(1, 2), Ok(6));
}

#[test]
fn height_field_refuses_a_wrong_count() {
    assert_eq!(
        HeightField::new(2, 3, vec![1, 2, 3, 4, 5]).err(),
        Some(TerrainError::SampleCount { expected_rows: 2, expected_cols: 3, found: 5 })
    );
    assert_eq!(
        HeightField::new(33, 33, Vec::new()).err(),
        Some(TerrainError::SampleCount { expected_rows: 33, expected_cols: 33, found: 0 })
    );
    assert_eq!(
        HeightField::new(usize::MAX, 2, vec![0]).err(),
        Some(TerrainError::SampleCount { expected_rows: usize::MAX, expected_cols: 2, found: 1 })
    );
    assert!(HeightField::new(0, 5, Vec::new()).is_ok());
}

#[test]
fn sample_outside_the_field_is_named() {
    let field = numbered_field(33, 33);
    assert_eq!(field.sample(32, 32), Ok(sample_at(32, 32)));
    assert_eq!(field.sample(33, 0), Err(TerrainError::OutsideField { row: 33, col: 0 }));
    assert_eq!(field.sample(0, 33), Err(TerrainError::OutsideField { row: 0, col: 33 }));
    assert_eq!(
        field.sample(usize::MAX, usize::MAX),
        Err(TerrainError::OutsideField { row: usize::MAX, col: usize::MAX })
    );
}

#[test]
fn noise_maps_linearly_to_height() {
    assert_eq!(NOISE_MIN, 0);
    assert_eq!(NOISE_MAX, WORLD_UNIT);
    assert_eq!(HEIGHT_MIN, 0);
    assert_eq!(HEIGHT_MAX, 100 * WORLD_UNIT);
    assert_eq!(map_noise_to_height(0), 0);
    assert_eq!(map_noise_to_height(1_000_000_000), 100_000_000_000);
    assert_eq!(map_noise_to_height(500_000_000), 50_000_000_000);
    assert_eq!(map_noise_to_height(-250_000_000), -25_000_000_000);
    assert_eq!(map_noise_to_height(1), 100);
    assert_eq!(map_noise_to_height(i32::MAX), 214_748_364_700);
    assert_eq!(map_noise_to_height(i32::MIN), -214_748_364_800);
}

#[test]
fn window_of_the_chunk_at_the_origin() {
    assert_eq!(WINDOW_PIXELS, 33);
    assert_eq!(WINDOW_STEP_X, 16);
    assert_eq!(WINDOW_STEP_Y, 32);
    assert_eq!(BOUND_FACTOR, 50_000_000);
    assert_eq!(
        noise_window(&TriCoord { a: 0, b: 0, c: 0 }),
        NoiseWindow { lower_x: 0, upper_x: 33, lower_y: -33, upper_y: 0 }
    );
}

#[test]
fn window_follows_the_chunk() {
    assert_eq!(
        noise_window(&halfsides_altitude_to_tricoord(3, 0)),
        NoiseWindow { lower_x: 48, upper_x: 81, lower_y: -33, upper_y: 0 }
    );
    assert_eq!(
        noise_window(&halfsides_altitude_to_tricoord(-2, 5)),
        NoiseWindow { lower_x: -32, upper_x: 1, lower_y: 127, upper_y: 160 }
    );
    assert_eq!(
        noise_window(&TriCoord { a: i16::MIN, b: i16::MIN, c: i16::MAX }),
        NoiseWindow {
            lower_x: 65535 * 16,
            upper_x: 65535 * 16 + 33,
            lower_y: -32768 * 32 - 33,
            upper_y: -32768 * 32
        }
    );
}

#[test]
fn drawing_order_as_it_comes_for_orientation_zero() {
    let order = generate_assignments(false);
    assert_eq!(order.len(), 768);
    for (place, &vertex) in order.iter().enumerate() {
        assert_eq!(vertex as usize, place);
    }
}

#[test]
fn drawing_order_swaps_two_corners_for_orientation_one() {
    let order = generate_assignments(true);
    assert_eq!(order.len(), 768);
    assert_eq!(&order[0..6], &[1, 0, 2, 4, 3, 5]);
    assert_eq!(&order[765..768], &[766, 765, 767]);
    let mut seen = vec![false; 768];
    for &vertex in &order {
        assert!(!seen[vertex as usize]);
        seen[vertex as usize] = true;
    }
}

#[test]
fn mesh_counts() {
    assert_eq!(FIELD_SIDE, 33);
    assert_eq!(TRIANGLES_PER_CHUNK, 256);
    assert_eq!(VERTICES_PER_CHUNK, 3 * TRIANGLES_PER_CHUNK);
    for odd in [false, true] {
        let vertices = generate_vertices_3s(&flat_field(), odd).unwrap();
        assert_eq!(vertices.len(), 768);
    }
}

#[test]
fn first_triangles_of_orientation_zero() {
    let vertices = generate_vertices_3s(&numbered_field(33, 33), false).unwrap();
    // row 0, triangle 0 stands on its base: left, right, far corner
    assert_eq!(vertices[0], vertex_on(32, 0));
    assert_eq!(vertices[1], vertex_on(32, 2));
    assert_eq!(vertices[2], vertex_on(30, 1));
    // row 0, triangle 1 stands on its tip: near, far right, far left corner
    assert_eq!(vertices[3], vertex_on(32, 2));
    assert_eq!(vertices[4], vertex_on(30, 3));
    assert_eq!(vertices[5], vertex_on(30, 1));
    // the first vertex by its numbers
    assert_eq!(
        vertices[0],
        Vertex { x: -8_000_000_000, y: 100 * 32_000_007, z: 6_928_203_232 }
    );
}

#[test]
fn first_triangles_of_orientation_one() {
    let vertices = generate_vertices_3s(&numbered_field(33, 33), true).unwrap();
    assert_eq!(vertices[0], vertex_on(0, 0));
    assert_eq!(vertices[1], vertex_on(0, 2));
    assert_eq!(vertices[2], vertex_on(2, 1));
    assert_eq!(vertices[3], vertex_on(0, 2));
    assert_eq!(vertices[4], vertex_on(2, 3));
    assert_eq!(vertices[5], vertex_on(2, 1));
    assert_eq!(vertices[0], Vertex { x: -8_000_000_000, y: 700, z: -6_928_203_232 });
}

#[test]
fn last_triangle_is_the_tip_of_the_chunk() {
    let even = generate_vertices_3s(&numbered_field(33, 33), false).unwrap();
    assert_eq!(even[765], vertex_on(2, 15));
    assert_eq!(even[766], vertex_on(2, 17));
    assert_eq!(even[767], vertex_on(0, 16));
    let odd = generate_vertices_3s(&numbered_field(33, 33), true).unwrap();
    assert_eq!(odd[765], vertex_on(30, 15));
    assert_eq!(odd[766], vertex_on(30, 17));
    assert_eq!(odd[767], vertex_on(32, 16));
}

#[test]
fn rows_start_where_the_rows_before_end() {
    let vertices = generate_vertices_3s(&numbered_field(33, 33), true).unwrap();
    for row in 0..16i64 {
        let start = (3 * row * (32 - row)) as usize;
        assert_eq!(vertices[start], vertex_on(2 * row, row));
        let last = start + (3 * (31 - 2 * row)) as usize - 3;
        assert_eq!(vertices[last + 1], vertex_on(2 * row, 32 - row));
    }
}

#[test]
fn larger_field_fails_the_build() {
    let tall = numbered_field(40, 33);
    assert_eq!(
        generate_vertices_3s(&tall, false).err(),
        Some(TerrainError::FieldSize { rows: 40, cols: 33 })
    );
    let wide = numbered_field(33, 34);
    assert_eq!(
        generate_vertices_3s(&wide, true).err(),
        Some(TerrainError::FieldSize { rows: 33, cols: 34 })
    );
    let large = numbered_field(40, 40);
    let origin = TriCoord { a: 0, b: 0, c: 0 };
    assert_eq!(
        generate_mesh(&origin, &large).err(),
        Some(TerrainError::FieldSize { rows: 40, cols: 40 })
    );
    assert_eq!(
        create_chunk_data(origin, &large).err(),
        Some(TerrainError::FieldSize { rows: 40, cols: 40 })
    );
}

#[test]
fn field_of_the_same_count_in_another_shape_fails_the_build() {
    // 1089 samples, as the window has, but not 33 by 33
    let strip = numbered_field(11, 99);
    assert_eq!(
        generate_vertices_3s(&strip, false).err(),
        Some(TerrainError::FieldSize { rows: 11, cols: 99 })
    );
    let column = numbered_field(1089, 1);
    assert_eq!(
        generate_mesh(&TriCoord { a: 0, b: 0, c: 1 }, &column).err(),
        Some(TerrainError::FieldSize { rows: 1089, cols: 1 })
    );
}

#[test]
fn smaller_field_fails_the_build() {
    let low = numbered_field(32, 33);
    assert_eq!(
        generate_vertices_3s(&low, false).err(),
        Some(TerrainError::FieldSize { rows: 32, cols: 33 })
    );
    let narrow = numbered_field(33, 32);
    assert_eq!(
        generate_vertices_3s(&narrow, true).err(),
        Some(TerrainError::FieldSize { rows: 33, cols: 32 })
    );
    let origin = TriCoord { a: 0, b: 0, c: 0 };
    assert_eq!(
        generate_mesh(&origin, &narrow).err(),
        Some(TerrainError::FieldSize { rows: 33, cols: 32 })
    );
    assert_eq!(
        create_chunk_data(origin, &numbered_field(0, 0)).err(),
        Some(TerrainError::FieldSize { rows: 0, cols: 0 })
    );
}

#[test]
fn normal_is_the_cross_product_of_the_edges() {
    let v0 = Vertex { x: 1, y: 2, z: 3 };
    let v1 = Vertex { x: 4, y: 6, z: 8 };
    let v2 = Vertex { x: -2, y: 5, z: 10 };
    // edges (3, 4, 5) and (-3, 3, 7)
    assert_eq!(calculate_normal(v0, v1, v2), Normal { x: 13, y: -36, z: 21 });
    assert_eq!(calculate_normal(v1, v0, v2), Normal { x: -13, y: 36, z: -21 });
    assert_eq!(calculate_normal(v0, v0, v2), Normal { x: 0, y: 0, z: 0 });
}

#[test]
fn normal_of_the_largest_triangle_in_range() {
    let v0 = Vertex { x: -COORDINATE_LIMIT, y: -COORDINATE_LIMIT, z: -COORDINATE_LIMIT };
    let v1 = Vertex { x: COORDINATE_LIMIT, y: -COORDINATE_LIMIT, z: -COORDINATE_LIMIT };
    let v2 = Vertex { x: -COORDINATE_LIMIT, y: -COORDINATE_LIMIT, z: COORDINATE_LIMIT };
    let side = 2 * COORDINATE_LIMIT as i128;
    assert_eq!(calculate_normal(v0, v1, v2), Normal { x: 0, y: -side * side, z: 0 });
}

#[test]
fn normals_come_in_threes() {
    let vertices = vec![
        Vertex { x: 0, y: 0, z: 0 },
        Vertex { x: 2, y: 0, z: 0 },
        Vertex { x: 0, y: 0, z: -3 },
        Vertex { x: 0, y: 5, z: 0 },
        Vertex { x: 1, y: 5, z: 0 },
        Vertex { x: 0, y: 6, z: 0 },
        Vertex { x: 9, y: 9, z: 9 },
    ];
    let even = generate_normals_from_trimesh(&vertices, false);
    assert_eq!(even.len(), 6);
    assert_eq!(even[0], Normal { x: 0, y: 6, z: 0 });
    assert_eq!(even[1], even[0]);
    assert_eq!(even[2], even[0]);
    assert_eq!(even[3], Normal { x: 0, y: 0, z: 1 });
    assert_eq!(even[5], even[3]);
    let odd = generate_normals_from_trimesh(&vertices, true);
    assert_eq!(odd.len(), 6);
    assert_eq!(odd[0], Normal { x: 0, y: -6, z: 0 });
    assert_eq!(odd[4], Normal { x: 0, y: 0, z: -1 });
    assert!(generate_normals_from_trimesh(&vertices[0..2].to_vec(), false).is_empty());
}

#[test]
fn every_face_looks_up() {
    let lift = TRI_SIDE as i128 * TRI_ALTITUDE as i128;
    assert_eq!(lift, 866_025_404_000_000_000);
    for (address, field) in [
        (TriCoord { a: 0, b: 0, c: 0 }, flat_field()),
        (TriCoord { a: 0, b: 0, c: 1 }, flat_field()),
        (TriCoord { a: 0, b: 0, c: 0 }, numbered_field(33, 33)),
        (TriCoord { a: 0, b: 1, c: 0 }, numbered_field(33, 33)),
    ] {
        let mesh = generate_mesh(&address, &field).unwrap();
        assert_eq!(mesh.normals.len(), 768);
        for normal in &mesh.normals {
            assert_eq!(normal.y, lift);
        }
    }
}

#[test]
fn flat_ground_has_upright_normals() {
    let mesh = generate_mesh(&TriCoord { a: 0, b: 0, c: 1 }, &flat_field()).unwrap();
    for normal in &mesh.normals {
        assert_eq!(*normal, Normal { x: 0, y: 866_025_404_000_000_000, z: 0 });
    }
}

#[test]
fn normals_follow_the_drawing_order() {
    for address in [TriCoord { a: 0, b: 0, c: 0 }, TriCoord { a: 1, b: 0, c: 0 }] {
        let mesh = generate_mesh(&address, &numbered_field(33, 33)).unwrap();
        for face in 0..256 {
            let corner = |k: usize| mesh.positions[mesh.indices[3 * face + k] as usize];
            let normal = calculate_normal(corner(0), corner(1), corner(2));
            for k in 0..3 {
                assert_eq!(mesh.normals[3 * face + k], normal);
            }
        }
    }
}

#[test]
fn tint_falls_and_rises_with_the_position() {
    assert_eq!(
        vertex_color(Vertex { x: 0, y: 0, z: 0 }),
        Color { r: WORLD_UNIT, g: WORLD_UNIT, b: WORLD_UNIT, a: WORLD_UNIT }
    );
    assert_eq!(
        vertex_color(Vertex { x: 250_000_000, y: 123, z: -500_000_000 }),
        Color { r: 1_500_000_000, g: 750_000_000, b: 1_250_000_000, a: WORLD_UNIT }
    );
    assert_eq!(
        vertex_color(Vertex { x: 3 * WORLD_UNIT, y: 0, z: 2 * WORLD_UNIT }),
        Color { r: 0, g: 0, b: 4 * WORLD_UNIT, a: WORLD_UNIT }
    );
    assert_eq!(
        vertex_color(Vertex { x: -3 * WORLD_UNIT, y: 0, z: WORLD_UNIT }),
        Color { r: 0, g: 4 * WORLD_UNIT, b: 0, a: WORLD_UNIT }
    );
    assert_eq!(
        vertex_color(Vertex { x: -WORLD_UNIT, y: 0, z: WORLD_UNIT + 1 }),
        Color { r: 0, g: 2 * WORLD_UNIT, b: 0, a: WORLD_UNIT }
    );
}

#[test]
fn tint_at_the_ends_of_the_range() {
    assert_eq!(
        vertex_color(Vertex { x: i64::MAX - WORLD_UNIT, y: i64::MIN, z: i64::MAX }),
        Color { r: 0, g: 0, b: i64::MAX, a: WORLD_UNIT }
    );
    assert_eq!(
        vertex_color(Vertex { x: WORLD_UNIT - i64::MAX, y: i64::MAX, z: WORLD_UNIT - i64::MAX }),
        Color { r: i64::MAX, g: i64::MAX, b: 0, a: WORLD_UNIT }
    );
}

#[test]
fn tints_of_a_list_of_vertices() {
    let vertices =
        vec![Vertex { x: 0, y: 5, z: 0 }, Vertex { x: WORLD_UNIT, y: 0, z: -WORLD_UNIT }];
    assert_eq!(
        generate_colors(&vertices),
        vec![
            Color { r: WORLD_UNIT, g: WORLD_UNIT, b: WORLD_UNIT, a: WORLD_UNIT },
            Color { r: 2 * WORLD_UNIT, g: 0, b: 2 * WORLD_UNIT, a: WORLD_UNIT }
        ]
    );
    assert!(generate_colors(&Vec::new()).is_empty());
}

#[test]
fn mesh_of_a_chunk_is_whole() {
    let field = numbered_field(33, 33);
    for address in [TriCoord { a: 0, b: 0, c: 0 }, TriCoord { a: 0, b: 0, c: 1 }] {
        let odd = address.c == 1;
        let mesh: ChunkMesh = generate_mesh(&address, &field).unwrap();
        assert_eq!(mesh.positions, generate_vertices_3s(&field, odd).unwrap());
        assert_eq!(mesh.normals, generate_normals_from_trimesh(&mesh.positions, odd));
        assert_eq!(mesh.indices, generate_assignments(odd));
        assert_eq!(mesh.colors, generate_colors(&mesh.positions));
        assert_eq!(mesh.positions.len(), 3 * TRIANGLES_PER_CHUNK);
        assert_eq!(mesh.indices.len(), 3 * TRIANGLES_PER_CHUNK);
    }
}

#[test]
fn orientation_is_read_off_the_sum_of_the_axes() {
    let field = numbered_field(33, 33);
    let even = generate_mesh(&TriCoord { a: -3, b: 5, c: -2 }, &field).unwrap();
    assert_eq!(even.indices[0], 0);
    let odd = generate_mesh(&TriCoord { a: -3, b: 5, c: -1 }, &field).unwrap();
    assert_eq!(odd.indices[0], 1);
    let stray = generate_mesh(&TriCoord { a: 1, b: 1, c: 1 }, &field).unwrap();
    assert_eq!(stray.indices[0], 1);
    assert_eq!(stray.positions, odd.positions);
}

#[test]
fn same_chunk_same_mesh() {
    let field = numbered_field(33, 33);
    let address = TriCoord { a: 2, b: -1, c: 0 };
    let first = create_chunk_data(address, &field).unwrap();
    let second = create_chunk_data(address, &field).unwrap();
    assert_eq!(first.tricoord, second.tricoord);
    assert_eq!(first.xy_coord, second.xy_coord);
    assert_eq!(first.mesh.positions, second.mesh.positions);
    assert_eq!(first.mesh.normals, second.mesh.normals);
    assert_eq!(first.mesh.indices, second.mesh.indices);
    assert_eq!(first.mesh.colors, second.mesh.colors);
}

#[test]
fn chunk_data_carries_address_and_anchor() {
    let address = halfsides_altitude_to_tricoord(-3, 2);
    let data = create_chunk_data(address, &flat_field()).unwrap();
    assert_eq!(data.tricoord, address);
    assert_eq!(data.xy_coord, Coord { z: 2 * 13_856_406_461, x: -24_000_000_000 });
    assert_eq!(data.mesh.positions.len(), 768);
}

#[test]
fn neighbours_across_a_slanted_edge_meet_exactly() {
    // the chunk at the origin and its neighbour half a side to the right
    let left = create_chunk_data(halfsides_altitude_to_tricoord(0, 0), &flat_field()).unwrap();
    let right =
        create_chunk_data(halfsides_altitude_to_tricoord(1, 0), &numbered_field(33, 33)).unwrap();
    let place = |data: &tri_terrain::mesh::ChunkData, v: &Vertex| {
        (data.xy_coord.x + v.x, data.xy_coord.z + v.z)
    };
    let mut shared = 0;
    for row in 0..=16i64 {
        // on the edge: x = 8 - row / 2, z = 6.928203232 - row * 0.866025404
        let spot = (8 * WORLD_UNIT - row * TRI_HALFSIDE, (16 - 2 * row) * TRI_HALF_ALT);
        let on_left = left.mesh.positions.iter().any(|v| place(&left, v) == spot);
        let on_right = right.mesh.positions.iter().any(|v| place(&right, v) == spot);
        assert!(on_left);
        assert!(on_right);
        shared += 1;
    }
    assert_eq!(shared, 17);
}

#[test]
fn neighbours_across_a_level_edge_meet_within_a_hair() {
    // the chunk at the origin and the one an altitude above it share the
    // line z = 6.928...; the chunk altitude and sixteen triangle altitudes
    // differ in the ninth decimal, and so do the two sides of the seam
    let below = create_chunk_data(halfsides_altitude_to_tricoord(0, 0), &flat_field()).unwrap();
    let above = create_chunk_data(halfsides_altitude_to_tricoord(0, 1), &flat_field()).unwrap();
    let tolerance = 10;
    for col in 0..=32i64 {
        let x = (col - 16) * TRI_HALFSIDE;
        let z_below = below
            .mesh
            .positions
            .iter()
            .filter(|v| below.xy_coord.x + v.x == x)
            .map(|v| below.xy_coord.z + v.z)
            .max()
            .unwrap();
        let z_above = above
            .mesh
            .positions
            .iter()
            .filter(|v| above.xy_coord.x + v.x == x)
            .map(|v| above.xy_coord.z + v.z)
            .min()
            .unwrap();
        if col % 2 == 0 {
            assert!((z_below - z_above).abs() <= tolerance);
            assert_eq!(z_below, 16 * TRI_HALF_ALT);
            assert_eq!(z_above, 13_856_406_461 - 16 * TRI_HALF_ALT);
        }
    }
}

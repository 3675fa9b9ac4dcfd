use zeus::cube::cube_indices;
use zeus::terrain::{
    create_mesh, generate_index_buffer, store_last, store_left_triangle, store_quad,
    store_second_last, store_top_section, Corner, GridSquare, MeshCorner,
};
use zeus::water::{generate_water, get_corner_pos, get_indicators, GridPos};

fn point(c: &MeshCorner) -> (usize, usize) {
    match c.corner {
        Corner::TopLeft => (c.row, c.col),
        Corner::BottomLeft => (c.row + 1, c.col),
        Corner::TopRight => (c.row, c.col + 1),
        Corner::BottomRight => (c.row + 1, c.col + 1),
    }
}

#[test]
fn index_buffer_of_smallest_grid() {
    let indices = generate_index_buffer(3);
    assert_eq!(
        indices,
        vec![0, 4, 1, 1, 4, 5, 2, 5, 6, 3, 2, 6, 4, 7, 8, 8, 5, 4, 5, 8, 6, 9, 6, 8]
    );
}

#[test]
fn mesh_of_smallest_grid() {
    let mesh = create_mesh(3);
    let points: Vec<(usize, usize)> = mesh.iter().map(point).collect();
    assert_eq!(
        points,
        vec![(0, 0), (0, 1), (0, 1), (0, 2), (1, 0), (1, 1), (1, 2), (2, 0), (2, 1), (2, 2)]
    );
    assert_eq!(mesh[0], MeshCorner { row: 0, col: 0, corner: Corner::TopLeft });
    assert_eq!(mesh[6], MeshCorner { row: 1, col: 1, corner: Corner::TopRight });
    assert_eq!(mesh[7], MeshCorner { row: 1, col: 0, corner: Corner::BottomLeft });
    assert_eq!(mesh[9], MeshCorner { row: 1, col: 1, corner: Corner::BottomRight });
}

#[test]
fn mesh_of_two_points_a_side() {
    let mesh = create_mesh(2);
    assert_eq!(mesh.len(), 4);
    let points: Vec<(usize, usize)> = mesh.iter().map(point).collect();
    assert_eq!(points, vec![(0, 0), (0, 1), (1, 0), (1, 1)]);
}

#[test]
fn index_buffer_names_the_corners_of_each_square() {
    for vc in 3..9usize {
        let indices = generate_index_buffer(vc);
        let mesh = create_mesh(vc);
        let n = vc - 1;
        assert_eq!(indices.len(), 6 * n * n);
        assert_eq!(mesh.len(), 2 * n * n + 2);
        for row in 0..n {
            for col in 0..n {
                let base = 6 * (row * n + col);
                let q: Vec<MeshCorner> =
                    (0..6).map(|k| mesh[indices[base + k] as usize]).collect();
                let tl = (row, col);
                let tr = (row, col + 1);
                let bl = (row + 1, col);
                let br = (row + 1, col + 1);
                let rh = col % 2 != row % 2;
                let expected = if row + 2 == vc {
                    [tl, bl, if rh { br } else { tr }, br, tr, if rh { tl } else { bl }]
                } else {
                    [tl, bl, if rh { br } else { tr }, tr, if rh { tl } else { bl }, br]
                };
                for k in 0..6 {
                    assert_eq!(point(&q[k]), expected[k]);
                }
                assert_eq!(q[0], MeshCorner { row, col, corner: Corner::TopLeft });
                assert_eq!((q[3].row, q[3].col), (row, col));
                assert!(matches!(q[3].corner, Corner::TopRight | Corner::BottomRight));
            }
        }
    }
}

#[test]
fn quad_writers_touch_only_their_slots() {
    let mut buf = vec![99u32; 8];
    let next = store_quad(&mut buf, 1, false, 10, 11, 12, 13);
    assert_eq!(next, 7);
    assert_eq!(buf, vec![99, 10, 12, 11, 11, 12, 13, 99]);
    let mut buf = vec![0u32; 3];
    assert_eq!(store_left_triangle(&mut buf, 0, true, 1, 2, 3, 4), 3);
    assert_eq!(buf, vec![1, 3, 4]);
}

#[test]
fn grid_square_pushes() {
    let mut buf = Vec::new();
    GridSquare::new(1, 0, 3).push_vertex_data(&mut buf);
    assert_eq!(buf, vec![MeshCorner { row: 1, col: 0, corner: Corner::TopLeft }]);
    GridSquare::new(0, 0, 3).push_vertex_data(&mut buf);
    assert_eq!(buf.len(), 3);
    GridSquare::new(1, 0, 3).push_bottom_data(&mut buf);
    GridSquare::new(1, 1, 3).push_bottom_data(&mut buf);
    assert_eq!(buf.len(), 6);
    assert_eq!(buf[3].corner, Corner::BottomLeft);
    assert_eq!(buf[5], MeshCorner { row: 1, col: 1, corner: Corner::BottomRight });
}

#[test]
fn water_of_one_square() {
    let verts = generate_water(1);
    let pos: Vec<(u32, u32)> = verts.iter().map(|v| (v.pos.x, v.pos.y)).collect();
    assert_eq!(pos, vec![(0, 0), (0, 1), (1, 0), (1, 0), (0, 1), (1, 1)]);
    assert_eq!(verts[0].indicators, [0, 1, 1, 0]);
    assert_eq!(verts[1].indicators, [1, -1, 0, -1]);
    assert_eq!(verts[5].indicators, [0, -1, -1, 0]);
}

#[test]
fn water_indicators_point_to_the_triangle() {
    let size = 4;
    let verts = generate_water(size);
    assert_eq!(verts.len(), 6 * size * size);
    for v in 0..verts.len() {
        let base = v - v % 3;
        let next = base + (v % 3 + 1) % 3;
        let after = base + (v % 3 + 2) % 3;
        let p = verts[v].pos;
        let ind = verts[v].indicators;
        assert_eq!(p.x as i64 + ind[0] as i64, verts[next].pos.x as i64);
        assert_eq!(p.y as i64 + ind[1] as i64, verts[next].pos.y as i64);
        assert_eq!(p.x as i64 + ind[2] as i64, verts[after].pos.x as i64);
        assert_eq!(p.y as i64 + ind[3] as i64, verts[after].pos.y as i64);
    }
    let square = 6 * (2 * size + 3);
    assert_eq!((verts[square].pos.x, verts[square].pos.y), (3, 2));
}

#[test]
fn corner_positions_and_offsets() {
    let corners = get_corner_pos(5, 7);
    assert_eq!(
        corners,
        [
            GridPos { x: 5, y: 7 },
            GridPos { x: 5, y: 8 },
            GridPos { x: 6, y: 7 },
            GridPos { x: 6, y: 8 }
        ]
    );
    assert_eq!(get_indicators(corners, 3, 0, 2), [-1, -1, 0, -1]);
}

#[test]
fn cube_has_twelve_triangles_on_eight_corners() {
    let indices = cube_indices();
    assert_eq!(&indices[..6], &[0, 1, 2, 0, 2, 3]);
    assert_eq!(&indices[30..], &[5, 4, 7, 5, 7, 6]);
    assert!(indices.iter().all(|&i| i < 8));
    for t in 0..12 {
        let tri = &indices[3 * t..3 * t + 3];
        assert!(tri[0] != tri[1] && tri[1] != tri[2] && tri[0] != tri[2]);
    }
}

#[test]
fn sixteen_bit_cuboid_indices() {
    let indices = zeus::cuboid::cube_indices();
    assert_eq!(&indices[..6], &[0, 1, 2, 0, 3, 2]);
    assert_eq!(&indices[30..], &[5, 4, 7, 5, 6, 7]);
    assert!(indices.iter().all(|&i| i < 8));
}

#[test]
fn row_writers_work_on_any_buffer_with_room() {
    let mut indices = vec![99u32; 24];
    store_last(&mut indices, 12, 4, 3);
    assert_eq!(&indices[..12], &[99u32; 12]);
    assert_eq!(&indices[12..], &[4, 7, 8, 8, 5, 4, 5, 8, 6, 9, 6, 8]);

    let mut indices = vec![99u32; 14];
    let next = store_second_last(&mut indices, 1, 4, 3);
    assert_eq!(next, 13);
    assert_eq!(indices[0], 99);
    assert_eq!(&indices[1..13], &[0, 4, 1, 1, 4, 5, 2, 5, 6, 3, 2, 6]);
    assert_eq!(indices[13], 99);

    let full = generate_index_buffer(4);
    let mut top = vec![7u32; 20];
    let end = store_top_section(&mut top, 6, 4);
    assert_eq!(end, 18);
    assert_eq!(&top[..18], &full[..18]);
    assert_eq!(&top[18..], &[7, 7]);
    let mut empty: Vec<u32> = Vec::new();
    assert_eq!(store_top_section(&mut empty, 4, 3), 0);
}

#[test]
fn mesh_of_one_point_is_empty() {
    assert!(create_mesh(1).is_empty());
}

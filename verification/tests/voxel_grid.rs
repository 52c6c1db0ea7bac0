use orbital_viewer::voxel_grid::{cube_faces, grid_indices, voxel_coords, CUBE_CORNERS, GRID_CELLS};

#[test]
fn grid_indices_count_up() {
    assert_eq!(grid_indices(5), vec![0, 1, 2, 3, 4]);
    assert!(grid_indices(0).is_empty());
    let all = grid_indices(GRID_CELLS);
    assert_eq!(all.len(), 1_000_000);
    assert_eq!(all[999_999], 999_999);
}

#[test]
fn coordinates_of_cells() {
    assert_eq!(voxel_coords(0), (0, 0, 0));
    assert_eq!(voxel_coords(123_456), (56, 34, 12));
    assert_eq!(voxel_coords(999_999), (99, 99, 99));
    assert_eq!(voxel_coords(100), (0, 1, 0));
    assert_eq!(voxel_coords(1_000_000), (0, 0, 100));
    for i in [1usize, 99, 101, 9_999, 10_000, 543_210] {
        let (x, y, z) = voxel_coords(i);
        assert_eq!(x + 100 * y + 10_000 * z, i);
        assert!(x < 100 && y < 100 && z < 100);
    }
}

#[test]
fn one_cube_has_twelve_triangles() {
    let f = cube_faces(8);
    assert_eq!(f, CUBE_CORNERS.to_vec());
    assert_eq!(
        f,
        vec![4, 2, 0, 2, 7, 3, 6, 5, 7, 1, 7, 5, 0, 3, 1, 4, 1, 5, 4, 6, 2, 2, 6, 7, 6, 4, 5, 1, 3, 7, 0, 2, 3, 4, 0, 1]
    );
}

#[test]
fn later_cubes_are_offset_by_eight_vertices() {
    let f = cube_faces(17);
    assert_eq!(f.len(), 72);
    for j in 0..36 {
        assert_eq!(f[36 + j], 8 + CUBE_CORNERS[j]);
    }
    assert!(f.iter().all(|&v| v < 16));
    assert!(cube_faces(7).is_empty());
    assert!(cube_faces(0).is_empty());
}

#[test]
fn each_cube_triangle_is_proper_and_all_corners_are_used() {
    for t in CUBE_CORNERS.chunks(3) {
        assert!(t[0] != t[1] && t[1] != t[2] && t[0] != t[2]);
    }
    for c in 0..8u32 {
        assert!(CUBE_CORNERS.contains(&c));
    }
}

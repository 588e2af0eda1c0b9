use cadsd::dwm::mesh_index_2d;
use cadsd::dwm::mesh_index_3d;
use cadsd::fdtd::grid_coords;
use cadsd::fdtd::grid_index;

#[test]
fn test_fdtd_index_mapping() {
    // A 4 x 4 x 4 grid.
    assert_eq!(grid_index(4, 4, 0, 0, 0), 0);
    assert_eq!(grid_index(4, 4, 1, 0, 0), 16);
    assert_eq!(grid_index(4, 4, 0, 1, 0), 4);
    assert_eq!(grid_index(4, 4, 0, 0, 1), 1);
}

#[test]
fn fdtd_coords_invert_the_index() {
    let (ny, nz) = (5, 3);
    for x in 0..4 {
        for y in 0..ny {
            for z in 0..nz {
                let i = grid_index(ny, nz, x, y, z);
                assert_eq!(grid_coords(ny, nz, i), (x, y, z));
            }
        }
    }
    assert_eq!(grid_coords(16, 16, 16 * 16 * 8 + 16 * 9 + 7), (8, 9, 7));
}

#[test]
fn mesh_indices_put_x_fastest() {
    assert_eq!(mesh_index_2d(10, 3, 2), 23);
    assert_eq!(mesh_index_2d(10, 0, 0), 0);
    assert_eq!(mesh_index_3d(4, 5, 1, 2, 3), 1 + 2 * 4 + 3 * 4 * 5);
    let mut seen = vec![false; 4 * 5 * 6];
    for z in 0..6 {
        for y in 0..5 {
            for x in 0..4 {
                let i = mesh_index_3d(4, 5, x, y, z);
                assert!(!seen[i]);
                seen[i] = true;
            }
        }
    }
    assert!(seen.iter().all(|&s| s));
}

use voxel_mesher::grid::{VoxelGrid, CHUNK_SIZE, MAX_EDGE};

#[test]
fn new_grid_is_empty_everywhere() {
    let grid = VoxelGrid::new(4);
    assert_eq!(grid.edge(), 4);
    for x in -1i32..5 {
        for y in -1i32..5 {
            for z in -1i32..5 {
                assert_eq!(grid.get(x, y, z), 0);
            }
        }
    }
}

#[test]
fn filled_grid_holds_code_inside_and_zero_outside() {
    let grid = VoxelGrid::filled(3, 7);
    for x in -2i32..6 {
        for y in -2i32..6 {
            for z in -2i32..6 {
                let inside = (0..3).contains(&x) && (0..3).contains(&y) && (0..3).contains(&z);
                let expected: i8 = if inside { 7 } else { 0 };
                assert_eq!(grid.get(x, y, z), expected);
            }
        }
    }
}

#[test]
fn boundary_is_open_whatever_the_contents() {
    for edge in [0usize, 1, 2, 5, 32] {
        for code in [0i8, 1, -1, 127, -128] {
            let grid = VoxelGrid::filled(edge, code);
            let n: i32 = edge as i32;
            assert_eq!(grid.get(-1, 0, 0), 0);
            assert_eq!(grid.get(0, -1, 0), 0);
            assert_eq!(grid.get(0, 0, -1), 0);
            assert_eq!(grid.get(n, 0, 0), 0);
            assert_eq!(grid.get(0, n, 0), 0);
            assert_eq!(grid.get(0, 0, n), 0);
            assert_eq!(grid.get(i32::MIN, i32::MIN, i32::MIN), 0);
            assert_eq!(grid.get(i32::MAX, i32::MAX, i32::MAX), 0);
            assert_eq!(grid.get(i32::MAX, 0, 0), 0);
            assert_eq!(grid.get(0, i32::MIN, 0), 0);
        }
    }
}

#[test]
fn set_then_get_reads_the_code_back() {
    let mut grid = VoxelGrid::new(4);
    grid.set(1, 2, 3, 9);
    assert_eq!(grid.get(1, 2, 3), 9);
    grid.set(1, 2, 3, -4);
    assert_eq!(grid.get(1, 2, 3), -4);
    grid.set(1, 2, 3, 0);
    assert_eq!(grid.get(1, 2, 3), 0);
}

#[test]
fn set_changes_one_cell_only() {
    let mut grid = VoxelGrid::filled(3, 1);
    grid.set(2, 0, 1, 5);
    for x in 0i32..3 {
        for y in 0i32..3 {
            for z in 0i32..3 {
                let expected: i8 = if (x, y, z) == (2, 0, 1) { 5 } else { 1 };
                assert_eq!(grid.get(x, y, z), expected);
            }
        }
    }
}

#[test]
fn set_tells_the_three_axes_apart() {
    let mut grid = VoxelGrid::new(3);
    grid.set(1, 0, 0, 1);
    grid.set(0, 1, 0, 2);
    grid.set(0, 0, 1, 3);
    assert_eq!(grid.get(1, 0, 0), 1);
    assert_eq!(grid.get(0, 1, 0), 2);
    assert_eq!(grid.get(0, 0, 1), 3);
    assert_eq!(grid.get(0, 0, 0), 0);
}

#[test]
fn set_outside_the_grid_changes_nothing() {
    let mut grid = VoxelGrid::filled(2, 1);
    grid.set(-1, 0, 0, 9);
    grid.set(0, 2, 0, 9);
    grid.set(0, 0, i32::MAX, 9);
    grid.set(i32::MIN, 1, 1, 9);
    for x in -1i32..3 {
        for y in -1i32..3 {
            for z in -1i32..3 {
                let inside = (0..2).contains(&x) && (0..2).contains(&y) && (0..2).contains(&z);
                let expected: i8 = if inside { 1 } else { 0 };
                assert_eq!(grid.get(x, y, z), expected);
            }
        }
    }
}

#[test]
fn grid_of_edge_zero_has_no_cell() {
    let mut grid = VoxelGrid::filled(0, 1);
    assert_eq!(grid.edge(), 0);
    assert_eq!(grid.get(0, 0, 0), 0);
    grid.set(0, 0, 0, 1);
    assert_eq!(grid.get(0, 0, 0), 0);
}

#[test]
fn edge_constants() {
    assert_eq!(CHUNK_SIZE, 32);
    assert_eq!(MAX_EDGE, 512);
    assert!(24u64 * (MAX_EDGE as u64).pow(3) <= u32::MAX as u64);
}

use terrain::grid::{
    grid_coords, region_corners, sample_point, sample_points, slope_window, ChunkCoord, SamplePoint,
    CHUNK_SIZE, CHUNK_SQSIZE,
};
use terrain::mesh::{triangle_indices, INDEX_COUNT};

fn at(x: i32, y: i32) -> ChunkCoord {
    ChunkCoord { x, y }
}

#[test]
fn grid_coords_split_row_major_indices() {
    assert_eq!(grid_coords(0), (0, 0));
    assert_eq!(grid_coords(63), (63, 0));
    assert_eq!(grid_coords(64), (0, 1));
    assert_eq!(grid_coords(4095), (63, 63));
}

#[test]
fn sample_points_place_samples_in_the_world() {
    assert_eq!(
        sample_point(at(1, 0), 0),
        SamplePoint { local_x: 0, local_y: 0, world_x: 63, world_y: 0 }
    );
    assert_eq!(
        sample_point(at(-2, 3), 5 + 7 * 64),
        SamplePoint { local_x: 5, local_y: 7, world_x: -121, world_y: 196 }
    );
    let far = sample_point(at(i32::MIN, i32::MAX), 4095);
    assert_eq!(far.world_x, i32::MIN as i64 * 63 + 63);
    assert_eq!(far.world_y, i32::MAX as i64 * 63 + 63);
}

#[test]
fn sample_points_are_a_function_of_the_coordinate() {
    let a = sample_points(at(4, -9));
    let b = sample_points(at(4, -9));
    assert_eq!(a.len(), CHUNK_SQSIZE);
    assert_eq!(a, b);
    for (i, s) in a.iter().enumerate() {
        assert_eq!(*s, sample_point(at(4, -9), i));
    }
    assert_ne!(a, sample_points(at(4, -8)));
}

#[test]
fn neighbouring_chunks_share_their_border_samples() {
    let a = sample_points(at(0, 0));
    let right = sample_points(at(1, 0));
    let below = sample_points(at(0, 1));
    for k in 0..CHUNK_SIZE {
        let last_col = a[CHUNK_SIZE - 1 + k * CHUNK_SIZE];
        let first_col = right[k * CHUNK_SIZE];
        assert_eq!((last_col.world_x, last_col.world_y), (first_col.world_x, first_col.world_y));
        let last_row = a[k + (CHUNK_SIZE - 1) * CHUNK_SIZE];
        let first_row = below[k];
        assert_eq!((last_row.world_x, last_row.world_y), (first_row.world_x, first_row.world_y));
    }
    let corners = region_corners(at(0, 0));
    assert_eq!(corners[1], region_corners(at(1, 0))[0]);
    assert_eq!(corners[2], region_corners(at(0, 1))[0]);
    assert_eq!(corners[3], region_corners(at(1, 1))[0]);
}

#[test]
fn region_corners_scale_by_chunk_size() {
    assert_eq!(region_corners(at(2, -1)), [(128, -64), (192, -64), (128, 0), (192, 0)]);
    let edge = region_corners(at(i32::MAX, i32::MAX));
    assert_eq!(edge[3], ((i32::MAX as i64 + 1) * 64, (i32::MAX as i64 + 1) * 64));
}

#[test]
fn slope_window_excludes_the_far_border() {
    assert_eq!(slope_window(0), Some([0, 1, 64, 65]));
    assert_eq!(slope_window(65), Some([65, 66, 129, 130]));
    assert_eq!(slope_window(63), None);
    assert_eq!(slope_window(63 * 64), None);
    assert_eq!(slope_window(4095), None);
    assert_eq!(slope_window(62 + 62 * 64), Some([4030, 4031, 4094, 4095]));
    let interior = (0..CHUNK_SQSIZE).filter(|&i| slope_window(i).is_some()).count();
    assert_eq!(interior, 63 * 63);
}

#[test]
fn triangle_indices_cover_each_cell_with_two_triangles() {
    let idx = triangle_indices();
    assert_eq!(idx.len(), INDEX_COUNT);
    assert_eq!(INDEX_COUNT, 6 * 63 * 63);
    assert_eq!(&idx[0..6], &[1, 0, 64, 1, 64, 65]);
    assert_eq!(&idx[6..12], &[2, 1, 65, 2, 65, 66]);
    // Second row of cells starts at vertex 64.
    assert_eq!(&idx[6 * 63..6 * 63 + 6], &[65, 64, 128, 65, 128, 129]);
    assert_eq!(&idx[INDEX_COUNT - 6..], &[4031, 4030, 4094, 4031, 4094, 4095]);
}

#[test]
fn every_vertex_is_used_by_a_triangle() {
    let idx = triangle_indices();
    let mut used = vec![false; CHUNK_SQSIZE];
    for &v in &idx {
        assert!((v as usize) < CHUNK_SQSIZE);
        used[v as usize] = true;
    }
    assert!(used.iter().all(|&u| u));
    assert_eq!(idx, triangle_indices());
}

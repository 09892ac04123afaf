use voxel_chunks::position::BlockPosition;
use voxel_chunks::position::ChunkBlockPosition;
use voxel_chunks::position::ChunkPosition;
use voxel_chunks::position::Distance;

#[test]
fn block_position_splits_into_chunk_section_and_offset() {
    let p = BlockPosition::new(35, 70, -1);
    assert_eq!(p.get_chunk_position(), ChunkPosition::new(2, -1));
    let (section, local) = p.get_block_position();
    assert_eq!(section, 4);
    assert_eq!(local, ChunkBlockPosition::new(3, 6, 15));
}

#[test]
fn negative_coordinates_round_towards_the_floor() {
    let p = BlockPosition::new(-16, -1, -17);
    assert_eq!(p.get_chunk_position(), ChunkPosition::new(-1, -2));
    let (section, local) = p.get_block_position();
    assert_eq!(section, -1);
    assert_eq!(local, ChunkBlockPosition::new(0, 15, 15));
}

#[test]
fn origin_block_is_first_cell_of_first_section() {
    let p = BlockPosition::new(0, 0, 0);
    assert_eq!(p.get_chunk_position(), ChunkPosition::new(0, 0));
    let (section, local) = p.get_block_position();
    assert_eq!(section, 0);
    assert_eq!(local.linearize(), 0);
}

#[test]
fn offset_index_runs_x_then_y_then_z() {
    assert_eq!(ChunkBlockPosition::new(1, 0, 0).linearize(), 1);
    assert_eq!(ChunkBlockPosition::new(0, 1, 0).linearize(), 16);
    assert_eq!(ChunkBlockPosition::new(0, 0, 1).linearize(), 256);
    assert_eq!(ChunkBlockPosition::new(15, 15, 15).linearize(), 4095);
}

#[test]
fn distance_is_the_squared_euclidean_distance() {
    let a = ChunkPosition::new(3, -4);
    let d = a.get_distance(&ChunkPosition::new(0, 0));
    assert_eq!(d, Distance { high: false, low: 25 });
    let e = ChunkPosition::new(1, 1).get_distance(&ChunkPosition::new(-2, 5));
    assert_eq!(e, Distance { high: false, low: 25 });
    assert!(!d.is_less(&e));
    assert!(d.is_at_most(&e));
}

#[test]
fn distance_between_the_farthest_coordinates_does_not_overflow() {
    let a = ChunkPosition::new(i64::MIN, i64::MIN);
    let b = ChunkPosition::new(i64::MAX, i64::MAX);
    let d = a.get_distance(&b);
    // 2 * (2^64 - 1)^2 = 2^129 - 2^66 + 2
    assert!(d.high);
    assert_eq!(d.low, u128::MAX - (1u128 << 66) + 3);
    let near = a.get_distance(&ChunkPosition::new(i64::MIN + 1, i64::MIN));
    assert_eq!(near, Distance { high: false, low: 1 });
    assert!(near.is_less(&d));
    assert!(!d.is_less(&near));
}

#[test]
fn offset_outside_the_coordinate_range_is_none() {
    let edge = ChunkPosition::new(i64::MAX, 0);
    assert_eq!(edge.offset(1, 0), None);
    assert_eq!(edge.offset(-1, 0), Some(ChunkPosition::new(i64::MAX - 1, 0)));
    assert_eq!(ChunkPosition::new(0, i64::MIN).offset(0, -1), None);
}

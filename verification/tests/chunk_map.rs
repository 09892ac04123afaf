use voxel_chunks::block::BlockContent;
use voxel_chunks::block::BlockDataInfo;
use voxel_chunks::block::BlockStorage;
use voxel_chunks::block::BlockType;
use voxel_chunks::block::TextureMapper;
use voxel_chunks::block::VoxelVisibility;
use voxel_chunks::chunk_data::ChunkData;
use voxel_chunks::chunk_data::SectionData;
use voxel_chunks::chunk_generator::generate_chunk;
use voxel_chunks::chunk_generator::run_chunk_job;
use voxel_chunks::chunk_generator::GeneratedChunk;
use voxel_chunks::chunk_section::ColliderAction;
use voxel_chunks::chunks_map::loading_count;
use voxel_chunks::chunks_map::ChunkMap;
use voxel_chunks::chunks_map::CreateError;
use voxel_chunks::chunks_map::EditError;
use voxel_chunks::chunks_map::UnloadError;
use voxel_chunks::chunks_map::LIMIT_CHUNK_LOADING_AT_A_TIME;
use voxel_chunks::chunks_map::MAX_CHUNKS_SPAWN_PER_FRAME;
use voxel_chunks::position::BlockPosition;
use voxel_chunks::position::ChunkBlockPosition;
use voxel_chunks::position::ChunkPosition;
use voxel_chunks::store_state::ChunkStage;

const STONE: u16 = 1;
const CHEST: u16 = 5;

fn registry() -> BlockStorage {
    let mut storage = BlockStorage::new();
    storage.insert(STONE, BlockType::new(VoxelVisibility::Opaque, BlockContent::Texture));
    storage.insert(CHEST, BlockType::new(VoxelVisibility::Empty, BlockContent::ModelCube));
    storage
}

fn atlas() -> TextureMapper {
    let mut mapper = TextureMapper::new();
    for side in 0..6u8 {
        mapper.set_uv_offset(STONE, side, 7);
    }
    mapper
}

fn air() -> ChunkData {
    let mut data = Vec::new();
    for _ in 0..8 {
        data.push(SectionData::new());
    }
    data
}

fn with_block(section: usize, x: u8, y: u8, z: u8, id: u16) -> ChunkData {
    let mut data = air();
    data[section].insert(&ChunkBlockPosition::new(x, y, z), Some(BlockDataInfo::create(id, None)));
    data
}

fn pos(x: i64, z: i64) -> ChunkPosition {
    ChunkPosition::new(x, z)
}

fn add_air(map: &mut ChunkMap, center: ChunkPosition, x: i64, z: i64) {
    assert_eq!(map.create_chunk_column(center, pos(x, z), air()), Ok(()));
}

fn add_neighbors(map: &mut ChunkMap, center: ChunkPosition, x: i64, z: i64) {
    for (dx, dz) in [(-1, 0), (1, 0), (0, -1), (0, 1)] {
        if map.get_chunk(&pos(x + dx, z + dz)).is_none() {
            add_air(map, center, x + dx, z + dz);
        }
    }
}

fn sorted(mut keys: Vec<(i64, i64, usize)>) -> Vec<(i64, i64, usize)> {
    keys.sort();
    keys
}

#[test]
fn new_store_is_empty_with_the_usual_limits() {
    let map = ChunkMap::create();
    assert_eq!(LIMIT_CHUNK_LOADING_AT_A_TIME, 16);
    assert_eq!(MAX_CHUNKS_SPAWN_PER_FRAME, 6);
    assert_eq!(map.get_loaded_chunks_count(), 0);
    assert_eq!(map.get_waiting_chunks_count(), 0);
    assert_eq!(map.get_loading_chunks_count(), 0);
    assert!(map.iter().is_empty());
    assert!(map.chunks_to_update().is_empty());
    assert_eq!(map.get_stage(&pos(0, 0)), None);
}

#[test]
fn duplicate_column_is_rejected() {
    let mut map = ChunkMap::create();
    add_air(&mut map, pos(0, 0), 2, 3);
    assert_eq!(
        map.create_chunk_column(pos(0, 0), pos(2, 3), with_block(0, 1, 1, 1, STONE)),
        Err(CreateError::AlreadyExists)
    );
    assert_eq!(map.get_waiting_chunks_count(), 1);
    let column = map.get_chunk(&pos(2, 3)).unwrap();
    assert_eq!(column.get_block_info(&BlockPosition::new(33, 1, 49)), None);
}

#[test]
fn empty_data_is_rejected() {
    let mut map = ChunkMap::create();
    assert_eq!(
        map.create_chunk_column(pos(0, 0), pos(1, 1), Vec::new()),
        Err(CreateError::EmptyData)
    );
    assert!(map.get_chunk(&pos(1, 1)).is_none());
    assert_eq!(map.get_waiting_chunks_count(), 0);
}

#[test]
fn duplicate_is_reported_before_empty_data() {
    let mut map = ChunkMap::create();
    add_air(&mut map, pos(0, 0), 1, 1);
    assert_eq!(
        map.create_chunk_column(pos(0, 0), pos(1, 1), Vec::new()),
        Err(CreateError::AlreadyExists)
    );
}

#[test]
fn short_column_is_filled_up_with_air() {
    let mut map = ChunkMap::create();
    let mut data = Vec::new();
    let mut section = SectionData::new();
    section.insert(&ChunkBlockPosition::new(0, 0, 0), Some(BlockDataInfo::create(STONE, None)));
    data.push(section);
    assert_eq!(map.create_chunk_column(pos(0, 0), pos(0, 0), data), Ok(()));
    let column = map.get_chunk(&pos(0, 0)).unwrap();
    assert_eq!(
        column.get_block_info(&BlockPosition::new(0, 0, 0)),
        Some(BlockDataInfo::create(STONE, None))
    );
    assert_eq!(column.get_block_info(&BlockPosition::new(0, 127, 0)), None);
    assert!(column.get_section_data(7).is_air());
    assert!(!column.get_section_data(0).is_air());
}

#[test]
fn column_waits_until_all_four_neighbors_are_present() {
    let mut map = ChunkMap::create();
    let center = pos(0, 0);
    add_air(&mut map, center, 0, 0);
    assert_eq!(map.get_stage(&pos(0, 0)), Some(ChunkStage::Waiting));
    add_air(&mut map, center, -1, 0);
    add_air(&mut map, center, 1, 0);
    add_air(&mut map, center, 0, -1);
    map.update_loading_queue();
    assert_eq!(map.get_stage(&pos(0, 0)), Some(ChunkStage::Waiting));
    assert_eq!(map.get_waiting_chunks_count(), 4);
    add_air(&mut map, center, 0, 1);
    assert_eq!(map.get_stage(&pos(0, 0)), Some(ChunkStage::Admitted));
    assert_eq!(map.loading_chunks(), &vec![pos(0, 0)]);
    assert_eq!(map.get_waiting_chunks_count(), 4);
    for (x, z) in [(-1, 0), (1, 0), (0, -1), (0, 1)] {
        assert_eq!(map.get_stage(&pos(x, z)), Some(ChunkStage::Waiting));
    }
}

#[test]
fn admission_does_not_depend_on_the_order_of_arrival() {
    let orders: [[(i64, i64); 5]; 3] = [
        [(0, 0), (1, 0), (-1, 0), (0, 1), (0, -1)],
        [(0, -1), (0, 1), (0, 0), (-1, 0), (1, 0)],
        [(1, 0), (-1, 0), (0, 1), (0, -1), (0, 0)],
    ];
    for order in orders {
        let mut map = ChunkMap::create();
        for (x, z) in order {
            add_air(&mut map, pos(0, 0), x, z);
        }
        assert_eq!(map.loading_chunks(), &vec![pos(0, 0)]);
        assert_eq!(map.get_waiting_chunks_count(), 4);
    }
}

#[test]
fn diagonal_neighbors_do_not_count() {
    let mut map = ChunkMap::create();
    add_air(&mut map, pos(0, 0), 0, 0);
    for (x, z) in [(-1, -1), (1, 1), (-1, 1), (1, -1)] {
        add_air(&mut map, pos(0, 0), x, z);
    }
    assert_eq!(map.get_stage(&pos(0, 0)), Some(ChunkStage::Waiting));
    assert!(map.loading_chunks().is_empty());
}

#[test]
fn waiting_columns_are_ordered_by_distance_to_the_center() {
    let mut map = ChunkMap::create();
    let center = pos(10, 10);
    add_air(&mut map, center, 0, 0);
    add_air(&mut map, center, 10, 12);
    add_air(&mut map, center, 7, 10);
    add_air(&mut map, center, 10, 10);
    assert_eq!(map.waiting_chunks(), &vec![pos(10, 10), pos(10, 12), pos(7, 10), pos(0, 0)]);
    // a new center orders them anew
    add_air(&mut map, pos(0, 0), 1, 0);
    assert_eq!(
        map.waiting_chunks(),
        &vec![pos(0, 0), pos(1, 0), pos(7, 10), pos(10, 10), pos(10, 12)]
    );
}

#[test]
fn updating_the_loading_queue_twice_changes_nothing_more() {
    let mut map = ChunkMap::create();
    add_air(&mut map, pos(0, 0), 0, 0);
    add_neighbors(&mut map, pos(0, 0), 0, 0);
    add_air(&mut map, pos(0, 0), 5, 5);
    map.update_loading_queue();
    let waiting = map.waiting_chunks().clone();
    let loading = map.loading_chunks().clone();
    map.update_loading_queue();
    assert_eq!(map.waiting_chunks(), &waiting);
    assert_eq!(map.loading_chunks(), &loading);
    assert_eq!(loading, vec![pos(0, 0)]);
}

fn three_in_a_row(load_limit: usize) -> ChunkMap {
    let mut map = ChunkMap::with_limits(load_limit, 6);
    let center = pos(0, 0);
    for (x, z) in [(0, 0), (4, 0), (1, 1), (1, -1), (2, 1), (2, -1), (3, 1), (3, -1)] {
        add_air(&mut map, center, x, z);
    }
    assert!(map.loading_chunks().is_empty());
    // the farthest arrives first
    add_air(&mut map, center, 3, 0);
    add_air(&mut map, center, 1, 0);
    add_air(&mut map, center, 2, 0);
    map
}

#[test]
fn load_limit_two_sends_the_two_closest_columns() {
    let mut map = three_in_a_row(2);
    assert_eq!(map.loading_chunks(), &vec![pos(1, 0), pos(2, 0), pos(3, 0)]);
    let jobs = map.send_chunks_to_load(&registry());
    assert_eq!(jobs.len(), 2);
    assert_eq!(jobs[0].chunk_position, pos(1, 0));
    assert_eq!(jobs[1].chunk_position, pos(2, 0));
    assert_eq!(map.get_stage(&pos(1, 0)), Some(ChunkStage::Generating));
    assert_eq!(map.get_stage(&pos(2, 0)), Some(ChunkStage::Generating));
    assert_eq!(map.get_stage(&pos(3, 0)), Some(ChunkStage::Admitted));
    assert_eq!(map.loading_chunks(), &vec![pos(3, 0)]);
    assert_eq!(map.generating_chunks(), &vec![pos(1, 0), pos(2, 0)]);
}

#[test]
fn no_more_columns_are_in_the_making_than_the_limit() {
    let mut map = three_in_a_row(2);
    let jobs = map.send_chunks_to_load(&registry());
    assert_eq!(jobs.len(), 2);
    // both places are taken: the third column has to wait
    assert!(map.send_chunks_to_load(&registry()).is_empty());
    assert_eq!(map.get_stage(&pos(3, 0)), Some(ChunkStage::Admitted));
    // a result comes back and frees a place
    let done = run_chunk_job(&jobs[1], &atlas(), &registry());
    assert!(map.attach_generated(done).is_some());
    assert_eq!(map.generating_chunks(), &vec![pos(1, 0)]);
    let more = map.send_chunks_to_load(&registry());
    assert_eq!(more.len(), 1);
    assert_eq!(more[0].chunk_position, pos(3, 0));
    assert_eq!(map.generating_chunks(), &vec![pos(1, 0), pos(3, 0)]);
    assert!(map.send_chunks_to_load(&registry()).is_empty());
    assert!(map.loading_chunks().is_empty());
}

#[test]
fn unloading_a_column_in_the_making_frees_its_place() {
    let mut map = three_in_a_row(2);
    let jobs = map.send_chunks_to_load(&registry());
    assert_eq!(jobs.len(), 2);
    assert_eq!(map.unload_chunk(pos(1, 0)), Ok(Vec::new()));
    assert_eq!(map.generating_chunks(), &vec![pos(2, 0)]);
    // (2, 0) lost its neighbour (1, 0), but it is in the making already; (3, 0) still has
    // all of its neighbours
    let more = map.send_chunks_to_load(&registry());
    assert_eq!(more.len(), 1);
    assert_eq!(more[0].chunk_position, pos(3, 0));
}

#[test]
fn load_limit_zero_sends_nothing() {
    let mut map = three_in_a_row(0);
    assert!(map.send_chunks_to_load(&registry()).is_empty());
    assert_eq!(map.loading_chunks().len(), 3);
}

#[test]
fn admitted_column_that_lost_a_neighbor_stays_queued() {
    let mut map = three_in_a_row(2);
    assert_eq!(map.unload_chunk(pos(1, 1)), Ok(Vec::new()));
    let jobs = map.send_chunks_to_load(&registry());
    assert_eq!(jobs.len(), 2);
    assert_eq!(jobs[0].chunk_position, pos(2, 0));
    assert_eq!(jobs[1].chunk_position, pos(3, 0));
    assert_eq!(map.get_stage(&pos(1, 0)), Some(ChunkStage::Admitted));
    assert_eq!(map.loading_chunks(), &vec![pos(1, 0)]);
    // the neighbour comes back, and a result frees a place in the making
    add_air(&mut map, pos(0, 0), 1, 1);
    assert!(map.attach_generated(run_chunk_job(&jobs[0], &atlas(), &registry())).is_some());
    let jobs = map.send_chunks_to_load(&registry());
    assert_eq!(jobs.len(), 1);
    assert_eq!(jobs[0].chunk_position, pos(1, 0));
}

fn lone_block_store() -> ChunkMap {
    let mut map = ChunkMap::create();
    let center = pos(0, 0);
    assert_eq!(map.create_chunk_column(center, pos(0, 0), with_block(0, 8, 0, 8, STONE)), Ok(()));
    add_neighbors(&mut map, center, 0, 0);
    map
}

#[test]
fn lone_opaque_block_gives_six_quads_in_its_section_only() {
    let mut map = lone_block_store();
    let jobs = map.send_chunks_to_load(&registry());
    assert_eq!(jobs.len(), 1);
    let job = &jobs[0];
    assert_eq!(job.chunk_position, pos(0, 0));
    // only the section with the block has work
    assert_eq!(job.sections.len(), 1);
    assert_eq!(job.sections[0].y, 0);
    let done = run_chunk_job(job, &atlas(), &registry());
    assert_eq!(done.chunk_position, pos(0, 0));
    assert_eq!(done.sections.len(), 1);
    assert_eq!(done.sections[0].geometry.mesh.face_count(), 6);
    assert_eq!(done.sections[0].geometry.mesh.indices.len(), 36);
    assert!(done.sections[0].geometry.mesh_transparent.is_empty());
    assert_eq!(done.sections[0].geometry.collider.as_ref().unwrap().indices.len(), 12);
    // the block sits at (8, 0, 8): its lowest corner is a vertex
    assert!(done.sections[0].geometry.mesh.verts.contains(&(8, 0, 8)));
    assert!(done.sections[0].geometry.mesh.verts.contains(&(9, 1, 9)));

    assert!(generate_chunk(job, &map.completion_sender(), &atlas(), &registry()).is_ok());
    assert_eq!(map.get_loading_chunks_count(), 1);
    let loaded = map.spawn_loaded_chunks();
    assert_eq!(loaded.len(), 1);
    assert_eq!(loaded[0].chunk_position, pos(0, 0));
    assert_eq!(loaded[0].colliders.len(), 8);
    assert!(matches!(loaded[0].colliders[0], ColliderAction::Create(_)));
    for y in 1..8 {
        assert!(matches!(loaded[0].colliders[y], ColliderAction::Nothing));
    }
    assert_eq!(map.get_stage(&pos(0, 0)), Some(ChunkStage::Active));
    assert_eq!(map.get_loaded_chunks_count(), 1);
    let column = map.get_chunk(&pos(0, 0)).unwrap();
    assert!(column.is_loaded());
    assert_eq!(column.get_chunk_section(0).mesh.face_count(), 6);
    for y in 1..8 {
        assert_eq!(column.get_chunk_section(y).mesh.face_count(), 0);
        assert_eq!(column.get_chunk_section(y).mesh_transparent.face_count(), 0);
    }
}

#[test]
fn block_on_the_border_is_culled_against_the_neighbor_column() {
    let mut map = ChunkMap::create();
    let center = pos(0, 0);
    assert_eq!(map.create_chunk_column(center, pos(0, 0), with_block(2, 0, 5, 5, STONE)), Ok(()));
    assert_eq!(map.create_chunk_column(center, pos(-1, 0), with_block(2, 15, 5, 5, STONE)), Ok(()));
    add_neighbors(&mut map, center, 0, 0);
    let jobs = map.send_chunks_to_load(&registry());
    assert_eq!(jobs.len(), 1);
    assert_eq!(jobs[0].sections.len(), 1);
    assert_eq!(jobs[0].sections[0].y, 2);
    let done = run_chunk_job(&jobs[0], &atlas(), &registry());
    assert_eq!(done.sections[0].geometry.mesh.face_count(), 5);
    assert!(done.sections[0].geometry.mesh.normals.iter().all(|n| *n != (-1, 0, 0)));
}

#[test]
fn block_on_a_section_floor_is_culled_against_the_section_below() {
    let mut map = ChunkMap::create();
    let center = pos(0, 0);
    let mut data = air();
    data[3].insert(&ChunkBlockPosition::new(4, 0, 4), Some(BlockDataInfo::create(STONE, None)));
    data[2].insert(&ChunkBlockPosition::new(4, 15, 4), Some(BlockDataInfo::create(STONE, None)));
    assert_eq!(map.create_chunk_column(center, pos(0, 0), data), Ok(()));
    add_neighbors(&mut map, center, 0, 0);
    let jobs = map.send_chunks_to_load(&registry());
    assert_eq!(jobs[0].sections.len(), 2);
    let done = run_chunk_job(&jobs[0], &atlas(), &registry());
    assert_eq!(done.sections[0].y, 2);
    assert_eq!(done.sections[1].y, 3);
    assert_eq!(done.sections[0].geometry.mesh.face_count(), 5);
    assert_eq!(done.sections[1].geometry.mesh.face_count(), 5);
    assert!(done.sections[0].geometry.mesh.normals.iter().all(|n| *n != (0, 1, 0)));
    assert!(done.sections[1].geometry.mesh.normals.iter().all(|n| *n != (0, -1, 0)));
}

#[test]
fn result_for_an_unloaded_column_is_dropped() {
    let mut map = lone_block_store();
    let jobs = map.send_chunks_to_load(&registry());
    assert_eq!(jobs.len(), 1);
    assert_eq!(map.unload_chunk(pos(0, 0)), Ok(Vec::new()));
    assert!(generate_chunk(&jobs[0], &map.completion_sender(), &atlas(), &registry()).is_ok());
    let loaded = map.spawn_loaded_chunks();
    assert!(loaded.is_empty());
    assert!(map.get_chunk(&pos(0, 0)).is_none());
    assert_eq!(map.get_stage(&pos(0, 0)), None);
    assert_eq!(map.get_loaded_chunks_count(), 0);
    assert_eq!(map.get_loading_chunks_count(), 0);
}

#[test]
fn result_for_a_column_that_is_not_in_the_making_is_dropped() {
    let mut map = lone_block_store();
    let stray = GeneratedChunk { chunk_position: pos(1, 0), sections: Vec::new() };
    assert!(map.attach_generated(stray).is_none());
    assert_eq!(map.get_stage(&pos(1, 0)), Some(ChunkStage::Waiting));
    let early = GeneratedChunk { chunk_position: pos(0, 0), sections: Vec::new() };
    assert!(map.attach_generated(early).is_none());
    assert_eq!(map.get_stage(&pos(0, 0)), Some(ChunkStage::Admitted));
    assert!(!map.get_chunk(&pos(0, 0)).unwrap().is_loaded());
}

#[test]
fn second_result_for_the_same_column_is_dropped() {
    let mut map = lone_block_store();
    let jobs = map.send_chunks_to_load(&registry());
    let first = run_chunk_job(&jobs[0], &atlas(), &registry());
    let second = run_chunk_job(&jobs[0], &atlas(), &registry());
    assert!(map.attach_generated(first).is_some());
    assert!(map.attach_generated(second).is_none());
    assert_eq!(map.get_loaded_chunks_count(), 1);
}

#[test]
fn spawn_takes_no_more_results_than_the_limit() {
    let mut map = ChunkMap::with_limits(16, 2);
    let center = pos(0, 0);
    for x in 0..3 {
        add_air(&mut map, center, 10 * x, 0);
        add_neighbors(&mut map, center, 10 * x, 0);
    }
    let jobs = map.send_chunks_to_load(&registry());
    assert_eq!(jobs.len(), 3);
    let sender = map.completion_sender();
    for job in jobs.iter() {
        assert!(generate_chunk(job, &sender, &atlas(), &registry()).is_ok());
    }
    assert_eq!(map.get_loading_chunks_count(), 3);
    let loaded = map.spawn_loaded_chunks();
    assert_eq!(loaded.len(), 2);
    assert_eq!(loaded[0].chunk_position, pos(0, 0));
    assert_eq!(loaded[1].chunk_position, pos(10, 0));
    assert_eq!(map.get_stage(&pos(20, 0)), Some(ChunkStage::Generating));
    let rest = map.spawn_loaded_chunks();
    assert_eq!(rest.len(), 1);
    assert_eq!(rest[0].chunk_position, pos(20, 0));
    assert!(map.spawn_loaded_chunks().is_empty());
    assert_eq!(map.get_loaded_chunks_count(), 3);
}

#[test]
fn spawn_with_an_empty_channel_changes_nothing() {
    let mut map = lone_block_store();
    assert!(map.spawn_loaded_chunks().is_empty());
    assert_eq!(map.get_stage(&pos(0, 0)), Some(ChunkStage::Admitted));
}

#[test]
fn unload_removes_the_column_from_the_store_and_the_queues() {
    let mut map = lone_block_store();
    assert_eq!(map.get_waiting_chunks_count(), 4);
    assert_eq!(map.unload_chunk(pos(1, 0)), Ok(Vec::new()));
    assert_eq!(map.waiting_chunks(), &vec![pos(-1, 0), pos(0, -1), pos(0, 1)]);
    assert_eq!(map.unload_chunk(pos(0, 0)), Ok(Vec::new()));
    assert!(map.loading_chunks().is_empty());
    assert_eq!(map.iter().len(), 3);
    assert_eq!(map.unload_chunk(pos(0, 0)), Err(UnloadError::NotFound));
    assert_eq!(map.unload_chunk(pos(9, 9)), Err(UnloadError::NotFound));
}

#[test]
fn unload_releases_the_colliders_of_the_column() {
    let mut map = lone_block_store();
    let jobs = map.send_chunks_to_load(&registry());
    let done = run_chunk_job(&jobs[0], &atlas(), &registry());
    assert!(map.attach_generated(done).is_some());
    assert_eq!(map.unload_chunk(pos(0, 0)), Ok(vec![0]));
}

fn active_store() -> ChunkMap {
    let mut map = lone_block_store();
    let jobs = map.send_chunks_to_load(&registry());
    let done = run_chunk_job(&jobs[0], &atlas(), &registry());
    assert!(map.attach_generated(done).is_some());
    map
}

#[test]
fn edit_in_a_missing_column_fails() {
    let mut map = active_store();
    let r = map.edit_block(
        BlockPosition::new(160, 5, 5),
        &registry(),
        Some(BlockDataInfo::create(STONE, None)),
    );
    assert_eq!(r, Err(EditError::ChunkNotLoaded));
    assert!(map.chunks_to_update().is_empty());
}

#[test]
fn edit_outside_the_sections_fails() {
    let mut map = active_store();
    let block = Some(BlockDataInfo::create(STONE, None));
    assert_eq!(
        map.edit_block(BlockPosition::new(5, 128, 5), &registry(), block),
        Err(EditError::InvalidSection)
    );
    assert_eq!(
        map.edit_block(BlockPosition::new(5, -1, 5), &registry(), block),
        Err(EditError::InvalidSection)
    );
    assert!(map.edit_block(BlockPosition::new(5, 127, 5), &registry(), block).is_ok());
}

#[test]
fn edit_with_an_unknown_block_fails_and_changes_nothing() {
    let mut map = active_store();
    let position = BlockPosition::new(5, 5, 5);
    let r = map.edit_block(position, &registry(), Some(BlockDataInfo::create(99, None)));
    assert_eq!(r, Err(EditError::BlockNotFound(99)));
    assert_eq!(map.get_chunk(&pos(0, 0)).unwrap().get_block_info(&position), None);
    assert!(map.chunks_to_update().is_empty());
    // the block that is there is unknown to another registry
    let bare = BlockStorage::new();
    let r = map.edit_block(BlockPosition::new(8, 0, 8), &bare, None);
    assert_eq!(r, Err(EditError::BlockNotFound(STONE)));
    assert_eq!(
        map.get_chunk(&pos(0, 0)).unwrap().get_block_info(&BlockPosition::new(8, 0, 8)),
        Some(BlockDataInfo::create(STONE, None))
    );
}

#[test]
fn edit_inside_a_section_marks_only_that_section() {
    let mut map = active_store();
    let position = BlockPosition::new(5, 37, 5);
    let block = BlockDataInfo::create(STONE, None);
    let effects = map.edit_block(position, &registry(), Some(block)).unwrap();
    assert!(!effects.removed_object);
    assert!(!effects.created_object);
    assert_eq!(map.get_chunk(&pos(0, 0)).unwrap().get_block_info(&position), Some(block));
    assert_eq!(map.chunks_to_update(), vec![(0, 0, 2)]);
}

#[test]
fn edit_on_the_x_border_marks_the_neighbor_when_it_is_present() {
    let mut map = active_store();
    let block = Some(BlockDataInfo::create(STONE, None));
    map.edit_block(BlockPosition::new(0, 37, 5), &registry(), block).unwrap();
    assert_eq!(sorted(map.chunks_to_update()), vec![(-1, 0, 2), (0, 0, 2)]);
}

#[test]
fn edit_on_the_x_border_marks_only_its_column_when_the_neighbor_is_absent() {
    let mut map = active_store();
    assert_eq!(map.unload_chunk(pos(-1, 0)), Ok(Vec::new()));
    let block = Some(BlockDataInfo::create(STONE, None));
    map.edit_block(BlockPosition::new(0, 37, 5), &registry(), block).unwrap();
    assert_eq!(map.chunks_to_update(), vec![(0, 0, 2)]);
}

#[test]
fn edit_in_a_corner_marks_along_every_axis_one_step() {
    let mut map = active_store();
    let block = Some(BlockDataInfo::create(STONE, None));
    // offset (15, 15, 0) of section 1
    map.edit_block(BlockPosition::new(15, 31, 0), &registry(), block).unwrap();
    assert_eq!(
        sorted(map.chunks_to_update()),
        vec![(0, -1, 1), (0, 0, 1), (0, 0, 2), (1, 0, 1)]
    );
}

#[test]
fn edit_on_the_world_floor_and_ceiling_marks_no_section_beyond() {
    let mut map = active_store();
    let block = Some(BlockDataInfo::create(STONE, None));
    map.edit_block(BlockPosition::new(5, 0, 5), &registry(), block).unwrap();
    assert_eq!(map.chunks_to_update(), vec![(0, 0, 0)]);
    map.edit_block(BlockPosition::new(5, 127, 5), &registry(), block).unwrap();
    assert_eq!(sorted(map.chunks_to_update()), vec![(0, 0, 0), (0, 0, 7)]);
    map.edit_block(BlockPosition::new(5, 16, 5), &registry(), block).unwrap();
    assert_eq!(sorted(map.chunks_to_update()), vec![(0, 0, 0), (0, 0, 1), (0, 0, 7)]);
}

#[test]
fn marking_a_section_twice_rebuilds_it_once() {
    let mut map = active_store();
    let block = Some(BlockDataInfo::create(STONE, None));
    map.edit_block(BlockPosition::new(5, 37, 5), &registry(), block).unwrap();
    map.edit_block(BlockPosition::new(6, 37, 5), &registry(), block).unwrap();
    map.edit_block(BlockPosition::new(5, 37, 5), &registry(), None).unwrap();
    assert_eq!(map.chunks_to_update(), vec![(0, 0, 2)]);
    let updates = map.update_chunks_geometry(&registry(), &atlas());
    assert_eq!(updates.len(), 1);
    assert_eq!(updates[0].chunk_position, pos(0, 0));
    assert_eq!(updates[0].y, 2);
    assert!(updates[0].first);
    assert!(matches!(updates[0].collider, ColliderAction::Create(_)));
    assert!(map.chunks_to_update().is_empty());
    let column = map.get_chunk(&pos(0, 0)).unwrap();
    assert_eq!(column.get_chunk_section(2).mesh.face_count(), 6);
}

#[test]
fn model_blocks_become_host_objects_and_leave_the_mesh_alone() {
    let mut map = active_store();
    let position = BlockPosition::new(3, 3, 3);
    let chest = BlockDataInfo::create(CHEST, None);
    let effects = map.edit_block(position, &registry(), Some(chest)).unwrap();
    assert!(effects.created_object);
    assert!(!effects.removed_object);
    assert!(map.chunks_to_update().is_empty());
    let effects = map.edit_block(position, &registry(), Some(chest)).unwrap();
    assert!(effects.created_object);
    assert!(effects.removed_object);
    let effects = map.edit_block(position, &registry(), Some(BlockDataInfo::create(STONE, None))).unwrap();
    assert!(effects.removed_object);
    assert!(!effects.created_object);
    assert_eq!(map.chunks_to_update(), vec![(0, 0, 0)]);
}

#[test]
fn clearing_air_changes_nothing_and_marks_nothing() {
    let mut map = active_store();
    let effects = map.edit_block(BlockPosition::new(3, 3, 3), &registry(), None).unwrap();
    assert!(!effects.created_object && !effects.removed_object);
    assert!(map.chunks_to_update().is_empty());
}

#[test]
fn stale_section_waits_while_a_neighbor_is_missing() {
    let mut map = active_store();
    let block = Some(BlockDataInfo::create(STONE, None));
    map.edit_block(BlockPosition::new(0, 37, 5), &registry(), block).unwrap();
    // (-1, 0) has no neighbours of its own: its section stays stale
    let updates = map.update_chunks_geometry(&registry(), &atlas());
    assert_eq!(updates.len(), 1);
    assert_eq!((updates[0].chunk_position, updates[0].y), (pos(0, 0), 2));
    assert_eq!(map.chunks_to_update(), vec![(-1, 0, 2)]);
    // a second pass finds nothing to do
    assert!(map.update_chunks_geometry(&registry(), &atlas()).is_empty());
    assert_eq!(map.chunks_to_update(), vec![(-1, 0, 2)]);
    // once its neighbours are there it is rebuilt
    add_neighbors(&mut map, pos(0, 0), -1, 0);
    let updates = map.update_chunks_geometry(&registry(), &atlas());
    assert_eq!(updates.len(), 1);
    assert_eq!((updates[0].chunk_position, updates[0].y), (pos(-1, 0), 2));
    assert!(!updates[0].first);
    assert!(matches!(updates[0].collider, ColliderAction::Nothing));
    assert!(map.chunks_to_update().is_empty());
}

#[test]
fn stale_section_of_an_unloaded_column_is_forgotten() {
    let mut map = active_store();
    let block = Some(BlockDataInfo::create(STONE, None));
    map.edit_block(BlockPosition::new(5, 37, 5), &registry(), block).unwrap();
    assert_eq!(map.unload_chunk(pos(0, 0)), Ok(vec![0]));
    assert_eq!(map.chunks_to_update(), vec![(0, 0, 2)]);
    assert!(map.update_chunks_geometry(&registry(), &atlas()).is_empty());
    assert!(map.chunks_to_update().is_empty());
}

#[test]
fn removing_the_last_block_removes_the_collider() {
    let mut map = active_store();
    map.edit_block(BlockPosition::new(8, 0, 8), &registry(), None).unwrap();
    let updates = map.update_chunks_geometry(&registry(), &atlas());
    assert_eq!(updates.len(), 1);
    assert!(!updates[0].first);
    assert!(matches!(updates[0].collider, ColliderAction::Remove));
    let column = map.get_chunk(&pos(0, 0)).unwrap();
    assert!(column.get_chunk_section(0).mesh.is_empty());
    assert!(!column.get_chunk_section(0).collider);
}

#[test]
fn rebuilt_section_sees_the_edit_in_the_neighbor_column() {
    let mut map = active_store();
    add_neighbors(&mut map, pos(0, 0), 1, 0);
    // a block right across the border hides the face of a block on this side
    let block = Some(BlockDataInfo::create(STONE, None));
    map.edit_block(BlockPosition::new(15, 40, 5), &registry(), block).unwrap();
    map.edit_block(BlockPosition::new(16, 40, 5), &registry(), block).unwrap();
    assert_eq!(sorted(map.chunks_to_update()), vec![(0, 0, 2), (1, 0, 2)]);
    let updates = map.update_chunks_geometry(&registry(), &atlas());
    assert_eq!(updates.len(), 2);
    for position in [pos(0, 0), pos(1, 0)] {
        let column = map.get_chunk(&position).unwrap();
        assert_eq!(column.get_chunk_section(2).mesh.face_count(), 5);
    }
}

#[test]
fn job_is_not_delivered_once_the_store_is_gone() {
    let mut map = lone_block_store();
    let jobs = map.send_chunks_to_load(&registry());
    let sender = map.completion_sender();
    drop(map);
    // the result comes back as it was made
    let back = generate_chunk(&jobs[0], &sender, &atlas(), &registry()).unwrap_err();
    assert_eq!(back.chunk_position, pos(0, 0));
    assert_eq!(back.sections.len(), 1);
    assert_eq!(back.sections[0].y, 0);
    assert_eq!(back.sections[0].geometry.mesh.face_count(), 6);
    assert_eq!(back.sections[0].geometry.collider.as_ref().unwrap().indices.len(), 12);
}

#[test]
fn column_data_can_be_read_section_by_section() {
    let map = lone_block_store();
    let data = map._get_chunk_column_data(&pos(0, 0)).unwrap();
    assert_eq!(data.len(), 8);
    assert_eq!(
        data[0].get(&ChunkBlockPosition::new(8, 0, 8)),
        Some(BlockDataInfo::create(STONE, None))
    );
    assert_eq!(data[0].get_cell(8 + 256 * 8), Some(BlockDataInfo::create(STONE, None)));
    assert!(data[1].is_air());
    assert!(map._get_chunk_column_data(&pos(3, 3)).is_none());
}

#[test]
fn listing_names_every_column_once() {
    let map = lone_block_store();
    let mut found: Vec<(i64, i64)> = map.iter().iter().map(|p| (p.x, p.z)).collect();
    found.sort();
    assert_eq!(found, vec![(-1, 0), (0, -1), (0, 0), (0, 1), (1, 0)]);
}

#[test]
fn loading_count_adds_the_queue_and_the_finished_results() {
    assert_eq!(loading_count(0, 0), 0);
    assert_eq!(loading_count(3, 4), 7);
    assert_eq!(loading_count(5, 0), 5);
    assert_eq!(loading_count(usize::MAX, 0), usize::MAX);
    assert_eq!(loading_count(usize::MAX - 1, 1), usize::MAX);
    assert_eq!(loading_count(usize::MAX, 9), usize::MAX);
    assert_eq!(loading_count(2, usize::MAX), usize::MAX);
}

#[test]
fn loading_count_of_the_store_counts_queue_and_channel() {
    let mut map = three_in_a_row(2);
    assert_eq!(map.get_loading_chunks_count(), 3);
    let jobs = map.send_chunks_to_load(&registry());
    assert_eq!(map.get_loading_chunks_count(), 1);
    let sender = map.completion_sender();
    assert!(generate_chunk(&jobs[0], &sender, &atlas(), &registry()).is_ok());
    assert!(generate_chunk(&jobs[1], &sender, &atlas(), &registry()).is_ok());
    assert_eq!(map.get_loading_chunks_count(), 3);
    assert_eq!(map.spawn_loaded_chunks().len(), 2);
    assert_eq!(map.get_loading_chunks_count(), 1);
}

#[test]
fn marking_for_the_same_block_twice_holds_each_section_once() {
    let mut map = active_store();
    let position = BlockPosition::new(0, 32, 15);
    map.send_to_update_chunk_mesh(&position);
    let once = sorted(map.chunks_to_update());
    assert_eq!(once, vec![(-1, 0, 2), (0, 0, 1), (0, 0, 2), (0, 1, 2)]);
    map.send_to_update_chunk_mesh(&position);
    assert_eq!(sorted(map.chunks_to_update()), once);
    // marking changes no block and no queue
    assert_eq!(map.get_chunk(&pos(0, 0)).unwrap().get_block_info(&position), None);
    assert_eq!(map.get_waiting_chunks_count(), 4);
}

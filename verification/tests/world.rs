use voxel_chunks::block::BlockContent;
use voxel_chunks::block::BlockDataInfo;
use voxel_chunks::block::BlockStorage;
use voxel_chunks::block::BlockType;
use voxel_chunks::block::TextureMapper;
use voxel_chunks::block::VoxelVisibility;
use voxel_chunks::chunk_data::ChunkData;
use voxel_chunks::chunk_data::SectionData;
use voxel_chunks::chunk_generator::generate_chunk;
use voxel_chunks::chunks_map::CreateError;
use voxel_chunks::chunks_map::EditError;
use voxel_chunks::chunks_map::UnloadError;
use voxel_chunks::position::BlockPosition;
use voxel_chunks::position::ChunkBlockPosition;
use voxel_chunks::position::ChunkPosition;
use voxel_chunks::store_state::ChunkStage;
use voxel_chunks::world_manager::WorldManager;

fn registry() -> BlockStorage {
    let mut storage = BlockStorage::new();
    storage.insert(1, BlockType::new(VoxelVisibility::Opaque, BlockContent::Texture));
    storage
}

fn atlas() -> TextureMapper {
    let mut mapper = TextureMapper::new();
    for side in 0..6u8 {
        mapper.set_uv_offset(1, side, 0);
    }
    mapper
}

fn column(blocks: &[(usize, u8, u8, u8)]) -> ChunkData {
    let mut data = Vec::new();
    for _ in 0..8 {
        data.push(SectionData::new());
    }
    for (section, x, y, z) in blocks {
        data[*section].insert(&ChunkBlockPosition::new(*x, *y, *z), Some(BlockDataInfo::create(1, None)));
    }
    data
}

fn pos(x: i64, z: i64) -> ChunkPosition {
    ChunkPosition::new(x, z)
}

fn world_with_cross() -> WorldManager {
    let mut world = WorldManager::create("overworld".to_string());
    assert_eq!(world.recieve_chunk(pos(0, 0), pos(0, 0), column(&[(0, 8, 0, 8)])), Ok(()));
    for (x, z) in [(-1, 0), (1, 0), (0, -1), (0, 1)] {
        assert_eq!(world.recieve_chunk(pos(0, 0), pos(x, z), column(&[])), Ok(()));
    }
    world
}

#[test]
fn world_keeps_its_name_and_starts_empty() {
    let world = WorldManager::create("overworld".to_string());
    assert_eq!(world.get_slug(), "overworld");
    assert_eq!(world.get_chunk_map().get_waiting_chunks_count(), 0);
    assert_eq!(world.get_chunk_map().get_loaded_chunks_count(), 0);
}

#[test]
fn world_passes_on_what_the_network_delivers() {
    let mut world = world_with_cross();
    assert_eq!(
        world.recieve_chunk(pos(0, 0), pos(0, 0), column(&[])),
        Err(CreateError::AlreadyExists)
    );
    assert_eq!(world.recieve_chunk(pos(0, 0), pos(7, 7), Vec::new()), Err(CreateError::EmptyData));
    assert_eq!(world.unload_chunk(pos(7, 7)), Err(UnloadError::NotFound));
    assert_eq!(
        world.edit_block(BlockPosition::new(200, 0, 0), &registry(), None),
        Err(EditError::ChunkNotLoaded)
    );
    assert_eq!(world.unload_chunk(pos(1, 0)), Ok(Vec::new()));
    assert!(world.get_chunk_map().get_chunk(&pos(1, 0)).is_none());
}

#[test]
fn a_frame_sends_then_spawns_then_rebuilds() {
    let mut world = world_with_cross();
    let storage = registry();
    let mapper = atlas();
    // frame 1: the column goes into the making; nothing has come back yet
    let work = world.custom_process(&storage, &mapper);
    assert_eq!(work.jobs.len(), 1);
    assert!(work.spawned.is_empty());
    assert!(work.updated.is_empty());
    assert_eq!(world.get_chunk_map().get_stage(&pos(0, 0)), Some(ChunkStage::Generating));
    // the background finishes the job
    assert!(generate_chunk(&work.jobs[0], &world.get_chunk_map().completion_sender(), &mapper, &storage).is_ok());
    // an edit arrives before the next frame
    let block = Some(BlockDataInfo::create(1, None));
    world.edit_block(BlockPosition::new(3, 20, 3), &storage, block).unwrap();
    // frame 2: the result is attached, then the stale section is rebuilt
    let work = world.custom_process(&storage, &mapper);
    assert!(work.jobs.is_empty());
    assert_eq!(work.spawned.len(), 1);
    assert_eq!(work.spawned[0].chunk_position, pos(0, 0));
    assert_eq!(work.updated.len(), 1);
    assert_eq!((work.updated[0].chunk_position, work.updated[0].y), (pos(0, 0), 1));
    let map = world.get_chunk_map();
    assert_eq!(map.get_stage(&pos(0, 0)), Some(ChunkStage::Active));
    let column = map.get_chunk(&pos(0, 0)).unwrap();
    assert_eq!(column.get_chunk_section(0).mesh.face_count(), 6);
    assert_eq!(column.get_chunk_section(1).mesh.face_count(), 6);
    // frame 3: nothing is left to do
    let work = world.custom_process(&storage, &mapper);
    assert!(work.jobs.is_empty() && work.spawned.is_empty() && work.updated.is_empty());
}

#[test]
fn columns_less_than_two_away_are_near() {
    let mut world = WorldManager::create("w".to_string());
    for (x, z) in [(0, 0), (1, 1), (2, 0), (0, -2), (-1, 0), (5, 5)] {
        assert_eq!(world.recieve_chunk(pos(0, 0), pos(x, z), column(&[])), Ok(()));
    }
    let mut near = world.handler_player_move(pos(0, 0));
    near.sort_by_key(|(p, _)| (p.x, p.z));
    assert_eq!(
        near,
        vec![
            (pos(-1, 0), true),
            (pos(0, -2), false),
            (pos(0, 0), true),
            (pos(1, 1), true),
            (pos(2, 0), false),
            (pos(5, 5), false),
        ]
    );
}

#[test]
fn collider_groups_of_a_column() {
    let mut world = world_with_cross();
    let storage = registry();
    let mapper = atlas();
    let work = world.custom_process(&storage, &mapper);
    assert!(generate_chunk(&work.jobs[0], &world.get_chunk_map().completion_sender(), &mapper, &storage).is_ok());
    world.custom_process(&storage, &mapper);
    let map = world.get_chunk_map();
    let column = map.get_chunk(&pos(0, 0)).unwrap();
    let near = column.update_collider_group(true);
    assert_eq!(near.len(), 8);
    assert_eq!(near[0], Some((2, 1)));
    assert_eq!(near[1], None);
    assert_eq!(column.update_collider_group(false)[0], Some((4, 0)));
}

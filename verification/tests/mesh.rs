use voxel_chunks::block::BlockContent;
use voxel_chunks::block::BlockDataInfo;
use voxel_chunks::block::BlockStorage;
use voxel_chunks::block::BlockType;
use voxel_chunks::block::TextureMapper;
use voxel_chunks::block::VoxelVisibility;
use voxel_chunks::chunk_generator::build_section_geometry;
use voxel_chunks::chunk_generator::generate_chunk_geometry;
use voxel_chunks::chunk_section::ChunkSection;
use voxel_chunks::chunk_section::ColliderAction;
use voxel_chunks::mesh::buffer::ChunkColliderDataBordered;
use voxel_chunks::mesh::buffer::ChunkColliderInfo;
use voxel_chunks::mesh::buffer::UnitQuadBuffer;
use voxel_chunks::mesh::mesh_generator::build_collider;
use voxel_chunks::mesh::mesh_generator::generate_buffer;
use voxel_chunks::mesh::mesh_generator::generate_mesh;
use voxel_chunks::position::ChunkPosition;

const STONE: u16 = 1;
const GLASS: u16 = 2;
const BARE: u16 = 3;

fn registry() -> BlockStorage {
    let mut storage = BlockStorage::new();
    storage.insert(STONE, BlockType::new(VoxelVisibility::Opaque, BlockContent::Texture));
    storage.insert(GLASS, BlockType::new(VoxelVisibility::Translucent, BlockContent::Texture));
    storage.insert(BARE, BlockType::new(VoxelVisibility::Opaque, BlockContent::Texture));
    storage
}

fn atlas() -> TextureMapper {
    let mut mapper = TextureMapper::new();
    for side in 0..6u8 {
        mapper.set_uv_offset(STONE, side, 33);
        mapper.set_uv_offset(GLASS, side, 2);
    }
    mapper
}

fn cell(id: u16, visibility: VoxelVisibility) -> ChunkColliderInfo {
    ChunkColliderInfo::create(visibility, Some(BlockDataInfo::create(id, None)))
}

fn total(buffer: &UnitQuadBuffer) -> usize {
    buffer.groups.iter().map(|g| g.len()).sum()
}

#[test]
fn empty_section_has_no_faces_and_no_collider() {
    let data = ChunkColliderDataBordered::new();
    let buffer = generate_buffer(&data);
    assert_eq!(buffer.groups.len(), 6);
    assert_eq!(total(&buffer), 0);
    let geometry = build_section_geometry(&atlas(), &data, &registry());
    assert!(geometry.mesh.indices.is_empty());
    assert!(geometry.mesh.verts.is_empty());
    assert!(geometry.mesh_transparent.indices.is_empty());
    assert!(geometry.collider.is_none());
}

#[test]
fn blocks_in_the_halo_alone_give_no_faces() {
    let mut data = ChunkColliderDataBordered::new();
    data.set(0, 5, 5, cell(STONE, VoxelVisibility::Opaque));
    data.set(17, 5, 5, cell(STONE, VoxelVisibility::Opaque));
    data.set(5, 0, 5, cell(STONE, VoxelVisibility::Opaque));
    let buffer = generate_buffer(&data);
    assert_eq!(total(&buffer), 0);
}

#[test]
fn single_block_has_six_faces() {
    let mut data = ChunkColliderDataBordered::new();
    data.set(9, 1, 9, cell(STONE, VoxelVisibility::Opaque));
    let buffer = generate_buffer(&data);
    assert_eq!(buffer.num_quads(), 6);
    for group in buffer.groups.iter() {
        assert_eq!(group.len(), 1);
        assert_eq!(group[0].minimum, (9, 1, 9));
        assert_eq!(group[0].block_info, BlockDataInfo::create(STONE, None));
    }
    let mesh = generate_mesh(&atlas(), &buffer, &registry(), false);
    assert_eq!(mesh.face_count(), 6);
    assert_eq!(mesh.verts.len(), 24);
    assert_eq!(mesh.normals.len(), 24);
    assert_eq!(mesh.uvs.len(), 24);
    assert_eq!(mesh.indices.len(), 36);
    let translucent = generate_mesh(&atlas(), &buffer, &registry(), true);
    assert!(translucent.is_empty());
}

#[test]
fn faces_between_two_opaque_blocks_are_culled() {
    let mut data = ChunkColliderDataBordered::new();
    data.set(3, 3, 3, cell(STONE, VoxelVisibility::Opaque));
    data.set(4, 3, 3, cell(STONE, VoxelVisibility::Opaque));
    let buffer = generate_buffer(&data);
    assert_eq!(buffer.num_quads(), 10);
    // towards -x only the first block shows a face, towards +x only the second
    assert_eq!(buffer.groups[0].len(), 1);
    assert_eq!(buffer.groups[0][0].minimum, (3, 3, 3));
    assert_eq!(buffer.groups[3].len(), 1);
    assert_eq!(buffer.groups[3][0].minimum, (4, 3, 3));
    for face in [1usize, 2, 4, 5] {
        assert_eq!(buffer.groups[face].len(), 2);
        assert_eq!(buffer.groups[face][0].minimum, (3, 3, 3));
        assert_eq!(buffer.groups[face][1].minimum, (4, 3, 3));
    }
}

#[test]
fn opaque_block_in_the_halo_hides_the_face_towards_it() {
    let mut data = ChunkColliderDataBordered::new();
    data.set(1, 4, 4, cell(STONE, VoxelVisibility::Opaque));
    data.set(0, 4, 4, cell(STONE, VoxelVisibility::Opaque));
    let buffer = generate_buffer(&data);
    assert_eq!(buffer.groups[0].len(), 0);
    assert_eq!(buffer.num_quads(), 5);
}

#[test]
fn face_towards_a_translucent_block_stays_visible() {
    let mut data = ChunkColliderDataBordered::new();
    data.set(3, 3, 3, cell(STONE, VoxelVisibility::Opaque));
    data.set(4, 3, 3, cell(GLASS, VoxelVisibility::Translucent));
    let buffer = generate_buffer(&data);
    // the stone shows all six faces, the glass all but the one towards the stone
    assert_eq!(buffer.num_quads(), 11);
    assert_eq!(buffer.groups[3].len(), 2);
    assert_eq!(buffer.groups[0].len(), 1);
    assert_eq!(buffer.groups[0][0].minimum, (3, 3, 3));
    let opaque = generate_mesh(&atlas(), &buffer, &registry(), false);
    let translucent = generate_mesh(&atlas(), &buffer, &registry(), true);
    assert_eq!(opaque.face_count(), 6);
    assert_eq!(translucent.face_count(), 5);
}

#[test]
fn quads_come_in_the_order_of_the_cells() {
    let mut data = ChunkColliderDataBordered::new();
    data.set(2, 1, 1, cell(STONE, VoxelVisibility::Opaque));
    data.set(1, 2, 1, cell(STONE, VoxelVisibility::Opaque));
    data.set(1, 1, 2, cell(STONE, VoxelVisibility::Opaque));
    let buffer = generate_buffer(&data);
    let found: Vec<(u32, u32, u32)> = buffer.groups[4].iter().map(|q| q.minimum).collect();
    assert_eq!(found, vec![(2, 1, 1), (1, 2, 1), (1, 1, 2)]);
}

#[test]
fn mesh_arrays_of_one_face_towards_negative_x() {
    let mut buffer = UnitQuadBuffer::new();
    buffer.groups[0].push(voxel_chunks::mesh::buffer::UnitQuad {
        minimum: (1, 1, 1),
        block_info: BlockDataInfo::create(STONE, None),
    });
    let mesh = generate_mesh(&atlas(), &buffer, &registry(), false);
    assert_eq!(mesh.verts, vec![(0, 0, 0), (0, 0, 1), (0, 1, 0), (0, 1, 1)]);
    assert_eq!(mesh.normals, vec![(-1, 0, 0); 4]);
    assert_eq!(mesh.indices, vec![0, 1, 2, 1, 3, 2]);
    // tile 33 is column 1 of row 1 of the atlas
    assert_eq!(mesh.uvs, vec![(1, 2), (2, 2), (1, 1), (2, 1)]);
}

#[test]
fn mesh_arrays_of_one_face_towards_positive_x() {
    let mut buffer = UnitQuadBuffer::new();
    buffer.groups[3].push(voxel_chunks::mesh::buffer::UnitQuad {
        minimum: (16, 16, 16),
        block_info: BlockDataInfo::create(STONE, None),
    });
    let mesh = generate_mesh(&atlas(), &buffer, &registry(), false);
    assert_eq!(mesh.verts, vec![(16, 15, 15), (16, 15, 16), (16, 16, 15), (16, 16, 16)]);
    assert_eq!(mesh.normals, vec![(1, 0, 0); 4]);
    assert_eq!(mesh.indices, vec![0, 2, 1, 1, 2, 3]);
    assert_eq!(mesh.uvs, vec![(2, 2), (1, 2), (2, 1), (1, 1)]);
}

#[test]
fn mesh_arrays_of_faces_across_y_and_z() {
    let mut buffer = UnitQuadBuffer::new();
    let quad = voxel_chunks::mesh::buffer::UnitQuad {
        minimum: (2, 3, 4),
        block_info: BlockDataInfo::create(GLASS, None),
    };
    buffer.groups[4].push(quad);
    buffer.groups[5].push(quad);
    let mesh = generate_mesh(&atlas(), &buffer, &registry(), true);
    assert_eq!(
        mesh.verts,
        vec![
            (1, 3, 3), (1, 3, 4), (2, 3, 3), (2, 3, 4),
            (1, 2, 4), (2, 2, 4), (1, 3, 4), (2, 3, 4),
        ]
    );
    assert_eq!(mesh.normals[0], (0, 1, 0));
    assert_eq!(mesh.normals[4], (0, 0, 1));
    assert_eq!(mesh.indices, vec![0, 1, 2, 1, 3, 2, 4, 5, 6, 5, 7, 6]);
    // tile 2 is column 2 of row 0
    assert_eq!(mesh.uvs[0], (2, 1));
    assert_eq!(mesh.uvs[3], (3, 0));
}

#[test]
fn quad_without_atlas_entry_is_skipped() {
    let mut data = ChunkColliderDataBordered::new();
    data.set(5, 5, 5, cell(BARE, VoxelVisibility::Opaque));
    data.set(8, 8, 8, cell(STONE, VoxelVisibility::Opaque));
    let buffer = generate_buffer(&data);
    assert_eq!(buffer.num_quads(), 12);
    let mesh = generate_mesh(&atlas(), &buffer, &registry(), false);
    assert_eq!(mesh.face_count(), 6);
    assert_eq!(mesh.indices.len(), 36);
    assert!(mesh.indices.iter().all(|i| (*i as usize) < mesh.verts.len()));
}

#[test]
fn quad_of_unregistered_block_is_skipped() {
    let mut data = ChunkColliderDataBordered::new();
    data.set(5, 5, 5, cell(77, VoxelVisibility::Opaque));
    let buffer = generate_buffer(&data);
    assert_eq!(buffer.num_quads(), 6);
    let mesh = generate_mesh(&atlas(), &buffer, &registry(), false);
    assert!(mesh.is_empty());
}

#[test]
fn collider_has_two_triangles_for_every_quad() {
    let mut data = ChunkColliderDataBordered::new();
    data.set(1, 1, 1, cell(STONE, VoxelVisibility::Opaque));
    data.set(3, 1, 1, cell(BARE, VoxelVisibility::Opaque));
    let buffer = generate_buffer(&data);
    let collider = build_collider(&buffer);
    assert_eq!(collider.verts.len(), 48);
    assert_eq!(collider.indices.len(), 24);
    assert_eq!(collider.indices[0], (0, 1, 2));
    assert_eq!(collider.indices[1], (1, 3, 2));
    assert_eq!(collider.verts[0], (0, 0, 0));
    assert_eq!(collider.verts[4], (2, 0, 0));
    assert_eq!(collider.indices[2], (4, 5, 6));
    assert!(collider.indices.iter().all(|t| t.0 < 48 && t.1 < 48 && t.2 < 48));
}

#[test]
fn translucent_only_section_has_no_collider() {
    let mut data = ChunkColliderDataBordered::new();
    data.set(2, 2, 2, cell(GLASS, VoxelVisibility::Translucent));
    let geometry = build_section_geometry(&atlas(), &data, &registry());
    assert!(geometry.mesh.is_empty());
    assert_eq!(geometry.mesh_transparent.face_count(), 6);
    assert!(geometry.collider.is_none());
}

#[test]
fn geometry_goes_onto_the_section_and_waits_for_the_collider_update() {
    let mut data = ChunkColliderDataBordered::new();
    data.set(2, 2, 2, cell(STONE, VoxelVisibility::Opaque));
    let mut section = ChunkSection::create(3, ChunkPosition::new(1, -1));
    assert!(!section.is_collider_update_needed());
    let first = generate_chunk_geometry(&mut section, &atlas(), &data, &registry());
    assert!(first);
    assert_eq!(section.mesh.face_count(), 6);
    assert!(section.is_collider_update_needed());
    match section.update_collider() {
        ColliderAction::Create(shape) => assert_eq!(shape.indices.len(), 12),
        _ => panic!("a new collider is due"),
    }
    assert!(!section.is_collider_update_needed());
    assert!(section.collider);
    let again = generate_chunk_geometry(&mut section, &atlas(), &data, &registry());
    assert!(!again);
    match section.update_collider() {
        ColliderAction::SetShape(shape) => assert_eq!(shape.verts.len(), 24),
        _ => panic!("the collider gets a new shape"),
    }
    let empty = ChunkColliderDataBordered::new();
    generate_chunk_geometry(&mut section, &atlas(), &empty, &registry());
    assert!(matches!(section.update_collider(), ColliderAction::Remove));
    assert!(!section.collider);
    assert!(matches!(section.update_collider(), ColliderAction::Nothing));
}

#[test]
fn section_position_and_collider_groups() {
    let mut section = ChunkSection::create(2, ChunkPosition::new(-3, 5));
    assert_eq!(section.get_section_position(), (-48, 32, 80));
    assert_eq!(section.get_section_local_position(), (0, 32, 0));
    assert_eq!(section.update_collider_group(true), None);
    section.collider = true;
    assert_eq!(section.update_collider_group(true), Some((2, 1)));
    assert_eq!(section.update_collider_group(false), Some((4, 0)));
    assert!(section.destory());
    assert!(!section.destory());
}

#[test]
fn test_sphere_fills_the_cells_near_the_corner() {
    let block = BlockDataInfo::create(STONE, None);
    let data = voxel_chunks::mesh::mesh_generator::_get_test_sphere(9, block);
    assert_eq!(data.cells.len(), 5832);
    // (2, 2, 0) lies at distance squared 8, (3, 0, 0) at 9
    assert_eq!(data.cells[2 + 18 * 2], ChunkColliderInfo::create(VoxelVisibility::Opaque, Some(block)));
    assert_eq!(data.cells[3], ChunkColliderInfo::create(VoxelVisibility::Empty, None));
    assert_eq!(data.cells[2 + 18 * 2 + 324], ChunkColliderInfo::create(VoxelVisibility::Empty, None));
    let filled = data.cells.iter().filter(|c| c.voxel_visibility == VoxelVisibility::Opaque).count();
    // the lattice points with x^2 + y^2 + z^2 < 9 in the first octant
    assert_eq!(filled, 23);
    // only the cells inside the section proper show faces
    let buffer = generate_buffer(&data);
    assert!(buffer.num_quads() > 0);
    assert!(buffer.groups.iter().flatten().all(|q| q.minimum.0 >= 1 && q.minimum.1 >= 1 && q.minimum.2 >= 1));
}

#[test]
fn model_blocks_are_listed_in_the_order_of_the_cells() {
    let mut storage = registry();
    storage.insert(9, BlockType::new(VoxelVisibility::Empty, BlockContent::ModelCube));
    let mut data = ChunkColliderDataBordered::new();
    let chest = BlockDataInfo::create(9, Some(voxel_chunks::block::BlockFace::North));
    data.set(5, 1, 1, ChunkColliderInfo::create(VoxelVisibility::Empty, Some(chest)));
    data.set(1, 1, 16, ChunkColliderInfo::create(VoxelVisibility::Empty, Some(chest)));
    data.set(2, 2, 2, cell(STONE, VoxelVisibility::Opaque));
    // in the halo: belongs to the neighbour
    data.set(0, 3, 3, ChunkColliderInfo::create(VoxelVisibility::Empty, Some(chest)));
    // a type that is not registered is no model
    data.set(3, 3, 3, ChunkColliderInfo::create(VoxelVisibility::Empty, Some(BlockDataInfo::create(50, None))));
    let models = voxel_chunks::mesh::mesh_generator::collect_models(&data, &storage);
    assert_eq!(models.len(), 2);
    assert_eq!(models[0].position, (4, 0, 0));
    assert_eq!(models[0].block_info, chest);
    assert_eq!(models[1].position, (0, 0, 15));
    // model blocks are not part of the mesh
    assert_eq!(generate_buffer(&data).num_quads(), 6);
}

#[test]
fn collider_triangles_refer_to_the_corners_of_their_quad() {
    let mut data = ChunkColliderDataBordered::new();
    data.set(1, 1, 1, cell(STONE, VoxelVisibility::Opaque));
    data.set(16, 16, 16, cell(GLASS, VoxelVisibility::Translucent));
    let collider = build_collider(&generate_buffer(&data));
    assert_eq!(collider.verts.len(), 48);
    assert_eq!(collider.indices.len() * 2, collider.verts.len());
    for (t, triangle) in collider.indices.iter().enumerate() {
        let first = (t as u32 / 2) * 4;
        for corner in [triangle.0, triangle.1, triangle.2] {
            assert!(first <= corner && corner < first + 4);
        }
    }
    // the faces towards +x of the block in the far corner
    assert_eq!(collider.verts[7 * 4], (16, 15, 15));
    assert_eq!(collider.verts[7 * 4 + 3], (16, 16, 16));
}

use vstd::prelude::*;
use crate::block::BlockContent;
use crate::block::BlockDataInfo;
use crate::block::BlockStorage;
use crate::block::TextureMapper;
use crate::block::VoxelVisibility;
use crate::mesh::buffer::ChunkColliderDataBordered;
use crate::mesh::buffer::ChunkColliderInfo;
use crate::mesh::buffer::groups_wf;
use crate::mesh::buffer::is_interior;
use crate::mesh::buffer::lemma_quads_below_bounds;
use crate::mesh::buffer::quad_at;
use crate::mesh::buffer::quads_below;
use crate::mesh::buffer::section_groups;
use crate::mesh::buffer::total_quads;
use crate::mesh::buffer::UnitQuad;
use crate::mesh::buffer::UnitQuadBuffer;
use crate::mesh::geometry::Point;
use crate::mesh::geometry::push_corners;
use crate::mesh::geometry::push_indices;
use crate::mesh::geometry::push_normals;
use crate::mesh::geometry::push_triangles;
use crate::mesh::geometry::push_uvs;
use crate::mesh::geometry::quad_corners;
use crate::mesh::geometry::quad_indices;
use crate::mesh::geometry::quad_normals;
use crate::mesh::geometry::quad_triangles;
use crate::mesh::geometry::quad_uvs;
use crate::shape::cell_coordinates;

verus! {

fn not_opaque(cell: &ChunkColliderInfo) -> (r: bool)
    ensures
        r == (cell.voxel_visibility != VoxelVisibility::Opaque),
{
    match cell.voxel_visibility {
        VoxelVisibility::Opaque => false,
        _ => true,
    }
}

fn is_empty(cell: &ChunkColliderInfo) -> (r: bool)
    ensures
        r == (cell.voxel_visibility == VoxelVisibility::Empty),
{
    match cell.voxel_visibility {
        VoxelVisibility::Empty => true,
        _ => false,
    }
}

/// Finds the visible faces of a bordered section.
///
/// Each cell inside the section that holds a block which is not empty gives one quad for
/// each of its six faces whose neighbouring cell is not opaque. The quads of one
/// direction come in the order of the cells.
pub fn generate_buffer(chunk_collider_data: &ChunkColliderDataBordered) -> (buffer: UnitQuadBuffer)
    requires
        chunk_collider_data.wf(),
    ensures
        buffer.wf(),
        buffer@ == section_groups(chunk_collider_data.cells@),
{
    let ghost cells = chunk_collider_data.cells@;
    let mut g0: Vec<UnitQuad> = Vec::new();
    let mut g1: Vec<UnitQuad> = Vec::new();
    let mut g2: Vec<UnitQuad> = Vec::new();
    let mut g3: Vec<UnitQuad> = Vec::new();
    let mut g4: Vec<UnitQuad> = Vec::new();
    let mut g5: Vec<UnitQuad> = Vec::new();
    let mut i: u32 = 0;
    while i < 5832
        invariant
            i <= 5832,
            cells == chunk_collider_data.cells@,
            cells.len() == 5832,
            g0@ == quads_below(cells, 0, i as nat),
            g1@ == quads_below(cells, 1, i as nat),
            g2@ == quads_below(cells, 2, i as nat),
            g3@ == quads_below(cells, 3, i as nat),
            g4@ == quads_below(cells, 4, i as nat),
            g5@ == quads_below(cells, 5, i as nat),
        decreases 5832 - i,
    {
        let (x, y, z) = cell_coordinates(i);
        let inside = 1 <= x && x <= 16 && 1 <= y && y <= 16 && 1 <= z && z <= 16;
        if inside {
            proof {
                crate::mesh::buffer::lemma_interior_neighbours(i as int);
            }
            let at = i as usize;
            let cell = chunk_collider_data.cells[at];
            if !is_empty(&cell) {
                if let Some(block_info) = cell.block_info {
                    let quad = UnitQuad { minimum: (x, y, z), block_info };
                    assert(quad == quad_at(cells, i as int));
                    if not_opaque(&chunk_collider_data.cells[at - 1]) {
                        g0.push(quad);
                    }
                    if not_opaque(&chunk_collider_data.cells[at - 18]) {
                        g1.push(quad);
                    }
                    if not_opaque(&chunk_collider_data.cells[at - 324]) {
                        g2.push(quad);
                    }
                    if not_opaque(&chunk_collider_data.cells[at + 1]) {
                        g3.push(quad);
                    }
                    if not_opaque(&chunk_collider_data.cells[at + 18]) {
                        g4.push(quad);
                    }
                    if not_opaque(&chunk_collider_data.cells[at + 324]) {
                        g5.push(quad);
                    }
                }
            }
        }
        i += 1;
    }
    proof {
        lemma_quads_below_bounds(cells, 0, 5832);
        lemma_quads_below_bounds(cells, 1, 5832);
        lemma_quads_below_bounds(cells, 2, 5832);
        lemma_quads_below_bounds(cells, 3, 5832);
        lemma_quads_below_bounds(cells, 4, 5832);
        lemma_quads_below_bounds(cells, 5, 5832);
    }
    let mut groups: Vec<Vec<UnitQuad>> = Vec::new();
    groups.push(g0);
    groups.push(g1);
    groups.push(g2);
    groups.push(g3);
    groups.push(g4);
    groups.push(g5);
    let buffer = UnitQuadBuffer { groups };
    assert(buffer@ =~= section_groups(cells));
    buffer
}

/// The arrays of a render mesh: triangles as triples of consecutive indices into the
/// vertices, and for each vertex its position, its normal and its place in the atlas.
pub struct RenderMesh {
    pub indices: Vec<u32>,
    pub verts: Vec<Point>,
    pub normals: Vec<Point>,
    pub uvs: Vec<(u32, u32)>,
}

/// What a render mesh holds.
pub struct MeshData {
    pub indices: Seq<u32>,
    pub verts: Seq<Point>,
    pub normals: Seq<Point>,
    pub uvs: Seq<(u32, u32)>,
}

impl View for RenderMesh {
    type V = MeshData;

    open spec fn view(&self) -> MeshData {
        MeshData {
            indices: self.indices@,
            verts: self.verts@,
            normals: self.normals@,
            uvs: self.uvs@,
        }
    }
}

impl RenderMesh {
    /// The number of quads in the mesh.
    pub fn face_count(&self) -> (n: usize)
        ensures
            n == self@.verts.len() / 4,
    {
        self.verts.len() / 4
    }

    /// Whether the mesh has nothing to draw.
    pub fn is_empty(&self) -> (r: bool)
        ensures
            r == (self@.indices.len() == 0),
    {
        self.indices.len() == 0
    }
}

/// The triangles of a collision mesh and the vertices they refer to.
pub struct ColliderMesh {
    pub verts: Vec<Point>,
    pub indices: Vec<(u32, u32, u32)>,
}

/// What a collision mesh holds.
pub struct ColliderData {
    pub verts: Seq<Point>,
    pub indices: Seq<(u32, u32, u32)>,
}

impl View for ColliderMesh {
    type V = ColliderData;

    open spec fn view(&self) -> ColliderData {
        ColliderData { verts: self.verts@, indices: self.indices@ }
    }
}

/// The mesh without any face.
pub open spec fn empty_mesh() -> MeshData {
    MeshData { indices: Seq::empty(), verts: Seq::empty(), normals: Seq::empty(), uvs: Seq::empty() }
}

/// Whether a quad is drawn in a pass: its block type is registered, the type is
/// translucent exactly when the pass is the translucent one, and the atlas has a tile
/// for the face.
pub open spec fn quad_kept(
    storage: BlockStorage,
    atlas: TextureMapper,
    only_translucent: bool,
    face: int,
    quad: UnitQuad,
) -> bool {
    match storage.lookup(quad.block_info.id) {
        Some(t) => (t.voxel_visibility == VoxelVisibility::Translucent) == only_translucent
            && atlas.uv_offset(quad.block_info.id, face) is Some,
        None => false,
    }
}

/// The mesh `m` with one more quad at its end.
pub open spec fn with_quad(m: MeshData, atlas: TextureMapper, face: int, quad: UnitQuad) -> MeshData {
    MeshData {
        indices: m.indices + quad_indices(face, m.verts.len() as int),
        verts: m.verts + quad_corners(face, quad),
        normals: m.normals + quad_normals(face),
        uvs: m.uvs + quad_uvs(face, atlas.uv_offset(quad.block_info.id, face)->0),
    }
}

/// The mesh `base` followed by those of `quads` that the pass keeps, in their order.
pub open spec fn group_mesh(
    base: MeshData,
    quads: Seq<UnitQuad>,
    storage: BlockStorage,
    atlas: TextureMapper,
    only_translucent: bool,
    face: int,
) -> MeshData
    decreases quads.len(),
{
    if quads.len() == 0 {
        base
    } else {
        let before = group_mesh(base, quads.drop_last(), storage, atlas, only_translucent, face);
        if quad_kept(storage, atlas, only_translucent, face, quads.last()) {
            with_quad(before, atlas, face, quads.last())
        } else {
            before
        }
    }
}

/// The mesh of the first `faces` groups of a buffer, one group after the other.
pub open spec fn faces_mesh(
    groups: Seq<Seq<UnitQuad>>,
    storage: BlockStorage,
    atlas: TextureMapper,
    only_translucent: bool,
    faces: nat,
) -> MeshData
    decreases faces,
{
    if faces == 0 {
        empty_mesh()
    } else {
        group_mesh(
            faces_mesh(groups, storage, atlas, only_translucent, (faces - 1) as nat),
            groups[faces - 1],
            storage,
            atlas,
            only_translucent,
            faces - 1,
        )
    }
}

/// The arrays of a mesh fit together: one normal and one atlas place for each vertex,
/// four vertices and six indices for each quad, and no index beyond the vertices.
pub open spec fn well_shaped(m: MeshData) -> bool {
    &&& m.normals.len() == m.verts.len()
    &&& m.uvs.len() == m.verts.len()
    &&& m.verts.len() % 4 == 0
    &&& m.indices.len() * 2 == m.verts.len() * 3
    &&& forall|i: int| 0 <= i < m.indices.len() ==> (#[trigger] m.indices[i]) < m.verts.len()
}

/// Adding the kept quads of a group keeps a mesh well shaped, and adds at most four
/// vertices for each quad of the group.
pub proof fn lemma_group_mesh_shape(
    base: MeshData,
    quads: Seq<UnitQuad>,
    storage: BlockStorage,
    atlas: TextureMapper,
    only_translucent: bool,
    face: int,
)
    requires
        well_shaped(base),
        0 <= face < 6,
        base.verts.len() + 4 * quads.len() <= 0x7fff_fff0,
    ensures
        well_shaped(group_mesh(base, quads, storage, atlas, only_translucent, face)),
        base.verts.len() <= group_mesh(base, quads, storage, atlas, only_translucent, face).verts.len()
            <= base.verts.len() + 4 * quads.len(),
    decreases quads.len(),
{
    if quads.len() > 0 {
        lemma_group_mesh_shape(base, quads.drop_last(), storage, atlas, only_translucent, face);
        let before = group_mesh(base, quads.drop_last(), storage, atlas, only_translucent, face);
        if quad_kept(storage, atlas, only_translucent, face, quads.last()) {
            let after = with_quad(before, atlas, face, quads.last());
            assert forall|i: int| 0 <= i < after.indices.len() implies (#[trigger] after.indices[i])
                < after.verts.len() by {
                if i >= before.indices.len() {
                    let t = i - before.indices.len();
                    assert(after.indices[i] == quad_indices(face, before.verts.len() as int)[t]);
                }
            }
        }
    }
}

/// The mesh of a well-formed buffer is well shaped.
pub proof fn lemma_faces_mesh_shape(
    groups: Seq<Seq<UnitQuad>>,
    storage: BlockStorage,
    atlas: TextureMapper,
    only_translucent: bool,
    faces: nat,
)
    requires
        groups_wf(groups),
        faces <= 6,
    ensures
        well_shaped(faces_mesh(groups, storage, atlas, only_translucent, faces)),
        faces_mesh(groups, storage, atlas, only_translucent, faces).verts.len() <= 23328 * faces,
    decreases faces,
{
    if faces > 0 {
        lemma_faces_mesh_shape(groups, storage, atlas, only_translucent, (faces - 1) as nat);
        lemma_group_mesh_shape(
            faces_mesh(groups, storage, atlas, only_translucent, (faces - 1) as nat),
            groups[faces - 1],
            storage,
            atlas,
            only_translucent,
            faces - 1,
        );
    }
}

/// A buffer without quads gives a mesh without faces, whatever the pass.
pub proof fn lemma_no_quads_no_faces(
    groups: Seq<Seq<UnitQuad>>,
    storage: BlockStorage,
    atlas: TextureMapper,
    only_translucent: bool,
    faces: nat,
)
    requires
        forall|f: int| 0 <= f < 6 ==> (#[trigger] groups[f]).len() == 0,
        faces <= 6,
    ensures
        faces_mesh(groups, storage, atlas, only_translucent, faces) == empty_mesh(),
    decreases faces,
{
    if faces > 0 {
        lemma_no_quads_no_faces(groups, storage, atlas, only_translucent, (faces - 1) as nat);
    }
}

fn is_translucent(v: VoxelVisibility) -> (r: bool)
    ensures
        r == (v == VoxelVisibility::Translucent),
{
    match v {
        VoxelVisibility::Translucent => true,
        _ => false,
    }
}

/// Builds the render mesh of one pass from a buffer of visible faces.
///
/// The opaque pass (`only_translucent` false) draws the quads whose block type is not
/// translucent, the translucent pass the others. A quad whose block type is not
/// registered, or whose face has no tile in the atlas, is left out.
pub fn generate_mesh(
    texture_mapper: &TextureMapper,
    buffer: &UnitQuadBuffer,
    block_storage: &BlockStorage,
    only_translucent: bool,
) -> (mesh: RenderMesh)
    requires
        buffer.wf(),
    ensures
        mesh@ == faces_mesh(buffer@, *block_storage, *texture_mapper, only_translucent, 6),
        well_shaped(mesh@),
{
    let mut indices: Vec<u32> = Vec::new();
    let mut verts: Vec<Point> = Vec::new();
    let mut normals: Vec<Point> = Vec::new();
    let mut uvs: Vec<(u32, u32)> = Vec::new();
    let mut face: u8 = 0;
    while face < 6
        invariant
            face <= 6,
            buffer.wf(),
            verts@.len() <= 23328 * face,
            (MeshData { indices: indices@, verts: verts@, normals: normals@, uvs: uvs@ }) == faces_mesh(
                buffer@,
                *block_storage,
                *texture_mapper,
                only_translucent,
                face as nat,
            ),
        decreases 6 - face,
    {
        let group = &buffer.groups[face as usize];
        let ghost base = MeshData { indices: indices@, verts: verts@, normals: normals@, uvs: uvs@ };
        let mut j: usize = 0;
        while j < group.len()
            invariant
                j <= group@.len(),
                face < 6,
                buffer.wf(),
                group@ == buffer@[face as int],
                verts@.len() <= 23328 * face + 4 * j,
                (MeshData { indices: indices@, verts: verts@, normals: normals@, uvs: uvs@ })
                    == group_mesh(
                    base,
                    group@.subrange(0, j as int),
                    *block_storage,
                    *texture_mapper,
                    only_translucent,
                    face as int,
                ),
            decreases group@.len() - j,
        {
            let quad = group[j];
            assert(group@.subrange(0, j + 1).drop_last() =~= group@.subrange(0, j as int));
            assert(group@.subrange(0, j + 1).last() == quad);
            assert(crate::mesh::buffer::quad_inside(buffer@[face as int][j as int]));
            let id = quad.block_info.id;
            if let Some(block_type) = block_storage.get(&id) {
                if is_translucent(block_type.voxel_visibility) == only_translucent {
                    if let Some(offset) = texture_mapper.get_uv_offset(id, face) {
                        let start = verts.len() as u32;
                        push_indices(&mut indices, face, start);
                        push_corners(&mut verts, face, &quad);
                        push_normals(&mut normals, face);
                        push_uvs(&mut uvs, face, offset);
                    }
                }
            }
            j += 1;
        }
        assert(group@.subrange(0, j as int) =~= group@);
        face += 1;
    }
    proof {
        lemma_faces_mesh_shape(buffer@, *block_storage, *texture_mapper, only_translucent, 6);
    }
    RenderMesh { indices, verts, normals, uvs }
}

/// The collision mesh `base` followed by all of `quads`, in their order.
pub open spec fn group_collider(base: ColliderData, quads: Seq<UnitQuad>, face: int) -> ColliderData
    decreases quads.len(),
{
    if quads.len() == 0 {
        base
    } else {
        let before = group_collider(base, quads.drop_last(), face);
        ColliderData {
            verts: before.verts + quad_corners(face, quads.last()),
            indices: before.indices + quad_triangles(face, before.verts.len() as int),
        }
    }
}

/// The collision mesh of the first `faces` groups of a buffer.
pub open spec fn faces_collider(groups: Seq<Seq<UnitQuad>>, faces: nat) -> ColliderData
    decreases faces,
{
    if faces == 0 {
        ColliderData { verts: Seq::empty(), indices: Seq::empty() }
    } else {
        group_collider(faces_collider(groups, (faces - 1) as nat), groups[faces - 1], faces - 1)
    }
}

/// The arrays of a collision mesh fit together: four vertices and two triangles for
/// each quad, and no triangle with a corner beyond the vertices.
pub open spec fn collider_well_shaped(c: ColliderData) -> bool {
    &&& c.verts.len() % 4 == 0
    &&& c.indices.len() * 2 == c.verts.len()
    &&& forall|i: int|
        0 <= i < c.indices.len() ==> (#[trigger] c.indices[i]).0 < c.verts.len() && c.indices[i].1
            < c.verts.len() && c.indices[i].2 < c.verts.len()
}

/// Adding the quads of a group keeps a collision mesh well shaped: the two triangles of
/// each quad refer to the four corners of that quad.
pub proof fn lemma_group_collider_shape(base: ColliderData, quads: Seq<UnitQuad>, face: int)
    requires
        collider_well_shaped(base),
        0 <= face < 6,
        base.verts.len() + 4 * quads.len() <= 0x7fff_fff0,
    ensures
        collider_well_shaped(group_collider(base, quads, face)),
        group_collider(base, quads, face).verts.len() == base.verts.len() + 4 * quads.len(),
    decreases quads.len(),
{
    if quads.len() > 0 {
        lemma_group_collider_shape(base, quads.drop_last(), face);
        let before = group_collider(base, quads.drop_last(), face);
        let after = group_collider(base, quads, face);
        assert forall|i: int| 0 <= i < after.indices.len() implies (#[trigger] after.indices[i]).0
            < after.verts.len() && after.indices[i].1 < after.verts.len() && after.indices[i].2
            < after.verts.len() by {
            if i >= before.indices.len() {
                let t = i - before.indices.len();
                assert(after.indices[i] == quad_triangles(face, before.verts.len() as int)[t]);
            } else {
                assert(after.indices[i] == before.indices[i]);
            }
        }
    }
}

/// The collision mesh of well-formed groups is well shaped.
pub proof fn lemma_faces_collider_shape(groups: Seq<Seq<UnitQuad>>, faces: nat)
    requires
        groups_wf(groups),
        faces <= 6,
    ensures
        collider_well_shaped(faces_collider(groups, faces)),
        faces_collider(groups, faces).verts.len() <= 23328 * faces,
    decreases faces,
{
    if faces > 0 {
        lemma_faces_collider_shape(groups, (faces - 1) as nat);
        lemma_group_collider_shape(faces_collider(groups, (faces - 1) as nat), groups[faces - 1], faces - 1);
    }
}

/// Builds the collision mesh of a buffer: two triangles for every quad, whatever its
/// block and whether or not the atlas has a tile for it.
pub fn build_collider(buffer: &UnitQuadBuffer) -> (collider: ColliderMesh)
    requires
        buffer.wf(),
    ensures
        collider@ == faces_collider(buffer@, 6),
        collider@.verts.len() == 4 * total_quads(buffer@),
        collider@.indices.len() == 2 * total_quads(buffer@),
        collider_well_shaped(collider@),
{
    proof {
        lemma_faces_collider_shape(buffer@, 6);
    }
    let mut verts: Vec<Point> = Vec::new();
    let mut indices: Vec<(u32, u32, u32)> = Vec::new();
    let ghost mut count: nat = 0;
    let mut face: u8 = 0;
    while face < 6
        invariant
            face <= 6,
            buffer.wf(),
            count <= 5832 * face,
            verts@.len() == 4 * count,
            indices@.len() == 2 * count,
            count == (if face >= 1 { buffer@[0].len() } else { 0 })
                + (if face >= 2 { buffer@[1].len() } else { 0 })
                + (if face >= 3 { buffer@[2].len() } else { 0 })
                + (if face >= 4 { buffer@[3].len() } else { 0 })
                + (if face >= 5 { buffer@[4].len() } else { 0 })
                + (if face >= 6 { buffer@[5].len() } else { 0 }),
            (ColliderData { verts: verts@, indices: indices@ }) == faces_collider(buffer@, face as nat),
        decreases 6 - face,
    {
        let group = &buffer.groups[face as usize];
        let ghost base = ColliderData { verts: verts@, indices: indices@ };
        let mut j: usize = 0;
        while j < group.len()
            invariant
                j <= group@.len(),
                face < 6,
                buffer.wf(),
                group@ == buffer@[face as int],
                base.verts.len() == 4 * count,
                base.indices.len() == 2 * count,
                count <= 5832 * face,
                verts@.len() == 4 * count + 4 * j,
                indices@.len() == 2 * count + 2 * j,
                (ColliderData { verts: verts@, indices: indices@ }) == group_collider(
                    base,
                    group@.subrange(0, j as int),
                    face as int,
                ),
            decreases group@.len() - j,
        {
            let quad = group[j];
            assert(group@.subrange(0, j + 1).drop_last() =~= group@.subrange(0, j as int));
            assert(group@.subrange(0, j + 1).last() == quad);
            assert(crate::mesh::buffer::quad_inside(buffer@[face as int][j as int]));
            let start = verts.len() as u32;
            push_triangles(&mut indices, face, start);
            push_corners(&mut verts, face, &quad);
            j += 1;
        }
        assert(group@.subrange(0, j as int) =~= group@);
        proof {
            count = count + group@.len();
        }
        face += 1;
    }
    ColliderMesh { verts, indices }
}

/// The square of a number.
pub open spec fn squared(v: int) -> int {
    v * v
}

fn square_of(v: u32) -> (r: u32)
    requires
        v < 18,
    ensures
        r == squared(v as int),
        r <= 289,
{
    assert(v * v <= 289) by (nonlinear_arith)
        requires
            v < 18,
    ;
    v * v
}

/// The cell at place `i` of the test ball: an opaque block where the square of the
/// cell's distance from the corner `(0, 0, 0)` is below `radius_squared`, and empty
/// otherwise.
pub open spec fn sphere_cell(i: int, radius_squared: u32, block_info: BlockDataInfo) -> ChunkColliderInfo {
    let x = i % 18;
    let y = (i / 18) % 18;
    let z = i / 324;
    if squared(x) + squared(y) + squared(z) < radius_squared {
        ChunkColliderInfo { voxel_visibility: VoxelVisibility::Opaque, block_info: Some(block_info) }
    } else {
        ChunkColliderInfo { voxel_visibility: VoxelVisibility::Empty, block_info: None }
    }
}

/// Bordered test data: a ball of opaque blocks round the corner `(0, 0, 0)` of the
/// bordered section.
pub fn _get_test_sphere(radius_squared: u32, block_info: BlockDataInfo) -> (data: ChunkColliderDataBordered)
    ensures
        data.wf(),
        forall|i: int| 0 <= i < 5832 ==> #[trigger] data.cells@[i] == sphere_cell(i, radius_squared, block_info),
{
    let mut cells: Vec<ChunkColliderInfo> = Vec::new();
    let mut i: u32 = 0;
    while i < 5832
        invariant
            i <= 5832,
            cells@.len() == i,
            forall|j: int| 0 <= j < i ==> #[trigger] cells@[j] == sphere_cell(j, radius_squared, block_info),
        decreases 5832 - i,
    {
        let (x, y, z) = cell_coordinates(i);
        let inside = square_of(x) + square_of(y) + square_of(z) < radius_squared;
        if inside {
            cells.push(
                ChunkColliderInfo { voxel_visibility: VoxelVisibility::Opaque, block_info: Some(block_info) },
            );
        } else {
            cells.push(ChunkColliderInfo { voxel_visibility: VoxelVisibility::Empty, block_info: None });
        }
        i += 1;
    }
    ChunkColliderDataBordered { cells }
}

/// A block that the host shows as an object of its own, with its place in the section.
#[derive(Clone, Copy, Debug, PartialEq, Eq)]
pub struct ModelBlock {
    /// The block's offset in its section.
    pub position: (u8, u8, u8),
    pub block_info: BlockDataInfo,
}

/// Whether cell `i` lies inside the section and holds a block whose type is registered
/// as a model.
pub open spec fn is_model_cell(cells: Seq<ChunkColliderInfo>, storage: BlockStorage, i: int) -> bool {
    &&& is_interior(i)
    &&& cells[i].block_info matches Some(b)
    &&& storage.lookup(b.id) matches Some(t)
    &&& t.block_content == BlockContent::ModelCube
}

/// The model block in cell `i`.
pub open spec fn model_at(cells: Seq<ChunkColliderInfo>, i: int) -> ModelBlock {
    ModelBlock {
        position: ((i % 18 - 1) as u8, ((i / 18) % 18 - 1) as u8, (i / 324 - 1) as u8),
        block_info: cells[i].block_info->0,
    }
}

/// The model blocks among the first `n` cells, in the order of the cells.
pub open spec fn models_below(cells: Seq<ChunkColliderInfo>, storage: BlockStorage, n: nat) -> Seq<ModelBlock>
    decreases n,
{
    if n == 0 {
        Seq::empty()
    } else {
        let rest = models_below(cells, storage, (n - 1) as nat);
        if is_model_cell(cells, storage, n - 1) {
            rest.push(model_at(cells, n - 1))
        } else {
            rest
        }
    }
}

/// Lists the blocks of a bordered section that the host shows as objects of their own:
/// the blocks inside the section whose type is registered as a model.
pub fn collect_models(chunk_collider_data: &ChunkColliderDataBordered, block_storage: &BlockStorage) -> (models:
    Vec<ModelBlock>)
    requires
        chunk_collider_data.wf(),
    ensures
        models@ == models_below(chunk_collider_data.cells@, *block_storage, 5832),
{
    let ghost cells = chunk_collider_data.cells@;
    let mut models: Vec<ModelBlock> = Vec::new();
    let mut i: u32 = 0;
    while i < 5832
        invariant
            i <= 5832,
            cells == chunk_collider_data.cells@,
            cells.len() == 5832,
            models@ == models_below(cells, *block_storage, i as nat),
        decreases 5832 - i,
    {
        let (x, y, z) = cell_coordinates(i);
        let inside = 1 <= x && x <= 16 && 1 <= y && y <= 16 && 1 <= z && z <= 16;
        if inside {
            if let Some(block_info) = chunk_collider_data.cells[i as usize].block_info {
                if let Some(block_type) = block_storage.get(&block_info.id) {
                    match block_type.block_content {
                        BlockContent::ModelCube => {
                            let model = ModelBlock {
                                position: ((x - 1) as u8, (y - 1) as u8, (z - 1) as u8),
                                block_info,
                            };
                            assert(model == model_at(cells, i as int));
                            models.push(model);
                        },
                        BlockContent::Texture => {},
                    }
                }
            }
        }
        i += 1;
    }
    models
}

} // verus!

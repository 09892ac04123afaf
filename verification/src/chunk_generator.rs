use vstd::prelude::*;
use crate::block::BlockStorage;
use crate::block::TextureMapper;
use crate::block::VoxelVisibility;
use crate::channel::channel_send;
use crate::channel::ChunkSender;
use crate::chunk_section::ChunkSection;
use crate::chunk_section::GeometryData;
use crate::chunk_section::SectionGeometry;
use crate::chunk_section::with_geometry;
use crate::mesh::buffer::ChunkColliderDataBordered;
use crate::mesh::buffer::ChunkColliderInfo;
use crate::mesh::buffer::is_interior;
use crate::mesh::buffer::lemma_no_blocks_no_quads;
use crate::mesh::buffer::section_groups;
use crate::mesh::mesh_generator::build_collider;
use crate::mesh::mesh_generator::empty_mesh;
use crate::mesh::mesh_generator::faces_collider;
use crate::mesh::mesh_generator::faces_mesh;
use crate::mesh::mesh_generator::generate_buffer;
use crate::mesh::mesh_generator::generate_mesh;
use crate::mesh::mesh_generator::lemma_no_quads_no_faces;
use crate::mesh::mesh_generator::well_shaped;
use crate::position::ChunkPosition;

verus! {

/// The geometry of a bordered section: the opaque and the translucent pass of its
/// visible faces, and a collision mesh of all those faces where the opaque pass is not
/// empty.
pub open spec fn geometry_of(
    cells: Seq<ChunkColliderInfo>,
    storage: BlockStorage,
    atlas: TextureMapper,
) -> GeometryData {
    let mesh = faces_mesh(section_groups(cells), storage, atlas, false, 6);
    GeometryData {
        mesh,
        mesh_transparent: faces_mesh(section_groups(cells), storage, atlas, true, 6),
        collider: if mesh.indices.len() > 0 {
            Some(faces_collider(section_groups(cells), 6))
        } else {
            None
        },
    }
}

/// No cell inside the section holds a visible block.
pub open spec fn nothing_visible(cells: Seq<ChunkColliderInfo>) -> bool {
    forall|i: int| is_interior(i) ==> (#[trigger] cells[i]).voxel_visibility == VoxelVisibility::Empty
}

/// A section without a visible block has two empty meshes and no collision mesh.
pub proof fn lemma_empty_section_geometry(
    cells: Seq<ChunkColliderInfo>,
    storage: BlockStorage,
    atlas: TextureMapper,
)
    requires
        nothing_visible(cells),
    ensures
        geometry_of(cells, storage, atlas) == (GeometryData {
            mesh: empty_mesh(),
            mesh_transparent: empty_mesh(),
            collider: None,
        }),
{
    lemma_no_blocks_no_quads(cells, 0, 5832);
    lemma_no_blocks_no_quads(cells, 1, 5832);
    lemma_no_blocks_no_quads(cells, 2, 5832);
    lemma_no_blocks_no_quads(cells, 3, 5832);
    lemma_no_blocks_no_quads(cells, 4, 5832);
    lemma_no_blocks_no_quads(cells, 5, 5832);
    lemma_no_quads_no_faces(section_groups(cells), storage, atlas, false, 6);
    lemma_no_quads_no_faces(section_groups(cells), storage, atlas, true, 6);
}

/// Builds the geometry of one bordered section.
pub fn build_section_geometry(
    texture_mapper: &TextureMapper,
    chunk_collider_data: &ChunkColliderDataBordered,
    block_storage: &BlockStorage,
) -> (geometry: SectionGeometry)
    requires
        chunk_collider_data.wf(),
    ensures
        geometry@ == geometry_of(chunk_collider_data.cells@, *block_storage, *texture_mapper),
        well_shaped(geometry@.mesh),
        well_shaped(geometry@.mesh_transparent),
{
    let buffer = generate_buffer(chunk_collider_data);
    let mesh = generate_mesh(texture_mapper, &buffer, block_storage, false);
    let mesh_transparent = generate_mesh(texture_mapper, &buffer, block_storage, true);
    let collider = if !mesh.is_empty() {
        Some(build_collider(&buffer))
    } else {
        None
    };
    SectionGeometry { mesh, mesh_transparent, collider }
}

/// Rebuilds the geometry of a section from its bordered data and puts it on the
/// section. Returns whether the section shows geometry for the first time.
pub fn generate_chunk_geometry(
    chunk_section: &mut ChunkSection,
    texture_mapper: &TextureMapper,
    chunk_collider_data: &ChunkColliderDataBordered,
    block_storage: &BlockStorage,
) -> (first: bool)
    requires
        chunk_collider_data.wf(),
    ensures
        final(chunk_section)@ == with_geometry(
            old(chunk_section)@,
            geometry_of(chunk_collider_data.cells@, *block_storage, *texture_mapper),
        ),
        first == (!old(chunk_section).set_geometry_first_time && final(chunk_section).set_geometry_first_time),
{
    let geometry = build_section_geometry(texture_mapper, chunk_collider_data, block_storage);
    chunk_section.apply_geometry(geometry)
}

/// The work for one section of a column: the section's height and its bordered data,
/// taken when the column was admitted.
pub struct SectionJob {
    pub y: usize,
    pub data: ChunkColliderDataBordered,
}

/// The work for one column: its sections that hold a visible block.
pub struct ChunkJob {
    pub chunk_position: ChunkPosition,
    pub sections: Vec<SectionJob>,
}

/// The geometry that was made for one section.
pub struct GeneratedSection {
    pub y: usize,
    pub geometry: SectionGeometry,
}

/// The geometry that was made for one column.
pub struct GeneratedChunk {
    pub chunk_position: ChunkPosition,
    pub sections: Vec<GeneratedSection>,
}

impl ChunkJob {
    /// Every section of the job has complete bordered data.
    pub open spec fn wf(self) -> bool {
        forall|i: int| 0 <= i < self.sections@.len() ==> (#[trigger] self.sections@[i]).data.wf()
    }

    /// The sections of the job as plain values: height and cells.
    pub open spec fn parts(self) -> Seq<(int, Seq<ChunkColliderInfo>)> {
        Seq::new(
            self.sections@.len(),
            |i: int| (self.sections@[i].y as int, self.sections@[i].data.cells@),
        )
    }
}

impl GeneratedChunk {
    /// The sections of the result as plain values: height and geometry.
    pub open spec fn parts(self) -> Seq<(int, GeometryData)> {
        crate::chunk_column::parts_of(self.sections@)
    }
}

/// The geometry of each section of a job, in the job's order.
pub open spec fn job_result(
    parts: Seq<(int, Seq<ChunkColliderInfo>)>,
    storage: BlockStorage,
    atlas: TextureMapper,
) -> Seq<(int, GeometryData)> {
    Seq::new(parts.len(), |i: int| (parts[i].0, geometry_of(parts[i].1, storage, atlas)))
}

/// Builds the geometry of every section of a job. Nothing but the job, the atlas and the
/// registry is read, so jobs of different columns can run side by side.
pub fn run_chunk_job(job: &ChunkJob, texture_mapper: &TextureMapper, block_storage: &BlockStorage) -> (done:
    GeneratedChunk)
    requires
        job.wf(),
    ensures
        done.chunk_position == job.chunk_position,
        done.parts() == job_result(job.parts(), *block_storage, *texture_mapper),
{
    let mut sections: Vec<GeneratedSection> = Vec::new();
    let mut i: usize = 0;
    while i < job.sections.len()
        invariant
            i <= job.sections@.len(),
            job.wf(),
            sections@.len() == i,
            forall|j: int|
                0 <= j < i ==> (#[trigger] sections@[j]).y == job.sections@[j].y && sections@[j].geometry@
                    == geometry_of(job.sections@[j].data.cells@, *block_storage, *texture_mapper),
        decreases job.sections@.len() - i,
    {
        let part = &job.sections[i];
        let geometry = build_section_geometry(texture_mapper, &part.data, block_storage);
        sections.push(GeneratedSection { y: part.y, geometry });
        i += 1;
    }
    let done = GeneratedChunk { chunk_position: job.chunk_position, sections };
    assert(done.parts() =~= job_result(job.parts(), *block_storage, *texture_mapper));
    done
}

/// Runs a job and hands its result to the store that the channel belongs to. Once the
/// store is gone the result cannot be delivered and comes back: the geometry of every
/// section of the job, under the job's coordinate.
pub fn generate_chunk(
    job: &ChunkJob,
    chunks_loaded: &ChunkSender,
    texture_mapper: &TextureMapper,
    block_storage: &BlockStorage,
) -> (r: Result<(), GeneratedChunk>)
    requires
        job.wf(),
    ensures
        r matches Err(done) ==> done.chunk_position == job.chunk_position && done.parts()
            == job_result(job.parts(), *block_storage, *texture_mapper),
{
    let done = run_chunk_job(job, texture_mapper, block_storage);
    channel_send(chunks_loaded, done)
}

} // verus!

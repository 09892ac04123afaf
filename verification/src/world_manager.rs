use vstd::prelude::*;
use crate::block::BlockDataInfo;
use crate::block::BlockStorage;
use crate::block::TextureMapper;
use crate::chunk_column::block_in;
use crate::chunk_column::collider_heights;
use crate::chunk_data::ChunkData;
use crate::chunk_generator::ChunkJob;
use crate::chunk_section::GeometryData;
use crate::chunks_map::ChunkMap;
use crate::chunks_map::CreateError;
use crate::chunks_map::EditEffects;
use crate::chunks_map::EditError;
use crate::chunks_map::SectionUpdate;
use crate::chunks_map::spawned_positions;
use crate::chunks_map::SpawnedChunk;
use crate::chunks_map::UnloadError;
use crate::chunks_map::updated_sections;
use crate::chunks_table::SectionKey;
use crate::position::BlockPosition;
use crate::position::ChunkPosition;
use crate::store_state::is_model;
use crate::store_state::is_unknown;
use crate::store_state::job_parts;
use crate::store_state::StoreState;

verus! {

/// The square of the distance, in columns, below which a column counts as near the
/// player.
pub const NEAR_DISTANCE_SQUARED: u128 = 4;

/// What one frame leaves for the host and the background to do.
pub struct FrameWork {
    /// The work for the columns that went into the making.
    pub jobs: Vec<ChunkJob>,
    /// The columns whose geometry was attached.
    pub spawned: Vec<SpawnedChunk>,
    /// The sections that were rebuilt after an edit.
    pub updated: Vec<SectionUpdate>,
}

/// The store after one frame in which `results` came back from the background: admitted
/// columns went into the making, the results were attached, stale sections were rebuilt.
pub open spec fn after_frame(
    start: StoreState,
    load_limit: nat,
    results: Seq<(ChunkPosition, Seq<(int, GeometryData)>)>,
    storage: BlockStorage,
    atlas: TextureMapper,
) -> StoreState {
    start.promote(load_limit).attach_all(results).refresh(storage, atlas)
}

/// One world: its name and its store of chunk columns.
pub struct WorldManager {
    slug: String,
    chunk_map: ChunkMap,
}

impl WorldManager {
    /// What the world's store holds.
    pub closed spec fn store(self) -> StoreState {
        self.chunk_map@
    }

    /// The world's name.
    pub closed spec fn slug(self) -> Seq<char> {
        self.slug@
    }

    /// The number of columns that are in the making at a time at most.
    pub closed spec fn load_limit(self) -> nat {
        self.chunk_map.load_limit()
    }

    /// The number of results that one frame takes at most.
    pub closed spec fn spawn_limit(self) -> nat {
        self.chunk_map.spawn_limit()
    }

    /// The world's parts fit together.
    pub closed spec fn wf(self) -> bool {
        self.chunk_map.wf()
    }

    /// A world without columns.
    pub fn create(slug: String) -> (w: WorldManager)
        ensures
            w.wf(),
            w.slug() == slug@,
            w.store() == StoreState::empty(),
            w.load_limit() == crate::chunks_map::LIMIT_CHUNK_LOADING_AT_A_TIME,
            w.spawn_limit() == crate::chunks_map::MAX_CHUNKS_SPAWN_PER_FRAME,
    {
        WorldManager { slug, chunk_map: ChunkMap::create() }
    }

    pub fn get_slug(&self) -> (slug: &String)
        ensures
            slug@ == self.slug(),
    {
        &self.slug
    }

    pub fn get_chunk_map(&self) -> (map: &ChunkMap)
        ensures
            map@ == self.store(),
            self.wf() ==> map.wf(),
    {
        &self.chunk_map
    }

    /// Takes a column that the network delivered.
    pub fn recieve_chunk(&mut self, center: ChunkPosition, chunk_position: ChunkPosition, data: ChunkData) -> (r:
        Result<(), CreateError>)
        requires
            old(self).wf(),
            forall|i: int| 0 <= i < data@.len() ==> (#[trigger] data@[i]).wf(),
        ensures
            final(self).wf(),
            final(self).slug() == old(self).slug(),
            final(self).load_limit() == old(self).load_limit(),
            final(self).spawn_limit() == old(self).spawn_limit(),
            match r {
                Ok(_) => !old(self).store().columns.contains_key(chunk_position.key()) && data@.len() > 0
                    && final(self).store() == old(self).store().with_column(
                    center,
                    chunk_position,
                    data@,
                ),
                Err(CreateError::AlreadyExists) => old(self).store().columns.contains_key(
                    chunk_position.key(),
                ) && final(self).store() == old(self).store(),
                Err(CreateError::EmptyData) => !old(self).store().columns.contains_key(
                    chunk_position.key(),
                ) && data@.len() == 0 && final(self).store() == old(self).store(),
            },
    {
        self.chunk_map.create_chunk_column(center, chunk_position, data)
    }

    /// Unloads a column at the network's word.
    pub fn unload_chunk(&mut self, chunk_position: ChunkPosition) -> (r: Result<Vec<usize>, UnloadError>)
        requires
            old(self).wf(),
        ensures
            final(self).wf(),
            final(self).slug() == old(self).slug(),
            final(self).load_limit() == old(self).load_limit(),
            final(self).spawn_limit() == old(self).spawn_limit(),
            match r {
                Ok(released) => old(self).store().columns.contains_key(chunk_position.key()) && final(self).store() == old(self).store().without_column(chunk_position) && released@
                    == collider_heights(old(self).store().columns[chunk_position.key()].sections, 8),
                Err(_) => !old(self).store().columns.contains_key(chunk_position.key()) && final(self).store() == old(self).store(),
            },
    {
        self.chunk_map.unload_chunk(chunk_position)
    }

    /// Changes a block at the network's word.
    pub fn edit_block(
        &mut self,
        position: BlockPosition,
        block_storage: &BlockStorage,
        new_block_info: Option<BlockDataInfo>,
    ) -> (r: Result<EditEffects, EditError>)
        requires
            old(self).wf(),
        ensures
            final(self).wf(),
            final(self).slug() == old(self).slug(),
            final(self).load_limit() == old(self).load_limit(),
            final(self).spawn_limit() == old(self).spawn_limit(),
            match r {
                Ok(effects) => {
                    &&& old(self).store().columns.contains_key(position.chunk().key())
                    &&& 0 <= position.section() < 8
                    &&& final(self).store() == old(self).store().with_block(
                        *block_storage,
                        position,
                        new_block_info,
                    )
                    &&& effects.removed_object == is_model(
                        *block_storage,
                        block_in(old(self).store().columns[position.chunk().key()].data, position),
                    )
                    &&& effects.created_object == is_model(*block_storage, new_block_info)
                },
                Err(EditError::ChunkNotLoaded) => !old(self).store().columns.contains_key(
                    position.chunk().key(),
                ) && final(self).store() == old(self).store(),
                Err(EditError::InvalidSection) => old(self).store().columns.contains_key(
                    position.chunk().key(),
                ) && !(0 <= position.section() < 8) && final(self).store() == old(self).store(),
                Err(EditError::BlockNotFound(id)) => {
                    let old_block = block_in(
                        old(self).store().columns[position.chunk().key()].data,
                        position,
                    );
                    &&& final(self).store() == old(self).store()
                    &&& if is_unknown(*block_storage, old_block) {
                        id == old_block->0.id
                    } else {
                        is_unknown(*block_storage, new_block_info) && id == new_block_info->0.id
                    }
                },
            },
    {
        self.chunk_map.edit_block(position, block_storage, new_block_info)
    }

    /// Does the work of one frame, in this order: admitted columns go into the making,
    /// finished geometry is attached, stale sections are rebuilt. The first two steps
    /// do no more than their limits allow, and none waits for the background.
    ///
    /// Which results are attached depends on the background work; whatever came, the
    /// store ends as if the three steps had been taken one after the other with those
    /// results.
    pub fn custom_process(&mut self, block_storage: &BlockStorage, texture_mapper: &TextureMapper) -> (work:
        FrameWork)
        requires
            old(self).wf(),
        ensures
            final(self).wf(),
            final(self).slug() == old(self).slug(),
            final(self).load_limit() == old(self).load_limit(),
            final(self).spawn_limit() == old(self).spawn_limit(),
            work.jobs@.len() == old(self).store().promoted(old(self).load_limit()).len(),
            forall|j: int|
                0 <= j < work.jobs@.len() ==> {
                    &&& (#[trigger] work.jobs@[j]).chunk_position == old(self).store().promoted(
                        old(self).load_limit(),
                    )[j]
                    &&& work.jobs@[j].wf()
                    &&& work.jobs@[j].parts() == job_parts(
                        old(self).store().columns,
                        *block_storage,
                        work.jobs@[j].chunk_position,
                        8,
                    )
                },
            work.spawned@.len() <= old(self).spawn_limit(),
            exists|results: Seq<(ChunkPosition, Seq<(int, GeometryData)>)>|
                {
                    &&& results.len() <= old(self).spawn_limit()
                    &&& spawned_positions(work.spawned@) == old(self).store().promote(
                        old(self).load_limit(),
                    ).attached(results)
                    &&& final(self).store() == #[trigger] after_frame(
                        old(self).store(),
                        old(self).load_limit(),
                        results,
                        *block_storage,
                        *texture_mapper,
                    )
                    &&& forall|d: SectionKey|
                        updated_sections(work.updated@).contains(d) <==> old(self).store().promote(
                            old(self).load_limit(),
                        ).attach_all(results).rebuilds(d)
                },
            updated_sections(work.updated@).no_duplicates(),
    {
        let jobs = self.chunk_map.send_chunks_to_load(block_storage);
        let ghost sent = self.chunk_map@;
        let spawned = self.chunk_map.spawn_loaded_chunks();
        let ghost attached = self.chunk_map@;
        let updated = self.chunk_map.update_chunks_geometry(block_storage, texture_mapper);
        proof {
            let results = choose|results: Seq<(ChunkPosition, Seq<(int, GeometryData)>)>|
                {
                    &&& results.len() <= old(self).spawn_limit()
                    &&& attached == sent.attach_all(results)
                    &&& spawned_positions(spawned@) == sent.attached(results)
                };
            assert(results.len() <= old(self).spawn_limit());
            assert(self.store() == after_frame(
                old(self).store(),
                old(self).load_limit(),
                results,
                *block_storage,
                *texture_mapper,
            ));
        }
        FrameWork { jobs, spawned, updated }
    }

    /// Tells for every column whether it is near the column `new_chunk`, into which the
    /// player has stepped: less than two columns away. Each column comes once, in no
    /// particular order.
    pub fn handler_player_move(&self, new_chunk: ChunkPosition) -> (near: Vec<(ChunkPosition, bool)>)
        requires
            self.wf(),
        ensures
            forall|p: ChunkPosition|
                self.store().columns.contains_key(p.key()) <==> (exists|i: int|
                    0 <= i < near@.len() && (#[trigger] near@[i]).0 == p),
            forall|i: int|
                0 <= i < near@.len() ==> (#[trigger] near@[i]).1 == (near@[i].0.distance_squared(new_chunk)
                    < 4),
            forall|i: int, j: int| 0 <= i < j < near@.len() ==> near@[i].0 != near@[j].0,
    {
        let positions = self.chunk_map.iter();
        let limit = crate::position::Distance { high: false, low: NEAR_DISTANCE_SQUARED };
        let mut near: Vec<(ChunkPosition, bool)> = Vec::new();
        let mut i: usize = 0;
        while i < positions.len()
            invariant
                i <= positions@.len(),
                near@.len() == i,
                limit.value() == 4,
                forall|j: int| 0 <= j < i ==> (#[trigger] near@[j]).0 == positions@[j],
                forall|j: int|
                    0 <= j < i ==> (#[trigger] near@[j]).1 == (near@[j].0.distance_squared(new_chunk) < 4),
            decreases positions@.len() - i,
        {
            let p = positions[i];
            let is_near = p.get_distance(&new_chunk).is_less(&limit);
            near.push((p, is_near));
            i += 1;
        }
        proof {
            assert forall|p: ChunkPosition|
                self.store().columns.contains_key(p.key()) <==> (exists|i: int|
                    0 <= i < near@.len() && (#[trigger] near@[i]).0 == p) by {
                if self.store().columns.contains_key(p.key()) {
                    assert(positions@.contains(p));
                    let j = choose|j: int| 0 <= j < positions@.len() && positions@[j] == p;
                    assert(near@[j].0 == p);
                }
                if exists|i: int| 0 <= i < near@.len() && (#[trigger] near@[i]).0 == p {
                    let j = choose|j: int| 0 <= j < near@.len() && (#[trigger] near@[j]).0 == p;
                    assert(positions@[j] == p);
                    assert(positions@.contains(p));
                }
            }
        }
        near
    }
}

} // verus!

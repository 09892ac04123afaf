use vstd::prelude::*;
use crate::block::BlockContent;
use crate::block::BlockDataInfo;
use crate::block::BlockIndexType;
use crate::block::BlockStorage;
use crate::block::TextureMapper;
use crate::channel::channel_len;
use crate::channel::channel_open;
use crate::channel::channel_sender;
use crate::channel::channel_try_recv;
use crate::channel::ChunkReceiver;
use crate::channel::ChunkSender;
use crate::chunk_column::actions_view;
use crate::chunk_column::attached_actions;
use crate::chunk_column::block_in;
use crate::chunk_column::ChunkColumn;
use crate::chunk_column::collider_heights;
use crate::chunk_column::parts_of;
use crate::chunk_column::settle_action;
use crate::chunk_data::ChunkData;
use crate::chunk_data::SectionData;
use crate::chunk_data_formatter::format_chunk_data_with_boundaries;
use crate::chunk_generator::build_section_geometry;
use crate::chunk_generator::ChunkJob;
use crate::chunk_generator::GeneratedChunk;
use crate::chunk_generator::geometry_of;
use crate::chunk_generator::SectionJob;
use crate::chunk_section::ColliderAction;
use crate::chunk_section::GeometryData;
use crate::chunk_section::with_geometry;
use crate::chunks_table::ChunkKey;
use crate::chunks_table::chunks_get;
use crate::chunks_table::chunks_get_mut;
use crate::chunks_table::chunks_insert;
use crate::chunks_table::chunks_keys;
use crate::chunks_table::chunks_new;
use crate::chunks_table::chunks_remove;
use crate::chunks_table::ChunksType;
use crate::chunks_table::column_entries;
use crate::chunks_table::SectionKey;
use crate::chunks_table::update_entries;
use crate::chunks_table::updates_insert;
use crate::chunks_table::updates_items;
use crate::chunks_table::updates_new;
use crate::chunks_table::updates_remove;
use crate::chunks_table::UpdateSet;
use crate::mesh::buffer::ChunkColliderDataBordered;
use crate::near_chunk_data::NearChunksData;
use crate::position::BlockPosition;
use crate::position::ChunkPosition;
use crate::queue::find_position;
use crate::queue::keep;
use crate::queue::remove_from_queue;
use crate::queue::sort_queue;
use crate::store_laws::lemma_admitting_wf;
use crate::store_laws::lemma_attach_all;
use crate::store_laws::lemma_attach_wf;
use crate::store_laws::lemma_filed_wf;
use crate::store_laws::lemma_first_ready_step;
use crate::store_laws::lemma_listed_step;
use crate::store_laws::lemma_prefix_set;
use crate::store_laws::lemma_promote_wf;
use crate::store_laws::lemma_refresh_none;
use crate::store_laws::lemma_refresh_step;
use crate::store_laws::lemma_refresh_wf;
use crate::store_laws::lemma_with_block_wf;
use crate::store_laws::lemma_without_column_wf;
use crate::store_state::ChunkStage;
use crate::store_state::first_ready;
use crate::store_state::is_full_in;
use crate::store_state::is_model;
use crate::store_state::is_short_in;
use crate::store_state::is_unknown;
use crate::store_state::job_parts;
use crate::store_state::not_among;
use crate::store_state::section_cells;
use crate::store_state::stale_sections;
use crate::store_state::StoreState;

verus! {

/// The number of results that one frame attaches at most.
pub const MAX_CHUNKS_SPAWN_PER_FRAME: usize = 6;

/// The number of columns that are in the making at a time at most.
pub const LIMIT_CHUNK_LOADING_AT_A_TIME: usize = 16;

/// Why a column that arrived was not taken.
#[derive(Clone, Copy, Debug, PartialEq, Eq, Structural)]
pub enum CreateError {
    /// The store holds a column at that coordinate already.
    AlreadyExists,
    /// The column came without any section.
    EmptyData,
}

/// Why a column could not be unloaded.
#[derive(Clone, Copy, Debug, PartialEq, Eq, Structural)]
pub enum UnloadError {
    /// The store holds no column at that coordinate.
    NotFound,
}

/// Why a block was not changed.
#[derive(Clone, Copy, Debug, PartialEq, Eq, Structural)]
pub enum EditError {
    /// The store does not hold the column of the block.
    ChunkNotLoaded,
    /// The block lies below the lowest or above the highest section.
    InvalidSection,
    /// The block that is there, or the one that is to come, has a type that is not
    /// registered.
    BlockNotFound(BlockIndexType),
}

/// What the host has to do after a block has changed.
#[derive(Clone, Copy, Debug, PartialEq, Eq, Structural)]
pub struct EditEffects {
    /// The block that was there was an object of its own: the host removes it.
    pub removed_object: bool,
    /// The block that is there now is an object of its own: the host creates it.
    pub created_object: bool,
}

/// A column whose geometry was attached, and what the host has to do with the collider
/// of each of its sections, from the lowest up.
pub struct SpawnedChunk {
    pub chunk_position: ChunkPosition,
    pub colliders: Vec<ColliderAction>,
}

/// A section whose geometry was rebuilt.
pub struct SectionUpdate {
    pub chunk_position: ChunkPosition,
    pub y: usize,
    /// Whether the section shows geometry for the first time.
    pub first: bool,
    /// What the host has to do with the section's collider.
    pub collider: ColliderAction,
}

impl SectionUpdate {
    /// The section that was rebuilt.
    pub open spec fn key(self) -> SectionKey {
        (self.chunk_position.x, self.chunk_position.z, self.y)
    }
}

/// The coordinates of a list of attached columns.
pub open spec fn spawned_positions(spawned: Seq<SpawnedChunk>) -> Seq<ChunkPosition> {
    Seq::new(spawned.len(), |i: int| spawned[i].chunk_position)
}

/// The sections of a list of updates.
pub open spec fn updated_sections(updates: Seq<SectionUpdate>) -> Seq<SectionKey> {
    Seq::new(updates.len(), |i: int| updates[i].key())
}

/// The store of chunk columns: the columns by coordinate, the queue of columns that
/// wait for their neighbours, the queue of columns that wait for a place in the making,
/// the columns that are in the making, the channel on which finished geometry comes
/// back, and the sections whose geometry is out of date.
pub struct ChunkMap {
    chunks: ChunksType,
    recieved_chunks: Vec<ChunkPosition>,
    loading_queue: Vec<ChunkPosition>,
    generating: Vec<ChunkPosition>,
    chunks_to_spawn: (ChunkSender, ChunkReceiver),
    chunks_to_update: UpdateSet,
    load_limit: usize,
    spawn_limit: usize,
}

/// The number of columns on their way to being shown where `queued` wait in the loading
/// queue and `finished` results wait to be attached: their sum, or the largest number
/// where the sum goes beyond it.
pub open spec fn loading_total(queued: nat, finished: nat) -> nat {
    if queued + finished <= usize::MAX {
        queued + finished
    } else {
        usize::MAX as nat
    }
}

/// Counts the columns on their way to being shown: `queued` in the loading queue and
/// `finished` results that wait to be attached.
pub fn loading_count(queued: usize, finished: usize) -> (n: usize)
    ensures
        n == (if queued + finished <= usize::MAX {
            queued + finished
        } else {
            usize::MAX as int
        }),
        n == loading_total(queued as nat, finished as nat),
{
    if queued > usize::MAX - finished {
        usize::MAX
    } else {
        queued + finished
    }
}

/// The columns of a table as plain values.
pub open spec fn column_states(entries: Map<ChunkKey, ChunkColumn>) -> Map<ChunkKey, crate::chunk_column::ColumnState> {
    Map::new(|k: ChunkKey| entries.contains_key(k), |k: ChunkKey| entries[k]@)
}

/// Takes down the work for column `p`: the bordered data of each of its sections that
/// holds a visible block.
fn build_job(
    column: &ChunkColumn,
    near: &NearChunksData,
    block_storage: &BlockStorage,
    p: ChunkPosition,
    Ghost(entries): Ghost<Map<ChunkKey, ChunkColumn>>,
) -> (job: ChunkJob)
    requires
        column.wf(),
        near.wf(),
        entries.contains_key(p.key()),
        entries[p.key()] == *column,
        near.is_around(entries, p),
    ensures
        job.chunk_position == p,
        job.wf(),
        job.parts() == job_parts(column_states(entries), *block_storage, p, 8),
{
    let ghost columns = column_states(entries);
    let mut sections: Vec<SectionJob> = Vec::new();
    let mut y: usize = 0;
    while y < 8
        invariant
            y <= 8,
            column.wf(),
            near.wf(),
            entries.contains_key(p.key()),
            entries[p.key()] == *column,
            near.is_around(entries, p),
            columns == column_states(entries),
            forall|i: int| 0 <= i < sections@.len() ==> (#[trigger] sections@[i]).data.wf(),
            Seq::new(sections@.len(), |i: int| (sections@[i].y as int, sections@[i].data.cells@))
                == job_parts(columns, *block_storage, p, y as nat),
        decreases 8 - y,
    {
        let ghost before = Seq::new(
            sections@.len(),
            |i: int| (sections@[i].y as int, sections@[i].data.cells@),
        );
        let (data, count) = format_chunk_data_with_boundaries(Some(near), column, block_storage, y);
        proof {
            assert(crate::chunk_data_formatter::near_cells(Some(near))
                == crate::store_state::near_cells_at(columns, p));
            assert(data.cells@ == crate::store_state::section_cells(columns, *block_storage, p, y as int));
        }
        if count > 0 {
            sections.push(SectionJob { y, data });
            assert(Seq::new(sections@.len(), |i: int| (sections@[i].y as int, sections@[i].data.cells@))
                =~= before.push((y as int, data.cells@)));
        }
        y += 1;
    }
    ChunkJob { chunk_position: p, sections }
}

impl View for ChunkMap {
    type V = StoreState;

    closed spec fn view(&self) -> StoreState {
        StoreState {
            columns: column_states(column_entries(self.chunks)),
            received: self.recieved_chunks@,
            loading: self.loading_queue@,
            generating: self.generating@,
            dirty: update_entries(self.chunks_to_update),
        }
    }
}

impl ChunkMap {
    /// The store's parts fit together.
    pub closed spec fn wf(self) -> bool {
        &&& self@.wf()
        &&& self.generating@.len() <= self.load_limit
        &&& forall|k: ChunkKey| #[trigger]
            column_entries(self.chunks).contains_key(k) ==> column_entries(self.chunks)[k].wf()
    }

    /// The number of columns that are in the making at a time at most.
    pub closed spec fn load_limit(self) -> nat {
        self.load_limit as nat
    }

    /// The number of results that one frame takes from the channel at most.
    pub closed spec fn spawn_limit(self) -> nat {
        self.spawn_limit as nat
    }

    /// A well-formed store holds a well-formed state, and no more columns are in the
    /// making than its limit allows.
    pub proof fn lemma_wf(self)
        requires
            self.wf(),
        ensures
            self@.wf(),
            self@.generating.len() <= self.load_limit(),
    {
    }

    /// An empty store with the usual limits.
    pub fn create() -> (m: ChunkMap)
        ensures
            m.wf(),
            m@ == StoreState::empty(),
            m.load_limit() == LIMIT_CHUNK_LOADING_AT_A_TIME,
            m.spawn_limit() == MAX_CHUNKS_SPAWN_PER_FRAME,
    {
        ChunkMap::with_limits(LIMIT_CHUNK_LOADING_AT_A_TIME, MAX_CHUNKS_SPAWN_PER_FRAME)
    }

    /// An empty store that has at most `load_limit` columns in the making at a time and
    /// takes at most `spawn_limit` results a frame.
    pub fn with_limits(load_limit: usize, spawn_limit: usize) -> (m: ChunkMap)
        ensures
            m.wf(),
            m@ == StoreState::empty(),
            m.load_limit() == load_limit,
            m.spawn_limit() == spawn_limit,
    {
        let m = ChunkMap {
            chunks: chunks_new(),
            recieved_chunks: Vec::new(),
            loading_queue: Vec::new(),
            generating: Vec::new(),
            chunks_to_spawn: channel_open(),
            chunks_to_update: updates_new(),
            load_limit,
            spawn_limit,
        };
        assert(m@.columns =~= StoreState::empty().columns);
        m
    }

    /// The number of columns that wait for their neighbours.
    pub fn get_waiting_chunks_count(&self) -> (n: usize)
        ensures
            n == self@.received.len(),
    {
        self.recieved_chunks.len()
    }

    /// The column at `chunk_position`, if the store holds one.
    pub fn get_chunk(&self, chunk_position: &ChunkPosition) -> (r: Option<&ChunkColumn>)
        ensures
            match r {
                Some(c) => self@.columns.contains_key(chunk_position.key()) && c@
                    == self@.columns[chunk_position.key()] && (self.wf() ==> c.wf()),
                None => !self@.columns.contains_key(chunk_position.key()),
            },
    {
        chunks_get(&self.chunks, chunk_position.to_key())
    }

    /// The blocks of the column at `chunk_position`, if the store holds one.
    pub fn _get_chunk_column_data(&self, chunk_position: &ChunkPosition) -> (r: Option<&Vec<SectionData>>)
        requires
            self.wf(),
        ensures
            match r {
                Some(data) => self@.columns.contains_key(chunk_position.key()) && data@.len() == 8
                    && forall|y: int|
                    0 <= y < 8 ==> (#[trigger] data@[y]).cells()
                        == self@.columns[chunk_position.key()].data[y],
                None => !self@.columns.contains_key(chunk_position.key()),
            },
    {
        match chunks_get(&self.chunks, chunk_position.to_key()) {
            Some(column) => Some(column.get_data()),
            None => None,
        }
    }

    /// Admits every waiting column whose four neighbours are present: it moves to the
    /// end of the loading queue. The others go on waiting.
    pub fn update_loading_queue(&mut self)
        requires
            old(self).wf(),
        ensures
            final(self).wf(),
            final(self)@ == old(self)@.admitting(),
            final(self).load_limit() == old(self).load_limit(),
            final(self).spawn_limit() == old(self).spawn_limit(),
    {
        let ghost start = self@;
        let ghost full = is_full_in(start.present());
        let ghost short = is_short_in(start.present());
        let mut waiting: Vec<ChunkPosition> = Vec::new();
        let mut i: usize = 0;
        while i < self.recieved_chunks.len()
            invariant
                i <= self.recieved_chunks@.len(),
                start == old(self)@,
                start.wf(),
                full == is_full_in(start.present()),
                short == is_short_in(start.present()),
                self.chunks == old(self).chunks,
                self.recieved_chunks == old(self).recieved_chunks,
                self.generating == old(self).generating,
                self.chunks_to_update == old(self).chunks_to_update,
                self.load_limit == old(self).load_limit,
                self.spawn_limit == old(self).spawn_limit,
                waiting@ == keep(start.received.subrange(0, i as int), short),
                self.loading_queue@ == start.loading + keep(start.received.subrange(0, i as int), full),
            decreases self.recieved_chunks@.len() - i,
        {
            let p = self.recieved_chunks[i];
            proof {
                assert(start.received.subrange(0, i + 1).drop_last() =~= start.received.subrange(
                    0,
                    i as int,
                ));
                assert(start.received.subrange(0, i + 1).last() == p);
                assert(start.received.contains(p));
            }
            let near = NearChunksData::new(&self.chunks, &p);
            if !near.is_full() {
                waiting.push(p);
            } else if chunks_get(&self.chunks, p.to_key()).is_some() {
                self.loading_queue.push(p);
                assert(self.loading_queue@ =~= start.loading + keep(
                    start.received.subrange(0, i + 1),
                    full,
                ));
            }
            i += 1;
        }
        assert(start.received.subrange(0, i as int) =~= start.received);
        self.recieved_chunks = waiting;
        proof {
            lemma_admitting_wf(start);
        }
    }

    /// Takes a column that arrived for `chunk_position`.
    ///
    /// A column for a coordinate that the store holds already is turned down, and so is
    /// one without a section; the store then stays as it is. Otherwise the column is
    /// filed, its coordinate joins the waiting ones, which are ordered anew by their
    /// distance to `center`, and every waiting column that has its four neighbours is
    /// admitted.
    pub fn create_chunk_column(
        &mut self,
        center: ChunkPosition,
        chunk_position: ChunkPosition,
        sections: ChunkData,
    ) -> (r: Result<(), CreateError>)
        requires
            old(self).wf(),
            forall|i: int| 0 <= i < sections@.len() ==> (#[trigger] sections@[i]).wf(),
        ensures
            final(self).wf(),
            final(self).load_limit() == old(self).load_limit(),
            final(self).spawn_limit() == old(self).spawn_limit(),
            match r {
                Ok(_) => !old(self)@.columns.contains_key(chunk_position.key()) && sections@.len() > 0
                    && final(self)@ == old(self)@.with_column(center, chunk_position, sections@),
                Err(CreateError::AlreadyExists) => old(self)@.columns.contains_key(chunk_position.key())
                    && final(self)@ == old(self)@,
                Err(CreateError::EmptyData) => !old(self)@.columns.contains_key(chunk_position.key())
                    && sections@.len() == 0 && final(self)@ == old(self)@,
            },
    {
        let key = chunk_position.to_key();
        if chunks_get(&self.chunks, key).is_some() {
            return Err(CreateError::AlreadyExists);
        }
        if sections.len() == 0 {
            return Err(CreateError::EmptyData);
        }
        let column = ChunkColumn::create(chunk_position, &sections);
        chunks_insert(&mut self.chunks, key, column);
        self.recieved_chunks.push(chunk_position);
        sort_queue(&mut self.recieved_chunks, &center);
        proof {
            lemma_filed_wf(old(self)@, center, chunk_position, sections@);
            assert(self@.columns =~= old(self)@.columns.insert(
                key,
                crate::chunk_column::fresh_column(chunk_position, sections@),
            ));
        }
        self.update_loading_queue();
        Ok(())
    }
    /// Sends admitted columns into the making: the first of the loading queue whose four
    /// neighbours are present, as long as no more columns are in the making than the
    /// limit allows. They leave the queue, and for each of them the work to be done in the
    /// background is returned, in their order. A column with a missing neighbour stays in
    /// the queue.
    pub fn send_chunks_to_load(&mut self, block_storage: &BlockStorage) -> (jobs: Vec<ChunkJob>)
        requires
            old(self).wf(),
        ensures
            final(self).wf(),
            final(self)@ == old(self)@.promote(old(self).load_limit()),
            final(self).load_limit() == old(self).load_limit(),
            final(self).spawn_limit() == old(self).spawn_limit(),
            jobs@.len() == old(self)@.promoted(old(self).load_limit()).len(),
            forall|j: int|
                0 <= j < jobs@.len() ==> {
                    &&& (#[trigger] jobs@[j]).chunk_position == old(self)@.promoted(
                        old(self).load_limit(),
                    )[j]
                    &&& jobs@[j].wf()
                    &&& jobs@[j].parts() == job_parts(
                        old(self)@.columns,
                        *block_storage,
                        jobs@[j].chunk_position,
                        8,
                    )
                },
    {
        let ghost start = self@;
        let ghost present = start.present();
        let ghost limit = start.budget(self.load_limit as nat);
        let ghost entries = column_entries(self.chunks);
        let budget: usize = self.load_limit - self.generating.len();
        let mut jobs: Vec<ChunkJob> = Vec::new();
        let mut kept: Vec<ChunkPosition> = Vec::new();
        let mut chosen: Vec<ChunkPosition> = Vec::new();
        let mut i: usize = 0;
        proof {
            assert(start.loading.subrange(0, 0) =~= Seq::<ChunkPosition>::empty());
        }
        while i < self.loading_queue.len()
            invariant
                i <= self.loading_queue@.len(),
                self.wf(),
                *self == *old(self),
                start == self@,
                present == start.present(),
                limit == budget,
                entries == column_entries(self.chunks),
                chosen@ == first_ready(start.loading.subrange(0, i as int), present, limit),
                kept@ == keep(start.loading.subrange(0, i as int), not_among(chosen@)),
                jobs@.len() == chosen@.len(),
                forall|j: int|
                    0 <= j < jobs@.len() ==> {
                        &&& (#[trigger] jobs@[j]).chunk_position == chosen@[j]
                        &&& jobs@[j].wf()
                        &&& jobs@[j].parts() == job_parts(
                            start.columns,
                            *block_storage,
                            jobs@[j].chunk_position,
                            8,
                        )
                    },
            decreases self.loading_queue@.len() - i,
        {
            let p = self.loading_queue[i];
            proof {
                let prefix = start.loading.subrange(0, i as int);
                assert(start.loading.subrange(0, i + 1) =~= prefix.push(p));
                assert(start.loading.contains(p));
                lemma_first_ready_step(prefix, p, present, limit);
            }
            let mut taken = false;
            if jobs.len() < budget {
                let near = NearChunksData::new(&self.chunks, &p);
                if near.is_full() {
                    match chunks_get(&self.chunks, p.to_key()) {
                        Some(column) => {
                            let job = build_job(column, &near, block_storage, p, Ghost(entries));
                            jobs.push(job);
                            taken = true;
                        },
                        None => {},
                    }
                }
            }
            if taken {
                chosen.push(p);
            } else {
                kept.push(p);
            }
            i += 1;
        }
        assert(start.loading.subrange(0, i as int) =~= start.loading);
        proof {
            lemma_promote_wf(start, self.load_limit as nat);
        }
        self.loading_queue = kept;
        let ghost before = self.generating@;
        let mut j: usize = 0;
        while j < chosen.len()
            invariant
                j <= chosen@.len(),
                self.generating@ == before + chosen@.subrange(0, j as int),
                self.chunks == old(self).chunks,
                self.recieved_chunks == old(self).recieved_chunks,
                self.loading_queue@ == kept@,
                self.chunks_to_update == old(self).chunks_to_update,
                self.load_limit == old(self).load_limit,
                self.spawn_limit == old(self).spawn_limit,
            decreases chosen@.len() - j,
        {
            self.generating.push(chosen[j]);
            assert(self.generating@ =~= before + chosen@.subrange(0, j + 1));
            j += 1;
        }
        assert(chosen@.subrange(0, j as int) =~= chosen@);
        jobs
    }

    /// Unloads the column at `chunk_position`: it leaves the store and both queues.
    /// Returns the heights of its sections whose collider the host has to release.
    pub fn unload_chunk(&mut self, chunk_position: ChunkPosition) -> (r: Result<Vec<usize>, UnloadError>)
        requires
            old(self).wf(),
        ensures
            final(self).wf(),
            final(self).load_limit() == old(self).load_limit(),
            final(self).spawn_limit() == old(self).spawn_limit(),
            match r {
                Ok(released) => old(self)@.columns.contains_key(chunk_position.key()) && final(self)@
                    == old(self)@.without_column(chunk_position) && released@ == collider_heights(
                    old(self)@.columns[chunk_position.key()].sections,
                    8,
                ),
                Err(_) => !old(self)@.columns.contains_key(chunk_position.key()) && final(self)@ == old(self)@,
            },
    {
        let key = chunk_position.to_key();
        match chunks_remove(&mut self.chunks, key) {
            Some(column) => {
                let mut column = column;
                let released = column.free();
                remove_from_queue(&mut self.recieved_chunks, &chunk_position);
                remove_from_queue(&mut self.loading_queue, &chunk_position);
                remove_from_queue(&mut self.generating, &chunk_position);
                proof {
                    lemma_without_column_wf(old(self)@, chunk_position);
                    crate::queue::lemma_keep(old(self)@.generating, crate::queue::is_not(chunk_position));
                    assert(self@.columns =~= old(self)@.columns.remove(key));
                }
                Ok(released)
            },
            None => {
                proof {
                    assert(column_entries(self.chunks) =~= column_entries(old(self).chunks));
                    assert(self@.columns =~= old(self)@.columns);
                }
                Err(UnloadError::NotFound)
            },
        }
    }

    fn has_chunk(&self, chunk_position: Option<ChunkPosition>) -> (r: bool)
        ensures
            r == (chunk_position matches Some(p) && self@.columns.contains_key(p.key())),
    {
        match chunk_position {
            Some(p) => chunks_get(&self.chunks, p.to_key()).is_some(),
            None => false,
        }
    }

    /// Marks as stale every section whose geometry depends on the block at `position`:
    /// the section of the block, the section below or above where the block lies on its
    /// section's floor or ceiling, and the same section of each neighbouring column on
    /// whose side the block lies, where the store holds that column. Marking again what
    /// is stale already changes nothing.
    pub fn send_to_update_chunk_mesh(&mut self, position: &BlockPosition)
        requires
            old(self).wf(),
            0 <= position.section() < 8,
        ensures
            final(self).wf(),
            final(self)@ == old(self)@.marked(*position),
            final(self)@.marked(*position) == final(self)@,
            final(self).load_limit() == old(self).load_limit(),
            final(self).spawn_limit() == old(self).spawn_limit(),
    {
        proof {
            crate::store_laws::lemma_marked_wf(old(self)@, *position);
            crate::store_laws::lemma_marking_idempotent(old(self)@, *position);
        }
        let c = position.get_chunk_position();
        let (section, local) = position.get_block_position();
        let s: usize = section as usize;
        let west = self.has_chunk(c.offset(-1, 0));
        let east = self.has_chunk(c.offset(1, 0));
        let north = self.has_chunk(c.offset(0, -1));
        let south = self.has_chunk(c.offset(0, 1));
        updates_insert(&mut self.chunks_to_update, (c.x, c.z, s));
        if local.y == 0 && s > 0 {
            updates_insert(&mut self.chunks_to_update, (c.x, c.z, s - 1));
        }
        if local.y == 15 && s < 7 {
            updates_insert(&mut self.chunks_to_update, (c.x, c.z, s + 1));
        }
        if local.x == 0 && west {
            updates_insert(&mut self.chunks_to_update, (c.x - 1, c.z, s));
        }
        if local.x == 15 && east {
            updates_insert(&mut self.chunks_to_update, (c.x + 1, c.z, s));
        }
        if local.z == 0 && north {
            updates_insert(&mut self.chunks_to_update, (c.x, c.z - 1, s));
        }
        if local.z == 15 && south {
            updates_insert(&mut self.chunks_to_update, (c.x, c.z + 1, s));
        }
        assert(self@.dirty =~= old(self)@.dirty.union(stale_sections(old(self)@.present(), *position)));
    }

    /// Changes the block at `position` to `new_block_info`; `None` clears it.
    ///
    /// Nothing is changed where the store does not hold the block's column, where the
    /// block lies outside the column's sections, or where the type of the block that is
    /// there or of the one to come is not registered. Otherwise the block is replaced.
    /// Where the old or the new block is textured geometry, the sections whose geometry
    /// depends on the block become stale. The result says whether the host has to remove
    /// the object of the old block and create one for the new block.
    pub fn edit_block(
        &mut self,
        position: BlockPosition,
        block_storage: &BlockStorage,
        new_block_info: Option<BlockDataInfo>,
    ) -> (r: Result<EditEffects, EditError>)
        requires
            old(self).wf(),
        ensures
            final(self).wf(),
            final(self).load_limit() == old(self).load_limit(),
            final(self).spawn_limit() == old(self).spawn_limit(),
            match r {
                Ok(effects) => {
                    &&& old(self)@.columns.contains_key(position.chunk().key())
                    &&& 0 <= position.section() < 8
                    &&& !is_unknown(
                        *block_storage,
                        block_in(old(self)@.columns[position.chunk().key()].data, position),
                    )
                    &&& !is_unknown(*block_storage, new_block_info)
                    &&& final(self)@ == old(self)@.with_block(*block_storage, position, new_block_info)
                    &&& effects.removed_object == is_model(
                        *block_storage,
                        block_in(old(self)@.columns[position.chunk().key()].data, position),
                    )
                    &&& effects.created_object == is_model(*block_storage, new_block_info)
                },
                Err(EditError::ChunkNotLoaded) => !old(self)@.columns.contains_key(position.chunk().key())
                    && final(self)@ == old(self)@,
                Err(EditError::InvalidSection) => old(self)@.columns.contains_key(position.chunk().key())
                    && !(0 <= position.section() < 8) && final(self)@ == old(self)@,
                Err(EditError::BlockNotFound(id)) => {
                    let old_block = block_in(old(self)@.columns[position.chunk().key()].data, position);
                    &&& old(self)@.columns.contains_key(position.chunk().key())
                    &&& 0 <= position.section() < 8
                    &&& final(self)@ == old(self)@
                    &&& if is_unknown(*block_storage, old_block) {
                        id == old_block->0.id
                    } else {
                        is_unknown(*block_storage, new_block_info) && id == new_block_info->0.id
                    }
                },
            },
    {
        let chunk = position.get_chunk_position();
        let key = chunk.to_key();
        let (section, local) = position.get_block_position();
        let old_block = match chunks_get(&self.chunks, key) {
            Some(column) => {
                if section < 0 || section >= 8 {
                    return Err(EditError::InvalidSection);
                }
                column.get_block_info(&position)
            },
            None => {
                return Err(EditError::ChunkNotLoaded);
            },
        };
        let mut stale = false;
        let mut removed_object = false;
        let mut created_object = false;
        if let Some(b) = old_block {
            match block_storage.get(&b.id) {
                Some(t) => match t.block_content {
                    BlockContent::Texture => {
                        stale = true;
                    },
                    BlockContent::ModelCube => {
                        removed_object = true;
                    },
                },
                None => {
                    return Err(EditError::BlockNotFound(b.id));
                },
            }
        }
        if let Some(b) = new_block_info {
            match block_storage.get(&b.id) {
                Some(t) => match t.block_content {
                    BlockContent::Texture => {
                        stale = true;
                    },
                    BlockContent::ModelCube => {
                        created_object = true;
                    },
                },
                None => {
                    return Err(EditError::BlockNotFound(b.id));
                },
            }
        }
        if stale {
            self.send_to_update_chunk_mesh(&position);
        }
        match chunks_get_mut(&mut self.chunks, key) {
            Some(column) => {
                column.change_block_info(section as u32, &local, new_block_info);
            },
            None => {},
        }
        proof {
            lemma_with_block_wf(old(self)@, *block_storage, position, new_block_info);
            assert(self@.columns =~= old(self)@.with_block(
                *block_storage,
                position,
                new_block_info,
            ).columns);
        }
        Ok(EditEffects { removed_object, created_object })
    }
    /// The stage of the column at `chunk_position`; `None` where the store holds none.
    pub fn get_stage(&self, chunk_position: &ChunkPosition) -> (r: Option<ChunkStage>)
        ensures
            r == self@.stage(*chunk_position),
    {
        match chunks_get(&self.chunks, chunk_position.to_key()) {
            None => None,
            Some(_) => {
                if find_position(&self.recieved_chunks, chunk_position).is_some() {
                    Some(ChunkStage::Waiting)
                } else if find_position(&self.loading_queue, chunk_position).is_some() {
                    Some(ChunkStage::Admitted)
                } else if find_position(&self.generating, chunk_position).is_some() {
                    Some(ChunkStage::Generating)
                } else {
                    Some(ChunkStage::Active)
                }
            },
        }
    }

    /// A sender of the channel on which finished geometry comes back to this store.
    pub fn completion_sender(&self) -> ChunkSender {
        channel_sender(&self.chunks_to_spawn.0)
    }

    /// Takes the result of a job. It is attached where its column is still in the
    /// making: the geometry goes onto the column's sections, their colliders are
    /// brought up to date, and the column counts as loaded. A result for a column that
    /// was unloaded in the meantime, or that is not in the making, is dropped and
    /// nothing changes.
    pub fn attach_generated(&mut self, generated: GeneratedChunk) -> (r: Option<SpawnedChunk>)
        requires
            old(self).wf(),
        ensures
            final(self).wf(),
            final(self).load_limit() == old(self).load_limit(),
            final(self).spawn_limit() == old(self).spawn_limit(),
            final(self)@ == old(self)@.attach(generated.chunk_position, generated.parts()),
            match r {
                Some(spawned) => {
                    &&& old(self)@.stage(generated.chunk_position) == Some(ChunkStage::Generating)
                    &&& spawned.chunk_position == generated.chunk_position
                    &&& actions_view(spawned.colliders@) == attached_actions(
                        old(self)@.columns[generated.chunk_position.key()],
                        generated.parts(),
                    )
                },
                None => old(self)@.stage(generated.chunk_position) != Some(ChunkStage::Generating),
            },
    {
        let GeneratedChunk { chunk_position, sections } = generated;
        let stage = self.get_stage(&chunk_position);
        let in_the_making = match stage {
            Some(ChunkStage::Generating) => true,
            _ => false,
        };
        if !in_the_making {
            return None;
        }
        let key = chunk_position.to_key();
        proof {
            lemma_attach_wf(old(self)@, chunk_position, parts_of(sections@));
            crate::queue::lemma_keep(old(self)@.generating, crate::queue::is_not(chunk_position));
        }
        remove_from_queue(&mut self.generating, &chunk_position);
        match chunks_get_mut(&mut self.chunks, key) {
            Some(column) => {
                let colliders = column.attach_geometry(sections);
                assert(self@.columns =~= old(self)@.attach(
                    chunk_position,
                    parts_of(sections@),
                ).columns);
                Some(SpawnedChunk { chunk_position, colliders })
            },
            None => None,
        }
    }

    /// Takes finished geometry from the channel, at most as many results as the limit
    /// for one frame allows and never waiting for one, and attaches each of them. Returns
    /// the columns that are shown now, in the order in which their results came.
    ///
    /// Which results come depends on the background work; whatever comes, the store ends
    /// as if those results had been attached one after the other.
    pub fn spawn_loaded_chunks(&mut self) -> (loaded: Vec<SpawnedChunk>)
        requires
            old(self).wf(),
        ensures
            final(self).wf(),
            final(self).load_limit() == old(self).load_limit(),
            final(self).spawn_limit() == old(self).spawn_limit(),
            loaded@.len() <= old(self).spawn_limit(),
            exists|results: Seq<(ChunkPosition, Seq<(int, GeometryData)>)>|
                {
                    &&& results.len() <= old(self).spawn_limit()
                    &&& final(self)@ == old(self)@.attach_all(results)
                    &&& spawned_positions(loaded@) == old(self)@.attached(results)
                },
            final(self)@.received == old(self)@.received,
            final(self)@.loading == old(self)@.loading,
            final(self)@.dirty == old(self)@.dirty,
            final(self)@.present() == old(self)@.present(),
    {
        let ghost start = self@;
        let ghost mut results: Seq<(ChunkPosition, Seq<(int, GeometryData)>)> = Seq::empty();
        let mut loaded: Vec<SpawnedChunk> = Vec::new();
        let mut taken: usize = 0;
        while taken < self.spawn_limit
            invariant
                self.wf(),
                start == old(self)@,
                start.wf(),
                self.load_limit == old(self).load_limit,
                self.spawn_limit == old(self).spawn_limit,
                taken <= self.spawn_limit,
                results.len() == taken,
                self@ == start.attach_all(results),
                spawned_positions(loaded@) == start.attached(results),
                loaded@.len() <= taken,
            decreases self.spawn_limit - taken,
        {
            match channel_try_recv(&self.chunks_to_spawn.1) {
                Some(generated) => {
                    let ghost message = (generated.chunk_position, generated.parts());
                    let ghost before = loaded@;
                    proof {
                        assert(results.push(message).drop_last() =~= results);
                        assert(results.push(message).last() == message);
                    }
                    match self.attach_generated(generated) {
                        Some(spawned) => {
                            loaded.push(spawned);
                            assert(spawned_positions(loaded@) =~= spawned_positions(before).push(
                                message.0,
                            ));
                        },
                        None => {},
                    }
                    proof {
                        results = results.push(message);
                    }
                    taken += 1;
                },
                None => {
                    break ;
                },
            }
        }
        proof {
            lemma_attach_all(start, results);
        }
        loaded
    }

    /// The number of columns that the host shows.
    pub fn get_loaded_chunks_count(&self) -> (n: usize)
        requires
            self.wf(),
        ensures
            n <= self@.present().len(),
            n == self@.present().filter(|k: ChunkKey| self@.columns[k].loaded).len(),
    {
        let keys = chunks_keys(&self.chunks);
        let ghost present = self@.present();
        let ghost is_loaded = |k: ChunkKey| self@.columns[k].loaded;
        let mut n: usize = 0;
        let mut i: usize = 0;
        proof {
            assert(present =~= column_entries(self.chunks).dom());
            keys@.unique_seq_to_set();
            assert(keys@.subrange(0, 0) =~= Seq::<ChunkKey>::empty());
            assert(keys@.subrange(0, 0).to_set() =~= Set::<ChunkKey>::empty());
            assert(keys@.subrange(0, 0).to_set().filter(is_loaded) =~= Set::<ChunkKey>::empty());
        }
        while i < keys.len()
            invariant
                i <= keys@.len(),
                keys@.no_duplicates(),
                keys@.to_set() == present,
                present == self@.present(),
                is_loaded == (|k: ChunkKey| self@.columns[k].loaded),
                n == keys@.subrange(0, i as int).to_set().filter(is_loaded).len(),
                n <= i,
                keys@.subrange(0, i as int).to_set().finite(),
            decreases keys@.len() - i,
        {
            let k = keys[i];
            proof {
                let head = keys@.subrange(0, i as int);
                let next = keys@.subrange(0, i + 1);
                assert(next =~= head.push(k));
                assert forall|x: ChunkKey| next.to_set().contains(x) <==> head.to_set().insert(k).contains(
                    x,
                ) by {
                    if next.contains(x) {
                        let j = choose|j: int| 0 <= j < next.len() && next[j] == x;
                        if j < i {
                            assert(head[j] == x);
                        }
                    }
                    if head.contains(x) {
                        let j = choose|j: int| 0 <= j < head.len() && head[j] == x;
                        assert(next[j] == x);
                    }
                    assert(next[i as int] == k);
                }
                assert(next.to_set() =~= head.to_set().insert(k));
                assert(!head.to_set().contains(k)) by {
                    if head.contains(k) {
                        let j = choose|j: int| 0 <= j < head.len() && head[j] == k;
                        assert(keys@[j] == keys@[i as int]);
                    }
                }
                assert(keys@.contains(k));
                assert(present.contains(k));
                if is_loaded(k) {
                    assert(next.to_set().filter(is_loaded) =~= head.to_set().filter(is_loaded).insert(k));
                } else {
                    assert(next.to_set().filter(is_loaded) =~= head.to_set().filter(is_loaded));
                }
                head.to_set().lemma_len_filter(is_loaded);
            }
            match chunks_get(&self.chunks, k) {
                Some(column) => {
                    if column.is_loaded() {
                        n += 1;
                    }
                },
                None => {},
            }
            i += 1;
        }
        proof {
            assert(keys@.subrange(0, i as int) =~= keys@);
            present.lemma_len_filter(is_loaded);
        }
        n
    }

    /// The sections whose geometry is out of date, each once, in no particular order.
    pub fn chunks_to_update(&self) -> (sections: Vec<SectionKey>)
        ensures
            sections@.no_duplicates(),
            sections@.to_set() == self@.dirty,
    {
        updates_items(&self.chunks_to_update)
    }

    /// The columns that wait for their neighbours, the closest to the centre named last
    /// first.
    pub fn waiting_chunks(&self) -> (queue: &Vec<ChunkPosition>)
        ensures
            queue@ == self@.received,
    {
        &self.recieved_chunks
    }

    /// The columns that wait for a place in the making, in the order in which they
    /// will get one.
    pub fn loading_chunks(&self) -> (queue: &Vec<ChunkPosition>)
        ensures
            queue@ == self@.loading,
    {
        &self.loading_queue
    }

    /// The columns that are in the making, in the order in which they were sent.
    pub fn generating_chunks(&self) -> (queue: &Vec<ChunkPosition>)
        ensures
            queue@ == self@.generating,
    {
        &self.generating
    }

    /// The number of columns on their way to being shown: those in the loading queue
    /// and the results that wait in the channel at this moment. How many results wait
    /// depends on the background work; `loading_count` says what the count is for each
    /// number of them.
    pub fn get_loading_chunks_count(&self) -> (n: usize)
        ensures
            n >= self@.loading.len(),
    {
        let finished = channel_len(&self.chunks_to_spawn.1);
        loading_count(self.loading_queue.len(), finished)
    }

    /// The coordinates of all columns of the store, in no particular order.
    pub fn iter(&self) -> (positions: Vec<ChunkPosition>)
        requires
            self.wf(),
        ensures
            positions@.no_duplicates(),
            forall|p: ChunkPosition| positions@.contains(p) <==> self@.columns.contains_key(p.key()),
    {
        let keys = chunks_keys(&self.chunks);
        let mut positions: Vec<ChunkPosition> = Vec::new();
        let mut i: usize = 0;
        while i < keys.len()
            invariant
                i <= keys@.len(),
                positions@.len() == i,
                forall|j: int| 0 <= j < i ==> (#[trigger] positions@[j]).key() == keys@[j],
            decreases keys@.len() - i,
        {
            let k = keys[i];
            positions.push(ChunkPosition { x: k.0, z: k.1 });
            i += 1;
        }
        proof {
            assert(self@.present() =~= column_entries(self.chunks).dom());
            assert forall|p: ChunkPosition| positions@.contains(p) <==> self@.columns.contains_key(
                p.key(),
            ) by {
                if positions@.contains(p) {
                    let j = choose|j: int| 0 <= j < positions@.len() && positions@[j] == p;
                    assert(keys@[j] == p.key());
                    assert(keys@.contains(p.key()));
                    assert(keys@.to_set().contains(p.key()));
                }
                if self@.columns.contains_key(p.key()) {
                    assert(keys@.to_set().contains(p.key()));
                    assert(keys@.contains(p.key()));
                    let j = choose|j: int| 0 <= j < keys@.len() && keys@[j] == p.key();
                    assert(positions@[j].key() == p.key());
                    assert(positions@[j] == p);
                }
            }
            assert forall|a: int, b: int|
                0 <= a < positions@.len() && 0 <= b < positions@.len() && a != b implies positions@[a]
                != positions@[b] by {
                assert(positions@[a].key() == keys@[a]);
                assert(positions@[b].key() == keys@[b]);
            }
        }
        positions
    }
    /// Lays out section `y` of the column at `p` with its halo, where the column is
    /// there.
    fn bordered_section(&self, near: &NearChunksData, block_storage: &BlockStorage, p: ChunkPosition, y: usize) -> (r:
        Option<ChunkColliderDataBordered>)
        requires
            self.wf(),
            y < 8,
            near.is_around(column_entries(self.chunks), p),
        ensures
            match r {
                Some(data) => self@.columns.contains_key(p.key()) && data.wf() && data.cells@
                    == section_cells(self@.columns, *block_storage, p, y as int),
                None => !self@.columns.contains_key(p.key()),
            },
    {
        match chunks_get(&self.chunks, p.to_key()) {
            Some(column) => {
                let (data, _) = format_chunk_data_with_boundaries(Some(near), column, block_storage, y);
                proof {
                    assert(crate::chunk_data_formatter::near_cells(Some(near))
                        == crate::store_state::near_cells_at(self@.columns, p));
                }
                Some(data)
            },
            None => None,
        }
    }

    /// Looks at the stale section `d`, one of those not looked at before.
    fn refresh_one(
        &mut self,
        d: SectionKey,
        block_storage: &BlockStorage,
        texture_mapper: &TextureMapper,
        Ghost(start): Ghost<StoreState>,
        Ghost(done): Ghost<Set<SectionKey>>,
    ) -> (r: Option<SectionUpdate>)
        requires
            old(self).wf(),
            start.wf(),
            old(self)@ == start.refresh_some(*block_storage, *texture_mapper, done),
            start.dirty.contains(d),
            !done.contains(d),
        ensures
            final(self).wf(),
            final(self).load_limit() == old(self).load_limit(),
            final(self).spawn_limit() == old(self).spawn_limit(),
            final(self)@ == start.refresh_some(*block_storage, *texture_mapper, done.insert(d)),
            match r {
                Some(u) => {
                    let before = start.columns[u.chunk_position.key()].sections[u.y as int];
                    let geometry = geometry_of(
                        section_cells(start.columns, *block_storage, u.chunk_position, u.y as int),
                        *block_storage,
                        *texture_mapper,
                    );
                    &&& start.rebuilds(d)
                    &&& u.key() == d
                    &&& u.y < 8
                    &&& u.collider@ == settle_action(with_geometry(before, geometry))
                    &&& u.first == (!before.set_geometry_first_time && with_geometry(
                        before,
                        geometry,
                    ).set_geometry_first_time)
                },
                None => !start.rebuilds(d),
            },
    {
        proof {
            lemma_refresh_step(start, *block_storage, *texture_mapper, done, d);
            lemma_refresh_wf(start, *block_storage, *texture_mapper, done.insert(d));
        }
        let ghost next = start.refresh_some(*block_storage, *texture_mapper, done.insert(d));
        let p = ChunkPosition { x: d.0, z: d.1 };
        let y = d.2;
        let near = NearChunksData::new(&self.chunks, &p);
        if !near.is_full() {
            return None;
        }
        let bordered = self.bordered_section(&near, block_storage, p, y);
        match bordered {
            Some(data) => {
                let geometry = build_section_geometry(texture_mapper, &data, block_storage);
                let mut update: Option<SectionUpdate> = None;
                match chunks_get_mut(&mut self.chunks, p.to_key()) {
                    Some(column) => {
                        let (first, collider) = column.rebuild_section(y, geometry);
                        update = Some(SectionUpdate { chunk_position: p, y, first, collider });
                    },
                    None => {},
                }
                updates_remove(&mut self.chunks_to_update, d);
                assert(self@.columns =~= next.columns);
                update
            },
            None => {
                updates_remove(&mut self.chunks_to_update, d);
                None
            },
        }
    }

    /// Goes once over the stale sections. A section whose column has all four
    /// neighbours gets new geometry, made of the blocks as they are now, its collider is
    /// brought up to date and it is stale no longer; where its column is gone it is just
    /// forgotten. A section whose column misses a neighbour stays stale. Returns the
    /// sections that were rebuilt, each once, in no particular order.
    pub fn update_chunks_geometry(&mut self, block_storage: &BlockStorage, texture_mapper: &TextureMapper) -> (updates:
        Vec<SectionUpdate>)
        requires
            old(self).wf(),
        ensures
            final(self).wf(),
            final(self).load_limit() == old(self).load_limit(),
            final(self).spawn_limit() == old(self).spawn_limit(),
            final(self)@ == old(self)@.refresh(*block_storage, *texture_mapper),
            updated_sections(updates@).no_duplicates(),
            forall|d: SectionKey| updated_sections(updates@).contains(d) <==> old(self)@.rebuilds(d),
            forall|i: int|
                0 <= i < updates@.len() ==> {
                    let u = #[trigger] updates@[i];
                    let before = old(self)@.columns[u.chunk_position.key()].sections[u.y as int];
                    let geometry = geometry_of(
                        section_cells(old(self)@.columns, *block_storage, u.chunk_position, u.y as int),
                        *block_storage,
                        *texture_mapper,
                    );
                    &&& u.y < 8
                    &&& u.collider@ == settle_action(with_geometry(before, geometry))
                    &&& u.first == (!before.set_geometry_first_time && with_geometry(
                        before,
                        geometry,
                    ).set_geometry_first_time)
                },
    {
        let ghost start = self@;
        let ghost wanted = Set::new(|d: SectionKey| start.rebuilds(d));
        let items = updates_items(&self.chunks_to_update);
        let mut updates: Vec<SectionUpdate> = Vec::new();
        let mut i: usize = 0;
        proof {
            lemma_refresh_none(start, *block_storage, *texture_mapper);
            assert(items@.subrange(0, 0).to_set() =~= Set::<SectionKey>::empty());
            assert(updated_sections(updates@).to_set() =~= wanted.intersect(Set::<SectionKey>::empty()));
        }
        while i < items.len()
            invariant
                i <= items@.len(),
                self.wf(),
                start == old(self)@,
                start.wf(),
                wanted == Set::new(|d: SectionKey| start.rebuilds(d)),
                self.load_limit() == old(self).load_limit(),
                self.spawn_limit() == old(self).spawn_limit(),
                items@.no_duplicates(),
                items@.to_set() == start.dirty,
                self@ == start.refresh_some(
                    *block_storage,
                    *texture_mapper,
                    items@.subrange(0, i as int).to_set(),
                ),
                updated_sections(updates@).no_duplicates(),
                updated_sections(updates@).to_set() == wanted.intersect(
                    items@.subrange(0, i as int).to_set(),
                ),
                forall|j: int|
                    0 <= j < updates@.len() ==> {
                        let u = #[trigger] updates@[j];
                        let before = start.columns[u.chunk_position.key()].sections[u.y as int];
                        let geometry = geometry_of(
                            section_cells(start.columns, *block_storage, u.chunk_position, u.y as int),
                            *block_storage,
                            *texture_mapper,
                        );
                        &&& u.y < 8
                        &&& u.collider@ == settle_action(with_geometry(before, geometry))
                        &&& u.first == (!before.set_geometry_first_time && with_geometry(
                            before,
                            geometry,
                        ).set_geometry_first_time)
                    },
            decreases items@.len() - i,
        {
            let d = items[i];
            let ghost done = items@.subrange(0, i as int).to_set();
            let ghost listed = updated_sections(updates@);
            proof {
                lemma_prefix_set(items@, i as int);
                lemma_listed_step(listed, wanted, done, d);
            }
            match self.refresh_one(d, block_storage, texture_mapper, Ghost(start), Ghost(done)) {
                Some(update) => {
                    updates.push(update);
                    assert(updated_sections(updates@) =~= listed.push(d));
                },
                None => {},
            }
            i += 1;
        }
        assert(items@.subrange(0, i as int) =~= items@);
        assert forall|d: SectionKey| updated_sections(updates@).contains(d) <==> start.rebuilds(d) by {
            assert(updated_sections(updates@).contains(d) <==> updated_sections(updates@).to_set().contains(
                d,
            ));
            assert(wanted.contains(d) <==> start.rebuilds(d));
        }
        updates
    }
}

} // verus!

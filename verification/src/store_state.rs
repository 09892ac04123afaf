use vstd::prelude::*;
use crate::block::BlockContent;
use crate::block::BlockDataInfo;
use crate::block::BlockStorage;
use crate::block::TextureMapper;
use crate::chunk_column::attached_column;
use crate::chunk_column::block_in;
use crate::chunk_column::cells_with_block;
use crate::chunk_column::ColumnCells;
use crate::chunk_column::ColumnState;
use crate::chunk_column::fresh_column;
use crate::chunk_column::settle;
use crate::chunk_column::well_formed;
use crate::chunk_data::SectionData;
use crate::chunk_data_formatter::bordered_cells;
use crate::chunk_data_formatter::mesh_count;
use crate::chunk_data_formatter::NearCells;
use crate::chunk_generator::geometry_of;
use crate::chunk_section::GeometryData;
use crate::chunk_section::SectionState;
use crate::chunk_section::with_geometry;
use crate::chunks_table::ChunkKey;
use crate::chunks_table::SectionKey;
use crate::mesh::buffer::ChunkColliderInfo;
use crate::near_chunk_data::neighbor_present;
use crate::near_chunk_data::neighbors_full;
use crate::position::BlockPosition;
use crate::position::ChunkPosition;
use crate::queue::keep;
use crate::queue::sort_by_distance;
use crate::queue::without;

verus! {

/// Where a column stands on its way from arrival to being shown.
#[derive(Clone, Copy, Debug, PartialEq, Eq, Structural)]
pub enum ChunkStage {
    /// Arrived; some neighbour is still missing.
    Waiting,
    /// All neighbours were there; queued for a place among the columns in the making.
    Admitted,
    /// Its geometry is being made in the background.
    Generating,
    /// Shown by the host.
    Active,
}

/// What a store holds: its columns by coordinate, the two queues of arrived columns,
/// the columns whose geometry is in the making, and the sections whose geometry is out
/// of date.
pub struct StoreState {
    pub columns: Map<ChunkKey, ColumnState>,
    pub received: Seq<ChunkPosition>,
    pub loading: Seq<ChunkPosition>,
    /// The columns that were sent into the making and whose result is not attached yet,
    /// in the order in which they were sent.
    pub generating: Seq<ChunkPosition>,
    pub dirty: Set<SectionKey>,
}

/// The test that all four neighbours of a coordinate are among `present`.
pub open spec fn is_full_in(present: Set<ChunkKey>) -> spec_fn(ChunkPosition) -> bool {
    |p: ChunkPosition| neighbors_full(present, p)
}

/// The test that some neighbour of a coordinate is missing from `present`.
pub open spec fn is_short_in(present: Set<ChunkKey>) -> spec_fn(ChunkPosition) -> bool {
    |p: ChunkPosition| !neighbors_full(present, p)
}

/// The test that a coordinate is not a member of `chosen`.
pub open spec fn not_among(chosen: Seq<ChunkPosition>) -> spec_fn(ChunkPosition) -> bool {
    |p: ChunkPosition| !chosen.contains(p)
}

/// The first `limit` members of `queue` whose four neighbours are among `present`.
pub open spec fn first_ready(queue: Seq<ChunkPosition>, present: Set<ChunkKey>, limit: nat) -> Seq<
    ChunkPosition,
> {
    let ready = keep(queue, is_full_in(present));
    if ready.len() <= limit {
        ready
    } else {
        ready.subrange(0, limit as int)
    }
}

/// The column of a section.
pub open spec fn column_of(d: SectionKey) -> ChunkPosition {
    ChunkPosition { x: d.0, z: d.1 }
}

/// The blocks of the neighbour `dx`, `dz` columns away, if the store holds it.
pub open spec fn near_data(columns: Map<ChunkKey, ColumnState>, p: ChunkPosition, dx: int, dz: int) -> Option<
    ColumnCells,
> {
    if neighbor_present(columns.dom(), p, dx, dz) {
        Some(columns[((p.x + dx) as i64, (p.z + dz) as i64)].data)
    } else {
        None
    }
}

/// The blocks of the four neighbours of `p`, as far as the store holds them.
pub open spec fn near_cells_at(columns: Map<ChunkKey, ColumnState>, p: ChunkPosition) -> NearCells {
    NearCells {
        west: near_data(columns, p, -1, 0),
        east: near_data(columns, p, 1, 0),
        north: near_data(columns, p, 0, -1),
        south: near_data(columns, p, 0, 1),
    }
}

/// The cells of section `y` of column `p` with the halo that the store gives it.
pub open spec fn section_cells(
    columns: Map<ChunkKey, ColumnState>,
    storage: BlockStorage,
    p: ChunkPosition,
    y: int,
) -> Seq<ChunkColliderInfo> {
    bordered_cells(columns[p.key()].data, near_cells_at(columns, p), storage, y)
}

/// The work for column `p`: of its sections below `n`, those that hold a visible block,
/// each with its bordered cells.
pub open spec fn job_parts(
    columns: Map<ChunkKey, ColumnState>,
    storage: BlockStorage,
    p: ChunkPosition,
    n: nat,
) -> Seq<(int, Seq<ChunkColliderInfo>)>
    decreases n,
{
    if n == 0 {
        Seq::empty()
    } else {
        let rest = job_parts(columns, storage, p, (n - 1) as nat);
        let cells = section_cells(columns, storage, p, n - 1);
        if mesh_count(cells) > 0 {
            rest.push((n - 1, cells))
        } else {
            rest
        }
    }
}

/// The sections whose geometry a change of the block at `position` makes stale: the
/// section of the block, the section below or above where the block lies on the
/// section's floor or ceiling, and the same section of the neighbouring column where the
/// block lies on a side of its column and the store holds that neighbour.
pub open spec fn stale_sections(present: Set<ChunkKey>, position: BlockPosition) -> Set<SectionKey> {
    let c = position.chunk();
    let s = position.section();
    let l = position.local();
    Set::new(
        |d: SectionKey|
            {
                ||| d == (c.x, c.z, s as usize)
                ||| (l.y == 0 && s > 0 && d == (c.x, c.z, (s - 1) as usize))
                ||| (l.y == 15 && s < 7 && d == (c.x, c.z, (s + 1) as usize))
                ||| (l.x == 0 && neighbor_present(present, c, -1, 0) && d == (
                    (c.x - 1) as i64,
                    c.z,
                    s as usize,
                ))
                ||| (l.x == 15 && neighbor_present(present, c, 1, 0) && d == (
                    (c.x + 1) as i64,
                    c.z,
                    s as usize,
                ))
                ||| (l.z == 0 && neighbor_present(present, c, 0, -1) && d == (
                    c.x,
                    (c.z - 1) as i64,
                    s as usize,
                ))
                ||| (l.z == 15 && neighbor_present(present, c, 0, 1) && d == (
                    c.x,
                    (c.z + 1) as i64,
                    s as usize,
                ))
            },
    )
}

/// Whether a block is part of its section's mesh: it is there and its type is
/// registered as textured geometry.
pub open spec fn is_textured(storage: BlockStorage, block: Option<BlockDataInfo>) -> bool {
    block matches Some(b) && storage.lookup(b.id) matches Some(t) && t.block_content
        == BlockContent::Texture
}

/// Whether a block is an object of its own on the host's side.
pub open spec fn is_model(storage: BlockStorage, block: Option<BlockDataInfo>) -> bool {
    block matches Some(b) && storage.lookup(b.id) matches Some(t) && t.block_content
        == BlockContent::ModelCube
}

/// Whether a block is there but its type is not registered.
pub open spec fn is_unknown(storage: BlockStorage, block: Option<BlockDataInfo>) -> bool {
    block matches Some(b) && storage.lookup(b.id) is None
}

impl StoreState {
    /// The coordinates of the columns that the store holds.
    pub open spec fn present(self) -> Set<ChunkKey> {
        self.columns.dom()
    }

    /// The store without any column.
    pub open spec fn empty() -> StoreState {
        StoreState {
            columns: Map::empty(),
            received: Seq::empty(),
            loading: Seq::empty(),
            generating: Seq::empty(),
            dirty: Set::empty(),
        }
    }

    /// No coordinate stands twice in a queue or in two of them, every queued coordinate
    /// has its column, a column is loaded exactly when it stands in no queue, every column
    /// is well formed and filed under its own coordinate, and every stale section is one
    /// that a column has.
    pub open spec fn wf(self) -> bool {
        &&& self.received.no_duplicates()
        &&& self.loading.no_duplicates()
        &&& self.generating.no_duplicates()
        &&& forall|p: ChunkPosition| #[trigger] self.received.contains(p) ==> !self.loading.contains(p)
        &&& forall|p: ChunkPosition|
            #[trigger] self.generating.contains(p) ==> !self.received.contains(p)
                && !self.loading.contains(p)
        &&& forall|p: ChunkPosition|
            #[trigger] self.received.contains(p) ==> self.columns.contains_key(p.key())
        &&& forall|p: ChunkPosition|
            #[trigger] self.loading.contains(p) ==> self.columns.contains_key(p.key())
        &&& forall|p: ChunkPosition|
            #[trigger] self.generating.contains(p) ==> self.columns.contains_key(p.key())
        &&& forall|p: ChunkPosition|
            self.columns.contains_key(#[trigger] p.key()) ==> (self.columns[p.key()].loaded <==> !self.queued(p))
        &&& forall|k: ChunkKey| #[trigger]
            self.columns.contains_key(k) ==> well_formed(self.columns[k])
                && self.columns[k].chunk_position.key() == k
        &&& forall|d: SectionKey| #[trigger] self.dirty.contains(d) ==> d.2 < 8
    }

    /// Whether `p` stands in one of the queues: it waits, is admitted or is in the
    /// making.
    pub open spec fn queued(self, p: ChunkPosition) -> bool {
        self.received.contains(p) || self.loading.contains(p) || self.generating.contains(p)
    }

    /// The stage of the column at `p`; `None` where the store holds no such column.
    pub open spec fn stage(self, p: ChunkPosition) -> Option<ChunkStage> {
        if !self.columns.contains_key(p.key()) {
            None
        } else if self.received.contains(p) {
            Some(ChunkStage::Waiting)
        } else if self.loading.contains(p) {
            Some(ChunkStage::Admitted)
        } else if self.generating.contains(p) {
            Some(ChunkStage::Generating)
        } else {
            Some(ChunkStage::Active)
        }
    }

    /// The number of columns that may still go into the making while no more than
    /// `limit` are in the making at a time.
    pub open spec fn budget(self, limit: nat) -> nat {
        if self.generating.len() >= limit {
            0
        } else {
            (limit - self.generating.len()) as nat
        }
    }

    /// The store after every waiting column whose four neighbours are present was
    /// admitted: those columns move to the end of the loading queue, in their order.
    pub open spec fn admitting(self) -> StoreState {
        StoreState {
            received: keep(self.received, is_short_in(self.present())),
            loading: self.loading + keep(self.received, is_full_in(self.present())),
            ..self
        }
    }

    /// The store after a column made of `given` arrived at `p`: the column is filed,
    /// `p` waits among the received columns, which are ordered anew by their distance to
    /// `center`, and every column that can be admitted is.
    pub open spec fn with_column(self, center: ChunkPosition, p: ChunkPosition, given: Seq<SectionData>) -> StoreState {
        (StoreState {
            columns: self.columns.insert(p.key(), fresh_column(p, given)),
            received: sort_by_distance(self.received.push(p), center),
            ..self
        }).admitting()
    }

    /// The admitted columns that go into the making while no more than `limit` are in
    /// the making at a time: the first of the loading queue whose four neighbours are
    /// present, as many as the budget allows.
    pub open spec fn promoted(self, limit: nat) -> Seq<ChunkPosition> {
        first_ready(self.loading, self.present(), self.budget(limit))
    }

    /// The store after those columns left the loading queue and went into the making.
    pub open spec fn promote(self, limit: nat) -> StoreState {
        StoreState {
            loading: keep(self.loading, not_among(self.promoted(limit))),
            generating: self.generating + self.promoted(limit),
            ..self
        }
    }

    /// The store after the column at `p` was unloaded.
    pub open spec fn without_column(self, p: ChunkPosition) -> StoreState {
        StoreState {
            columns: self.columns.remove(p.key()),
            received: without(self.received, p),
            loading: without(self.loading, p),
            generating: without(self.generating, p),
            ..self
        }
    }

    /// The store after the result of the job of column `p` came back. It is attached
    /// where the column is still there and in the making; otherwise it is dropped and
    /// nothing changes.
    pub open spec fn attach(self, p: ChunkPosition, parts: Seq<(int, GeometryData)>) -> StoreState {
        if self.stage(p) == Some(ChunkStage::Generating) {
            StoreState {
                columns: self.columns.insert(p.key(), attached_column(self.columns[p.key()], parts)),
                generating: without(self.generating, p),
                ..self
            }
        } else {
            self
        }
    }

    /// The store after the results of several jobs came back, one after the other. Each
    /// is given by the coordinate of its column and its parts.
    pub open spec fn attach_all(self, results: Seq<(ChunkPosition, Seq<(int, GeometryData)>)>) -> StoreState
        decreases results.len(),
    {
        if results.len() == 0 {
            self
        } else {
            self.attach_all(results.drop_last()).attach(results.last().0, results.last().1)
        }
    }

    /// The coordinates of those results that were attached, in their order.
    pub open spec fn attached(self, results: Seq<(ChunkPosition, Seq<(int, GeometryData)>)>) -> Seq<
        ChunkPosition,
    >
        decreases results.len(),
    {
        if results.len() == 0 {
            Seq::empty()
        } else {
            let before = self.attached(results.drop_last());
            if self.attach_all(results.drop_last()).stage(results.last().0) == Some(
                ChunkStage::Generating,
            ) {
                before.push(results.last().0)
            } else {
                before
            }
        }
    }

    /// Whether a change from `old_block` to `new_block` makes geometry stale: one of
    /// the two is textured geometry.
    pub open spec fn edit_marks(storage: BlockStorage, old_block: Option<BlockDataInfo>, new_block: Option<BlockDataInfo>) -> bool {
        is_textured(storage, old_block) || is_textured(storage, new_block)
    }

    /// The store after every section whose geometry depends on the block at `position`
    /// was marked stale. A section that was stale already stays so: it is held once.
    pub open spec fn marked(self, position: BlockPosition) -> StoreState {
        StoreState { dirty: self.dirty.union(stale_sections(self.present(), position)), ..self }
    }

    /// The store after the block at `position` became `new_block`.
    pub open spec fn with_block(self, storage: BlockStorage, position: BlockPosition, new_block: Option<BlockDataInfo>) -> StoreState {
        let k = position.chunk().key();
        let c = self.columns[k];
        StoreState {
            columns: self.columns.insert(
                k,
                ColumnState {
                    data: cells_with_block(c.data, position.section(), position.local(), new_block),
                    ..c
                },
            ),
            dirty: if Self::edit_marks(storage, block_in(c.data, position), new_block) {
                self.marked(position).dirty
            } else {
                self.dirty
            },
            ..self
        }
    }

    /// Whether the stale section `d` can be rebuilt: its column is there with all four
    /// neighbours.
    pub open spec fn rebuilds(self, d: SectionKey) -> bool {
        &&& self.dirty.contains(d)
        &&& self.columns.contains_key((d.0, d.1))
        &&& neighbors_full(self.present(), column_of(d))
    }

    /// Section `y` of column `k` with geometry made anew of the store's blocks and its
    /// collider brought up to date.
    pub open spec fn rebuilt_section(self, storage: BlockStorage, atlas: TextureMapper, k: ChunkKey, y: int) -> SectionState {
        let p = ChunkPosition { x: k.0, z: k.1 };
        settle(
            with_geometry(
                self.columns[k].sections[y],
                geometry_of(section_cells(self.columns, storage, p, y), storage, atlas),
            ),
        )
    }

    /// Column `k` after each of its stale sections that is in `done` and can be rebuilt
    /// was rebuilt.
    pub open spec fn refreshed_column(
        self,
        storage: BlockStorage,
        atlas: TextureMapper,
        done: Set<SectionKey>,
        k: ChunkKey,
    ) -> ColumnState {
        ColumnState {
            sections: Seq::new(
                8,
                |y: int|
                    if self.rebuilds((k.0, k.1, y as usize)) && done.contains((k.0, k.1, y as usize)) {
                        self.rebuilt_section(storage, atlas, k, y)
                    } else {
                        self.columns[k].sections[y]
                    },
            ),
            ..self.columns[k]
        }
    }

    /// The store after the stale sections in `done` were looked at: a section whose
    /// column has all four neighbours is rebuilt, or forgotten where its column is gone;
    /// the others stay stale.
    pub open spec fn refresh_some(self, storage: BlockStorage, atlas: TextureMapper, done: Set<SectionKey>) -> StoreState {
        StoreState {
            columns: Map::new(
                |k: ChunkKey| self.columns.contains_key(k),
                |k: ChunkKey| self.refreshed_column(storage, atlas, done, k),
            ),
            dirty: Set::new(
                |d: SectionKey|
                    self.dirty.contains(d) && !(done.contains(d) && neighbors_full(
                        self.present(),
                        column_of(d),
                    )),
            ),
            ..self
        }
    }

    /// The store after one pass over all the stale sections.
    pub open spec fn refresh(self, storage: BlockStorage, atlas: TextureMapper) -> StoreState {
        self.refresh_some(storage, atlas, self.dirty)
    }
}

} // verus!

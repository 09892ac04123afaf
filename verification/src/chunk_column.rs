use vstd::prelude::*;
use crate::block::BlockDataInfo;
use crate::chunk_data::ChunkData;
use crate::chunk_data::SectionData;
use crate::chunk_generator::GeneratedSection;
use crate::chunk_section::ChunkSection;
use crate::chunk_section::collider_update;
use crate::chunk_section::ColliderAction;
use crate::chunk_section::ColliderActionView;
use crate::chunk_section::fresh_section;
use crate::chunk_section::GeometryData;
use crate::chunk_section::SectionGeometry;
use crate::chunk_section::SectionState;
use crate::chunk_section::with_geometry;
use crate::position::BlockPosition;
use crate::position::ChunkBlockPosition;
use crate::position::ChunkPosition;

verus! {

/// The blocks of a column as plain values: for each section its cells.
pub type ColumnCells = Seq<Seq<Option<BlockDataInfo>>>;

/// One chunk column: the blocks of its sections, the geometry made of them and whether
/// the host shows it.
pub struct ChunkColumn {
    chunk_position: ChunkPosition,
    data: Vec<SectionData>,
    sections: Vec<ChunkSection>,
    loaded: bool,
}

/// What a `ChunkColumn` holds.
pub struct ColumnState {
    pub chunk_position: ChunkPosition,
    pub data: ColumnCells,
    pub sections: Seq<SectionState>,
    pub loaded: bool,
}

/// The cells that a column keeps of the sections it was given: the first eight, and
/// air for each section that is missing.
pub open spec fn column_cells(given: Seq<SectionData>) -> ColumnCells {
    Seq::new(
        8,
        |i: int|
            if i < given.len() {
                given[i].cells()
            } else {
                Seq::new(4096, |j: int| None::<BlockDataInfo>)
            },
    )
}

/// The state of a column that was just made of `given`.
pub open spec fn fresh_column(chunk_position: ChunkPosition, given: Seq<SectionData>) -> ColumnState {
    ColumnState {
        chunk_position,
        data: column_cells(given),
        sections: Seq::new(8, |i: int| fresh_section(chunk_position, i as u8)),
        loaded: false,
    }
}

/// A column has eight sections of 4096 cells, and each section knows its place.
pub open spec fn well_formed(s: ColumnState) -> bool {
    &&& s.data.len() == 8
    &&& forall|i: int| 0 <= i < 8 ==> (#[trigger] s.data[i]).len() == 4096
    &&& s.sections.len() == 8
    &&& forall|i: int|
        0 <= i < 8 ==> (#[trigger] s.sections[i]).y == i && s.sections[i].chunk_position
            == s.chunk_position
}

/// The block at `position` in a column's cells, `None` for air and for a position above
/// or below the column.
pub open spec fn block_in(data: ColumnCells, position: BlockPosition) -> Option<BlockDataInfo> {
    if 0 <= position.section() < 8 {
        data[position.section()][position.local().index()]
    } else {
        None
    }
}

/// The cells of a column after one block has changed.
pub open spec fn cells_with_block(
    data: ColumnCells,
    section: int,
    position: ChunkBlockPosition,
    block: Option<BlockDataInfo>,
) -> ColumnCells {
    data.update(section, data[section].update(position.index(), block))
}

/// The sections of a column after the parts of a finished job were put on them, one
/// after the other. A part for a height that no section has is passed over.
pub open spec fn apply_parts(sections: Seq<SectionState>, parts: Seq<(int, GeometryData)>) -> Seq<
    SectionState,
>
    decreases parts.len(),
{
    if parts.len() == 0 {
        sections
    } else {
        let before = apply_parts(sections, parts.drop_last());
        let y = parts.last().0;
        if 0 <= y < 8 {
            before.update(y, with_geometry(before[y], parts.last().1))
        } else {
            before
        }
    }
}

/// A section after its collider was brought up to date, where it had to be.
pub open spec fn settle(s: SectionState) -> SectionState {
    if s.need_update_collider {
        collider_update(s).0
    } else {
        s
    }
}

/// What the host has to do to bring a section's collider up to date.
pub open spec fn settle_action(s: SectionState) -> ColliderActionView {
    if s.need_update_collider {
        collider_update(s).1
    } else {
        ColliderActionView::Nothing
    }
}

/// A column after the result of its job was attached: the geometry is on its sections,
/// their colliders are up to date, and the column counts as loaded.
pub open spec fn attached_column(c: ColumnState, parts: Seq<(int, GeometryData)>) -> ColumnState {
    ColumnState {
        sections: Seq::new(8, |y: int| settle(apply_parts(c.sections, parts)[y])),
        loaded: true,
        ..c
    }
}

/// What the host has to do with the colliders of a column whose job result is attached,
/// section by section.
pub open spec fn attached_actions(c: ColumnState, parts: Seq<(int, GeometryData)>) -> Seq<
    ColliderActionView,
> {
    Seq::new(8, |y: int| settle_action(apply_parts(c.sections, parts)[y]))
}

/// The parts of a finished job as plain values: height and geometry.
pub open spec fn parts_of(sections: Seq<GeneratedSection>) -> Seq<(int, GeometryData)> {
    Seq::new(sections.len(), |i: int| (sections[i].y as int, sections[i].geometry@))
}

/// The heights, below `n`, of the sections for which the host holds a collider.
pub open spec fn collider_heights(sections: Seq<SectionState>, n: nat) -> Seq<usize>
    decreases n,
{
    if n == 0 {
        Seq::empty()
    } else {
        let rest = collider_heights(sections, (n - 1) as nat);
        if sections[n - 1].collider {
            rest.push((n - 1) as usize)
        } else {
            rest
        }
    }
}

/// What a list of collider actions holds.
pub open spec fn actions_view(actions: Seq<ColliderAction>) -> Seq<ColliderActionView> {
    Seq::new(actions.len(), |i: int| actions[i]@)
}

impl View for ChunkColumn {
    type V = ColumnState;

    closed spec fn view(&self) -> ColumnState {
        ColumnState {
            chunk_position: self.chunk_position,
            data: Seq::new(self.data@.len(), |i: int| self.data@[i].cells()),
            sections: Seq::new(self.sections@.len(), |i: int| self.sections@[i]@),
            loaded: self.loaded,
        }
    }
}

impl ChunkColumn {
    /// The column's parts fit together.
    pub closed spec fn wf(self) -> bool {
        &&& well_formed(self@)
        &&& self.data@.len() == 8
        &&& self.sections@.len() == 8
        &&& forall|i: int| 0 <= i < 8 ==> (#[trigger] self.data@[i]).wf()
    }

    /// A well-formed column holds a well-formed state.
    pub proof fn lemma_wf(self)
        requires
            self.wf(),
        ensures
            well_formed(self@),
    {
    }

    /// Makes a column of the sections that arrived for it: it keeps the first eight and
    /// fills up with air where fewer came.
    pub fn create(chunk_position: ChunkPosition, sections: &ChunkData) -> (c: ChunkColumn)
        requires
            forall|i: int| 0 <= i < sections@.len() ==> (#[trigger] sections@[i]).wf(),
        ensures
            c.wf(),
            c@ == fresh_column(chunk_position, sections@),
    {
        let mut data: Vec<SectionData> = Vec::new();
        let mut parts: Vec<ChunkSection> = Vec::new();
        let mut i: usize = 0;
        while i < 8
            invariant
                i <= 8,
                data@.len() == i,
                parts@.len() == i,
                forall|j: int| 0 <= j < sections@.len() ==> (#[trigger] sections@[j]).wf(),
                forall|j: int| 0 <= j < i ==> (#[trigger] data@[j]).wf(),
                forall|j: int| 0 <= j < i ==> (#[trigger] data@[j]).cells() == column_cells(sections@)[j],
                forall|j: int|
                    0 <= j < i ==> (#[trigger] parts@[j])@ == fresh_section(chunk_position, j as u8),
            decreases 8 - i,
        {
            if i < sections.len() {
                data.push(sections[i].duplicate());
            } else {
                let air = SectionData::new();
                assert(air.cells() =~= Seq::new(4096, |j: int| None::<BlockDataInfo>));
                data.push(air);
            }
            parts.push(ChunkSection::create(i as u8, chunk_position));
            i += 1;
        }
        let c = ChunkColumn { chunk_position, data, sections: parts, loaded: false };
        assert(c@.data =~= column_cells(sections@));
        assert(c@.sections =~= fresh_column(chunk_position, sections@).sections);
        c
    }

    pub fn get_chunk_position(&self) -> (p: ChunkPosition)
        ensures
            p == self@.chunk_position,
    {
        self.chunk_position
    }

    pub fn is_loaded(&self) -> (r: bool)
        ensures
            r == self@.loaded,
    {
        self.loaded
    }

    /// Marks the column as shown by the host.
    pub fn set_loaded(&mut self)
        requires
            old(self).wf(),
        ensures
            final(self).wf(),
            final(self)@ == (ColumnState { loaded: true, ..old(self)@ }),
    {
        self.loaded = true;
        assert(self@.data =~= old(self)@.data);
        assert(self@.sections =~= old(self)@.sections);
    }

    /// The blocks of the column, section by section from the lowest up.
    pub fn get_data(&self) -> (data: &Vec<SectionData>)
        requires
            self.wf(),
        ensures
            data@.len() == 8,
            forall|y: int| 0 <= y < 8 ==> (#[trigger] data@[y]).wf() && data@[y].cells() == self@.data[y],
    {
        &self.data
    }

    /// The blocks of section `y`.
    pub fn get_section_data(&self, y: usize) -> (d: &SectionData)
        requires
            self.wf(),
            y < 8,
        ensures
            d.wf(),
            d.cells() == self@.data[y as int],
    {
        &self.data[y]
    }

    /// The block at `position`, taken as a position inside this column.
    pub fn get_block_info(&self, position: &BlockPosition) -> (b: Option<BlockDataInfo>)
        requires
            self.wf(),
        ensures
            b == block_in(self@.data, *position),
    {
        let (section, local) = position.get_block_position();
        if 0 <= section && section < 8 {
            self.data[section as usize].get(&local)
        } else {
            None
        }
    }

    /// Replaces the block at `block_position` of section `section`; `None` clears it.
    pub fn change_block_info(
        &mut self,
        section: u32,
        block_position: &ChunkBlockPosition,
        new_block_info: Option<BlockDataInfo>,
    )
        requires
            old(self).wf(),
            section < 8,
            block_position.in_section(),
        ensures
            final(self).wf(),
            final(self)@ == (ColumnState {
                data: cells_with_block(old(self)@.data, section as int, *block_position, new_block_info),
                ..old(self)@
            }),
    {
        self.data[section as usize].insert(block_position, new_block_info);
        assert(self@.data =~= cells_with_block(
            old(self)@.data,
            section as int,
            *block_position,
            new_block_info,
        ));
        assert(self@.sections =~= old(self)@.sections);
    }

    /// The geometry and collider state of section `y`.
    pub fn get_chunk_section(&self, y: usize) -> (s: &ChunkSection)
        requires
            self.wf(),
            y < 8,
        ensures
            s@ == self@.sections[y as int],
    {
        &self.sections[y]
    }
    /// Brings the collider of section `y` up to date.
    pub fn update_collider(&mut self, y: usize) -> (action: ColliderAction)
        requires
            old(self).wf(),
            y < 8,
        ensures
            final(self).wf(),
            final(self)@ == (ColumnState {
                sections: old(self)@.sections.update(
                    y as int,
                    collider_update(old(self)@.sections[y as int]).0,
                ),
                ..old(self)@
            }),
            action@ == collider_update(old(self)@.sections[y as int]).1,
    {
        let action = self.sections[y].update_collider();
        assert(self@.data =~= old(self)@.data);
        assert(self@.sections =~= old(self)@.sections.update(
            y as int,
            collider_update(old(self)@.sections[y as int]).0,
        ));
        action
    }
    /// Puts new geometry on section `y` and brings its collider up to date. Returns
    /// whether the section shows geometry for the first time, and what the host has to do
    /// with the collider.
    pub fn rebuild_section(&mut self, y: usize, geometry: SectionGeometry) -> (r: (bool, ColliderAction))
        requires
            old(self).wf(),
            y < 8,
        ensures
            final(self).wf(),
            final(self)@ == (ColumnState {
                sections: old(self)@.sections.update(
                    y as int,
                    settle(with_geometry(old(self)@.sections[y as int], geometry@)),
                ),
                ..old(self)@
            }),
            r.0 == (!old(self)@.sections[y as int].set_geometry_first_time
                && final(self)@.sections[y as int].set_geometry_first_time),
            r.1@ == settle_action(with_geometry(old(self)@.sections[y as int], geometry@)),
    {
        let first = self.sections[y].apply_geometry(geometry);
        let action = if self.sections[y].is_collider_update_needed() {
            self.sections[y].update_collider()
        } else {
            ColliderAction::Nothing
        };
        assert(self@.data =~= old(self)@.data);
        assert(self@.sections =~= old(self)@.sections.update(
            y as int,
            settle(with_geometry(old(self)@.sections[y as int], geometry@)),
        ));
        (first, action)
    }

    /// Attaches the result of the column's job: puts the geometry on the sections, one
    /// part after the other, brings every collider up to date and marks the column as
    /// loaded. Returns what the host has to do with the collider of each section.
    pub fn attach_geometry(&mut self, sections: Vec<GeneratedSection>) -> (actions: Vec<ColliderAction>)
        requires
            old(self).wf(),
        ensures
            final(self).wf(),
            final(self)@ == attached_column(old(self)@, parts_of(sections@)),
            actions_view(actions@) == attached_actions(old(self)@, parts_of(sections@)),
    {
        let ghost parts = parts_of(sections@);
        let ghost start = self@;
        let mut rest = sections;
        let ghost mut done: int = 0;
        proof {
            assert(parts.subrange(0, 0) =~= Seq::<(int, GeometryData)>::empty());
        }
        while rest.len() > 0
            invariant
                self.wf(),
                0 <= done <= parts.len(),
                parts_of(rest@) == parts.subrange(done, parts.len() as int),
                self@ == (ColumnState {
                    sections: apply_parts(start.sections, parts.subrange(0, done)),
                    ..start
                }),
                start.sections.len() == 8,
            decreases rest@.len(),
        {
            let ghost before = rest@;
            let part = rest.remove(0);
            proof {
                assert(parts_of(before).len() == before.len());
                assert(parts.subrange(done, parts.len() as int).len() == before.len());
                assert(done < parts.len());
                assert(parts_of(before)[0] == (part.y as int, part.geometry@));
                assert(parts.subrange(done, parts.len() as int)[0] == parts[done]);
                assert(parts[done] == (part.y as int, part.geometry@));
                assert(parts.subrange(0, done + 1).drop_last() =~= parts.subrange(0, done));
                assert(parts.subrange(0, done + 1).last() == parts[done]);
                assert(parts_of(rest@) =~= parts.subrange(done + 1, parts.len() as int)) by {
                    assert forall|i: int| 0 <= i < rest@.len() implies parts_of(rest@)[i]
                        == parts.subrange(done + 1, parts.len() as int)[i] by {
                        assert(rest@[i] == before[i + 1]);
                        assert(parts.subrange(done, parts.len() as int)[i + 1] == parts[done + i + 1]);
                        assert(parts_of(before)[i + 1] == parts[done + i + 1]);
                    }
                }
            }
            if part.y < 8 {
                let ghost prior = self@;
                self.sections[part.y].apply_geometry(part.geometry);
                assert(self@.data =~= prior.data);
                assert(self@.sections =~= prior.sections.update(
                    part.y as int,
                    with_geometry(prior.sections[part.y as int], part.geometry@),
                ));
            }
            proof {
                done = done + 1;
            }
        }
        assert(parts.subrange(0, done) =~= parts);
        let ghost applied = self@;
        let ghost kept_data = self.data;
        self.loaded = true;
        let mut actions: Vec<ColliderAction> = Vec::new();
        let mut y: usize = 0;
        while y < 8
            invariant
                y <= 8,
                self.sections@.len() == 8,
                self.data == kept_data,
                self.data@.len() == 8,
                self.chunk_position == start.chunk_position,
                self.loaded,
                applied.sections == apply_parts(start.sections, parts),
                applied.sections.len() == 8,
                actions@.len() == y,
                forall|i: int| 0 <= i < y ==> (#[trigger] actions@[i])@ == settle_action(applied.sections[i]),
                forall|i: int| 0 <= i < y ==> (#[trigger] self.sections@[i])@ == settle(applied.sections[i]),
                forall|i: int| y <= i < 8 ==> (#[trigger] self.sections@[i])@ == applied.sections[i],
            decreases 8 - y,
        {
            if self.sections[y].is_collider_update_needed() {
                let action = self.sections[y].update_collider();
                actions.push(action);
            } else {
                actions.push(ColliderAction::Nothing);
            }
            y += 1;
        }
        proof {
            lemma_apply_parts(start.sections, parts);
            assert(self@.data =~= applied.data);
            assert(self@.sections =~= attached_column(start, parts).sections);
            assert(actions_view(actions@) =~= attached_actions(start, parts));
        }
        actions
    }

    /// The collision group and mask of each section's collider, from the lowest section
    /// up, for a column that is near the player or far from it; `None` for a section
    /// without a collider.
    pub fn update_collider_group(&self, is_near: bool) -> (groups: Vec<Option<(u32, u32)>>)
        requires
            self.wf(),
        ensures
            groups@.len() == 8,
            forall|y: int|
                0 <= y < 8 ==> #[trigger] groups@[y] == (if !self@.sections[y].collider {
                    None
                } else if is_near {
                    Some((crate::chunk_section::WORLD_NEAR_GROUP, crate::chunk_section::PLAYER_GROUP))
                } else {
                    Some((crate::chunk_section::WORLD_FAR_GROUP, 0u32))
                }),
    {
        let mut groups: Vec<Option<(u32, u32)>> = Vec::new();
        let mut y: usize = 0;
        while y < 8
            invariant
                y <= 8,
                self.wf(),
                groups@.len() == y,
                forall|i: int|
                    0 <= i < y ==> #[trigger] groups@[i] == (if !self@.sections[i].collider {
                        None
                    } else if is_near {
                        Some((crate::chunk_section::WORLD_NEAR_GROUP, crate::chunk_section::PLAYER_GROUP))
                    } else {
                        Some((crate::chunk_section::WORLD_FAR_GROUP, 0u32))
                    }),
            decreases 8 - y,
        {
            groups.push(self.sections[y].update_collider_group(is_near));
            y += 1;
        }
        groups
    }

    /// Gives up the colliders of all sections. Returns the heights of the sections for
    /// which the host held one.
    pub fn free(&mut self) -> (released: Vec<usize>)
        requires
            old(self).wf(),
        ensures
            final(self).wf(),
            released@ == collider_heights(old(self)@.sections, 8),
            final(self)@ == (ColumnState {
                sections: Seq::new(
                    8,
                    |y: int| SectionState { collider: false, ..old(self)@.sections[y] },
                ),
                ..old(self)@
            }),
    {
        let ghost start = self@;
        let mut released: Vec<usize> = Vec::new();
        let mut y: usize = 0;
        while y < 8
            invariant
                y <= 8,
                self.sections@.len() == 8,
                self.data == old(self).data,
                self.data@.len() == 8,
                self.chunk_position == start.chunk_position,
                self.loaded == start.loaded,
                start == old(self)@,
                start.sections.len() == 8,
                released@ == collider_heights(start.sections, y as nat),
                forall|i: int|
                    0 <= i < y ==> (#[trigger] self.sections@[i])@ == (SectionState {
                        collider: false,
                        ..start.sections[i]
                    }),
                forall|i: int| y <= i < 8 ==> (#[trigger] self.sections@[i])@ == start.sections[i],
            decreases 8 - y,
        {
            if self.sections[y].destory() {
                released.push(y);
            }
            y += 1;
        }
        assert(self@.data =~= start.data);
        assert(self@.sections =~= Seq::new(
            8,
            |y: int| SectionState { collider: false, ..start.sections[y] },
        ));
        released
    }
}

/// Putting geometry on sections changes neither their number nor their places.
pub proof fn lemma_apply_parts(sections: Seq<SectionState>, parts: Seq<(int, GeometryData)>)
    requires
        sections.len() == 8,
    ensures
        apply_parts(sections, parts).len() == 8,
        forall|y: int|
            0 <= y < 8 ==> (#[trigger] apply_parts(sections, parts)[y]).y == sections[y].y
                && apply_parts(sections, parts)[y].chunk_position == sections[y].chunk_position,
    decreases parts.len(),
{
    if parts.len() > 0 {
        lemma_apply_parts(sections, parts.drop_last());
    }
}

} // verus!

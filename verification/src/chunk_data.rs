use vstd::prelude::*;
use crate::block::BlockDataInfo;
use crate::position::ChunkBlockPosition;

verus! {

/// Number of blocks in one section.
pub const SECTION_VOLUME: usize = 4096;

/// The blocks of one section; a missing block is air.
pub struct SectionData {
    blocks: Vec<Option<BlockDataInfo>>,
}

/// The sections of one column, from the world's floor upwards.
pub type ChunkData = Vec<SectionData>;

impl SectionData {
    /// The stored blocks, by their place in the section's storage.
    pub closed spec fn cells(self) -> Seq<Option<BlockDataInfo>> {
        self.blocks@
    }

    /// The section holds one cell for each of its blocks.
    pub open spec fn wf(self) -> bool {
        self.cells().len() == 4096
    }

    /// The block at `position`, `None` for air.
    pub open spec fn block_at(self, position: ChunkBlockPosition) -> Option<BlockDataInfo> {
        self.cells()[position.index()]
    }

    /// No cell of the section holds a block.
    pub open spec fn all_air(self) -> bool {
        forall|i: int| 0 <= i < 4096 ==> self.cells()[i] == None::<BlockDataInfo>
    }

    /// A section of air.
    pub fn new() -> (s: SectionData)
        ensures
            s.wf(),
            s.all_air(),
    {
        let mut blocks: Vec<Option<BlockDataInfo>> = Vec::new();
        let mut i: usize = 0;
        while i < 4096
            invariant
                i <= 4096,
                blocks@.len() == i,
                forall|j: int| 0 <= j < i ==> blocks@[j] == None::<BlockDataInfo>,
            decreases 4096 - i,
        {
            blocks.push(None);
            i += 1;
        }
        SectionData { blocks }
    }

    pub fn get(&self, position: &ChunkBlockPosition) -> (b: Option<BlockDataInfo>)
        requires
            self.wf(),
            position.in_section(),
        ensures
            b == self.block_at(*position),
    {
        self.blocks[position.linearize()]
    }

    /// The block stored in cell `index`.
    pub fn get_cell(&self, index: usize) -> (b: Option<BlockDataInfo>)
        requires
            self.wf(),
            index < 4096,
        ensures
            b == self.cells()[index as int],
    {
        self.blocks[index]
    }

    /// Puts `block` at `position`; `None` clears the place.
    pub fn insert(&mut self, position: &ChunkBlockPosition, block: Option<BlockDataInfo>)
        requires
            old(self).wf(),
            position.in_section(),
        ensures
            final(self).wf(),
            final(self).cells() == old(self).cells().update(position.index(), block),
    {
        let at = position.linearize();
        self.blocks.set(at, block);
    }

    /// A copy of the section that shares nothing with it.
    pub fn duplicate(&self) -> (s: SectionData)
        requires
            self.wf(),
        ensures
            s.wf(),
            s.cells() == self.cells(),
    {
        let mut blocks: Vec<Option<BlockDataInfo>> = Vec::new();
        let mut i: usize = 0;
        while i < 4096
            invariant
                i <= 4096,
                self.blocks@.len() == 4096,
                blocks@ == self.blocks@.subrange(0, i as int),
            decreases 4096 - i,
        {
            blocks.push(self.blocks[i]);
            i += 1;
        }
        SectionData { blocks }
    }

    /// Whether the section holds no block at all.
    pub fn is_air(&self) -> (r: bool)
        requires
            self.wf(),
        ensures
            r == self.all_air(),
    {
        let mut i: usize = 0;
        while i < 4096
            invariant
                i <= 4096,
                self.blocks@.len() == 4096,
                forall|j: int| 0 <= j < i ==> self.blocks@[j] == None::<BlockDataInfo>,
            decreases 4096 - i,
        {
            if self.blocks[i].is_some() {
                return false;
            }
            i += 1;
        }
        true
    }
}

} // verus!

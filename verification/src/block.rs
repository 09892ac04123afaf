use vstd::prelude::*;

verus! {

/// Identifier of a block type.
pub type BlockIndexType = u16;

/// How a voxel takes part in face culling.
#[derive(Clone, Copy, Debug, PartialEq, Eq, Structural)]
pub enum VoxelVisibility {
    /// Nothing is drawn and nothing is hidden behind it.
    Empty,
    /// Drawn, but faces behind it stay visible.
    Translucent,
    /// Drawn, and hides the faces that touch it.
    Opaque,
}

/// What a block is made of on the host's side.
#[derive(Clone, Copy, Debug, PartialEq, Eq, Structural)]
pub enum BlockContent {
    /// Plain textured geometry that is part of the section's mesh.
    Texture,
    /// A discrete model that the host attaches as an object of its own.
    ModelCube,
}

/// Direction a placed block faces.
#[derive(Clone, Copy, Debug, PartialEq, Eq, Structural)]
pub enum BlockFace {
    Down,
    East,
    North,
    South,
    Up,
    West,
}

/// One registered block type.
#[derive(Clone, Copy, Debug, PartialEq, Eq, Structural)]
pub struct BlockType {
    pub voxel_visibility: VoxelVisibility,
    pub block_content: BlockContent,
}

impl BlockType {
    pub fn new(voxel_visibility: VoxelVisibility, block_content: BlockContent) -> (t: BlockType)
        ensures
            t.voxel_visibility == voxel_visibility,
            t.block_content == block_content,
    {
        BlockType { voxel_visibility, block_content }
    }

    pub fn get_voxel_visibility(&self) -> (v: VoxelVisibility)
        ensures
            v == self.voxel_visibility,
    {
        self.voxel_visibility
    }

    pub fn get_block_content(&self) -> (c: BlockContent)
        ensures
            c == self.block_content,
    {
        self.block_content
    }
}

/// A block as it is stored in a section: its type and, optionally, the way it faces.
#[derive(Clone, Copy, Debug, PartialEq, Eq, Structural)]
pub struct BlockDataInfo {
    pub id: BlockIndexType,
    pub face: Option<BlockFace>,
}

impl BlockDataInfo {
    pub fn create(id: BlockIndexType, face: Option<BlockFace>) -> (b: BlockDataInfo)
        ensures
            b.id == id,
            b.face == face,
    {
        BlockDataInfo { id, face }
    }

    pub fn get_id(&self) -> (id: BlockIndexType)
        ensures
            id == self.id,
    {
        self.id
    }

    pub fn get_face(&self) -> (face: Option<BlockFace>)
        ensures
            face == self.face,
    {
        self.face
    }
}

/// The registry of block types, by identifier.
pub struct BlockStorage {
    blocks: Vec<Option<BlockType>>,
}

impl BlockStorage {
    /// The type registered under `id`, if any.
    pub closed spec fn lookup(self, id: BlockIndexType) -> Option<BlockType> {
        if id < self.blocks@.len() {
            self.blocks@[id as int]
        } else {
            None
        }
    }

    pub fn new() -> (s: BlockStorage)
        ensures
            forall|id: BlockIndexType| s.lookup(id) == None::<BlockType>,
    {
        BlockStorage { blocks: Vec::new() }
    }

    /// Registers `block_type` under `id`, replacing what was there.
    pub fn insert(&mut self, id: BlockIndexType, block_type: BlockType)
        ensures
            final(self).lookup(id) == Some(block_type),
            forall|other: BlockIndexType|
                other != id ==> final(self).lookup(other) == old(self).lookup(other),
    {
        while self.blocks.len() <= id as usize
            invariant
                forall|other: BlockIndexType| self.lookup(other) == old(self).lookup(other),
            decreases id + 1 - self.blocks.len(),
        {
            self.blocks.push(None);
        }
        self.blocks.set(id as usize, Some(block_type));
    }

    pub fn get(&self, id: &BlockIndexType) -> (t: Option<BlockType>)
        ensures
            t == self.lookup(*id),
    {
        if (*id as usize) < self.blocks.len() {
            self.blocks[*id as usize]
        } else {
            None
        }
    }

    /// The visibility under which a stored block takes part in meshing: that of its
    /// type, and `Empty` for air and for a block whose type is not registered.
    pub open spec fn visibility_of(self, block: Option<BlockDataInfo>) -> VoxelVisibility {
        match block {
            Some(b) => match self.lookup(b.id) {
                Some(t) => t.voxel_visibility,
                None => VoxelVisibility::Empty,
            },
            None => VoxelVisibility::Empty,
        }
    }

    pub fn get_visibility(&self, block: &Option<BlockDataInfo>) -> (v: VoxelVisibility)
        ensures
            v == self.visibility_of(*block),
    {
        match block {
            Some(b) => match self.get(&b.id) {
                Some(t) => t.voxel_visibility,
                None => VoxelVisibility::Empty,
            },
            None => VoxelVisibility::Empty,
        }
    }
}

/// Where each face of each block type lies in the texture atlas, as the number of its
/// tile counted row by row.
pub struct TextureMapper {
    offsets: Vec<Option<u32>>,
}

impl TextureMapper {
    /// The tile of face `side` of block type `id`, if the atlas has one.
    pub closed spec fn uv_offset(self, id: BlockIndexType, side: int) -> Option<u32> {
        if 0 <= side < 6 && id * 6 + side < self.offsets@.len() {
            self.offsets@[id * 6 + side]
        } else {
            None
        }
    }

    pub fn new() -> (m: TextureMapper)
        ensures
            forall|id: BlockIndexType, side: int| m.uv_offset(id, side) == None::<u32>,
    {
        TextureMapper { offsets: Vec::new() }
    }

    /// Forgets every tile.
    pub fn clear(&mut self)
        ensures
            forall|id: BlockIndexType, side: int| final(self).uv_offset(id, side) == None::<u32>,
    {
        self.offsets = Vec::new();
    }

    /// Records that face `side` of block type `id` uses tile `offset`.
    pub fn set_uv_offset(&mut self, id: BlockIndexType, side: u8, offset: u32)
        requires
            side < 6,
        ensures
            final(self).uv_offset(id, side as int) == Some(offset),
            forall|other: BlockIndexType, s: int|
                !(other == id && s == side) ==> final(self).uv_offset(other, s) == old(self).uv_offset(
                    other,
                    s,
                ),
    {
        let at: usize = id as usize * 6 + side as usize;
        while self.offsets.len() <= at
            invariant
                forall|other: BlockIndexType, s: int|
                    self.uv_offset(other, s) == old(self).uv_offset(other, s),
            decreases at + 1 - self.offsets.len(),
        {
            self.offsets.push(None);
        }
        self.offsets.set(at, Some(offset));
    }

    pub fn get_uv_offset(&self, id: BlockIndexType, side: u8) -> (r: Option<u32>)
        ensures
            r == self.uv_offset(id, side as int),
    {
        if side >= 6 {
            return None;
        }
        let at: usize = id as usize * 6 + side as usize;
        if at < self.offsets.len() {
            self.offsets[at]
        } else {
            None
        }
    }
}

} // verus!

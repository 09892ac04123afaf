use vstd::prelude::*;
use crate::block::BlockDataInfo;
use crate::block::VoxelVisibility;
use crate::shape::linear_index;

verus! {

/// One cell of a bordered section: how it takes part in culling and the block it
/// holds.
#[derive(Clone, Copy, Debug, PartialEq, Eq, Structural)]
pub struct ChunkColliderInfo {
    pub voxel_visibility: VoxelVisibility,
    pub block_info: Option<BlockDataInfo>,
}

impl ChunkColliderInfo {
    pub fn create(voxel_visibility: VoxelVisibility, block_info: Option<BlockDataInfo>) -> (c:
        ChunkColliderInfo)
        ensures
            c.voxel_visibility == voxel_visibility,
            c.block_info == block_info,
    {
        ChunkColliderInfo { voxel_visibility, block_info }
    }
}

/// A section's cells surrounded by a halo one cell thick, 18 cells along each axis.
pub struct ChunkColliderDataBordered {
    pub cells: Vec<ChunkColliderInfo>,
}

impl ChunkColliderDataBordered {
    /// The data holds one cell for each place of the bordered section.
    pub open spec fn wf(self) -> bool {
        self.cells@.len() == 5832
    }

    /// Bordered data in which every cell is empty.
    pub fn new() -> (d: ChunkColliderDataBordered)
        ensures
            d.wf(),
            forall|i: int|
                0 <= i < 5832 ==> d.cells@[i] == (ChunkColliderInfo {
                    voxel_visibility: VoxelVisibility::Empty,
                    block_info: None,
                }),
    {
        let mut cells: Vec<ChunkColliderInfo> = Vec::new();
        let mut i: usize = 0;
        while i < 5832
            invariant
                i <= 5832,
                cells@.len() == i,
                forall|j: int|
                    0 <= j < i ==> cells@[j] == (ChunkColliderInfo {
                        voxel_visibility: VoxelVisibility::Empty,
                        block_info: None,
                    }),
            decreases 5832 - i,
        {
            cells.push(ChunkColliderInfo { voxel_visibility: VoxelVisibility::Empty, block_info: None });
            i += 1;
        }
        ChunkColliderDataBordered { cells }
    }

    /// Replaces the cell at bordered coordinates `(x, y, z)`.
    pub fn set(&mut self, x: u32, y: u32, z: u32, cell: ChunkColliderInfo)
        requires
            old(self).wf(),
            x < 18,
            y < 18,
            z < 18,
        ensures
            final(self).wf(),
            final(self).cells@ == old(self).cells@.update(linear_index(x as int, y as int, z as int), cell),
    {
        let at = crate::shape::linearize(x, y, z);
        self.cells.set(at as usize, cell);
    }
}

/// The face of a unit cube that a quad covers, and its place in the cell grid.
#[derive(Clone, Copy, Debug, PartialEq, Eq)]
pub struct UnitQuad {
    /// Bordered coordinates of the cell that the face belongs to.
    pub minimum: (u32, u32, u32),
    /// The block that the face shows.
    pub block_info: BlockDataInfo,
}

/// The visible faces of a section, one group for each of the six directions
/// `-x, -y, -z, +x, +y, +z`.
pub struct UnitQuadBuffer {
    pub groups: Vec<Vec<UnitQuad>>,
}

/// Whether cell `i` lies inside the section proper, not in its halo.
pub open spec fn is_interior(i: int) -> bool {
    &&& 0 <= i < 5832
    &&& 1 <= i % 18 <= 16
    &&& 1 <= (i / 18) % 18 <= 16
    &&& 1 <= i / 324 <= 16
}

/// The neighbours of a cell inside the section across its six faces are cells of the
/// bordered section.
pub proof fn lemma_interior_neighbours(i: int)
    requires
        is_interior(i),
    ensures
        324 + 18 + 1 <= i <= 5832 - 324 - 18 - 2,
{
    let x = i % 18;
    let y = (i / 18) % 18;
    let z = i / 324;
    assert(i == x + 18 * y + 324 * z);
}

/// The distance in storage from a cell to its neighbour across face `face`.
pub open spec fn face_stride(face: int) -> int {
    if face == 0 {
        -1
    } else if face == 1 {
        -18
    } else if face == 2 {
        -324
    } else if face == 3 {
        1
    } else if face == 4 {
        18
    } else {
        324
    }
}

/// Whether face `face` of cell `i` is drawn: the cell lies inside the section and holds a
/// block that is not empty, and the cell across the face is not opaque.
pub open spec fn face_visible(cells: Seq<ChunkColliderInfo>, i: int, face: int) -> bool {
    &&& is_interior(i)
    &&& cells[i].voxel_visibility != VoxelVisibility::Empty
    &&& cells[i].block_info is Some
    &&& cells[i + face_stride(face)].voxel_visibility != VoxelVisibility::Opaque
}

/// The quad that stands for a face of cell `i`.
pub open spec fn quad_at(cells: Seq<ChunkColliderInfo>, i: int) -> UnitQuad {
    UnitQuad {
        minimum: ((i % 18) as u32, ((i / 18) % 18) as u32, (i / 324) as u32),
        block_info: cells[i].block_info->0,
    }
}

/// The quads of direction `face` among the first `n` cells, in the order of the cells.
pub open spec fn quads_below(cells: Seq<ChunkColliderInfo>, face: int, n: nat) -> Seq<UnitQuad>
    decreases n,
{
    if n == 0 {
        Seq::empty()
    } else {
        let rest = quads_below(cells, face, (n - 1) as nat);
        if face_visible(cells, n - 1, face) {
            rest.push(quad_at(cells, n - 1))
        } else {
            rest
        }
    }
}

/// The quads of direction `face` of a whole bordered section.
pub open spec fn visible_quads(cells: Seq<ChunkColliderInfo>, face: int) -> Seq<UnitQuad> {
    quads_below(cells, face, 5832)
}

/// The visible faces of a bordered section, one group for each direction.
pub open spec fn section_groups(cells: Seq<ChunkColliderInfo>) -> Seq<Seq<UnitQuad>> {
    Seq::new(6, |f: int| visible_quads(cells, f))
}

/// Six groups, none longer than a bordered section has cells, every quad inside the
/// section.
pub open spec fn groups_wf(groups: Seq<Seq<UnitQuad>>) -> bool {
    &&& groups.len() == 6
    &&& forall|f: int| 0 <= f < 6 ==> (#[trigger] groups[f]).len() <= 5832
    &&& forall|f: int, j: int|
        0 <= f < 6 && 0 <= j < groups[f].len() ==> quad_inside(#[trigger] groups[f][j])
}

/// The number of quads in six groups.
pub open spec fn total_quads(groups: Seq<Seq<UnitQuad>>) -> nat {
    groups[0].len() + groups[1].len() + groups[2].len() + groups[3].len() + groups[4].len()
        + groups[5].len()
}

/// Whether a quad lies on a cell inside the section proper.
pub open spec fn quad_inside(q: UnitQuad) -> bool {
    &&& 1 <= q.minimum.0 <= 16
    &&& 1 <= q.minimum.1 <= 16
    &&& 1 <= q.minimum.2 <= 16
}

impl View for UnitQuadBuffer {
    type V = Seq<Seq<UnitQuad>>;

    open spec fn view(&self) -> Seq<Seq<UnitQuad>> {
        Seq::new(self.groups@.len(), |f: int| self.groups@[f]@)
    }
}

impl UnitQuadBuffer {
    /// The buffer holds six well-formed groups.
    pub open spec fn wf(self) -> bool {
        groups_wf(self@)
    }

    /// A buffer without quads.
    pub fn new() -> (b: UnitQuadBuffer)
        ensures
            b.wf(),
            forall|f: int| 0 <= f < 6 ==> (#[trigger] b@[f]).len() == 0,
    {
        let mut groups: Vec<Vec<UnitQuad>> = Vec::new();
        let mut f: usize = 0;
        while f < 6
            invariant
                f <= 6,
                groups@.len() == f,
                forall|g: int| 0 <= g < f ==> (#[trigger] groups@[g])@.len() == 0,
            decreases 6 - f,
        {
            groups.push(Vec::new());
            f += 1;
        }
        UnitQuadBuffer { groups }
    }

    /// The number of quads in all six groups.
    pub fn num_quads(&self) -> (n: usize)
        requires
            self.wf(),
        ensures
            n == total_quads(self@),
            n <= 34992,
    {
        assert(self@[0].len() <= 5832 && self@[1].len() <= 5832 && self@[2].len() <= 5832
            && self@[3].len() <= 5832 && self@[4].len() <= 5832 && self@[5].len() <= 5832);
        self.groups[0].len() + self.groups[1].len() + self.groups[2].len() + self.groups[3].len()
            + self.groups[4].len() + self.groups[5].len()
    }
}

/// Every quad found among the first `n` cells lies inside the section, and there are
/// no more of them than cells.
pub proof fn lemma_quads_below_bounds(cells: Seq<ChunkColliderInfo>, face: int, n: nat)
    requires
        n <= 5832,
    ensures
        quads_below(cells, face, n).len() <= n,
        forall|j: int|
            0 <= j < quads_below(cells, face, n).len() ==> quad_inside(
                #[trigger] quads_below(cells, face, n)[j],
            ),
    decreases n,
{
    if n > 0 {
        lemma_quads_below_bounds(cells, face, (n - 1) as nat);
    }
}

/// A section without a visible block has no quads.
pub proof fn lemma_no_blocks_no_quads(cells: Seq<ChunkColliderInfo>, face: int, n: nat)
    requires
        forall|i: int|
            is_interior(i) ==> (#[trigger] cells[i]).voxel_visibility == VoxelVisibility::Empty,
    ensures
        quads_below(cells, face, n) == Seq::<UnitQuad>::empty(),
    decreases n,
{
    if n > 0 {
        lemma_no_blocks_no_quads(cells, face, (n - 1) as nat);
    }
}

} // verus!

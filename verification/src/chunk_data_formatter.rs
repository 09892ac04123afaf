use vstd::prelude::*;
use crate::block::BlockDataInfo;
use crate::block::BlockStorage;
use crate::block::VoxelVisibility;
use crate::chunk_column::ChunkColumn;
use crate::chunk_column::ColumnCells;
use crate::mesh::buffer::ChunkColliderDataBordered;
use crate::mesh::buffer::ChunkColliderInfo;
use crate::mesh::buffer::is_interior;
use crate::near_chunk_data::NearChunksData;
use crate::shape::cell_coordinates;

verus! {

/// The blocks of the four neighbours of a column, as far as they are there.
pub struct NearCells {
    pub west: Option<ColumnCells>,
    pub east: Option<ColumnCells>,
    pub north: Option<ColumnCells>,
    pub south: Option<ColumnCells>,
}

/// The blocks of a neighbour, if it is there.
pub open spec fn cells_of(c: Option<&ChunkColumn>) -> Option<ColumnCells> {
    match c {
        Some(r) => Some(r@.data),
        None => None,
    }
}

/// The blocks of the neighbours that were looked up; none where no lookup was made.
pub open spec fn near_cells(near: Option<&NearChunksData>) -> NearCells {
    match near {
        Some(n) => NearCells {
            west: cells_of(n.west),
            east: cells_of(n.east),
            north: cells_of(n.north),
            south: cells_of(n.south),
        },
        None => NearCells { west: None, east: None, north: None, south: None },
    }
}

/// The block at offset `(x, h, z)` of section `y` of a column.
pub open spec fn section_cell(data: ColumnCells, y: int, x: int, h: int, z: int) -> Option<BlockDataInfo> {
    data[y][x + 16 * h + 256 * z]
}

/// The block at offset `(x, h, z)` of section `y` of a neighbour; air where the
/// neighbour is missing.
pub open spec fn near_cell(data: Option<ColumnCells>, y: int, x: int, h: int, z: int) -> Option<
    BlockDataInfo,
> {
    match data {
        Some(d) => section_cell(d, y, x, h, z),
        None => None,
    }
}

/// The block behind cell `(x, h, z)` of the bordered section `y`.
///
/// A cell inside the section is the section's own block. A halo cell that touches one
/// face of the section is the block on the far side of that face: in the section below
/// or above, or in the neighbouring column. Below the lowest and above the highest
/// section is air, and so is every halo cell on an edge or a corner, which no face
/// touches.
pub open spec fn source_block(own: ColumnCells, near: NearCells, y: int, x: int, h: int, z: int) -> Option<
    BlockDataInfo,
> {
    let inx = 1 <= x <= 16;
    let inh = 1 <= h <= 16;
    let inz = 1 <= z <= 16;
    if inx && inh && inz {
        section_cell(own, y, x - 1, h - 1, z - 1)
    } else if inx && inz && h == 0 {
        if y > 0 {
            section_cell(own, y - 1, x - 1, 15, z - 1)
        } else {
            None
        }
    } else if inx && inz && h == 17 {
        if y < 7 {
            section_cell(own, y + 1, x - 1, 0, z - 1)
        } else {
            None
        }
    } else if inh && inz && x == 0 {
        near_cell(near.west, y, 15, h - 1, z - 1)
    } else if inh && inz && x == 17 {
        near_cell(near.east, y, 0, h - 1, z - 1)
    } else if inx && inh && z == 0 {
        near_cell(near.north, y, x - 1, h - 1, 15)
    } else if inx && inh && z == 17 {
        near_cell(near.south, y, x - 1, h - 1, 0)
    } else {
        None
    }
}

/// A block as a cell of a bordered section, with the visibility that the registry
/// gives it.
pub open spec fn as_cell(storage: BlockStorage, block: Option<BlockDataInfo>) -> ChunkColliderInfo {
    ChunkColliderInfo { voxel_visibility: storage.visibility_of(block), block_info: block }
}

/// The cells of the bordered section `y` of a column.
pub open spec fn bordered_cells(own: ColumnCells, near: NearCells, storage: BlockStorage, y: int) -> Seq<
    ChunkColliderInfo,
> {
    Seq::new(
        5832,
        |i: int| as_cell(storage, source_block(own, near, y, i % 18, (i / 18) % 18, i / 324)),
    )
}

/// The number of cells among the first `n` that lie inside the section and hold a
/// visible block.
pub open spec fn visible_below(cells: Seq<ChunkColliderInfo>, n: nat) -> nat
    decreases n,
{
    if n == 0 {
        0
    } else {
        visible_below(cells, (n - 1) as nat) + if is_interior(n - 1) && cells[n - 1].voxel_visibility
            != VoxelVisibility::Empty {
            1nat
        } else {
            0nat
        }
    }
}

/// The number of visible blocks of a bordered section.
pub open spec fn mesh_count(cells: Seq<ChunkColliderInfo>) -> nat {
    visible_below(cells, 5832)
}

/// A section counts no visible block exactly when none of its inner cells is visible.
pub proof fn lemma_visible_none(cells: Seq<ChunkColliderInfo>, n: nat)
    ensures
        visible_below(cells, n) == 0 <==> (forall|i: int|
            0 <= i < n && is_interior(i) ==> (#[trigger] cells[i]).voxel_visibility
                == VoxelVisibility::Empty),
    decreases n,
{
    if n > 0 {
        lemma_visible_none(cells, (n - 1) as nat);
    }
}

fn pick(column: &ChunkColumn, y: usize, x: u32, h: u32, z: u32) -> (b: Option<BlockDataInfo>)
    requires
        column.wf(),
        y < 8,
        x < 16,
        h < 16,
        z < 16,
    ensures
        b == section_cell(column@.data, y as int, x as int, h as int, z as int),
{
    column.get_section_data(y).get_cell((x + 16 * h + 256 * z) as usize)
}

fn pick_near(column: &Option<&ChunkColumn>, y: usize, x: u32, h: u32, z: u32) -> (b: Option<BlockDataInfo>)
    requires
        *column matches Some(c) ==> c.wf(),
        y < 8,
        x < 16,
        h < 16,
        z < 16,
    ensures
        b == near_cell(cells_of(*column), y as int, x as int, h as int, z as int),
{
    match column {
        Some(c) => pick(c, y, x, h, z),
        None => None,
    }
}

fn is_visible(v: VoxelVisibility) -> (r: bool)
    ensures
        r == (v != VoxelVisibility::Empty),
{
    match v {
        VoxelVisibility::Empty => false,
        _ => true,
    }
}

/// Lays out section `y` of a column with its halo, and counts its visible blocks.
///
/// With `chunks_near` missing, the halo towards the four neighbours is air.
pub fn format_chunk_data_with_boundaries(
    chunks_near: Option<&NearChunksData>,
    column: &ChunkColumn,
    block_storage: &BlockStorage,
    y: usize,
) -> (r: (ChunkColliderDataBordered, usize))
    requires
        column.wf(),
        y < 8,
        chunks_near matches Some(n) ==> n.wf(),
    ensures
        r.0.wf(),
        r.0.cells@ == bordered_cells(column@.data, near_cells(chunks_near), *block_storage, y as int),
        r.1 == mesh_count(r.0.cells@),
{
    let ghost own = column@.data;
    let ghost near = near_cells(chunks_near);
    let ghost want = bordered_cells(own, near, *block_storage, y as int);
    let west: Option<&ChunkColumn> = match chunks_near {
        Some(n) => n.west,
        None => None,
    };
    let east: Option<&ChunkColumn> = match chunks_near {
        Some(n) => n.east,
        None => None,
    };
    let north: Option<&ChunkColumn> = match chunks_near {
        Some(n) => n.north,
        None => None,
    };
    let south: Option<&ChunkColumn> = match chunks_near {
        Some(n) => n.south,
        None => None,
    };
    let mut cells: Vec<ChunkColliderInfo> = Vec::new();
    let mut count: usize = 0;
    let mut i: u32 = 0;
    while i < 5832
        invariant
            i <= 5832,
            column.wf(),
            y < 8,
            own == column@.data,
            near == near_cells(chunks_near),
            want == bordered_cells(own, near, *block_storage, y as int),
            cells_of(west) == near.west,
            cells_of(east) == near.east,
            cells_of(north) == near.north,
            cells_of(south) == near.south,
            west matches Some(c) ==> c.wf(),
            east matches Some(c) ==> c.wf(),
            north matches Some(c) ==> c.wf(),
            south matches Some(c) ==> c.wf(),
            cells@.len() == i,
            forall|j: int| 0 <= j < i ==> cells@[j] == want[j],
            count == visible_below(cells@, i as nat),
            count <= i,
        decreases 5832 - i,
    {
        let (x, h, z) = cell_coordinates(i);
        let inx = 1 <= x && x <= 16;
        let inh = 1 <= h && h <= 16;
        let inz = 1 <= z && z <= 16;
        let block = if inx && inh && inz {
            pick(column, y, x - 1, h - 1, z - 1)
        } else if inx && inz && h == 0 {
            if y > 0 {
                pick(column, y - 1, x - 1, 15, z - 1)
            } else {
                None
            }
        } else if inx && inz && h == 17 {
            if y < 7 {
                pick(column, y + 1, x - 1, 0, z - 1)
            } else {
                None
            }
        } else if inh && inz && x == 0 {
            pick_near(&west, y, 15, h - 1, z - 1)
        } else if inh && inz && x == 17 {
            pick_near(&east, y, 0, h - 1, z - 1)
        } else if inx && inh && z == 0 {
            pick_near(&north, y, x - 1, h - 1, 15)
        } else if inx && inh && z == 17 {
            pick_near(&south, y, x - 1, h - 1, 0)
        } else {
            None
        };
        let visibility = block_storage.get_visibility(&block);
        let ghost before = cells@;
        cells.push(ChunkColliderInfo { voxel_visibility: visibility, block_info: block });
        proof {
            lemma_visible_prefix(before, cells@, i as nat);
        }
        if inx && inh && inz && is_visible(visibility) {
            count += 1;
        }
        i += 1;
    }
    assert(cells@ =~= want);
    (ChunkColliderDataBordered { cells }, count)
}

/// The count over the first `n` cells looks at those cells only.
pub proof fn lemma_visible_prefix(a: Seq<ChunkColliderInfo>, b: Seq<ChunkColliderInfo>, n: nat)
    requires
        n <= a.len(),
        n <= b.len(),
        forall|i: int| 0 <= i < n ==> a[i] == b[i],
    ensures
        visible_below(a, n) == visible_below(b, n),
    decreases n,
{
    if n > 0 {
        lemma_visible_prefix(a, b, (n - 1) as nat);
    }
}

} // verus!

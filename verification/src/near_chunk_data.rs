use vstd::prelude::*;
use crate::chunk_column::ChunkColumn;
use crate::chunks_table::ChunkKey;
use crate::chunks_table::chunks_get;
use crate::chunks_table::ChunksType;
use crate::chunks_table::column_entries;
use crate::position::ChunkPosition;

verus! {

/// Whether a store with the keys `present` holds the column `dx` columns along x and
/// `dz` columns along z from `position`. A coordinate outside the range of coordinates
/// is never present.
pub open spec fn neighbor_present(present: Set<ChunkKey>, position: ChunkPosition, dx: int, dz: int) -> bool {
    &&& i64::MIN <= position.x + dx <= i64::MAX
    &&& i64::MIN <= position.z + dz <= i64::MAX
    &&& present.contains(((position.x + dx) as i64, (position.z + dz) as i64))
}

/// Whether all four columns that share a side with `position` are present.
pub open spec fn neighbors_full(present: Set<ChunkKey>, position: ChunkPosition) -> bool {
    &&& neighbor_present(present, position, -1, 0)
    &&& neighbor_present(present, position, 1, 0)
    &&& neighbor_present(present, position, 0, -1)
    &&& neighbor_present(present, position, 0, 1)
}

/// The column `dx` columns along x and `dz` columns along z from `position`, if the
/// store holds it.
pub open spec fn neighbor_column(
    columns: Map<ChunkKey, ChunkColumn>,
    position: ChunkPosition,
    dx: int,
    dz: int,
) -> Option<ChunkColumn> {
    if neighbor_present(columns.dom(), position, dx, dz) {
        Some(columns[((position.x + dx) as i64, (position.z + dz) as i64)])
    } else {
        None
    }
}

/// The four columns that share a side with one column, as far as the store holds them.
pub struct NearChunksData<'a> {
    /// The column towards smaller x.
    pub west: Option<&'a ChunkColumn>,
    /// The column towards larger x.
    pub east: Option<&'a ChunkColumn>,
    /// The column towards smaller z.
    pub north: Option<&'a ChunkColumn>,
    /// The column towards larger z.
    pub south: Option<&'a ChunkColumn>,
}

/// The column behind a borrowed neighbour.
pub open spec fn borrowed(c: Option<&ChunkColumn>) -> Option<ChunkColumn> {
    match c {
        Some(r) => Some(*r),
        None => None,
    }
}

fn find<'a>(chunks: &'a ChunksType, position: &ChunkPosition, dx: i64, dz: i64) -> (r: Option<
    &'a ChunkColumn,
>)
    ensures
        borrowed(r) == neighbor_column(column_entries(*chunks), *position, dx as int, dz as int),
{
    match position.offset(dx, dz) {
        Some(p) => chunks_get(chunks, p.to_key()),
        None => None,
    }
}

impl<'a> NearChunksData<'a> {
    /// Every neighbour that is there is a well-formed column.
    pub open spec fn wf(self) -> bool {
        &&& self.west matches Some(c) ==> c.wf()
        &&& self.east matches Some(c) ==> c.wf()
        &&& self.north matches Some(c) ==> c.wf()
        &&& self.south matches Some(c) ==> c.wf()
    }

    /// The neighbours are those that `columns` holds around `position`.
    pub open spec fn is_around(self, columns: Map<ChunkKey, ChunkColumn>, position: ChunkPosition) -> bool {
        &&& borrowed(self.west) == neighbor_column(columns, position, -1, 0)
        &&& borrowed(self.east) == neighbor_column(columns, position, 1, 0)
        &&& borrowed(self.north) == neighbor_column(columns, position, 0, -1)
        &&& borrowed(self.south) == neighbor_column(columns, position, 0, 1)
    }

    /// All four neighbours are there.
    pub open spec fn full(self) -> bool {
        self.west is Some && self.east is Some && self.north is Some && self.south is Some
    }

    /// Looks up the four neighbours of `chunk_position`. Nothing is changed, and a
    /// neighbour counts as soon as the store holds it, loaded or not.
    pub fn new(chunks: &'a ChunksType, chunk_position: &ChunkPosition) -> (near: NearChunksData<'a>)
        ensures
            near.is_around(column_entries(*chunks), *chunk_position),
            near.full() == neighbors_full(column_entries(*chunks).dom(), *chunk_position),
    {
        NearChunksData {
            west: find(chunks, chunk_position, -1, 0),
            east: find(chunks, chunk_position, 1, 0),
            north: find(chunks, chunk_position, 0, -1),
            south: find(chunks, chunk_position, 0, 1),
        }
    }

    /// Whether all four neighbours are there.
    pub fn is_full(&self) -> (r: bool)
        ensures
            r == self.full(),
    {
        self.west.is_some() && self.east.is_some() && self.north.is_some() && self.south.is_some()
    }
}

} // verus!

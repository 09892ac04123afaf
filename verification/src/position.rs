use vstd::prelude::*;

verus! {

/// Floor of `v / 16` as a mathematical integer.
pub open spec fn floor16(v: int) -> int {
    v / 16
}

/// Remainder of `v` modulo 16, always in `0..16`.
pub open spec fn rem16(v: int) -> int {
    v % 16
}

/// Horizontal coordinate of a chunk column.
#[derive(Clone, Copy, Debug, PartialEq, Eq, Structural, Hash)]
pub struct ChunkPosition {
    pub x: i64,
    pub z: i64,
}

/// Squared Euclidean distance between two chunk coordinates.
///
/// The value is `high * 2^128 + low`; `high` is set only when the sum of the two
/// squares does not fit in 128 bits.
#[derive(Clone, Copy, Debug, PartialEq, Eq, Structural)]
pub struct Distance {
    pub high: bool,
    pub low: u128,
}

impl Distance {
    /// The number that this distance stands for.
    pub open spec fn value(self) -> int {
        (if self.high { 0x1_0000_0000_0000_0000_0000_0000_0000_0000int } else { 0int }) + self.low
    }

    /// Whether `self` is strictly smaller than `other`.
    pub fn is_less(&self, other: &Distance) -> (r: bool)
        ensures
            r == (self.value() < other.value()),
    {
        if self.high == other.high {
            self.low < other.low
        } else {
            !self.high
        }
    }

    /// Whether `self` is smaller than or equal to `other`.
    pub fn is_at_most(&self, other: &Distance) -> (r: bool)
        ensures
            r == (self.value() <= other.value()),
    {
        if self.high == other.high {
            self.low <= other.low
        } else {
            !self.high
        }
    }
}

/// Absolute difference of two coordinates.
fn span(a: i64, b: i64) -> (d: u64)
    ensures
        d == (if a >= b { a - b } else { b - a }),
{
    if a >= b {
        if b >= 0 || a < 0 {
            (a - b) as u64
        } else {
            // a >= 0 > b
            let nb: u64 = (-(b + 1)) as u64;
            a as u64 + nb + 1
        }
    } else {
        if a >= 0 || b < 0 {
            (b - a) as u64
        } else {
            let na: u64 = (-(a + 1)) as u64;
            b as u64 + na + 1
        }
    }
}

fn square(d: u64) -> (s: u128)
    ensures
        s == d * d,
{
    assert(d * d <= 0xffff_ffff_ffff_ffff * 0xffff_ffff_ffff_ffff) by (nonlinear_arith)
        requires
            0 <= d <= 0xffff_ffff_ffff_ffff,
    ;
    let w: u128 = d as u128;
    w * w
}

impl ChunkPosition {
    pub fn new(x: i64, z: i64) -> (p: ChunkPosition)
        ensures
            p.x == x,
            p.z == z,
    {
        ChunkPosition { x, z }
    }

    /// The pair under which a column is filed.
    pub open spec fn key(self) -> (i64, i64) {
        (self.x, self.z)
    }

    pub fn to_key(&self) -> (k: (i64, i64))
        ensures
            k == self.key(),
    {
        (self.x, self.z)
    }

    /// Squared Euclidean distance to `other`.
    pub open spec fn distance_squared(self, other: ChunkPosition) -> int {
        (self.x - other.x) * (self.x - other.x) + (self.z - other.z) * (self.z - other.z)
    }

    /// Distance to `other`, kept squared so that it stays an exact integer; it orders
    /// coordinates as the Euclidean distance does.
    pub fn get_distance(&self, other: &ChunkPosition) -> (d: Distance)
        ensures
            d.value() == self.distance_squared(*other),
    {
        let dx = span(self.x, other.x);
        let dz = span(self.z, other.z);
        let sx = square(dx);
        let sz = square(dz);
        assert(dx * dx == (self.x - other.x) * (self.x - other.x)) by (nonlinear_arith)
            requires
                dx == self.x - other.x || dx == other.x - self.x,
        ;
        assert(dz * dz == (self.z - other.z) * (self.z - other.z)) by (nonlinear_arith)
            requires
                dz == self.z - other.z || dz == other.z - self.z,
        ;
        if sx > u128::MAX - sz {
            Distance { high: true, low: sx - (u128::MAX - sz) - 1 }
        } else {
            Distance { high: false, low: sx + sz }
        }
    }

    /// The coordinate `dx` columns along x and `dz` columns along z from this one, or
    /// `None` where that lies outside the coordinate range.
    pub fn offset(&self, dx: i64, dz: i64) -> (r: Option<ChunkPosition>)
        ensures
            match r {
                Some(p) => p.x == self.x + dx && p.z == self.z + dz,
                None => !(i64::MIN <= self.x + dx <= i64::MAX && i64::MIN <= self.z + dz
                    <= i64::MAX),
            },
    {
        match (self.x.checked_add(dx), self.z.checked_add(dz)) {
            (Some(x), Some(z)) => Some(ChunkPosition { x, z }),
            _ => None,
        }
    }
}

/// Offset of a block inside its section, each component below the section's edge
/// length.
#[derive(Clone, Copy, Debug, PartialEq, Eq, Structural, Hash)]
pub struct ChunkBlockPosition {
    pub x: u8,
    pub y: u8,
    pub z: u8,
}

impl ChunkBlockPosition {
    /// All three components lie inside the section.
    pub open spec fn in_section(self) -> bool {
        self.x < 16 && self.y < 16 && self.z < 16
    }

    /// Where the block stands in a section's storage.
    pub open spec fn index(self) -> int {
        self.x + 16 * self.y + 256 * self.z
    }

    pub fn new(x: u8, y: u8, z: u8) -> (p: ChunkBlockPosition)
        ensures
            p.x == x,
            p.y == y,
            p.z == z,
    {
        ChunkBlockPosition { x, y, z }
    }

    pub fn linearize(&self) -> (i: usize)
        requires
            self.in_section(),
        ensures
            i == self.index(),
            i < 4096,
    {
        self.x as usize + 16 * (self.y as usize) + 256 * (self.z as usize)
    }
}

/// Absolute position of a block in the world.
#[derive(Clone, Copy, Debug, PartialEq, Eq, Structural, Hash)]
pub struct BlockPosition {
    pub x: i64,
    pub y: i64,
    pub z: i64,
}

fn div16(v: i64) -> (q: i64)
    ensures
        q == floor16(v as int),
{
    if v >= 0 {
        ((v as u64) / 16) as i64
    } else {
        let m: u64 = (-(v + 1)) as u64;
        -((m / 16) as i64) - 1
    }
}

fn mod16(v: i64) -> (r: u8)
    ensures
        r == rem16(v as int),
        r < 16,
{
    if v >= 0 {
        ((v as u64) % 16) as u8
    } else {
        let m: u64 = (-(v + 1)) as u64;
        (15 - (m % 16)) as u8
    }
}

impl BlockPosition {
    pub fn new(x: i64, y: i64, z: i64) -> (p: BlockPosition)
        ensures
            p.x == x,
            p.y == y,
            p.z == z,
    {
        BlockPosition { x, y, z }
    }

    /// The column that holds the block.
    pub open spec fn chunk(self) -> ChunkPosition {
        ChunkPosition { x: floor16(self.x as int) as i64, z: floor16(self.z as int) as i64 }
    }

    /// The index of the section that holds the block, counted from the world's floor;
    /// negative below it.
    pub open spec fn section(self) -> int {
        floor16(self.y as int)
    }

    /// The block's offset inside its section.
    pub open spec fn local(self) -> ChunkBlockPosition {
        ChunkBlockPosition {
            x: rem16(self.x as int) as u8,
            y: rem16(self.y as int) as u8,
            z: rem16(self.z as int) as u8,
        }
    }

    pub fn get_chunk_position(&self) -> (c: ChunkPosition)
        ensures
            c == self.chunk(),
            c.x * 16 <= self.x < c.x * 16 + 16,
            c.z * 16 <= self.z < c.z * 16 + 16,
    {
        ChunkPosition { x: div16(self.x), z: div16(self.z) }
    }

    /// Splits the position into the section index and the offset inside that section.
    pub fn get_block_position(&self) -> (r: (i64, ChunkBlockPosition))
        ensures
            r.0 == self.section(),
            r.1 == self.local(),
            r.1.in_section(),
            r.0 * 16 + r.1.y == self.y,
    {
        (div16(self.y), ChunkBlockPosition { x: mod16(self.x), y: mod16(self.y), z: mod16(self.z) })
    }

    /// The position of the block at offset `local` of section `section` in column
    /// `chunk`.
    pub open spec fn compose(chunk: ChunkPosition, section: int, local: ChunkBlockPosition) -> (int, int, int) {
        (chunk.x * 16 + local.x, section * 16 + local.y, chunk.z * 16 + local.z)
    }
}

/// Splitting a position and putting the parts together again gives the position back.
pub proof fn lemma_decompose_roundtrip(p: BlockPosition)
    ensures
        BlockPosition::compose(p.chunk(), p.section(), p.local()) == (p.x as int, p.y as int, p.z as int),
        p.local().in_section(),
{
}

/// A position built from a column, a section and an offset inside the section splits
/// into exactly those parts.
pub proof fn lemma_compose_unique(p: BlockPosition, chunk: ChunkPosition, section: int, local: ChunkBlockPosition)
    requires
        local.in_section(),
        BlockPosition::compose(chunk, section, local) == (p.x as int, p.y as int, p.z as int),
    ensures
        p.chunk() == chunk,
        p.section() == section,
        p.local() == local,
{
}

} // verus!

use vstd::prelude::*;
use ndshape::ConstShape3u32;
use ndshape::ConstShape;

verus! {

/// Number of cells of a section together with its halo.
pub const BORDERED_VOLUME: usize = 5832;

/// The place of cell `(x, y, z)` in the storage of a bordered section: `x` runs
/// fastest, `z` slowest.
pub open spec fn linear_index(x: int, y: int, z: int) -> int {
    x + 18 * y + 324 * z
}

/// Calls `ConstShape3u32::<18, 18, 18>::linearize`. That function adds the first
/// coordinate, the second multiplied by the first dimension and the third multiplied
/// by the product of the first two dimensions.
#[verifier::external_body]
pub(crate) fn linearize(x: u32, y: u32, z: u32) -> (i: u32)
    requires
        x < 18,
        y < 18,
        z < 18,
    ensures
        i == linear_index(x as int, y as int, z as int),
{
    ConstShape3u32::<18, 18, 18>::linearize([x, y, z])
}

/// Calls `ConstShape3u32::<18, 18, 18>::delinearize`, the inverse of `linearize`: the
/// third coordinate is the index divided by 324, the second is what is left divided by
/// 18, the first is what is left modulo 18.
#[verifier::external_body]
pub(crate) fn delinearize(i: u32) -> (p: (u32, u32, u32))
    ensures
        p.2 == i / 324,
        p.1 == (i - p.2 * 324) / 18,
        p.0 == (i - p.2 * 324) % 18,
{
    let p = ConstShape3u32::<18, 18, 18>::delinearize(i);
    (p[0], p[1], p[2])
}

/// Splits the index of a cell into its coordinates.
pub fn cell_coordinates(i: u32) -> (p: (u32, u32, u32))
    requires
        i < 5832,
    ensures
        p.0 < 18,
        p.1 < 18,
        p.2 < 18,
        linear_index(p.0 as int, p.1 as int, p.2 as int) == i,
        p.0 == i % 18,
        p.1 == (i / 18) % 18,
        p.2 == i / 324,
{
    delinearize(i)
}

} // verus!

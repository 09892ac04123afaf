use vstd::prelude::*;
use crate::mesh::buffer::quad_inside;
use crate::mesh::buffer::UnitQuad;

verus! {

/// A point or a direction in a section, in blocks.
pub type Point = (i32, i32, i32);

/// The unit vector along axis `axis` (0 is x, 1 is y, 2 is z).
pub open spec fn unit(axis: int) -> (int, int, int) {
    if axis == 0 {
        (1, 0, 0)
    } else if axis == 1 {
        (0, 1, 0)
    } else {
        (0, 0, 1)
    }
}

/// The axis along which the first texture coordinate of face `face` grows: z for the
/// faces across x and y, x for the faces across z.
pub open spec fn axis_u(face: int) -> int {
    if face % 3 == 2 {
        0
    } else {
        2
    }
}

/// The axis along which the second texture coordinate of face `face` grows: y for the
/// faces across x and z, x for the faces across y.
pub open spec fn axis_v(face: int) -> int {
    if face % 3 == 1 {
        0
    } else {
        1
    }
}

/// The outward normal of face `face`: faces 0, 1, 2 look down the x, y and z axes,
/// faces 3, 4, 5 look up them.
pub open spec fn face_normal(face: int) -> (int, int, int) {
    let n = unit(face % 3);
    if face < 3 {
        (-n.0, -n.1, -n.2)
    } else {
        n
    }
}

/// Corner `k` of the face: corner 0 is the face's minimum, corner 1 lies one block
/// further along the first texture axis, corner 2 one block further along the second,
/// corner 3 along both. Coordinates count from the section's own minimum corner, so the
/// halo is taken off.
pub open spec fn face_corner(face: int, quad: UnitQuad, k: int) -> (int, int, int) {
    let n = if face < 3 {
        (0int, 0int, 0int)
    } else {
        unit(face % 3)
    };
    let u = if k % 2 == 1 {
        unit(axis_u(face))
    } else {
        (0int, 0int, 0int)
    };
    let v = if k >= 2 {
        unit(axis_v(face))
    } else {
        (0int, 0int, 0int)
    };
    (
        quad.minimum.0 - 1 + n.0 + u.0 + v.0,
        quad.minimum.1 - 1 + n.1 + u.1 + v.1,
        quad.minimum.2 - 1 + n.2 + u.2 + v.2,
    )
}

/// Whether the two triangles of face `face` list their corners in the order 0, 1, 2
/// and 1, 3, 2; the other faces use 0, 2, 1 and 1, 2, 3. Either way the triangles wind
/// the same way round when seen from outside the block.
pub open spec fn winds_forward(face: int) -> bool {
    face == 0 || face == 4 || face == 5
}

/// Entry `t` of the six indices of a quad whose first vertex has index `start`.
pub open spec fn quad_index(face: int, start: int, t: int) -> int {
    if winds_forward(face) {
        if t == 0 {
            start
        } else if t == 1 {
            start + 1
        } else if t == 2 {
            start + 2
        } else if t == 3 {
            start + 1
        } else if t == 4 {
            start + 3
        } else {
            start + 2
        }
    } else {
        if t == 0 {
            start
        } else if t == 1 {
            start + 2
        } else if t == 2 {
            start + 1
        } else if t == 3 {
            start + 1
        } else if t == 4 {
            start + 2
        } else {
            start + 3
        }
    }
}

/// Whether the first texture coordinate of face `face` runs against its axis.
pub open spec fn flips_u(face: int) -> bool {
    face == 1 || face == 2 || face == 3
}

/// Texture coordinates of corner `k` inside the face's tile: each is 0 or 1. The second
/// coordinate runs downwards, so a corner higher up on the face has the smaller value.
pub open spec fn corner_uv(face: int, k: int) -> (int, int) {
    let u: int = if k % 2 == 1 {
        1
    } else {
        0
    };
    let v: int = if k >= 2 {
        1
    } else {
        0
    };
    (
        if flips_u(face) {
            1 - u
        } else {
            u
        },
        1 - v,
    )
}

/// Texture coordinates of corner `k` in the atlas, in tiles: the atlas is 32 tiles wide
/// and `offset` counts its tiles row by row.
pub open spec fn atlas_uv(face: int, k: int, offset: u32) -> (int, int) {
    (corner_uv(face, k).0 + offset % 32, corner_uv(face, k).1 + offset / 32)
}

/// The four corners of a face, in the order of their numbers.
pub open spec fn quad_corners(face: int, quad: UnitQuad) -> Seq<Point> {
    Seq::new(
        4,
        |k: int|
            (
                face_corner(face, quad, k).0 as i32,
                face_corner(face, quad, k).1 as i32,
                face_corner(face, quad, k).2 as i32,
            ),
    )
}

/// The normal of a face, once for each of its corners.
pub open spec fn quad_normals(face: int) -> Seq<Point> {
    Seq::new(
        4,
        |k: int| (face_normal(face).0 as i32, face_normal(face).1 as i32, face_normal(face).2 as i32),
    )
}

/// The six indices of the two triangles of a quad whose first vertex has index `start`.
pub open spec fn quad_indices(face: int, start: int) -> Seq<u32> {
    Seq::new(6, |t: int| quad_index(face, start, t) as u32)
}

/// The atlas coordinates of the four corners of a face.
pub open spec fn quad_uvs(face: int, offset: u32) -> Seq<(u32, u32)> {
    Seq::new(4, |k: int| (atlas_uv(face, k, offset).0 as u32, atlas_uv(face, k, offset).1 as u32))
}

/// The triangles of a quad as triples of vertex indices.
pub open spec fn quad_triangles(face: int, start: int) -> Seq<(u32, u32, u32)> {
    seq![
        (
            quad_index(face, start, 0) as u32,
            quad_index(face, start, 1) as u32,
            quad_index(face, start, 2) as u32,
        ),
        (
            quad_index(face, start, 3) as u32,
            quad_index(face, start, 4) as u32,
            quad_index(face, start, 5) as u32,
        ),
    ]
}

fn corner(face: u8, quad: &UnitQuad, k: u8) -> (p: Point)
    requires
        face < 6,
        k < 4,
        quad_inside(*quad),
    ensures
        p.0 == face_corner(face as int, *quad, k as int).0,
        p.1 == face_corner(face as int, *quad, k as int).1,
        p.2 == face_corner(face as int, *quad, k as int).2,
{
    let mut x: i32 = quad.minimum.0 as i32 - 1;
    let mut y: i32 = quad.minimum.1 as i32 - 1;
    let mut z: i32 = quad.minimum.2 as i32 - 1;
    let axis: u8 = face % 3;
    if face >= 3 {
        if axis == 0 {
            x += 1;
        } else if axis == 1 {
            y += 1;
        } else {
            z += 1;
        }
    }
    if k % 2 == 1 {
        if axis == 2 {
            x += 1;
        } else {
            z += 1;
        }
    }
    if k >= 2 {
        if axis == 1 {
            x += 1;
        } else {
            y += 1;
        }
    }
    (x, y, z)
}

/// Appends the four corners of a face.
pub fn push_corners(verts: &mut Vec<Point>, face: u8, quad: &UnitQuad)
    requires
        face < 6,
        quad_inside(*quad),
    ensures
        final(verts)@ == old(verts)@ + quad_corners(face as int, *quad),
{
    let c0 = corner(face, quad, 0);
    let c1 = corner(face, quad, 1);
    let c2 = corner(face, quad, 2);
    let c3 = corner(face, quad, 3);
    verts.push(c0);
    verts.push(c1);
    verts.push(c2);
    verts.push(c3);
    assert(verts@ =~= old(verts)@ + quad_corners(face as int, *quad));
}

/// Appends the normal of a face, once for each corner.
pub fn push_normals(normals: &mut Vec<Point>, face: u8)
    requires
        face < 6,
    ensures
        final(normals)@ == old(normals)@ + quad_normals(face as int),
{
    let axis: u8 = face % 3;
    let s: i32 = if face < 3 {
        -1
    } else {
        1
    };
    let n: Point = if axis == 0 {
        (s, 0, 0)
    } else if axis == 1 {
        (0, s, 0)
    } else {
        (0, 0, s)
    };
    normals.push(n);
    normals.push(n);
    normals.push(n);
    normals.push(n);
    assert(normals@ =~= old(normals)@ + quad_normals(face as int));
}

fn triangle_corners(face: u8) -> (r: (u32, u32, u32, u32, u32, u32))
    requires
        face < 6,
    ensures
        r.0 == quad_index(face as int, 0, 0),
        r.1 == quad_index(face as int, 0, 1),
        r.2 == quad_index(face as int, 0, 2),
        r.3 == quad_index(face as int, 0, 3),
        r.4 == quad_index(face as int, 0, 4),
        r.5 == quad_index(face as int, 0, 5),
{
    if face == 0 || face == 4 || face == 5 {
        (0, 1, 2, 1, 3, 2)
    } else {
        (0, 2, 1, 1, 2, 3)
    }
}

/// Appends the six indices of a quad whose first vertex has index `start`.
pub fn push_indices(indices: &mut Vec<u32>, face: u8, start: u32)
    requires
        face < 6,
        start <= 0x7fff_fff0,
    ensures
        final(indices)@ == old(indices)@ + quad_indices(face as int, start as int),
{
    let t = triangle_corners(face);
    indices.push(start + t.0);
    indices.push(start + t.1);
    indices.push(start + t.2);
    indices.push(start + t.3);
    indices.push(start + t.4);
    indices.push(start + t.5);
    assert(indices@ =~= old(indices)@ + quad_indices(face as int, start as int));
}

/// Appends the two triangles of a quad whose first vertex has index `start`.
pub fn push_triangles(indices: &mut Vec<(u32, u32, u32)>, face: u8, start: u32)
    requires
        face < 6,
        start <= 0x7fff_fff0,
    ensures
        final(indices)@ == old(indices)@ + quad_triangles(face as int, start as int),
{
    let t = triangle_corners(face);
    indices.push((start + t.0, start + t.1, start + t.2));
    indices.push((start + t.3, start + t.4, start + t.5));
    assert(indices@ =~= old(indices)@ + quad_triangles(face as int, start as int));
}

/// Appends the atlas coordinates of the four corners of a face.
pub fn push_uvs(uvs: &mut Vec<(u32, u32)>, face: u8, offset: u32)
    requires
        face < 6,
    ensures
        final(uvs)@ == old(uvs)@ + quad_uvs(face as int, offset),
{
    let column: u32 = offset % 32;
    let row: u32 = offset / 32;
    let flip = face == 1 || face == 2 || face == 3;
    let near: u32 = if flip {
        1
    } else {
        0
    };
    let far: u32 = 1 - near;
    uvs.push((column + near, row + 1));
    uvs.push((column + far, row + 1));
    uvs.push((column + near, row));
    uvs.push((column + far, row));
    assert(uvs@ =~= old(uvs)@ + quad_uvs(face as int, offset));
}

} // verus!

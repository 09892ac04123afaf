use vstd::prelude::*;
use crate::mesh::mesh_generator::ColliderData;
use crate::mesh::mesh_generator::ColliderMesh;
use crate::mesh::mesh_generator::empty_mesh;
use crate::mesh::mesh_generator::MeshData;
use crate::mesh::mesh_generator::RenderMesh;
use crate::position::ChunkPosition;

verus! {

/// Collision group of the player.
pub const PLAYER_GROUP: u32 = 1;

/// Collision group of the sections near the player.
pub const WORLD_NEAR_GROUP: u32 = 2;

/// Collision group of the sections far from the player.
pub const WORLD_FAR_GROUP: u32 = 4;

/// What the host has to do with a section's collider after an update.
pub enum ColliderAction {
    /// The section has no collider and needs none.
    Nothing,
    /// The section had no collider: the host creates one from this mesh.
    Create(ColliderMesh),
    /// The section keeps its collider, with this mesh as its new shape.
    SetShape(ColliderMesh),
    /// The section has no geometry left: the host removes its collider.
    Remove,
}

/// What a `ColliderAction` holds.
pub enum ColliderActionView {
    Nothing,
    Create(ColliderData),
    SetShape(ColliderData),
    Remove,
}

impl View for ColliderAction {
    type V = ColliderActionView;

    open spec fn view(&self) -> ColliderActionView {
        match *self {
            ColliderAction::Nothing => ColliderActionView::Nothing,
            ColliderAction::Create(m) => ColliderActionView::Create(m@),
            ColliderAction::SetShape(m) => ColliderActionView::SetShape(m@),
            ColliderAction::Remove => ColliderActionView::Remove,
        }
    }
}

/// The geometry of one section and the state of its collider.
pub struct ChunkSection {
    pub chunk_position: ChunkPosition,
    pub y: u8,
    /// The opaque pass of the section's mesh.
    pub mesh: RenderMesh,
    /// The translucent pass of the section's mesh.
    pub mesh_transparent: RenderMesh,
    /// Whether the host holds a collider for the section.
    pub collider: bool,
    /// The shape that the next update hands to the host.
    pub colider_builder: Option<ColliderMesh>,
    pub need_update_collider: bool,
    /// Whether the section has shown geometry before.
    pub set_geometry_first_time: bool,
}

/// What a `ChunkSection` holds.
pub struct SectionState {
    pub chunk_position: ChunkPosition,
    pub y: u8,
    pub mesh: MeshData,
    pub mesh_transparent: MeshData,
    pub collider: bool,
    pub colider_builder: Option<ColliderData>,
    pub need_update_collider: bool,
    pub set_geometry_first_time: bool,
}

/// The shape that a pending builder stands for.
pub open spec fn builder_view(builder: Option<ColliderMesh>) -> Option<ColliderData> {
    match builder {
        Some(m) => Some(m@),
        None => None,
    }
}

impl View for ChunkSection {
    type V = SectionState;

    open spec fn view(&self) -> SectionState {
        SectionState {
            chunk_position: self.chunk_position,
            y: self.y,
            mesh: self.mesh@,
            mesh_transparent: self.mesh_transparent@,
            collider: self.collider,
            colider_builder: builder_view(self.colider_builder),
            need_update_collider: self.need_update_collider,
            set_geometry_first_time: self.set_geometry_first_time,
        }
    }
}

/// The geometry made of one section: its two render passes and, where the opaque pass
/// has any face, its collision mesh.
pub struct SectionGeometry {
    pub mesh: RenderMesh,
    pub mesh_transparent: RenderMesh,
    pub collider: Option<ColliderMesh>,
}

/// What a `SectionGeometry` holds.
pub struct GeometryData {
    pub mesh: MeshData,
    pub mesh_transparent: MeshData,
    pub collider: Option<ColliderData>,
}

impl View for SectionGeometry {
    type V = GeometryData;

    open spec fn view(&self) -> GeometryData {
        GeometryData {
            mesh: self.mesh@,
            mesh_transparent: self.mesh_transparent@,
            collider: builder_view(self.collider),
        }
    }
}

/// The state of a section after new geometry was put on it: the meshes are replaced,
/// the collision mesh waits for the next collider update, and the section counts as
/// having shown geometry once either pass has a face.
pub open spec fn with_geometry(s: SectionState, g: GeometryData) -> SectionState {
    SectionState {
        mesh: g.mesh,
        mesh_transparent: g.mesh_transparent,
        set_geometry_first_time: s.set_geometry_first_time || g.mesh.indices.len() > 0
            || g.mesh_transparent.indices.len() > 0,
        need_update_collider: true,
        colider_builder: g.collider,
        ..s
    }
}

/// The state of a section that has no geometry yet.
pub open spec fn fresh_section(chunk_position: ChunkPosition, y: u8) -> SectionState {
    SectionState {
        chunk_position,
        y,
        mesh: empty_mesh(),
        mesh_transparent: empty_mesh(),
        collider: false,
        colider_builder: None,
        need_update_collider: false,
        set_geometry_first_time: false,
    }
}

/// The state after a collider update, and what the host has to do.
pub open spec fn collider_update(s: SectionState) -> (SectionState, ColliderActionView) {
    match s.colider_builder {
        Some(shape) => if s.collider {
            (
                SectionState { need_update_collider: false, colider_builder: None, ..s },
                ColliderActionView::SetShape(shape),
            )
        } else {
            (
                SectionState {
                    need_update_collider: false,
                    colider_builder: None,
                    collider: true,
                    ..s
                },
                ColliderActionView::Create(shape),
            )
        },
        None => if s.collider {
            (
                SectionState { need_update_collider: false, collider: false, ..s },
                ColliderActionView::Remove,
            )
        } else {
            (SectionState { need_update_collider: false, ..s }, ColliderActionView::Nothing)
        },
    }
}

impl ChunkSection {
    pub fn create(y: u8, chunk_position: ChunkPosition) -> (s: ChunkSection)
        ensures
            s@ == fresh_section(chunk_position, y),
    {
        ChunkSection {
            chunk_position,
            y,
            mesh: RenderMesh {
                indices: Vec::new(),
                verts: Vec::new(),
                normals: Vec::new(),
                uvs: Vec::new(),
            },
            mesh_transparent: RenderMesh {
                indices: Vec::new(),
                verts: Vec::new(),
                normals: Vec::new(),
                uvs: Vec::new(),
            },
            collider: false,
            colider_builder: None,
            need_update_collider: false,
            set_geometry_first_time: false,
        }
    }

    /// The position of the section's minimum corner, in blocks.
    pub fn get_section_position(&self) -> (p: (i128, i128, i128))
        ensures
            p.0 == self.chunk_position.x * 16,
            p.1 == self.y * 16,
            p.2 == self.chunk_position.z * 16,
    {
        (self.chunk_position.x as i128 * 16, self.y as i128 * 16, self.chunk_position.z as i128 * 16)
    }

    /// The height of the section's floor above that of its column, in blocks.
    pub fn get_section_local_position(&self) -> (p: (i128, i128, i128))
        ensures
            p == (0i128, (self.y * 16) as i128, 0i128),
    {
        (0, self.y as i128 * 16, 0)
    }

    /// Records the shape of the section's collider, or that it needs none, for the next
    /// update.
    pub fn set_collider(&mut self, collider_builder: Option<ColliderMesh>)
        ensures
            final(self)@ == (SectionState {
                need_update_collider: true,
                colider_builder: builder_view(collider_builder),
                ..old(self)@
            }),
    {
        self.need_update_collider = true;
        self.colider_builder = collider_builder;
    }

    /// Replaces the section's meshes. Returns whether the section shows geometry for
    /// the first time, in which case the host fades it in.
    pub fn set_new_mesh(&mut self, new_mesh: RenderMesh, new_mesh_transparent: RenderMesh) -> (first:
        bool)
        ensures
            first == ((new_mesh@.indices.len() > 0 || new_mesh_transparent@.indices.len() > 0) && !old(self).set_geometry_first_time),
            final(self)@ == (SectionState {
                mesh: new_mesh@,
                mesh_transparent: new_mesh_transparent@,
                set_geometry_first_time: old(self).set_geometry_first_time || first,
                ..old(self)@
            }),
    {
        let has_mesh = !new_mesh.is_empty() || !new_mesh_transparent.is_empty();
        self.mesh = new_mesh;
        self.mesh_transparent = new_mesh_transparent;
        if has_mesh && !self.set_geometry_first_time {
            self.set_geometry_first_time = true;
            true
        } else {
            false
        }
    }

    /// The collision group and mask of the section's collider for a section that is
    /// near the player or far from it; `None` where the section has no collider.
    pub fn update_collider_group(&self, is_near: bool) -> (r: Option<(u32, u32)>)
        ensures
            r == (if !self.collider {
                None
            } else if is_near {
                Some((WORLD_NEAR_GROUP, PLAYER_GROUP))
            } else {
                Some((WORLD_FAR_GROUP, 0u32))
            }),
    {
        if !self.collider {
            None
        } else if is_near {
            Some((WORLD_NEAR_GROUP, PLAYER_GROUP))
        } else {
            Some((WORLD_FAR_GROUP, 0))
        }
    }

    /// Puts new geometry on the section: both meshes, and the collision mesh for the
    /// next collider update. Returns whether the section shows geometry for the first
    /// time.
    pub fn apply_geometry(&mut self, geometry: SectionGeometry) -> (first: bool)
        ensures
            final(self)@ == with_geometry(old(self)@, geometry@),
            first == (!old(self).set_geometry_first_time && final(self).set_geometry_first_time),
    {
        let SectionGeometry { mesh, mesh_transparent, collider } = geometry;
        let first = self.set_new_mesh(mesh, mesh_transparent);
        self.set_collider(collider);
        first
    }

    pub fn is_collider_update_needed(&self) -> (r: bool)
        ensures
            r == self.need_update_collider,
    {
        self.need_update_collider
    }

    /// Brings the collider up to date with the shape recorded last: hands it to the
    /// host, or has the host remove a collider that has no shape any more.
    pub fn update_collider(&mut self) -> (action: ColliderAction)
        ensures
            final(self)@ == collider_update(old(self)@).0,
            action@ == collider_update(old(self)@).1,
    {
        self.need_update_collider = false;
        match self.colider_builder.take() {
            Some(shape) => {
                if self.collider {
                    ColliderAction::SetShape(shape)
                } else {
                    self.collider = true;
                    ColliderAction::Create(shape)
                }
            },
            None => {
                if self.collider {
                    self.collider = false;
                    ColliderAction::Remove
                } else {
                    ColliderAction::Nothing
                }
            },
        }
    }

    /// Gives up the section's collider. Returns whether the host held one.
    pub fn destory(&mut self) -> (had: bool)
        ensures
            had == old(self).collider,
            final(self)@ == (SectionState { collider: false, ..old(self)@ }),
    {
        let had = self.collider;
        self.collider = false;
        had
    }
}

} // verus!

//! A UI surface: a mesh that shows a UI texture and owns the virtual
//! pointer that moves over it.

use crate::mesh::hit_uv;
use crate::mesh::interpolate;
use crate::mesh::MeshHit;
use crate::mesh::UvMesh;
use crate::pointer::Location;
use crate::pointer::PointerAction;
use crate::pointer::PointerInput;
use crate::vector::as_vec2;
use crate::vector::difference;
use crate::vector::differs;
use crate::vector::product;
use crate::vector::uvec2_as_vec2;
use crate::vector::vec2_difference;
use crate::vector::vec2_differs;
use crate::vector::vec2_product;
use bevy::math::Vec2;
use bevy::picking::pointer::PointerId;
use bevy::render::camera::NormalizedRenderTarget;
use vstd::prelude::*;

verus! {

/// World-space UI as a whole. The engine-facing side schedules the two
/// passes of `pipeline` under this name.
#[derive(Clone, Copy, Debug, Default)]
pub struct WorldSpaceUiPlugin;

/// The size of a texture in pixels.
#[derive(Clone, Copy, Debug, PartialEq, Eq, Structural)]
pub struct TextureSize {
    pub x: u32,
    pub y: u32,
}

/// Where a surface's UI is drawn: the render target of the UI camera and
/// the size of its texture, both as they were when the surface was set up.
#[derive(Debug)]
pub struct WorldSpaceUiRenderTarget {
    pub target: NormalizedRenderTarget,
    pub size: TextureSize,
}

/// A mesh on which a UI is shown and operated, as the pointer passes see
/// it: the entity that carries the mesh, the virtual pointer that belongs to
/// it, where its UI is drawn, and where its cursor was last put.
#[derive(Debug)]
pub struct WorldSpaceUiSurface {
    pub entity: u64,
    pub pointer_id: PointerId,
    pub render_target: WorldSpaceUiRenderTarget,
    pub previous_cursor: Vec2,
}

impl WorldSpaceUiSurface {
    /// The pixel on the surface's texture that the texture coordinate `uv`
    /// falls on: the texture's size, as a vector, times `uv`.
    pub open spec fn pixel_position(&self, uv: Vec2) -> Vec2 {
        vec2_product(
            uvec2_as_vec2(self.render_target.size.x as int, self.render_target.size.y as int),
            uv,
        )
    }

    /// The event that tells of the cursor being at `position` with the
    /// given action.
    pub open spec fn event_at(&self, position: Vec2, action: PointerAction) -> PointerInput {
        PointerInput {
            pointer_id: self.pointer_id,
            location: Location { target: self.render_target.target, position },
            action,
        }
    }

    /// The surface with its cursor put at `position`.
    pub open spec fn with_cursor(&self, position: Vec2) -> WorldSpaceUiSurface {
        WorldSpaceUiSurface {
            entity: self.entity,
            pointer_id: self.pointer_id,
            render_target: self.render_target,
            previous_cursor: position,
        }
    }

    /// The surface after a hit at `position`: the cursor is there if that
    /// differs from where it was, else the surface is as before.
    pub open spec fn after_hit_at(&self, position: Vec2) -> WorldSpaceUiSurface {
        if vec2_differs(position, self.previous_cursor) {
            self.with_cursor(position)
        } else {
            *self
        }
    }

    /// What a hit at `position` emits: a move to `position` by the
    /// difference from where the cursor was, if the two differ; else
    /// nothing.
    pub open spec fn move_at(&self, position: Vec2) -> Option<PointerInput> {
        if vec2_differs(position, self.previous_cursor) {
            Some(
                self.event_at(
                    position,
                    PointerAction::Move { delta: vec2_difference(position, self.previous_cursor) },
                ),
            )
        } else {
            None
        }
    }

    /// A surface that has not been hit yet: its cursor is at the texture's
    /// origin.
    pub fn new(
        entity: u64,
        pointer_id: PointerId,
        render_target: WorldSpaceUiRenderTarget,
    ) -> (surface: WorldSpaceUiSurface)
        ensures
            surface.entity == entity,
            surface.pointer_id == pointer_id,
            surface.render_target == render_target,
            surface.previous_cursor == uvec2_as_vec2(0, 0),
    {
        WorldSpaceUiSurface { entity, pointer_id, render_target, previous_cursor: as_vec2(0, 0) }
    }

    /// Computes the UV coordinates of a ray-mesh hit: none where the mesh
    /// has no texture coordinates, else the coordinates of the hit
    /// triangle's corners, weighted by the hit's barycentric weights.
    pub fn get_ray_mesh_hit_uv(hit: &MeshHit, mesh: &UvMesh) -> (uv: Option<Vec2>)
        requires
            hit.placed_on(mesh),
        ensures
            uv == hit_uv(*hit, *mesh),
            uv is Some <==> mesh.uvs is Some,
    {
        match &mesh.uvs {
            None => None,
            Some(uvs) => {
                let triangle = match hit.triangle_index {
                    Some(triangle) => triangle,
                    None => { return None; },
                };
                let corners = mesh.triangle_corners(triangle);
                Some(
                    interpolate(
                        hit.barycentric_coords,
                        uvs[corners.0],
                        uvs[corners.1],
                        uvs[corners.2],
                    ),
                )
            },
        }
    }

    /// The pixel that `uv` falls on: see
    /// [`WorldSpaceUiSurface::pixel_position`].
    pub fn position_at(&self, uv: Vec2) -> (position: Vec2)
        ensures
            position == self.pixel_position(uv),
    {
        product(as_vec2(self.render_target.size.x, self.render_target.size.y), uv)
    }

    /// The event that tells of the cursor being where it was last put, with
    /// the given action.
    pub fn event_at_cursor(&self, action: PointerAction) -> (event: PointerInput)
        ensures
            event == self.event_at(self.previous_cursor, action),
    {
        PointerInput {
            pointer_id: self.pointer_id,
            location: Location {
                target: self.render_target.target.clone(),
                position: self.previous_cursor,
            },
            action,
        }
    }

    /// Takes note of a hit at `position`, given whether that position
    /// differs from the cursor's and by how much. Where it differs, the
    /// cursor goes there and the move is returned; where it does not,
    /// nothing changes and nothing is returned.
    pub fn record_position(
        &mut self,
        position: Vec2,
        moved: bool,
        delta: Vec2,
    ) -> (event: Option<PointerInput>)
        ensures
            moved ==> *final(self) == old(self).with_cursor(position),
            moved ==> event == Some(old(self).event_at(position, PointerAction::Move { delta })),
            !moved ==> *final(self) == *old(self),
            !moved ==> event is None,
    {
        if moved {
            self.previous_cursor = position;
            Some(self.event_at_cursor(PointerAction::Move { delta }))
        } else {
            None
        }
    }

    /// Puts the cursor where `uv` falls on the texture, and returns the move
    /// if that is not where the cursor already was.
    pub fn move_cursor(&mut self, uv: Vec2) -> (event: Option<PointerInput>)
        ensures
            *final(self) == old(self).after_hit_at(old(self).pixel_position(uv)),
            event == old(self).move_at(old(self).pixel_position(uv)),
    {
        let position = self.position_at(uv);
        let moved = differs(position, self.previous_cursor);
        let delta = difference(position, self.previous_cursor);
        self.record_position(position, moved, delta)
    }
}

/// A move says where the cursor went and by how much: the event of a hit
/// that moves the cursor is at the hit's position, its delta is that
/// position minus the cursor's position before the hit, and the cursor is
/// at the hit's position afterwards.
pub proof fn lemma_move_carries_delta(surface: WorldSpaceUiSurface, position: Vec2)
    requires
        surface.move_at(position) is Some,
    ensures
        surface.move_at(position)->0.location.position == position,
        surface.move_at(position)->0.action == (PointerAction::Move {
            delta: vec2_difference(position, surface.previous_cursor),
        }),
        surface.move_at(position)->0.pointer_id == surface.pointer_id,
        surface.after_hit_at(position).previous_cursor == position,
{
}

/// A hit where the cursor already is moves nothing: after one hit at a
/// position, a second hit at the same position emits no event and leaves
/// the surface as it is. The position must not differ from itself, which
/// leaves out a position with a NaN in it.
pub proof fn lemma_repeated_hit_is_silent(surface: WorldSpaceUiSurface, position: Vec2)
    requires
        !vec2_differs(position, position),
    ensures
        surface.after_hit_at(position).move_at(position) is None,
        surface.after_hit_at(position).after_hit_at(position) == surface.after_hit_at(position),
{
}

} // verus!

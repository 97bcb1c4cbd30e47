//! What the pointer mapping reads of a mesh and of a ray hit on it.
//!
//! A mesh is a triangle list. Its texture coordinates are stored one per
//! vertex; its triangles are read three vertex slots at a time, either
//! straight from the vertex order or through an index buffer of 16-bit or
//! 32-bit entries. A ray hit names a triangle and carries the barycentric
//! weights of the hit point inside it.

use crate::vector::scaled;
use crate::vector::sum;
use crate::vector::vec2_scaled;
use crate::vector::vec2_sum;
use bevy::math::Vec2;
use bevy::math::Vec3;
use vstd::prelude::*;

verus! {

/// An index buffer: for each vertex slot, the vertex that fills it.
#[derive(Debug)]
pub enum MeshIndices {
    U16(Vec<u16>),
    U32(Vec<u32>),
}

impl View for MeshIndices {
    type V = Seq<int>;

    /// The buffer as a sequence of vertex numbers, whatever their width.
    open spec fn view(&self) -> Seq<int> {
        match self {
            MeshIndices::U16(entries) => entries@.map_values(|entry: u16| entry as int),
            MeshIndices::U32(entries) => entries@.map_values(|entry: u32| entry as int),
        }
    }
}

impl MeshIndices {
    /// The number of vertex slots in the buffer.
    pub fn len(&self) -> (n: usize)
        ensures
            n == self@.len(),
    {
        match self {
            MeshIndices::U16(entries) => entries.len(),
            MeshIndices::U32(entries) => entries.len(),
        }
    }

    /// The vertex that fills `slot`.
    pub fn vertex(&self, slot: usize) -> (vertex: usize)
        requires
            slot < self@.len(),
        ensures
            vertex == self@[slot as int],
    {
        match self {
            MeshIndices::U16(entries) => entries[slot] as usize,
            MeshIndices::U32(entries) => entries[slot] as usize,
        }
    }
}

/// The part of a mesh that locates a hit on its texture: the texture
/// coordinate of each vertex, if the mesh has any, and the index buffer, if
/// the mesh is indexed.
#[derive(Debug)]
pub struct UvMesh {
    pub uvs: Option<Vec<Vec2>>,
    pub indices: Option<MeshIndices>,
}

impl UvMesh {
    /// The number of vertex slots: the length of the index buffer, or of the
    /// vertex list where there is no index buffer.
    pub open spec fn slots(&self) -> int {
        match self.indices {
            Some(indices) => indices@.len() as int,
            None => match self.uvs {
                Some(uvs) => uvs@.len() as int,
                None => 0,
            },
        }
    }

    /// The vertex that fills `slot`: the entry of the index buffer, or the
    /// slot's own number where there is no index buffer.
    pub open spec fn vertex(&self, slot: int) -> int {
        match self.indices {
            Some(indices) => indices@[slot],
            None => slot,
        }
    }

    /// Whether `triangle` has its three slots inside the mesh.
    pub open spec fn has_triangle(&self, triangle: int) -> bool {
        0 <= triangle && 3 * triangle + 2 < self.slots()
    }

    /// The number of vertices that carry a texture coordinate.
    pub open spec fn uv_count(&self) -> int {
        match self.uvs {
            Some(uvs) => uvs@.len() as int,
            None => 0,
        }
    }

    /// Whether `triangle` has its three slots inside the mesh and each of
    /// them filled by a vertex that carries a texture coordinate.
    pub open spec fn resolves(&self, triangle: int) -> bool {
        &&& self.has_triangle(triangle)
        &&& 0 <= self.vertex(3 * triangle) < self.uv_count()
        &&& 0 <= self.vertex(3 * triangle + 1) < self.uv_count()
        &&& 0 <= self.vertex(3 * triangle + 2) < self.uv_count()
    }

    /// The texture coordinate of the vertex that fills `slot`.
    pub open spec fn slot_uv(&self, slot: int) -> Vec2 {
        self.uvs->0@[self.vertex(slot)]
    }

    /// The slots of a mesh can be counted in a machine word.
    proof fn lemma_slots_fit(&self)
        ensures
            self.slots() <= usize::MAX,
    {
        match self.indices {
            Some(MeshIndices::U16(entries)) => {
                assert(entries@.len() == entries.len());
            },
            Some(MeshIndices::U32(entries)) => {
                assert(entries@.len() == entries.len());
            },
            None => match self.uvs {
                Some(uvs) => {
                    assert(uvs@.len() == uvs.len());
                },
                None => {},
            },
        }
    }

    /// The number of vertex slots.
    pub fn slot_count(&self) -> (n: usize)
        ensures
            n == self.slots(),
    {
        match &self.indices {
            Some(indices) => indices.len(),
            None => match &self.uvs {
                Some(uvs) => uvs.len(),
                None => 0,
            },
        }
    }

    /// The three vertices of `triangle`, in slot order.
    pub fn triangle_corners(&self, triangle: usize) -> (corners: (usize, usize, usize))
        requires
            self.has_triangle(triangle as int),
        ensures
            corners.0 == self.vertex(3 * triangle),
            corners.1 == self.vertex(3 * triangle + 1),
            corners.2 == self.vertex(3 * triangle + 2),
    {
        proof {
            self.lemma_slots_fit();
        }
        let first: usize = triangle * 3;
        match &self.indices {
            Some(indices) => (
                indices.vertex(first),
                indices.vertex(first + 1),
                indices.vertex(first + 2),
            ),
            None => (first, first + 1, first + 2),
        }
    }

    /// Tells whether `triangle` can be looked up: see [`UvMesh::resolves`].
    pub fn resolves_triangle(&self, triangle: usize) -> (found: bool)
        ensures
            found == self.resolves(triangle as int),
    {
        match &self.uvs {
            None => false,
            Some(uvs) => {
                if triangle >= self.slot_count() / 3 {
                    return false;
                }
                let corners = self.triangle_corners(triangle);
                corners.0 < uvs.len() && corners.1 < uvs.len() && corners.2 < uvs.len()
            },
        }
    }
}

/// Where a ray met a mesh: the triangle, if the ray caster reported one, and
/// the barycentric weights of the hit point.
#[derive(Debug)]
pub struct MeshHit {
    pub barycentric_coords: Vec3,
    pub triangle_index: Option<usize>,
}

impl MeshHit {
    /// Whether the hit can be placed on the texture of `mesh`. A mesh
    /// without texture coordinates places every hit (nowhere); any other
    /// mesh needs the hit to name a triangle that resolves.
    pub open spec fn placed_on(&self, mesh: &UvMesh) -> bool {
        mesh.uvs is Some ==> {
            &&& self.triangle_index is Some
            &&& mesh.resolves(self.triangle_index->0 as int)
        }
    }

    /// Tells whether the hit can be placed on `mesh`: see
    /// [`MeshHit::placed_on`].
    pub fn is_placed_on(&self, mesh: &UvMesh) -> (placed: bool)
        ensures
            placed == self.placed_on(mesh),
    {
        match &mesh.uvs {
            None => true,
            Some(_) => match self.triangle_index {
                None => false,
                Some(triangle) => mesh.resolves_triangle(triangle),
            },
        }
    }
}

/// The texture coordinate at barycentric `weights` inside a triangle whose
/// corners have the coordinates `uv0`, `uv1`, `uv2`.
///
/// The ray caster stores the weight of the first corner last: corner 0 is
/// weighted by the `z` component, corner 1 by `x` and corner 2 by `y`. The
/// terms are added from left to right.
pub open spec fn interpolated_uv(weights: Vec3, uv0: Vec2, uv1: Vec2, uv2: Vec2) -> Vec2 {
    vec2_sum(
        vec2_sum(vec2_scaled(weights, 2, uv0), vec2_scaled(weights, 0, uv1)),
        vec2_scaled(weights, 1, uv2),
    )
}

/// The texture coordinate of `hit` on `mesh`: none where the mesh has no
/// texture coordinates, else the interpolation over the hit triangle.
pub open spec fn hit_uv(hit: MeshHit, mesh: UvMesh) -> Option<Vec2> {
    if mesh.uvs is Some {
        let first = 3 * (hit.triangle_index->0 as int);
        Some(
            interpolated_uv(
                hit.barycentric_coords,
                mesh.slot_uv(first),
                mesh.slot_uv(first + 1),
                mesh.slot_uv(first + 2),
            ),
        )
    } else {
        None
    }
}

/// Interpolates between the corners of a triangle: see [`interpolated_uv`].
pub fn interpolate(weights: Vec3, uv0: Vec2, uv1: Vec2, uv2: Vec2) -> (uv: Vec2)
    ensures
        uv == interpolated_uv(weights, uv0, uv1, uv2),
{
    sum(sum(scaled(weights, 2, uv0), scaled(weights, 0, uv1)), scaled(weights, 1, uv2))
}

/// The texture coordinates of a mesh, slot by slot: what a mesh without an
/// index buffer has to list to show the same triangles.
pub open spec fn unrolled_uvs(mesh: UvMesh) -> Seq<Vec2> {
    Seq::new(mesh.slots() as nat, |slot: int| mesh.slot_uv(slot))
}

/// The width of an index buffer's entries does not matter: two meshes with
/// the same texture coordinates whose index buffers list the same vertices,
/// the one in 16-bit entries and the other in 32-bit entries or in any
/// other way, place the same hits, and place them on the same texture
/// coordinate.
pub proof fn lemma_index_width_is_irrelevant(hit: MeshHit, narrow: UvMesh, wide: UvMesh)
    requires
        narrow.uvs == wide.uvs,
        narrow.indices is Some,
        wide.indices is Some,
        narrow.indices->0@ == wide.indices->0@,
    ensures
        hit.placed_on(&narrow) == hit.placed_on(&wide),
        hit_uv(hit, narrow) == hit_uv(hit, wide),
{
}

/// An index buffer can be unrolled: a mesh without one that lists, slot by
/// slot, the texture coordinates of an indexed mesh places every hit that
/// the indexed mesh places, and on the same texture coordinate.
pub proof fn lemma_unrolled_mesh_agrees(hit: MeshHit, indexed: UvMesh, plain: UvMesh)
    requires
        indexed.uvs is Some,
        plain.uvs is Some,
        plain.uvs->0@ == unrolled_uvs(indexed),
        plain.indices is None,
        hit.placed_on(&indexed),
    ensures
        hit.placed_on(&plain),
        hit_uv(hit, plain) == hit_uv(hit, indexed),
{
}

} // verus!

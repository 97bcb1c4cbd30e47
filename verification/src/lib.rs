//! World-space UI: the mapping from a ray that hits a textured mesh to the
//! pointer events of the UI that is drawn on it.
//!
//! A UI is drawn into a texture and the texture is shown on a mesh. To
//! operate that UI with the mouse, a ray is cast from the mouse into the
//! scene; where it meets the mesh, the hit is turned into a texture
//! coordinate ([`mesh`]), the coordinate into a pixel of the texture, and the
//! pixel into a move of the virtual pointer that the surface owns
//! ([`surface`]). Two passes do this once per frame for all surfaces
//! ([`pipeline`]): the first takes the frame's ray hits, the second hands
//! the frame's mouse-button changes on to every surface.
//!
//! The library holds no engine state and performs no ray cast: it is given
//! hits and button changes as values and appends the resulting events to a
//! list. The vector arithmetic is the engine's ([`vector`]).

pub mod mesh;
pub mod pipeline;
pub mod pointer;
pub mod surface;
pub mod vector;

pub use mesh::MeshHit;
pub use mesh::MeshIndices;
pub use mesh::UvMesh;
pub use pipeline::drive_diegetic_pointer;
pub use pipeline::send_pointer_input;
pub use pipeline::SurfaceHit;
pub use pipeline::UnregisteredSurface;
pub use pipeline::WorldSpaceUiSurfaces;
pub use pointer::ButtonState;
pub use pointer::Location;
pub use pointer::MouseButton;
pub use pointer::MouseButtonInput;
pub use pointer::PointerAction;
pub use pointer::PointerButton;
pub use pointer::PointerInput;
pub use surface::TextureSize;
pub use surface::WorldSpaceUiPlugin;
pub use surface::WorldSpaceUiRenderTarget;
pub use surface::WorldSpaceUiSurface;

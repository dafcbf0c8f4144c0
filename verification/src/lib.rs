//! Editor-side visual aids for scene entities that have no renderable mesh.
//!
//! Lights, cameras, and entities explicitly tagged as meshless get a
//! placeholder visual (a camera-facing billboard icon or a fallback shape)
//! spawned as a child, tagged so that clicks on the placeholder resolve back
//! to the real entity. The scene is modelled engine-independently: the host
//! adapter snapshots the entity graph into [`scene::Scene`], the verified
//! passes compute what to spawn or despawn, and the host applies the result.

pub mod assets;
pub mod cleanup;
pub mod laws;
pub mod model;
pub mod reconcile;
pub mod scene;

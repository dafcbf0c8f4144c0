//! Handles and the meshless-visual declaration attached to scene entities.
//!
//! A handle stands for a resource owned by the host's asset pipeline (an
//! image, a mesh, a material). The library never looks inside a resource, so
//! a handle is just its numeric identity; the host adapter keeps the mapping
//! from these identities to its own typed handles.

use vstd::prelude::*;

verus! {

/// Identity of a loaded mesh resource.
#[derive(Clone, Copy, PartialEq, Eq, Structural, Debug)]
pub struct MeshHandle {
    pub id: u64,
}

/// Identity of a loaded image resource.
#[derive(Clone, Copy, PartialEq, Eq, Structural, Debug)]
pub struct ImageHandle {
    pub id: u64,
}

/// Identity of a registered material resource.
#[derive(Clone, Copy, PartialEq, Eq, Structural, Debug)]
pub struct MaterialHandle {
    pub id: u64,
}

/// What a custom entity should use as its editor-visible stand-in when it has
/// no mesh of its own. Unset optional fields mean "use the documented
/// default": billboards default to a flat quad with the "unknown" icon,
/// objects default to the icon-set sphere with an unlit white material.
#[derive(Clone, Copy, PartialEq, Eq, Structural, Debug)]
pub enum MeshlessModel {
    Billboard { mesh: Option<MeshHandle>, texture: Option<ImageHandle> },
    Object { mesh: Option<MeshHandle>, material: Option<MaterialHandle> },
}

impl Default for MeshlessModel {
    /// The default visual is a billboard with both fields unset.
    fn default() -> (r: Self)
        ensures
            r == (MeshlessModel::Billboard { mesh: None, texture: None }),
    {
        MeshlessModel::Billboard { mesh: None, texture: None }
    }
}

/// Declares that an entity has no mesh and should be shown through the given
/// visual. Declaring intent only: it does not itself hold spawned children.
#[derive(Clone, Copy, PartialEq, Eq, Structural, Debug)]
pub struct CustomMeshless {
    /// Visual that will be used to show the entity or object.
    pub visual: MeshlessModel,
}

/// The fixed set of icon resources the reconciliation passes draw from,
/// resolved once at startup from the manifest and read-only thereafter.
#[derive(Clone, Copy, PartialEq, Eq, Structural, Debug)]
pub struct EditorIconAssets {
    /// Image used when nothing more specific applies.
    pub unknown: ImageHandle,
    /// Image for a directional light.
    pub directional: ImageHandle,
    /// Image for a point light.
    pub point: ImageHandle,
    /// Image for a spot light.
    pub spot: ImageHandle,
    /// Image for a camera.
    pub camera: ImageHandle,
    /// Flat quad mesh that icon images are put onto.
    pub square: MeshHandle,
    /// Low-poly sphere mesh that makes an icon clickable.
    pub sphere: MeshHandle,
}

} // verus!

//! The engine-independent picture of the host scene.
//!
//! The host adapter snapshots every entity into a [`SceneEntity`]: its
//! identity, the marker attributes the reconciliation passes test for, and
//! its direct children. Specifications speak about the ghost image
//! [`EntityView`], where the children are a sequence.

use vstd::prelude::*;
use crate::model::CustomMeshless;

verus! {

/// Which kind of light an entity carries; a light carries exactly one.
#[derive(Clone, Copy, PartialEq, Eq, Structural, Debug)]
pub enum LightKind {
    Directional,
    Spot,
    Point,
}

/// One entity of the host scene, as the passes see it.
#[derive(Clone, Debug)]
pub struct SceneEntity {
    /// Host identity of the entity; unique within a well-formed scene.
    pub id: u64,
    /// The light component the entity carries, if any.
    pub light: Option<LightKind>,
    /// Whether the entity carries a camera component.
    pub camera: bool,
    /// Whether the entity is the editor's own camera, which gets no proxy.
    pub editor_camera: bool,
    /// Whether the entity belongs to the edited scene content.
    pub prefab: bool,
    /// Whether the entity has a transform.
    pub transform: bool,
    /// Whether the entity has a visibility attribute.
    pub visibility: bool,
    /// The meshless-visual declaration, if the entity carries one.
    pub custom: Option<CustomMeshless>,
    /// Whether the entity carries a billboard mesh handle: the
    /// proxy-renderable marker the passes test children for.
    pub billboard_mesh: bool,
    /// Whether the entity carries a billboard texture handle.
    pub billboard_texture: bool,
    /// Back-reference routing clicks on this entity to another entity.
    pub select_parent: Option<u64>,
    /// Ids of the entity's direct children.
    pub children: Vec<u64>,
}

/// Ghost image of a [`SceneEntity`].
pub struct EntityView {
    pub id: u64,
    pub light: Option<LightKind>,
    pub camera: bool,
    pub editor_camera: bool,
    pub prefab: bool,
    pub transform: bool,
    pub visibility: bool,
    pub custom: Option<CustomMeshless>,
    pub billboard_mesh: bool,
    pub billboard_texture: bool,
    pub select_parent: Option<u64>,
    pub children: Seq<u64>,
}

impl View for SceneEntity {
    type V = EntityView;

    open spec fn view(&self) -> EntityView {
        EntityView {
            id: self.id,
            light: self.light,
            camera: self.camera,
            editor_camera: self.editor_camera,
            prefab: self.prefab,
            transform: self.transform,
            visibility: self.visibility,
            custom: self.custom,
            billboard_mesh: self.billboard_mesh,
            billboard_texture: self.billboard_texture,
            select_parent: self.select_parent,
            children: self.children@,
        }
    }
}

/// A snapshot of the host scene: every entity the passes may inspect.
pub struct Scene {
    pub entities: Vec<SceneEntity>,
}

impl View for Scene {
    type V = Seq<EntityView>;

    open spec fn view(&self) -> Seq<EntityView> {
        Seq::new(self.entities@.len(), |i: int| self.entities@[i]@)
    }
}

/// A well-formed scene names every entity at most once.
pub open spec fn wf(s: Seq<EntityView>) -> bool {
    forall|i: int, j: int| 0 <= i < j < s.len() ==> s[i].id != s[j].id
}

/// The proxy-renderable markers: a billboard texture or billboard mesh
/// handle. Only entities spawned as billboard proxies carry them.
pub open spec fn carries_proxy_marker(e: EntityView) -> bool {
    e.billboard_mesh || e.billboard_texture
}

/// A light subject: a prefab light with transform and visibility.
pub open spec fn is_light_subject(e: EntityView) -> bool {
    e.light is Some && e.prefab && e.transform && e.visibility
}

/// A camera subject: a prefab camera with transform and visibility that is
/// not the editor's own camera.
pub open spec fn is_camera_subject(e: EntityView) -> bool {
    e.camera && !e.editor_camera && e.prefab && e.transform && e.visibility
}

/// A custom subject: any entity carrying a meshless-visual declaration.
pub open spec fn is_custom_subject(e: EntityView) -> bool {
    e.custom is Some
}

/// Some entity of the scene is named `cid` and carries the billboard mesh
/// marker the passes probe children with.
pub open spec fn marker_entity(s: Seq<EntityView>, cid: u64) -> bool {
    exists|k: int| 0 <= k < s.len() && s[k].id == cid && s[k].billboard_mesh
}

/// The subject already has a proxy: some direct child carries the marker.
/// A subject with only unrelated children counts as proxy-less.
pub open spec fn has_proxy_child(s: Seq<EntityView>, e: EntityView) -> bool {
    exists|j: int| 0 <= j < e.children.len() && marker_entity(s, e.children[j])
}

impl Scene {
    /// Index of the entity named `id`, if present.
    pub fn find(&self, id: u64) -> (r: Option<usize>)
        ensures
            match r {
                Some(j) => j < self@.len() && self@[j as int].id == id,
                None => forall|k: int| 0 <= k < self@.len() ==> self@[k].id != id,
            },
    {
        let n: usize = self.entities.len();
        let mut i: usize = 0;
        while i < n
            invariant
                i <= n,
                n == self@.len(),
                forall|k: int| 0 <= k < i ==> self@[k].id != id,
            decreases n - i,
        {
            if self.entities[i].id == id {
                return Some(i);
            }
            i = i + 1;
        }
        None
    }

    /// Does some direct child of `e` carry the proxy-renderable marker?
    pub fn has_proxy_child(&self, e: &SceneEntity) -> (r: bool)
        requires
            wf(self@),
        ensures
            r == has_proxy_child(self@, e@),
    {
        let n: usize = e.children.len();
        let mut j: usize = 0;
        while j < n
            invariant
                j <= n,
                n == e.children@.len(),
                wf(self@),
                forall|jj: int| 0 <= jj < j ==> !marker_entity(self@, e.children@[jj]),
            decreases n - j,
        {
            let cid = e.children[j];
            match self.find(cid) {
                Some(k) => {
                    if self.entities[k].billboard_mesh {
                        proof {
                            assert(marker_entity(self@, e@.children[j as int]));
                        }
                        return true;
                    }
                    proof {
                        assert forall|kk: int|
                            0 <= kk < self@.len() && self@[kk].id == cid implies !self@[kk].billboard_mesh by {
                            assert(kk == k as int);
                        }
                    }
                },
                None => {},
            }
            j = j + 1;
        }
        false
    }
}

} // verus!

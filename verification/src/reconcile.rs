//! The per-frame reconciliation passes.
//!
//! Each pass inspects the scene snapshot and returns the proxy subtrees the
//! host must spawn: one for every subject entity (light, camera, or
//! meshless-tagged entity) none of whose direct children carries the
//! proxy-renderable marker. The passes only compute; the host applies the
//! plan, which [`apply_spawns`] models.

use vstd::prelude::*;
use crate::model::{EditorIconAssets, ImageHandle, MaterialHandle, MeshHandle, MeshlessModel};
use crate::scene::{
    EntityView, LightKind, Scene, SceneEntity, has_proxy_child, is_camera_subject,
    is_light_subject, wf,
};

verus! {

/// The proxy's billboard mesh: a handle the subject supplied, or the
/// documented default quad the host creates at spawn time.
#[derive(Clone, Copy, PartialEq, Eq, Structural, Debug)]
pub enum MeshChoice {
    Handle(MeshHandle),
    DefaultQuad,
}

/// The proxy's billboard texture: a handle the subject supplied, or the
/// "unknown" icon image the host loads at spawn time.
#[derive(Clone, Copy, PartialEq, Eq, Structural, Debug)]
pub enum TextureChoice {
    Handle(ImageHandle),
    DefaultUnknownIcon,
}

/// The proxy's material: a handle the subject supplied, or the unlit white
/// material the host registers at spawn time.
#[derive(Clone, Copy, PartialEq, Eq, Structural, Debug)]
pub enum MaterialChoice {
    Handle(MaterialHandle),
    DefaultUnlitWhite,
}

/// The renderable the proxy entity will carry.
#[derive(Clone, Copy, PartialEq, Eq, Structural, Debug)]
pub enum ProxyVisual {
    /// A camera-facing textured quad.
    Billboard { mesh: MeshChoice, texture: TextureChoice },
    /// A real mesh and material instance.
    Object { mesh: MeshHandle, material: MaterialChoice },
}

/// The invisible clickable collision volume spawned under a billboard proxy,
/// through which ray-based selection resolves clicks back to the subject.
#[derive(Clone, Copy, PartialEq, Eq, Structural, Debug)]
pub struct ColliderSpawn {
    /// Mesh of the collision volume.
    pub mesh: MeshHandle,
    /// The volume is spawned hidden; picking ignores visibility culling.
    pub hidden: bool,
    /// The subject entity that clicks on the volume select.
    pub select_parent: u64,
}

/// One proxy subtree to spawn and parent under a subject entity.
#[derive(Clone, Copy, PartialEq, Eq, Structural, Debug)]
pub struct ProxySpawn {
    /// The subject entity the proxy is parented under.
    pub subject: u64,
    /// The renderable the proxy entity carries.
    pub visual: ProxyVisual,
    /// Back-reference carried by the proxy entity itself (object visuals).
    pub select_parent: Option<u64>,
    /// Hidden clickable child of the proxy (billboard visuals).
    pub collider: Option<ColliderSpawn>,
    /// The proxy is tagged visible only on the editor's render layer, so it
    /// never shows in the final rendered output.
    pub editor_only_layer: bool,
}

/// The icon chosen for a light, by its kind.
pub open spec fn light_icon(icons: EditorIconAssets, k: LightKind) -> ImageHandle {
    match k {
        LightKind::Directional => icons.directional,
        LightKind::Spot => icons.spot,
        LightKind::Point => icons.point,
    }
}

/// A billboard proxy: the textured quad, plus the hidden clickable sphere
/// child that routes selection back to the subject.
pub open spec fn billboard_proxy(
    subject: u64,
    mesh: MeshChoice,
    texture: TextureChoice,
    icons: EditorIconAssets,
) -> ProxySpawn {
    ProxySpawn {
        subject,
        visual: ProxyVisual::Billboard { mesh, texture },
        select_parent: None,
        collider: Some(ColliderSpawn { mesh: icons.sphere, hidden: true, select_parent: subject }),
        editor_only_layer: true,
    }
}

/// An object proxy: a real mesh and material, itself clickable, carrying the
/// back-reference to the subject directly.
pub open spec fn object_proxy(subject: u64, mesh: MeshHandle, material: MaterialChoice) -> ProxySpawn {
    ProxySpawn {
        subject,
        visual: ProxyVisual::Object { mesh, material },
        select_parent: Some(subject),
        collider: None,
        editor_only_layer: true,
    }
}

/// What the lights pass spawns for one entity: a billboard with the icon of
/// the light's kind, if the entity is a light subject missing its proxy.
pub open spec fn light_spawn(
    s: Seq<EntityView>,
    icons: EditorIconAssets,
    e: EntityView,
) -> Option<ProxySpawn> {
    match e.light {
        Some(k) => if is_light_subject(e) && !has_proxy_child(s, e) {
            Some(
                billboard_proxy(
                    e.id,
                    MeshChoice::Handle(icons.square),
                    TextureChoice::Handle(light_icon(icons, k)),
                    icons,
                ),
            )
        } else {
            None
        },
        None => None,
    }
}

/// What the cameras pass spawns for one entity: a billboard with the camera
/// icon, if the entity is a camera subject missing its proxy.
pub open spec fn camera_spawn(
    s: Seq<EntityView>,
    icons: EditorIconAssets,
    e: EntityView,
) -> Option<ProxySpawn> {
    if is_camera_subject(e) && !has_proxy_child(s, e) {
        Some(
            billboard_proxy(
                e.id,
                MeshChoice::Handle(icons.square),
                TextureChoice::Handle(icons.camera),
                icons,
            ),
        )
    } else {
        None
    }
}

/// The visual a custom entity's declaration resolves to, with the documented
/// default substituted for every unset field: billboards default to the
/// quad mesh and the "unknown" icon; objects default to the icon-set sphere
/// and the unlit white material.
pub open spec fn resolve_custom_visual_spec(v: MeshlessModel, icons: EditorIconAssets) -> ProxyVisual {
    match v {
        MeshlessModel::Billboard { mesh, texture } => ProxyVisual::Billboard {
            mesh: match mesh {
                Some(h) => MeshChoice::Handle(h),
                None => MeshChoice::DefaultQuad,
            },
            texture: match texture {
                Some(h) => TextureChoice::Handle(h),
                None => TextureChoice::DefaultUnknownIcon,
            },
        },
        MeshlessModel::Object { mesh, material } => ProxyVisual::Object {
            mesh: match mesh {
                Some(h) => h,
                None => icons.sphere,
            },
            material: match material {
                Some(h) => MaterialChoice::Handle(h),
                None => MaterialChoice::DefaultUnlitWhite,
            },
        },
    }
}

/// What the custom pass spawns for one entity: its declared visual with
/// defaults substituted, if the entity is meshless-tagged and missing its
/// proxy.
pub open spec fn custom_spawn(
    s: Seq<EntityView>,
    icons: EditorIconAssets,
    e: EntityView,
) -> Option<ProxySpawn> {
    match e.custom {
        Some(cm) => if !has_proxy_child(s, e) {
            Some(
                match resolve_custom_visual_spec(cm.visual, icons) {
                    ProxyVisual::Billboard { mesh, texture } => billboard_proxy(
                        e.id,
                        mesh,
                        texture,
                        icons,
                    ),
                    ProxyVisual::Object { mesh, material } => object_proxy(e.id, mesh, material),
                },
            )
        } else {
            None
        },
        None => None,
    }
}

/// Everything one lights-and-cameras pass spawns: the light subjects missing
/// a proxy, in scene order, then the camera subjects missing one.
pub open spec fn visualize_meshless_spec(s: Seq<EntityView>, icons: EditorIconAssets) -> Seq<
    ProxySpawn,
> {
    s.filter_map(|e: EntityView| light_spawn(s, icons, e)) + s.filter_map(
        |e: EntityView| camera_spawn(s, icons, e),
    )
}

/// Everything one custom pass spawns: the meshless-tagged entities missing a
/// proxy, in scene order.
pub open spec fn visualize_custom_meshless_spec(s: Seq<EntityView>, icons: EditorIconAssets) -> Seq<
    ProxySpawn,
> {
    s.filter_map(|e: EntityView| custom_spawn(s, icons, e))
}

/// Substitute the documented defaults for every unset field of a declared
/// visual. A billboard with both fields unset yields the default quad with
/// the "unknown" icon; one with only a texture set yields the default quad
/// with that texture.
pub fn resolve_custom_visual(v: &MeshlessModel, icons: &EditorIconAssets) -> (r: ProxyVisual)
    ensures
        r == resolve_custom_visual_spec(*v, *icons),
{
    match *v {
        MeshlessModel::Billboard { mesh, texture } => ProxyVisual::Billboard {
            mesh: match mesh {
                Some(h) => MeshChoice::Handle(h),
                None => MeshChoice::DefaultQuad,
            },
            texture: match texture {
                Some(h) => TextureChoice::Handle(h),
                None => TextureChoice::DefaultUnknownIcon,
            },
        },
        MeshlessModel::Object { mesh, material } => ProxyVisual::Object {
            mesh: match mesh {
                Some(h) => h,
                None => icons.sphere,
            },
            material: match material {
                Some(h) => MaterialChoice::Handle(h),
                None => MaterialChoice::DefaultUnlitWhite,
            },
        },
    }
}

/// The lights-and-cameras pass: one billboard proxy for every light or
/// camera subject none of whose children carries the proxy-renderable
/// marker. Subjects that already have a proxy child get nothing, so the
/// pass is safe to re-run every frame.
pub fn visualize_meshless(scene: &Scene, icons: &EditorIconAssets) -> (r: Vec<ProxySpawn>)
    requires
        wf(scene@),
    ensures
        r@ == visualize_meshless_spec(scene@, *icons),
{
    let ghost f_light = |e: EntityView| light_spawn(scene@, *icons, e);
    let ghost f_cam = |e: EntityView| camera_spawn(scene@, *icons, e);
    let mut out: Vec<ProxySpawn> = Vec::new();
    let n: usize = scene.entities.len();
    let mut i: usize = 0;
    proof {
        assert(scene@.take(0) =~= Seq::<EntityView>::empty());
        assert(out@ =~= scene@.take(0).filter_map(f_light));
    }
    while i < n
        invariant
            i <= n,
            n == scene@.len(),
            wf(scene@),
            f_light == (|e: EntityView| light_spawn(scene@, *icons, e)),
            out@ =~= scene@.take(i as int).filter_map(f_light),
        decreases n - i,
    {
        let ent = &scene.entities[i];
        proof {
            assert(scene@[i as int] == ent@);
        }
        match ent.light {
            Some(kind) => {
                if ent.prefab && ent.transform && ent.visibility {
                    if !scene.has_proxy_child(ent) {
                        let image = match kind {
                            LightKind::Directional => icons.directional,
                            LightKind::Spot => icons.spot,
                            LightKind::Point => icons.point,
                        };
                        out.push(
                            ProxySpawn {
                                subject: ent.id,
                                visual: ProxyVisual::Billboard {
                                    mesh: MeshChoice::Handle(icons.square),
                                    texture: TextureChoice::Handle(image),
                                },
                                select_parent: None,
                                collider: Some(
                                    ColliderSpawn {
                                        mesh: icons.sphere,
                                        hidden: true,
                                        select_parent: ent.id,
                                    },
                                ),
                                editor_only_layer: true,
                            },
                        );
                    }
                }
            },
            None => {},
        }
        proof {
            scene@.lemma_filter_map_take_succ(f_light, i as int);
        }
        i = i + 1;
    }
    proof {
        assert(scene@.take(n as int) =~= scene@);
        assert(out@ =~= scene@.filter_map(f_light));
    }
    let mut i: usize = 0;
    proof {
        assert(scene@.take(0) =~= Seq::<EntityView>::empty());
        assert(out@ =~= scene@.filter_map(f_light) + scene@.take(0).filter_map(f_cam));
    }
    while i < n
        invariant
            i <= n,
            n == scene@.len(),
            wf(scene@),
            f_light == (|e: EntityView| light_spawn(scene@, *icons, e)),
            f_cam == (|e: EntityView| camera_spawn(scene@, *icons, e)),
            out@ =~= scene@.filter_map(f_light) + scene@.take(i as int).filter_map(f_cam),
        decreases n - i,
    {
        let ent = &scene.entities[i];
        proof {
            assert(scene@[i as int] == ent@);
        }
        if ent.camera && !ent.editor_camera && ent.prefab && ent.transform && ent.visibility {
            if !scene.has_proxy_child(ent) {
                out.push(
                    ProxySpawn {
                        subject: ent.id,
                        visual: ProxyVisual::Billboard {
                            mesh: MeshChoice::Handle(icons.square),
                            texture: TextureChoice::Handle(icons.camera),
                        },
                        select_parent: None,
                        collider: Some(
                            ColliderSpawn {
                                mesh: icons.sphere,
                                hidden: true,
                                select_parent: ent.id,
                            },
                        ),
                        editor_only_layer: true,
                    },
                );
            }
        }
        proof {
            scene@.lemma_filter_map_take_succ(f_cam, i as int);
        }
        i = i + 1;
    }
    proof {
        assert(scene@.take(n as int) =~= scene@);
        assert(out@ =~= visualize_meshless_spec(scene@, *icons));
    }
    out
}

/// The custom pass: one proxy for every meshless-tagged entity none of whose
/// children carries the proxy-renderable marker, using the entity's declared
/// visual with the documented defaults substituted.
pub fn visualize_custom_meshless(scene: &Scene, icons: &EditorIconAssets) -> (r: Vec<ProxySpawn>)
    requires
        wf(scene@),
    ensures
        r@ == visualize_custom_meshless_spec(scene@, *icons),
{
    let ghost f_custom = |e: EntityView| custom_spawn(scene@, *icons, e);
    let mut out: Vec<ProxySpawn> = Vec::new();
    let n: usize = scene.entities.len();
    let mut i: usize = 0;
    proof {
        assert(scene@.take(0) =~= Seq::<EntityView>::empty());
        assert(out@ =~= scene@.take(0).filter_map(f_custom));
    }
    while i < n
        invariant
            i <= n,
            n == scene@.len(),
            wf(scene@),
            f_custom == (|e: EntityView| custom_spawn(scene@, *icons, e)),
            out@ =~= scene@.take(i as int).filter_map(f_custom),
        decreases n - i,
    {
        let ent = &scene.entities[i];
        proof {
            assert(scene@[i as int] == ent@);
        }
        match ent.custom {
            Some(cm) => {
                if !scene.has_proxy_child(ent) {
                    let visual = resolve_custom_visual(&cm.visual, icons);
                    let sp = match visual {
                        ProxyVisual::Billboard { mesh, texture } => ProxySpawn {
                            subject: ent.id,
                            visual: ProxyVisual::Billboard { mesh, texture },
                            select_parent: None,
                            collider: Some(
                                ColliderSpawn {
                                    mesh: icons.sphere,
                                    hidden: true,
                                    select_parent: ent.id,
                                },
                            ),
                            editor_only_layer: true,
                        },
                        ProxyVisual::Object { mesh, material } => ProxySpawn {
                            subject: ent.id,
                            visual: ProxyVisual::Object { mesh, material },
                            select_parent: Some(ent.id),
                            collider: None,
                            editor_only_layer: true,
                        },
                    };
                    out.push(sp);
                }
            },
            None => {},
        }
        proof {
            scene@.lemma_filter_map_take_succ(f_custom, i as int);
        }
        i = i + 1;
    }
    proof {
        assert(scene@.take(n as int) =~= scene@);
    }
    out
}

/// The proxy entity a spawn creates, as it then appears in the scene:
/// billboard proxies carry both proxy-renderable markers, object proxies
/// carry a plain mesh and material and so neither marker.
pub open spec fn proxy_entity_view(sp: ProxySpawn, pid: u64, cid: Option<u64>) -> EntityView {
    EntityView {
        id: pid,
        light: None,
        camera: false,
        editor_camera: false,
        prefab: false,
        transform: true,
        visibility: true,
        custom: None,
        billboard_mesh: sp.visual is Billboard,
        billboard_texture: sp.visual is Billboard,
        select_parent: sp.select_parent,
        children: match cid {
            Some(c) => seq![c],
            None => Seq::empty(),
        },
    }
}

/// The collision-volume entity a billboard spawn creates as the proxy's
/// child: hidden, markerless, carrying the back-reference to the subject.
pub open spec fn collider_entity_view(c: ColliderSpawn, cid: u64) -> EntityView {
    EntityView {
        id: cid,
        light: None,
        camera: false,
        editor_camera: false,
        prefab: false,
        transform: true,
        visibility: true,
        custom: None,
        billboard_mesh: false,
        billboard_texture: false,
        select_parent: Some(c.select_parent),
        children: Seq::empty(),
    }
}

/// `e` with one more direct child.
pub open spec fn add_child(e: EntityView, cid: u64) -> EntityView {
    EntityView { children: e.children.push(cid), ..e }
}

/// How many entities one spawn creates: the proxy, plus the collision child
/// under billboard proxies.
pub open spec fn spawn_width(sp: ProxySpawn) -> int {
    if sp.collider is Some {
        2
    } else {
        1
    }
}

/// One spawn applied to the scene: every entity named as the subject gains
/// the new proxy as a child, and the proxy subtree's entities are appended,
/// named `next` (and `next + 1` for the collision child).
pub open spec fn apply_one(s: Seq<EntityView>, sp: ProxySpawn, next: u64) -> Seq<EntityView> {
    let parented = Seq::new(
        s.len(),
        |i: int| if s[i].id == sp.subject {
            add_child(s[i], next)
        } else {
            s[i]
        },
    );
    match sp.collider {
        Some(c) => parented.push(proxy_entity_view(sp, next, Some((next + 1) as u64))).push(
            collider_entity_view(c, (next + 1) as u64),
        ),
        None => parented.push(proxy_entity_view(sp, next, None)),
    }
}

/// The first id free after applying one spawn starting at `next`.
pub open spec fn next_after(next: u64, sp: ProxySpawn) -> u64 {
    (next + spawn_width(sp)) as u64
}

/// A whole spawn plan applied in order, naming new entities from `next` up.
pub open spec fn apply_spawns_spec(
    s: Seq<EntityView>,
    spawns: Seq<ProxySpawn>,
    next: u64,
) -> Seq<EntityView>
    decreases spawns.len(),
{
    if spawns.len() == 0 {
        s
    } else {
        apply_spawns_spec(
            apply_one(s, spawns[0], next),
            spawns.drop_first(),
            next_after(next, spawns[0]),
        )
    }
}

/// Apply a spawn plan to the scene snapshot, as the host's deferred command
/// queue would: each proxy subtree is spawned and parented under its subject.
/// New entities are named `next_id` upward, which must be fresh.
pub fn apply_spawns(scene: &mut Scene, spawns: &Vec<ProxySpawn>, next_id: u64)
    requires
        wf(old(scene)@),
        forall|i: int| 0 <= i < old(scene)@.len() ==> old(scene)@[i].id < next_id,
        next_id + 2 * spawns@.len() <= u64::MAX,
    ensures
        final(scene)@ == apply_spawns_spec(old(scene)@, spawns@, next_id),
{
    let m: usize = spawns.len();
    let mut k: usize = 0;
    let mut next: u64 = next_id;
    proof {
        assert(spawns@.skip(0) =~= spawns@);
    }
    while k < m
        invariant
            k <= m,
            m == spawns@.len(),
            wf(scene@),
            forall|i: int| 0 <= i < scene@.len() ==> scene@[i].id < next,
            next + 2 * (m - k) <= u64::MAX,
            apply_spawns_spec(old(scene)@, spawns@, next_id) == apply_spawns_spec(
                scene@,
                spawns@.skip(k as int),
                next,
            ),
        decreases m - k,
    {
        let ghost pre = scene@;
        let sp = spawns[k];
        let pid = next;
        match scene.find(sp.subject) {
            Some(j) => {
                let ent = &mut scene.entities[j];
                ent.children.push(pid);
                proof {
                    assert forall|i: int| 0 <= i < pre.len() implies scene@[i] == (if pre[i].id
                        == sp.subject {
                        add_child(pre[i], pid)
                    } else {
                        pre[i]
                    }) by {
                        if i != j as int {
                            assert(pre[i].id != sp.subject);
                        }
                    }
                }
            },
            None => {},
        }
        let ghost parented = scene@;
        proof {
            assert(parented =~= Seq::new(
                pre.len(),
                |i: int| if pre[i].id == sp.subject {
                    add_child(pre[i], pid)
                } else {
                    pre[i]
                },
            ));
        }
        match sp.collider {
            Some(c) => {
                let mut ch: Vec<u64> = Vec::new();
                ch.push(pid + 1);
                scene.entities.push(
                    SceneEntity {
                        id: pid,
                        light: None,
                        camera: false,
                        editor_camera: false,
                        prefab: false,
                        transform: true,
                        visibility: true,
                        custom: None,
                        billboard_mesh: matches!(sp.visual, ProxyVisual::Billboard { .. }),
                        billboard_texture: matches!(sp.visual, ProxyVisual::Billboard { .. }),
                        select_parent: sp.select_parent,
                        children: ch,
                    },
                );
                scene.entities.push(
                    SceneEntity {
                        id: pid + 1,
                        light: None,
                        camera: false,
                        editor_camera: false,
                        prefab: false,
                        transform: true,
                        visibility: true,
                        custom: None,
                        billboard_mesh: false,
                        billboard_texture: false,
                        select_parent: Some(c.select_parent),
                        children: Vec::new(),
                    },
                );
                next = next + 2;
                proof {
                    assert(scene@ =~= parented.push(
                        proxy_entity_view(sp, pid, Some((pid + 1) as u64)),
                    ).push(collider_entity_view(c, (pid + 1) as u64)));
                }
            },
            None => {
                scene.entities.push(
                    SceneEntity {
                        id: pid,
                        light: None,
                        camera: false,
                        editor_camera: false,
                        prefab: false,
                        transform: true,
                        visibility: true,
                        custom: None,
                        billboard_mesh: matches!(sp.visual, ProxyVisual::Billboard { .. }),
                        billboard_texture: matches!(sp.visual, ProxyVisual::Billboard { .. }),
                        select_parent: sp.select_parent,
                        children: Vec::new(),
                    },
                );
                next = next + 1;
                proof {
                    assert(scene@ =~= parented.push(proxy_entity_view(sp, pid, None)));
                }
            },
        }
        proof {
            assert(scene@ == apply_one(pre, sp, pid));
            assert(spawns@.skip(k as int)[0] == spawns@[k as int]);
            assert(spawns@.skip(k as int).drop_first() =~= spawns@.skip(k as int + 1));
            assert(apply_spawns_spec(pre, spawns@.skip(k as int), pid) == apply_spawns_spec(
                scene@,
                spawns@.skip(k as int + 1),
                next,
            ));
        }
        k = k + 1;
    }
    proof {
        assert(spawns@.skip(m as int).len() == 0);
    }
}

} // verus!

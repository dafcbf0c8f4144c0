use meshless_visualizer::assets::resolve_sphere_mesh;
use meshless_visualizer::model::{
    CustomMeshless, EditorIconAssets, ImageHandle, MaterialHandle, MeshHandle, MeshlessModel,
};
use meshless_visualizer::reconcile::{
    MaterialChoice, MeshChoice, ProxyVisual, TextureChoice, apply_spawns, resolve_custom_visual,
    visualize_custom_meshless, visualize_meshless,
};
use meshless_visualizer::scene::{LightKind, Scene, SceneEntity};

fn icons() -> EditorIconAssets {
    EditorIconAssets {
        unknown: ImageHandle { id: 10 },
        directional: ImageHandle { id: 11 },
        point: ImageHandle { id: 12 },
        spot: ImageHandle { id: 13 },
        camera: ImageHandle { id: 14 },
        square: MeshHandle { id: 20 },
        sphere: MeshHandle { id: 21 },
    }
}

fn blank_entity(id: u64) -> SceneEntity {
    SceneEntity {
        id,
        light: None,
        camera: false,
        editor_camera: false,
        prefab: false,
        transform: false,
        visibility: false,
        custom: None,
        billboard_mesh: false,
        billboard_texture: false,
        select_parent: None,
        children: Vec::new(),
    }
}

fn light_entity(id: u64, kind: LightKind) -> SceneEntity {
    let mut e = blank_entity(id);
    e.light = Some(kind);
    e.prefab = true;
    e.transform = true;
    e.visibility = true;
    e
}

fn camera_entity(id: u64) -> SceneEntity {
    let mut e = blank_entity(id);
    e.camera = true;
    e.prefab = true;
    e.transform = true;
    e.visibility = true;
    e
}

fn custom_entity(id: u64, visual: MeshlessModel) -> SceneEntity {
    let mut e = blank_entity(id);
    e.custom = Some(CustomMeshless { visual });
    e
}

#[test]
fn light_icons_by_kind() {
    let scene = Scene {
        entities: vec![
            light_entity(1, LightKind::Directional),
            light_entity(2, LightKind::Spot),
            light_entity(3, LightKind::Point),
        ],
    };
    let spawns = visualize_meshless(&scene, &icons());
    assert_eq!(spawns.len(), 3);
    let expect = [
        (1u64, icons().directional),
        (2u64, icons().spot),
        (3u64, icons().point),
    ];
    for (sp, (subject, image)) in spawns.iter().zip(expect.iter()) {
        assert_eq!(sp.subject, *subject);
        assert!(sp.editor_only_layer);
        assert_eq!(sp.select_parent, None);
        match sp.visual {
            ProxyVisual::Billboard { mesh, texture } => {
                assert_eq!(mesh, MeshChoice::Handle(icons().square));
                assert_eq!(texture, TextureChoice::Handle(*image));
            }
            _ => panic!("light proxies must be billboards"),
        }
        let collider = sp.collider.expect("billboard proxies carry a collision child");
        assert_eq!(collider.mesh, icons().sphere);
        assert!(collider.hidden);
        assert_eq!(collider.select_parent, *subject);
    }
}

#[test]
fn camera_gets_camera_icon() {
    let scene = Scene { entities: vec![camera_entity(7)] };
    let spawns = visualize_meshless(&scene, &icons());
    assert_eq!(spawns.len(), 1);
    match spawns[0].visual {
        ProxyVisual::Billboard { texture, .. } => {
            assert_eq!(texture, TextureChoice::Handle(icons().camera));
        }
        _ => panic!("camera proxies must be billboards"),
    }
}

#[test]
fn editor_camera_is_skipped() {
    let mut cam = camera_entity(7);
    cam.editor_camera = true;
    let scene = Scene { entities: vec![cam] };
    assert_eq!(visualize_meshless(&scene, &icons()).len(), 0);
}

#[test]
fn non_prefab_light_is_skipped() {
    let mut light = light_entity(1, LightKind::Point);
    light.prefab = false;
    let scene = Scene { entities: vec![light] };
    assert_eq!(visualize_meshless(&scene, &icons()).len(), 0);
}

#[test]
fn unrelated_children_still_get_proxy() {
    let mut light = light_entity(1, LightKind::Spot);
    light.children = vec![2];
    let mut unrelated = blank_entity(2);
    unrelated.select_parent = Some(1);
    let scene = Scene { entities: vec![light, unrelated] };
    let spawns = visualize_meshless(&scene, &icons());
    assert_eq!(spawns.len(), 1);
    assert_eq!(spawns[0].subject, 1);
}

#[test]
fn proxied_subject_is_left_alone() {
    let mut light = light_entity(1, LightKind::Spot);
    light.children = vec![2];
    let mut proxy = blank_entity(2);
    proxy.billboard_mesh = true;
    proxy.billboard_texture = true;
    let scene = Scene { entities: vec![light, proxy] };
    assert_eq!(visualize_meshless(&scene, &icons()).len(), 0);
}

#[test]
fn default_billboard_substitution() {
    let v = MeshlessModel::Billboard { mesh: None, texture: None };
    match resolve_custom_visual(&v, &icons()) {
        ProxyVisual::Billboard { mesh, texture } => {
            assert_eq!(mesh, MeshChoice::DefaultQuad);
            assert_eq!(texture, TextureChoice::DefaultUnknownIcon);
        }
        _ => panic!("billboard declarations resolve to billboards"),
    }
}

#[test]
fn billboard_with_texture_keeps_default_quad() {
    let tex = ImageHandle { id: 77 };
    let v = MeshlessModel::Billboard { mesh: None, texture: Some(tex) };
    match resolve_custom_visual(&v, &icons()) {
        ProxyVisual::Billboard { mesh, texture } => {
            assert_eq!(mesh, MeshChoice::DefaultQuad);
            assert_eq!(texture, TextureChoice::Handle(tex));
        }
        _ => panic!("billboard declarations resolve to billboards"),
    }
}

#[test]
fn default_object_substitution() {
    let v = MeshlessModel::Object { mesh: None, material: None };
    match resolve_custom_visual(&v, &icons()) {
        ProxyVisual::Object { mesh, material } => {
            assert_eq!(mesh, icons().sphere);
            assert_eq!(material, MaterialChoice::DefaultUnlitWhite);
        }
        _ => panic!("object declarations resolve to objects"),
    }
}

#[test]
fn supplied_object_fields_are_kept() {
    let m = MeshHandle { id: 80 };
    let mat = MaterialHandle { id: 81 };
    let v = MeshlessModel::Object { mesh: Some(m), material: Some(mat) };
    match resolve_custom_visual(&v, &icons()) {
        ProxyVisual::Object { mesh, material } => {
            assert_eq!(mesh, m);
            assert_eq!(material, MaterialChoice::Handle(mat));
        }
        _ => panic!("object declarations resolve to objects"),
    }
}

#[test]
fn meshless_model_default_is_bare_billboard() {
    let v = MeshlessModel::default();
    assert_eq!(v, MeshlessModel::Billboard { mesh: None, texture: None });
}

#[test]
fn object_proxy_routes_selection_through_itself() {
    let scene = Scene {
        entities: vec![custom_entity(5, MeshlessModel::Object { mesh: None, material: None })],
    };
    let spawns = visualize_custom_meshless(&scene, &icons());
    assert_eq!(spawns.len(), 1);
    assert_eq!(spawns[0].select_parent, Some(5));
    assert!(spawns[0].collider.is_none());
}

#[test]
fn scenario_three_subjects_two_rounds() {
    let mut scene = Scene {
        entities: vec![
            light_entity(1, LightKind::Directional),
            camera_entity(2),
            custom_entity(3, MeshlessModel::default()),
        ],
    };
    let ic = icons();
    let mut plan = visualize_meshless(&scene, &ic);
    plan.extend(visualize_custom_meshless(&scene, &ic));
    assert_eq!(plan.len(), 3);
    apply_spawns(&mut scene, &plan, 100);
    // each subject now holds exactly one proxy subtree, correctly parented
    assert_eq!(scene.entities.len(), 9);
    for subject in 0..3usize {
        assert_eq!(scene.entities[subject].children.len(), 1);
        let pid = scene.entities[subject].children[0];
        let proxy = scene
            .entities
            .iter()
            .find(|e| e.id == pid)
            .expect("proxy entity exists");
        assert!(proxy.billboard_mesh && proxy.billboard_texture);
        let cid = proxy.children[0];
        let collider = scene
            .entities
            .iter()
            .find(|e| e.id == cid)
            .expect("collision child exists");
        assert_eq!(collider.select_parent, Some(scene.entities[subject].id));
    }
    // a second round asks for nothing more
    assert_eq!(visualize_meshless(&scene, &ic).len(), 0);
    assert_eq!(visualize_custom_meshless(&scene, &ic).len(), 0);
    assert_eq!(scene.entities.len(), 9);
}

#[test]
fn object_proxy_is_not_recognized_by_the_structural_check() {
    // The check looks for billboard-marker children only, and an object
    // proxy carries no such marker, so its subject is spawned for again.
    let mut scene = Scene {
        entities: vec![custom_entity(5, MeshlessModel::Object { mesh: None, material: None })],
    };
    let ic = icons();
    let plan = visualize_custom_meshless(&scene, &ic);
    assert_eq!(plan.len(), 1);
    apply_spawns(&mut scene, &plan, 100);
    assert_eq!(visualize_custom_meshless(&scene, &ic).len(), 1);
}

#[test]
fn sphere_fallback_always_yields_a_mesh() {
    let fallback = MeshHandle { id: 42 };
    assert_eq!(resolve_sphere_mesh(None, fallback), fallback);
    let built = MeshHandle { id: 43 };
    assert_eq!(resolve_sphere_mesh(Some(built), fallback), built);
}

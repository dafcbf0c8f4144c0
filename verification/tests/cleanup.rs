use meshless_visualizer::cleanup::{apply_cleanup, clean_meshless};
use meshless_visualizer::model::{
    CustomMeshless, EditorIconAssets, ImageHandle, MeshHandle, MeshlessModel,
};
use meshless_visualizer::reconcile::{visualize_custom_meshless, visualize_meshless, apply_spawns};
use meshless_visualizer::scene::{LightKind, Scene, SceneEntity};

fn cleanup_icons() -> EditorIconAssets {
    EditorIconAssets {
        unknown: ImageHandle { id: 10 },
        directional: ImageHandle { id: 11 },
        point: ImageHandle { id: 12 },
        spot: ImageHandle { id: 13 },
        camera: ImageHandle { id: 14 },
        square: MeshHandle { id: 20 },
        sphere: MeshHandle { id: 21 },
    }
}

fn bare_entity(id: u64) -> SceneEntity {
    SceneEntity {
        id,
        light: None,
        camera: false,
        editor_camera: false,
        prefab: false,
        transform: false,
        visibility: false,
        custom: None,
        billboard_mesh: false,
        billboard_texture: false,
        select_parent: None,
        children: Vec::new(),
    }
}

#[test]
fn cleanup_lists_every_marker_carrier() {
    let mut a = bare_entity(1);
    a.billboard_mesh = true;
    let mut b = bare_entity(2);
    b.billboard_texture = true;
    let c = bare_entity(3);
    let scene = Scene { entities: vec![a, b, c] };
    assert_eq!(clean_meshless(&scene), vec![1, 2]);
}

#[test]
fn cleanup_of_clean_scene_is_empty() {
    let scene = Scene { entities: vec![bare_entity(1), bare_entity(2)] };
    assert_eq!(clean_meshless(&scene), Vec::<u64>::new());
}

#[test]
fn cleanup_completeness_after_reconciliation() {
    let mut light = bare_entity(1);
    light.light = Some(LightKind::Point);
    light.prefab = true;
    light.transform = true;
    light.visibility = true;
    let mut cam = bare_entity(2);
    cam.camera = true;
    cam.prefab = true;
    cam.transform = true;
    cam.visibility = true;
    let mut custom = bare_entity(3);
    custom.custom = Some(CustomMeshless { visual: MeshlessModel::default() });
    let mut scene = Scene { entities: vec![light, cam, custom] };
    let ic = cleanup_icons();
    let mut plan = visualize_meshless(&scene, &ic);
    plan.extend(visualize_custom_meshless(&scene, &ic));
    apply_spawns(&mut scene, &plan, 50);
    let roots = clean_meshless(&scene);
    assert_eq!(roots.len(), 3);
    let scene = apply_cleanup(scene, &roots);
    assert!(scene.entities.iter().all(|e| !e.billboard_mesh && !e.billboard_texture));
    assert_eq!(clean_meshless(&scene), Vec::<u64>::new());
}

#[test]
fn cleanup_removal_keeps_the_rest_in_order() {
    let mut p1 = bare_entity(4);
    p1.billboard_mesh = true;
    let scene = Scene { entities: vec![bare_entity(1), p1, bare_entity(2)] };
    let roots = clean_meshless(&scene);
    let scene = apply_cleanup(scene, &roots);
    let ids: Vec<u64> = scene.entities.iter().map(|e| e.id).collect();
    assert_eq!(ids, vec![1, 2]);
}

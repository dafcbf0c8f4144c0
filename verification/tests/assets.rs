use meshless_visualizer::assets::{
    BuildAction, EditorIconAssetCollection, EditorIconAssetType, FALLBACK_SPHERE_RADIUS_BITS,
    IconKey,
};

fn image_entry(path: &str) -> EditorIconAssetType {
    EditorIconAssetType::Image { path: path.to_string() }
}

fn full_manifest() -> EditorIconAssetCollection {
    EditorIconAssetCollection {
        entries: vec![
            (IconKey::Unknown, image_entry("icons/unknown.png")),
            (IconKey::Directional, image_entry("icons/directional.png")),
            (IconKey::Point, image_entry("icons/point.png")),
            (IconKey::Spot, image_entry("icons/spot.png")),
            (IconKey::Camera, image_entry("icons/camera.png")),
            (
                IconKey::Square,
                EditorIconAssetType::Quad { width_bits: 0x4000_0000, height_bits: 0x4000_0000 },
            ),
            (IconKey::Sphere, EditorIconAssetType::Sphere { radius_bits: 0x3F00_0000 }),
        ],
    }
}

#[test]
fn complete_manifest_validates() {
    assert_eq!(full_manifest().validate(), Ok(()));
}

#[test]
fn missing_key_is_reported() {
    let mut manifest = full_manifest();
    manifest.entries.retain(|(k, _)| *k != IconKey::Spot);
    assert_eq!(manifest.validate(), Err(IconKey::Spot));
}

#[test]
fn first_missing_key_wins() {
    let manifest = EditorIconAssetCollection { entries: Vec::new() };
    assert_eq!(manifest.validate(), Err(IconKey::Unknown));
}

#[test]
fn find_returns_first_entry_for_key() {
    let mut manifest = full_manifest();
    manifest.entries.push((IconKey::Camera, image_entry("icons/other-camera.png")));
    match manifest.find(IconKey::Camera) {
        Some(EditorIconAssetType::Image { path }) => assert_eq!(path, "icons/camera.png"),
        _ => panic!("camera entry should be an image"),
    }
    assert!(manifest.find(IconKey::Sphere).is_some());
}

#[test]
fn find_misses_absent_key() {
    let manifest = EditorIconAssetCollection {
        entries: vec![(IconKey::Unknown, image_entry("icons/unknown.png"))],
    };
    assert!(manifest.find(IconKey::Camera).is_none());
}

#[test]
fn image_entries_request_a_load() {
    let entry = image_entry("icons/point.png");
    assert_eq!(entry.load(), Some(&"icons/point.png".to_string()));
}

#[test]
fn mesh_entries_request_no_load() {
    let quad = EditorIconAssetType::Quad { width_bits: 1, height_bits: 2 };
    let sphere = EditorIconAssetType::Sphere { radius_bits: 3 };
    assert_eq!(quad.load(), None);
    assert_eq!(sphere.load(), None);
}

#[test]
fn build_actions_follow_entry_kind() {
    match image_entry("icons/spot.png").build() {
        BuildAction::LoadImage { path } => assert_eq!(path, "icons/spot.png"),
        _ => panic!("image entries load an image"),
    }
    match (EditorIconAssetType::Quad { width_bits: 5, height_bits: 6 }).build() {
        BuildAction::CreateQuad { width_bits, height_bits } => {
            assert_eq!(width_bits, 5);
            assert_eq!(height_bits, 6);
        }
        _ => panic!("quad entries create a quad"),
    }
    match (EditorIconAssetType::Sphere { radius_bits: 0 }).build() {
        BuildAction::CreateSphere { radius_bits } => assert_eq!(radius_bits, 0),
        _ => panic!("sphere entries create a sphere"),
    }
}

#[test]
fn fallback_radius_is_three_quarters() {
    assert_eq!(FALLBACK_SPHERE_RADIUS_BITS, 0.75f32.to_bits());
}

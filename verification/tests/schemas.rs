//! Schemas and how messages are routed to them.

use rapid_driver::engine::recorder::schemas::{all_schemas, msg_type_to_schema_and_suffix};

#[test]
fn maps_image_type() {
    assert_eq!(
        msg_type_to_schema_and_suffix("image"),
        Some(("foxglove.CompressedImage", "/image"))
    );
}

#[test]
fn maps_iphone_pose_type() {
    assert_eq!(
        msg_type_to_schema_and_suffix("iphone_pose"),
        Some(("foxglove.PoseInFrame", "/pose"))
    );
}

#[test]
fn registers_compressed_image_schema() {
    let has_image = all_schemas()
        .iter()
        .any(|(name, _)| *name == "foxglove.CompressedImage");
    assert!(has_image, "missing foxglove.CompressedImage schema registration");
}

#[test]
fn registers_iphone_pose_schema() {
    let has_pose = all_schemas()
        .iter()
        .any(|(name, _)| *name == "foxglove.PoseInFrame");
    assert!(has_pose, "missing foxglove.PoseInFrame schema registration");
}

#[test]
fn every_routed_schema_is_registered() {
    for kind in ["motor", "video", "image", "iphone_pose", "gopro_meta"] {
        if let Some((schema, suffix)) = msg_type_to_schema_and_suffix(kind) {
            assert!(suffix.starts_with('/'));
            assert!(all_schemas().iter().any(|(name, _)| *name == schema), "{}", kind);
        }
    }
    assert_eq!(msg_type_to_schema_and_suffix("unheard_of"), None);
}

#[test]
fn schemas_are_json() {
    for (name, text) in all_schemas() {
        let value: serde_json::Value = serde_json::from_str(text).unwrap();
        assert_eq!(value["type"], "object", "{}", name);
    }
}

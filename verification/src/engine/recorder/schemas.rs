//! The JSON schemas of recorded messages, and which message goes where.

use vstd::prelude::*;
use crate::text::str_eq;

verus! {

/// JSON schema of motor state messages.
pub const MOTOR_SCHEMA: &'static str = r#"{
  "type": "object",
  "properties": {
    "type": {"type": "string"},
    "ts": {"type": "number"},
    "pos": {"type": "array", "items": {"type": "number"}},
    "vel": {"type": "array", "items": {"type": "number"}},
    "tau": {"type": "array", "items": {"type": "number"}},
    "mode": {"type": "array", "items": {"type": "integer"}},
    "enabled": {"type": "array", "items": {"type": "boolean"}},
    "fault": {"type": "array", "items": {"type": "integer"}}
  }
}"#;

/// JSON schema of video packet messages.
pub const VIDEO_SCHEMA: &'static str = r#"{
  "type": "object",
  "properties": {
    "type": {"type": "string"},
    "ts": {"type": "number"},
    "data": {"type": "string", "contentEncoding": "base64"},
    "codec": {"type": "string"},
    "is_keyframe": {"type": "boolean"},
    "width": {"type": "integer"},
    "height": {"type": "integer"},
    "frame_index": {"type": "integer"},
    "pts": {"type": "number"}
  }
}"#;

/// JSON schema of image packet messages.
pub const IMAGE_SCHEMA: &'static str = r#"{
  "type": "object",
  "properties": {
    "timestamp": {
      "type": "object",
      "properties": {
        "sec": {"type": "integer"},
        "nsec": {"type": "integer"}
      },
      "required": ["sec", "nsec"]
    },
    "frame_id": {"type": "string"},
    "format": {"type": "string"},
    "data": {"type": "string", "contentEncoding": "base64"}
  },
  "required": ["timestamp", "frame_id", "format", "data"]
}"#;

/// JSON schema of iPhone pose messages.
pub const IPHONE_POSE_SCHEMA: &'static str = r#"{
  "type": "object",
  "properties": {
    "timestamp": {
      "type": "object",
      "properties": {
        "sec": {"type": "integer"},
        "nsec": {"type": "integer"}
      },
      "required": ["sec", "nsec"]
    },
    "frame_id": {"type": "string"},
    "pose": {
      "type": "object",
      "properties": {
        "position": {
          "type": "object",
          "properties": {
            "x": {"type": "number"},
            "y": {"type": "number"},
            "z": {"type": "number"}
          },
          "required": ["x", "y", "z"]
        },
        "orientation": {
          "type": "object",
          "properties": {
            "x": {"type": "number"},
            "y": {"type": "number"},
            "z": {"type": "number"},
            "w": {"type": "number"}
          },
          "required": ["x", "y", "z", "w"]
        }
      },
      "required": ["position", "orientation"]
    }
  },
  "required": ["timestamp", "frame_id", "pose"]
}"#;

/// JSON schema of GoPro metadata messages.
pub const GOPRO_META_SCHEMA: &'static str = r#"{
  "type": "object",
  "properties": {
    "type": {"type": "string"},
    "ts": {"type": "number"},
    "run_id": {"type": "string"},
    "episode": {"type": "integer"},
    "session_id": {"type": "string"}
  }
}"#;

/// JSON schema of hardware mask messages.
pub const HARDWARE_MASK_SCHEMA: &'static str = r#"{
  "type": "object",
  "properties": {
    "type": {"type": "string"},
    "ts": {"type": "number"},
    "mask": {"type": "integer"},
    "sequence": {"type": "integer"},
    "device_count": {"type": "integer"},
    "devices": {"type": "object", "additionalProperties": {"type": "boolean"}}
  }
}"#;

/// Name and JSON schema of motor state messages.
pub fn motor_schema() -> (r: (&'static str, &'static str))
    ensures
        r.0@ == "zumi.MotorState"@,
        r.1@ == MOTOR_SCHEMA@,
{
    ("zumi.MotorState", MOTOR_SCHEMA)
}

/// Name and JSON schema of video packet messages.
pub fn video_schema() -> (r: (&'static str, &'static str))
    ensures
        r.0@ == "zumi.VideoPacket"@,
        r.1@ == VIDEO_SCHEMA@,
{
    ("zumi.VideoPacket", VIDEO_SCHEMA)
}

/// Name and JSON schema of image packet messages.
pub fn image_schema() -> (r: (&'static str, &'static str))
    ensures
        r.0@ == "foxglove.CompressedImage"@,
        r.1@ == IMAGE_SCHEMA@,
{
    ("foxglove.CompressedImage", IMAGE_SCHEMA)
}

/// Name and JSON schema of iPhone pose messages.
pub fn iphone_pose_schema() -> (r: (&'static str, &'static str))
    ensures
        r.0@ == "foxglove.PoseInFrame"@,
        r.1@ == IPHONE_POSE_SCHEMA@,
{
    ("foxglove.PoseInFrame", IPHONE_POSE_SCHEMA)
}

/// Name and JSON schema of GoPro metadata messages.
pub fn gopro_meta_schema() -> (r: (&'static str, &'static str))
    ensures
        r.0@ == "zumi.GoProMetadata"@,
        r.1@ == GOPRO_META_SCHEMA@,
{
    ("zumi.GoProMetadata", GOPRO_META_SCHEMA)
}

/// Name and JSON schema of hardware mask messages.
pub fn hardware_mask_schema() -> (r: (&'static str, &'static str))
    ensures
        r.0@ == "zumi.HardwareMask"@,
        r.1@ == HARDWARE_MASK_SCHEMA@,
{
    ("zumi.HardwareMask", HARDWARE_MASK_SCHEMA)
}

/// The schema and the end of the topic of a type of message.
pub open spec fn route(msg_type: Seq<char>) -> Option<(Seq<char>, Seq<char>)> {
    if msg_type == "motor"@ {
        Some(("zumi.MotorState"@, "/state"@))
    } else if msg_type == "video"@ {
        Some(("zumi.VideoPacket"@, "/video"@))
    } else if msg_type == "image"@ {
        Some(("foxglove.CompressedImage"@, "/image"@))
    } else if msg_type == "iphone_pose"@ {
        Some(("foxglove.PoseInFrame"@, "/pose"@))
    } else if msg_type == "recording_start"@ || msg_type == "recording_stop"@ {
        Some(("zumi.GoProMetadata"@, "/metadata"@))
    } else {
        None
    }
}

/// Finds the name of the schema and the end of the topic for a type of message. An unknown type has
/// neither.
pub fn msg_type_to_schema_and_suffix(msg_type: &str) -> (r: Option<(&'static str, &'static str)>)
    ensures
        r is Some <==> route(msg_type@) is Some,
        r matches Some(found) ==> route(msg_type@) == Some((found.0@, found.1@)),
{
    if str_eq(msg_type, "motor") {
        Some(("zumi.MotorState", "/state"))
    } else if str_eq(msg_type, "video") {
        Some(("zumi.VideoPacket", "/video"))
    } else if str_eq(msg_type, "image") {
        Some(("foxglove.CompressedImage", "/image"))
    } else if str_eq(msg_type, "iphone_pose") {
        Some(("foxglove.PoseInFrame", "/pose"))
    } else if str_eq(msg_type, "recording_start") || str_eq(msg_type, "recording_stop") {
        Some(("zumi.GoProMetadata", "/metadata"))
    } else {
        None
    }
}

/// The names and texts of all schemas, in the order in which they are registered.
pub open spec fn schema_list() -> Seq<(Seq<char>, Seq<char>)> {
    seq![
        ("zumi.MotorState"@, MOTOR_SCHEMA@),
        ("zumi.VideoPacket"@, VIDEO_SCHEMA@),
        ("foxglove.CompressedImage"@, IMAGE_SCHEMA@),
        ("foxglove.PoseInFrame"@, IPHONE_POSE_SCHEMA@),
        ("zumi.GoProMetadata"@, GOPRO_META_SCHEMA@),
        ("zumi.HardwareMask"@, HARDWARE_MASK_SCHEMA@),
    ]
}

/// All schemas, in the order in which they are registered.
pub fn all_schemas() -> (r: Vec<(&'static str, &'static str)>)
    ensures
        r@.len() == schema_list().len(),
        forall|i: int| 0 <= i < r@.len() ==> (#[trigger] r@[i].0@, r@[i].1@) == schema_list()[i],
{
    vec![
        motor_schema(),
        video_schema(),
        image_schema(),
        iphone_pose_schema(),
        gopro_meta_schema(),
        hardware_mask_schema(),
    ]
}

/// Whether a schema of that name is registered.
pub open spec fn is_registered(name: Seq<char>) -> bool {
    exists|i: int| 0 <= i < schema_list().len() && (#[trigger] schema_list()[i]).0 == name
}

/// Every message that is recorded, and the hardware mask, has a registered schema.
pub proof fn routed_schemas_are_registered(msg_type: Seq<char>)
    ensures
        route(msg_type) matches Some(found) ==> is_registered(found.0),
        is_registered("zumi.HardwareMask"@),
{
    let list = schema_list();
    assert(list.len() == 6);
    assert(is_registered(list[0].0));
    assert(is_registered(list[1].0));
    assert(is_registered(list[2].0));
    assert(is_registered(list[3].0));
    assert(is_registered(list[4].0));
    assert(is_registered(list[5].0));
}

/// Each type of message has a schema and a topic of its own; the two messages about recordings
/// share theirs.
pub proof fn types_have_their_schemas(msg_type: Seq<char>)
    ensures
        route("motor"@) == Some(("zumi.MotorState"@, "/state"@)),
        route("video"@) == Some(("zumi.VideoPacket"@, "/video"@)),
        route("image"@) == Some(("foxglove.CompressedImage"@, "/image"@)),
        route("iphone_pose"@) == Some(("foxglove.PoseInFrame"@, "/pose"@)),
        route("recording_start"@) == Some(("zumi.GoProMetadata"@, "/metadata"@)),
        route("recording_stop"@) == route("recording_start"@),
        route(msg_type) is Some ==> msg_type == "motor"@ || msg_type == "video"@ || msg_type
            == "image"@ || msg_type == "iphone_pose"@ || msg_type == "recording_start"@ || msg_type
            == "recording_stop"@,
{
    reveal_strlit("motor");
    reveal_strlit("video");
    reveal_strlit("image");
    reveal_strlit("iphone_pose");
    reveal_strlit("recording_start");
    reveal_strlit("recording_stop");
    assert("motor"@[0] == 'm' && "video"@[0] == 'v' && "image"@[0] == 'i');
    assert("motor"@.len() == 5 && "video"@.len() == 5 && "image"@.len() == 5 && "iphone_pose"@.len()
        == 11 && "recording_start"@.len() == 15 && "recording_stop"@.len() == 14);
}

/// No two types of messages but those about recordings share a schema or the end of a topic.
pub proof fn schemas_tell_types_apart(a: Seq<char>, b: Seq<char>)
    requires
        route(a) is Some,
        route(b) is Some,
        ({
            let x = route(a)->0;
            let y = route(b)->0;
            x.0 == y.0 || x.1 == y.1
        }),
    ensures
        a == b || (a == "recording_start"@ || a == "recording_stop"@) && (b == "recording_start"@
            || b == "recording_stop"@),
{
    reveal_strlit("zumi.MotorState");
    reveal_strlit("zumi.VideoPacket");
    reveal_strlit("foxglove.CompressedImage");
    reveal_strlit("foxglove.PoseInFrame");
    reveal_strlit("zumi.GoProMetadata");
    reveal_strlit("/state");
    reveal_strlit("/video");
    reveal_strlit("/image");
    reveal_strlit("/pose");
    reveal_strlit("/metadata");
    assert("zumi.MotorState"@.len() == 15 && "zumi.VideoPacket"@.len() == 16
        && "foxglove.CompressedImage"@.len() == 24 && "foxglove.PoseInFrame"@.len() == 20
        && "zumi.GoProMetadata"@.len() == 18);
    assert("/state"@[1] == 's' && "/video"@[1] == 'v' && "/image"@[1] == 'i' && "/pose"@[1] == 'p'
        && "/metadata"@[1] == 'm');
}

/// Six schemas are registered, under six different names.
pub proof fn schemas_have_different_names(i: int, j: int)
    requires
        0 <= i < j < schema_list().len(),
    ensures
        schema_list().len() == 6,
        schema_list()[i].0 != schema_list()[j].0,
        is_registered(schema_list()[i].0),
{
    reveal_strlit("zumi.HardwareMask");
    reveal_strlit("zumi.MotorState");
    reveal_strlit("zumi.VideoPacket");
    reveal_strlit("foxglove.CompressedImage");
    reveal_strlit("foxglove.PoseInFrame");
    reveal_strlit("zumi.GoProMetadata");
    assert("zumi.HardwareMask"@.len() == 17 && "zumi.MotorState"@.len() == 15
        && "zumi.VideoPacket"@.len() == 16 && "foxglove.CompressedImage"@.len() == 24
        && "foxglove.PoseInFrame"@.len() == 20 && "zumi.GoProMetadata"@.len() == 18);
}

/// Each schema is registered with its own text.
pub proof fn schemas_have_their_texts(i: int)
    requires
        0 <= i < schema_list().len(),
    ensures
        schema_list()[i].0 == "zumi.MotorState"@ ==> schema_list()[i].1 == MOTOR_SCHEMA@,
        schema_list()[i].0 == "zumi.VideoPacket"@ ==> schema_list()[i].1 == VIDEO_SCHEMA@,
        schema_list()[i].0 == "foxglove.CompressedImage"@ ==> schema_list()[i].1 == IMAGE_SCHEMA@,
        schema_list()[i].0 == "foxglove.PoseInFrame"@ ==> schema_list()[i].1 == IPHONE_POSE_SCHEMA@,
        schema_list()[i].0 == "zumi.GoProMetadata"@ ==> schema_list()[i].1 == GOPRO_META_SCHEMA@,
        schema_list()[i].0 == "zumi.HardwareMask"@ ==> schema_list()[i].1 == HARDWARE_MASK_SCHEMA@,
{
    reveal_strlit("zumi.HardwareMask");
    reveal_strlit("zumi.MotorState");
    reveal_strlit("zumi.VideoPacket");
    reveal_strlit("foxglove.CompressedImage");
    reveal_strlit("foxglove.PoseInFrame");
    reveal_strlit("zumi.GoProMetadata");
    assert("zumi.HardwareMask"@.len() == 17 && "zumi.MotorState"@.len() == 15
        && "zumi.VideoPacket"@.len() == 16 && "foxglove.CompressedImage"@.len() == 24
        && "foxglove.PoseInFrame"@.len() == 20 && "zumi.GoProMetadata"@.len() == 18);
}

} // verus!

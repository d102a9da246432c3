//! The engine: what happens to devices, their processes, recordings and replays.

pub mod attach;
pub mod command;
pub mod dispatch;
pub mod heartbeat;
pub mod lifecycle;
pub mod listing;
pub mod masks;
pub mod mcap_file;
pub mod pacing;
pub mod process;
pub mod recorder;
pub mod recording;
pub mod recordings;
pub mod replay;
pub mod sessions;
pub mod state;
pub mod status;
pub mod topic_bus;

//! The hardware mask: which bit stands for which device, and what readers of the mask see.

pub mod debug;
pub mod layout;
pub mod shm;

pub use layout::MaskLayout;

pub mod color;
pub mod text;
pub mod geometry;
pub mod effects;
pub mod workspace_capture;
pub mod freeze_overlay;
pub mod window_resolver;
pub mod virtual_pointer;

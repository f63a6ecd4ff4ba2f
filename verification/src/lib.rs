//! The engine's rendering core: GPU resources addressed by handles, render targets
//! selected by role, frames in flight, and the diagnostics log the editor shows.
pub mod context;
pub mod console;
pub mod conventions;
pub mod diagnostics;
pub mod editor;
pub mod frame;
pub mod gpu;
pub mod labels;
pub mod resource;
pub mod rhi;
pub mod scene_renderer;
pub mod slots;
pub mod surface;
pub mod target;

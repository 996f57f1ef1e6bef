//! Drawing into an image, and the choice of what a render call does.
pub mod config;
pub mod job;
pub mod shader_render;
pub mod traits;

pub use crate::render::config::{RasterizationConfig, RayTracingConfig, RenderConfig};
pub use crate::render::job::{select_job, CameraKind, RenderError, RenderJob, Technique};
pub use crate::render::shader_render::line;
pub use crate::render::traits::Render;

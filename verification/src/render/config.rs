use vstd::prelude::*;
use crate::shader::shader_config::ShaderConf;

verus! {

/// What a path-traced frame is rendered with.
pub struct RayTracingConfig {
    pub height: u32,
    pub width: u32,
    /// The number of bounces after which a ray gathers no more light.
    pub max_depth: u32,
    pub sample_per_pixel: u32,
}

/// What a rasterized frame is rendered with.
pub struct RasterizationConfig {
    pub height: u32,
    pub width: u32,
    pub shader_config: ShaderConf,
}

/// The configuration handed to a render call, for one technique or the other.
pub enum RenderConfig {
    Raytracing(RayTracingConfig),
    Rasterization(RasterizationConfig),
}

} // verus!

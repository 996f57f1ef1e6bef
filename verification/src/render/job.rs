use vstd::prelude::*;
use crate::render::config::{RasterizationConfig, RayTracingConfig, RenderConfig};

verus! {

/// How a scene is rendered.
#[derive(Clone, Copy, Debug, PartialEq, Eq, Structural)]
pub enum Technique {
    /// Rays are traced through a scene of hittable primitives.
    RayTracing,
    /// Meshes are projected and scan-converted.
    Rasterization,
}

/// What kind of camera a render call was given.
#[derive(Clone, Copy, Debug, PartialEq, Eq, Structural)]
pub enum CameraKind {
    /// A thin-lens camera, which generates rays.
    Exposure,
    /// A perspective camera, which carries a projection matrix.
    Perspective,
    /// Anything else.
    Other,
}

/// Why a render call was refused.
#[derive(Clone, Copy, Debug, PartialEq, Eq, Structural)]
pub enum RenderError {
    /// A ray-traced scene was given a rasterization configuration.
    RayTracingWrongConfig,
    /// A ray-traced scene was given a camera that generates no rays.
    RayTracingWrongCamera,
    /// A rasterized scene was given a camera without a projection.
    RasterizationWrongCamera,
    /// A rasterized scene was given a ray-tracing configuration.
    RasterizationWrongConfig,
}

/// The work that an accepted render call amounts to.
pub enum RenderJob {
    /// Path-trace the scene.
    RayTrace(RayTracingConfig),
    /// Rasterize the scene.
    Rasterize(RasterizationConfig),
}

impl RenderError {
    /// The text of `message`.
    pub open spec fn spec_message(self) -> Seq<char> {
        match self {
            RenderError::RayTracingWrongConfig => "wrong config type"@,
            RenderError::RayTracingWrongCamera =>
                "render ray tracing camera but not use ray tracing camera"@,
            RenderError::RasterizationWrongCamera => "wrong camera"@,
            RenderError::RasterizationWrongConfig => "wrong config"@,
        }
    }

    /// The fixed message that reports this refusal.
    pub fn message(&self) -> (text: &'static str)
        ensures
            text@ == self.spec_message(),
    {
        match self {
            RenderError::RayTracingWrongConfig => "wrong config type",
            RenderError::RayTracingWrongCamera =>
                "render ray tracing camera but not use ray tracing camera",
            RenderError::RasterizationWrongCamera => "wrong camera",
            RenderError::RasterizationWrongConfig => "wrong config",
        }
    }
}

/// What a render call amounts to.
///
/// Ray tracing asks for a ray-tracing configuration first and for a
/// thin-lens camera second; rasterization asks for a perspective camera
/// first and for a rasterization configuration second. The first demand that
/// is not met names the refusal.
pub open spec fn job_for(technique: Technique, camera: CameraKind, config: RenderConfig) -> Result<
    RenderJob,
    RenderError,
> {
    match technique {
        Technique::RayTracing => match config {
            RenderConfig::Rasterization(_) => Err(RenderError::RayTracingWrongConfig),
            RenderConfig::Raytracing(cfg) => if camera == CameraKind::Exposure {
                Ok(RenderJob::RayTrace(cfg))
            } else {
                Err(RenderError::RayTracingWrongCamera)
            },
        },
        Technique::Rasterization => if camera != CameraKind::Perspective {
            Err(RenderError::RasterizationWrongCamera)
        } else {
            match config {
                RenderConfig::Raytracing(_) => Err(RenderError::RasterizationWrongConfig),
                RenderConfig::Rasterization(cfg) => Ok(RenderJob::Rasterize(cfg)),
            }
        },
    }
}

/// Decides what a render call with this camera and configuration does: the
/// job to run, or the refusal to report.
pub fn select_job(technique: Technique, camera: CameraKind, config: RenderConfig) -> (r: Result<
    RenderJob,
    RenderError,
>)
    ensures
        r == job_for(technique, camera, config),
{
    match technique {
        Technique::RayTracing => {
            let cfg = match config {
                RenderConfig::Raytracing(rcfg) => rcfg,
                RenderConfig::Rasterization(_) => {
                    return Err(RenderError::RayTracingWrongConfig);
                },
            };
            match camera {
                CameraKind::Exposure => Ok(RenderJob::RayTrace(cfg)),
                _ => Err(RenderError::RayTracingWrongCamera),
            }
        },
        Technique::Rasterization => {
            match camera {
                CameraKind::Perspective => {},
                _ => {
                    return Err(RenderError::RasterizationWrongCamera);
                },
            }
            match config {
                RenderConfig::Raytracing(_) => Err(RenderError::RasterizationWrongConfig),
                RenderConfig::Rasterization(rcfg) => Ok(RenderJob::Rasterize(rcfg)),
            }
        },
    }
}

} // verus!

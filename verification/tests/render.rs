use softrender::render::{
    select_job, CameraKind, RasterizationConfig, RayTracingConfig, RenderConfig, RenderError,
    RenderJob, Technique,
};
use softrender::shader::ShaderConf;

fn ray_config() -> RenderConfig {
    RenderConfig::Raytracing(RayTracingConfig {
        height: 800,
        width: 1200,
        max_depth: 200,
        sample_per_pixel: 50,
    })
}

fn raster_config() -> RenderConfig {
    RenderConfig::Rasterization(RasterizationConfig {
        height: 512,
        width: 860,
        shader_config: ShaderConf::new(),
    })
}

fn refusal(technique: Technique, camera: CameraKind, config: RenderConfig) -> RenderError {
    match select_job(technique, camera, config) {
        Ok(_) => panic!("the call was accepted"),
        Err(e) => e,
    }
}

#[test]
fn shader_conf_starts_lit_and_textured_without_occlusion() {
    let conf = ShaderConf::new();
    assert!(conf.diff_light);
    assert!(conf.spec_light);
    assert!(conf.texture);
    assert!(conf.normals);
    assert!(!conf.occlusion);
}

#[test]
fn ray_tracing_with_its_camera_and_config_is_accepted() {
    match select_job(Technique::RayTracing, CameraKind::Exposure, ray_config()) {
        Ok(RenderJob::RayTrace(cfg)) => {
            assert_eq!(cfg.width, 1200);
            assert_eq!(cfg.height, 800);
            assert_eq!(cfg.max_depth, 200);
            assert_eq!(cfg.sample_per_pixel, 50);
        }
        _ => panic!("expected a ray-tracing job"),
    }
}

#[test]
fn rasterization_with_its_camera_and_config_is_accepted() {
    match select_job(Technique::Rasterization, CameraKind::Perspective, raster_config()) {
        Ok(RenderJob::Rasterize(cfg)) => {
            assert_eq!(cfg.width, 860);
            assert_eq!(cfg.height, 512);
            assert!(cfg.shader_config.texture);
            assert!(!cfg.shader_config.occlusion);
        }
        _ => panic!("expected a rasterization job"),
    }
}

#[test]
fn ray_tracing_refuses_a_rasterization_config() {
    let e = refusal(Technique::RayTracing, CameraKind::Exposure, raster_config());
    assert_eq!(e, RenderError::RayTracingWrongConfig);
    assert_eq!(e.message(), "wrong config type");
}

#[test]
fn ray_tracing_refuses_a_camera_without_rays() {
    let e = refusal(Technique::RayTracing, CameraKind::Perspective, ray_config());
    assert_eq!(e, RenderError::RayTracingWrongCamera);
    assert_eq!(e.message(), "render ray tracing camera but not use ray tracing camera");
    let e = refusal(Technique::RayTracing, CameraKind::Other, ray_config());
    assert_eq!(e, RenderError::RayTracingWrongCamera);
}

#[test]
fn ray_tracing_looks_at_the_config_before_the_camera() {
    let e = refusal(Technique::RayTracing, CameraKind::Other, raster_config());
    assert_eq!(e, RenderError::RayTracingWrongConfig);
    let e = refusal(Technique::RayTracing, CameraKind::Perspective, raster_config());
    assert_eq!(e, RenderError::RayTracingWrongConfig);
}

#[test]
fn rasterization_refuses_a_camera_without_projection() {
    let e = refusal(Technique::Rasterization, CameraKind::Exposure, raster_config());
    assert_eq!(e, RenderError::RasterizationWrongCamera);
    assert_eq!(e.message(), "wrong camera");
    let e = refusal(Technique::Rasterization, CameraKind::Other, raster_config());
    assert_eq!(e, RenderError::RasterizationWrongCamera);
}

#[test]
fn rasterization_refuses_a_ray_tracing_config() {
    let e = refusal(Technique::Rasterization, CameraKind::Perspective, ray_config());
    assert_eq!(e, RenderError::RasterizationWrongConfig);
    assert_eq!(e.message(), "wrong config");
}

#[test]
fn rasterization_looks_at_the_camera_before_the_config() {
    let e = refusal(Technique::Rasterization, CameraKind::Exposure, ray_config());
    assert_eq!(e, RenderError::RasterizationWrongCamera);
    let e = refusal(Technique::Rasterization, CameraKind::Other, ray_config());
    assert_eq!(e, RenderError::RasterizationWrongCamera);
}

use vstd::prelude::*;

verus! {

/// The switches that the shaders of a rasterized frame consult.
#[derive(Debug, Clone, Copy)]
pub struct ShaderConf {
    /// Diffuse lighting.
    pub diff_light: bool,
    /// Specular highlights.
    pub spec_light: bool,
    /// Texture lookup; without it surfaces are a flat grey.
    pub texture: bool,
    /// Normals from the normal map; without it the face normal is used.
    pub normals: bool,
    /// The ambient-occlusion pass.
    pub occlusion: bool,
}

impl ShaderConf {
    /// Lighting, texture and normal mapping on, ambient occlusion off.
    pub fn new() -> (conf: Self)
        ensures
            conf == (ShaderConf {
                diff_light: true,
                spec_light: true,
                texture: true,
                normals: true,
                occlusion: false,
            }),
    {
        ShaderConf {
            diff_light: true,
            spec_light: true,
            texture: true,
            normals: true,
            occlusion: false,
        }
    }
}

} // verus!

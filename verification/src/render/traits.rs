use vstd::prelude::*;
use crate::image::Image;
use crate::render::config::RenderConfig;

verus! {

/// Something that can be rendered to an image through a camera.
///
/// The camera arrives in whatever form the implementor inspects; a camera
/// or a configuration that does not fit what is rendered is answered with a
/// fixed message.
pub trait Render {
    type Camera: ?Sized;

    fn render(&self, camera: &Self::Camera, config: RenderConfig) -> Result<Image, &'static str>;
}

} // verus!

//! Scenes: ordered collections of the objects that a renderer draws.
pub mod rasterizable_scene;
pub mod raytracing_scene;
pub mod traits;

pub use crate::scene::rasterizable_scene::RasterizableScene;
pub use crate::scene::raytracing_scene::RayTracingScene;
pub use crate::scene::traits::SceneTrait;

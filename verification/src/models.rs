//! What a renderable model offers besides its geometry, and the part of a
//! mesh file that is made of whole numbers.
pub mod traits;
pub mod wavefront;

pub use crate::models::traits::ModelTrait;
pub use crate::models::wavefront::{parse_corner, parse_face, Corner};

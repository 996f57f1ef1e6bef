//! The discrete part of camera navigation.
pub mod basic_camera;

pub use crate::camera::basic_camera::{Axis, Direction};

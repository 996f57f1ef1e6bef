//! What a shader is configured with, and how its fragments reach the frame.
pub mod fragment;
pub mod occlusion;
pub mod shader_config;

pub use crate::shader::fragment::{depth_test, draw_fragment};
pub use crate::shader::occlusion::{mark_visit, neighbourhood, Window};
pub use crate::shader::shader_config::ShaderConf;

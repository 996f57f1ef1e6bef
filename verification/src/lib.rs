//! The exact core of a software renderer.
//!
//! A renderer computes most of what it draws in floating point. What it
//! decides in whole numbers is gathered here and proved: the pixel and depth
//! grids with their reads and writes that never leave the frame, the depth
//! test, line drawing, the decoding of textures and of the corners of mesh
//! faces, transposition, the scenes as ordered collections, the choice of
//! what a render call does, and the reactions of the interactive viewer.
pub mod camera;
pub mod color;
pub mod grid;
pub mod hit;
pub mod image;
pub mod la;
pub mod models;
pub mod render;
pub mod scene;
pub mod shader;
pub mod tga;
pub mod viewer;
pub mod zbuffer;

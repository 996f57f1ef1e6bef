//! Matrix operations that rearrange entries without computing with them.
pub mod matrix;

pub use crate::la::matrix::transpose;

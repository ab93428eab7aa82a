//! Small value types shared by the display and the renderer.

pub mod matrix;
pub mod quat;
pub mod vector;

//! The renderer: textures, the frame buffer, and the camera that ray-casts a
//! model into it.

pub mod camera;
pub mod texture;
pub mod viewport;

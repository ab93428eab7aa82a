//! A small renderer for a bit-banged DVI link.
//!
//! It ray-casts a textured model into a raster of 24-bit pixels, encodes
//! each pixel as three TMDS symbols, and sequences the symbols with the
//! blanking and the sync levels that a display expects, bit time by bit
//! time. The pins are a model: the firmware reads the levels after each bit
//! time and puts them on its outputs.
//!
//! All arithmetic of the renderer is fixed-point, with 16 fractional bits
//! and saturation at the ends of the range, so that every result is a fixed
//! function of the inputs.

pub mod collections;
pub mod display;
pub mod graphics;
pub mod math;
pub mod model;
pub mod types;

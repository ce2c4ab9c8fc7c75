//! Core of an audio spectrum visualizer: a spectral analyzer that turns
//! frequency-domain magnitudes into smoothed bar values, and a rendering
//! engine that draws those bars (in one of eight styles, with an optional
//! text overlay) onto an owned RGBA pixel buffer.
//!
//! All normalized quantities (magnitudes, intensities, opacities, positions)
//! are carried as fixed-point integers in units of one thousandth, so that
//! every computation here is exact integer arithmetic.

pub mod analyzer;
pub mod canvas;
pub mod color;
pub mod config;
pub mod fixed;
pub mod font;
pub mod geometry;
pub mod layout;
pub mod renderer;
pub mod state;
pub mod styles;
pub mod text;
pub mod track;
pub mod trig;

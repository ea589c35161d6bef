//! Fractal trees as drawing plans.
//!
//! A host owns a drawing surface and one [`RenderState`]. It hands each
//! request to one of the four functions of [`host`] and gets back the
//! [`Command`]s that bring the surface up to date. The library decides what
//! is drawn and when; the host computes coordinates and strokes the lines.
pub mod binary32;
pub mod host;
pub mod params;
pub mod render;
pub mod state;
pub mod tree;

pub use host::{
    init_fractal_trees, start_fractal_trees, stop_fractal_trees, update_fractal_params,
    SurfaceUnavailable,
};
pub use params::FractalParams;
pub use render::Command;
pub use state::RenderState;
pub use tree::{Origin, Segment};

//! The four calls that a host makes.
//!
//! The host owns the surface and one `RenderState`. It resolves the surface
//! itself and hands in what it found; it performs the commands that come
//! back.
use vstd::prelude::*;
use crate::render::Command;
use crate::state::RenderState;

verus! {

/// The host could not resolve a surface to draw on.
#[derive(Clone, Copy, Debug, PartialEq, Eq, Structural)]
pub struct SurfaceUnavailable;

/// Attaches the surface that the host resolved: `surface` is its width and
/// height, or `None` where the host found none. Without a surface the state
/// stays as it was, and every later operation goes on drawing nothing (or on
/// the surface attached before).
pub fn init_fractal_trees(state: &mut RenderState, surface: Option<(u32, u32)>) -> (r: Result<
    (),
    SurfaceUnavailable,
>)
    ensures
        match surface {
            Some((width, height)) => r is Ok && final(state)@ == old(state)@.attach(width, height),
            None => r == Err::<(), SurfaceUnavailable>(SurfaceUnavailable) && final(state)@ == old(
                state,
            )@,
        },
        final(state)@.valid(),
{
    match surface {
        Some((width, height)) => {
            state.attach_surface(width, height);
            Ok(())
        },
        None => {
            proof {
                use_type_invariant(&*state);
            }
            Err(SurfaceUnavailable)
        },
    }
}

/// Begins or resumes showing the tree: sets running and draws the tree once
/// with the current parameters.
pub fn start_fractal_trees(state: &mut RenderState) -> (commands: Vec<Command>)
    ensures
        final(state)@ == old(state)@.set_running(true),
        commands@ == final(state)@.redraw(),
        final(state)@.valid(),
{
    state.set_running(true)
}

/// Stops showing the tree: clears running and clears the surface.
pub fn stop_fractal_trees(state: &mut RenderState) -> (commands: Vec<Command>)
    ensures
        final(state)@ == old(state)@.set_running(false),
        commands@ == final(state)@.wipe(),
        final(state)@.valid(),
{
    state.set_running(false)
}

/// Stores new parameters, each clamped into its range, and redraws the tree
/// if it is being shown. `angle` and `length` are binary32 bit patterns.
pub fn update_fractal_params(
    state: &mut RenderState,
    iterations: i32,
    angle: u32,
    length: u32,
) -> (commands: Vec<Command>)
    ensures
        final(state)@ == old(state)@.update(iterations, angle, length),
        commands@ == old(state)@.update_commands(iterations, angle, length),
        final(state)@.valid(),
{
    state.update_parameters(iterations, angle, length)
}

} // verus!

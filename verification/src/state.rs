//! The state behind a drawing: the current parameters, the size of the
//! attached surface, and whether the tree is being shown.
//!
//! Every operation that changes what should be on the surface returns the
//! commands that bring the surface up to date. The caller performs them, in
//! order, before it hands in the next request. While no surface is attached
//! there is nothing to draw on, and no operation returns a command.
use vstd::prelude::*;
use crate::params::{
    clamped_iterations,
    is_between,
    lemma_bounds,
    lemma_clamped_in_range,
    FractalParams,
};
use crate::render::{clear, clearing, render, rendering, Command};

verus! {

/// Width of the surface before one is attached.
pub const DEFAULT_WIDTH: u32 = 800;

/// Height of the surface before one is attached.
pub const DEFAULT_HEIGHT: u32 = 600;

/// The state of one drawing. There is one owner, and each operation sees and
/// leaves a state whose parameters are in range.
pub struct RenderState {
    params: FractalParams,
    attached: bool,
    width: u32,
    height: u32,
    running: bool,
}

/// What a `RenderState` holds.
pub struct Snapshot {
    /// The parameters of the next drawing.
    pub params: FractalParams,
    /// Whether a surface has been attached.
    pub attached: bool,
    /// Width of the surface in surface units.
    pub width: u32,
    /// Height of the surface in surface units.
    pub height: u32,
    /// Whether the tree is being shown.
    pub running: bool,
}

impl Snapshot {
    /// A state is valid when its parameters are in range. Every state that
    /// the operations hand out is.
    pub open spec fn valid(self) -> bool {
        self.params.in_range()
    }

    /// The state at the start: default parameters, no surface, not running.
    pub open spec fn initial() -> Snapshot {
        Snapshot {
            params: FractalParams {
                iterations: crate::params::DEFAULT_ITERATIONS,
                angle: crate::params::DEFAULT_ANGLE,
                length: crate::params::DEFAULT_LENGTH,
            },
            attached: false,
            width: DEFAULT_WIDTH,
            height: DEFAULT_HEIGHT,
            running: false,
        }
    }

    /// The commands of a full redraw; none without a surface.
    pub open spec fn redraw(self) -> Seq<Command> {
        if self.attached {
            rendering(self.width, self.height, self.params)
        } else {
            Seq::empty()
        }
    }

    /// The commands that clear the surface; none without a surface.
    pub open spec fn wipe(self) -> Seq<Command> {
        if self.attached {
            clearing(self.width, self.height)
        } else {
            Seq::empty()
        }
    }

    /// The state once a surface of the given size is attached.
    pub open spec fn attach(self, width: u32, height: u32) -> Snapshot {
        Snapshot { attached: true, width, height, ..self }
    }

    /// The state once running is switched on or off.
    pub open spec fn set_running(self, running: bool) -> Snapshot {
        Snapshot { running, ..self }
    }

    /// What switching running on or off puts on the surface: the tree when
    /// switched on, the cleared surface when switched off.
    pub open spec fn set_running_commands(self, running: bool) -> Seq<Command> {
        if running {
            self.set_running(running).redraw()
        } else {
            self.set_running(running).wipe()
        }
    }

    /// The state once new parameters are handed in: all three are replaced
    /// together, each clamped into its range.
    pub open spec fn update(self, iterations: i32, angle: u32, length: u32) -> Snapshot {
        Snapshot { params: (FractalParams { iterations, angle, length }).clamped(), ..self }
    }

    /// What new parameters put on the surface: the tree with the new
    /// parameters while running, nothing otherwise.
    pub open spec fn update_commands(self, iterations: i32, angle: u32, length: u32) -> Seq<
        Command,
    > {
        if self.running {
            self.update(iterations, angle, length).redraw()
        } else {
            Seq::empty()
        }
    }
}

impl View for RenderState {
    type V = Snapshot;

    closed spec fn view(&self) -> Snapshot {
        Snapshot {
            params: self.params,
            attached: self.attached,
            width: self.width,
            height: self.height,
            running: self.running,
        }
    }
}

impl RenderState {
    /// What holds of every `RenderState`: its parameters are in range.
    #[verifier::type_invariant]
    pub open spec fn well_formed(&self) -> bool {
        self@.valid()
    }

    /// Default parameters, no surface attached, not running.
    pub fn new() -> (state: RenderState)
        ensures
            state@ == Snapshot::initial(),
            state@.valid(),
    {
        RenderState {
            params: FractalParams::default(),
            attached: false,
            width: DEFAULT_WIDTH,
            height: DEFAULT_HEIGHT,
            running: false,
        }
    }

    /// The current parameters; they are in range.
    pub fn params(&self) -> (params: FractalParams)
        ensures
            params == self@.params,
            params.in_range(),
    {
        proof {
            use_type_invariant(self);
        }
        self.params
    }

    /// Whether the tree is being shown.
    pub fn is_running(&self) -> (running: bool)
        ensures
            running == self@.running,
    {
        self.running
    }

    /// Whether a surface has been attached.
    pub fn has_surface(&self) -> (attached: bool)
        ensures
            attached == self@.attached,
    {
        self.attached
    }

    /// Width and height of the surface: those of the attached one, or the
    /// defaults.
    pub fn surface_size(&self) -> (size: (u32, u32))
        ensures
            size == (self@.width, self@.height),
    {
        (self.width, self.height)
    }

    /// Records the size of the surface to draw on, in place of any earlier
    /// one. Nothing else changes, and nothing is drawn.
    pub fn attach_surface(&mut self, width: u32, height: u32)
        ensures
            final(self)@ == old(self)@.attach(width, height),
            final(self)@.valid(),
    {
        proof {
            use_type_invariant(&*self);
        }
        self.attached = true;
        self.width = width;
        self.height = height;
    }

    /// The commands of a full redraw with the current parameters; none while
    /// no surface is attached.
    pub fn draw_fractal_tree(&self) -> (commands: Vec<Command>)
        ensures
            commands@ == self@.redraw(),
    {
        proof {
            use_type_invariant(self);
        }
        if self.attached {
            render(self.width, self.height, self.params)
        } else {
            Vec::new()
        }
    }

    /// The commands that clear the surface; none while no surface is
    /// attached.
    pub fn clear_canvas(&self) -> (commands: Vec<Command>)
        ensures
            commands@ == self@.wipe(),
    {
        if self.attached {
            clear(self.width, self.height)
        } else {
            Vec::new()
        }
    }

    /// Switches running on or off. Switched on, the tree is drawn with the
    /// current parameters; switched off, the surface is cleared.
    pub fn set_running(&mut self, running: bool) -> (commands: Vec<Command>)
        ensures
            final(self)@ == old(self)@.set_running(running),
            commands@ == old(self)@.set_running_commands(running),
            final(self)@.valid(),
    {
        proof {
            use_type_invariant(&*self);
        }
        self.running = running;
        if running {
            self.draw_fractal_tree()
        } else {
            self.clear_canvas()
        }
    }

    /// Replaces the parameters by the given ones, each clamped into its
    /// range. While running, the tree is redrawn with the new parameters;
    /// otherwise they are kept for the next time running is switched on.
    pub fn update_parameters(&mut self, iterations: i32, angle: u32, length: u32) -> (commands: Vec<
        Command,
    >)
        ensures
            final(self)@ == old(self)@.update(iterations, angle, length),
            commands@ == old(self)@.update_commands(iterations, angle, length),
            final(self)@.valid(),
    {
        self.params = (FractalParams { iterations, angle, length }).clamp();
        if self.running {
            self.draw_fractal_tree()
        } else {
            Vec::new()
        }
    }
}

/// Every operation leaves a valid state valid: the parameters that a state
/// holds are always in range.
pub proof fn lemma_operations_keep_valid(
    s: Snapshot,
    width: u32,
    height: u32,
    running: bool,
    iterations: i32,
    angle: u32,
    length: u32,
)
    requires
        s.valid(),
    ensures
        Snapshot::initial().valid(),
        s.attach(width, height).valid(),
        s.set_running(running).valid(),
        s.update(iterations, angle, length).valid(),
{
    lemma_clamped_in_range(FractalParams { iterations, angle, length });
    lemma_clamped_in_range(Snapshot::initial().params);
    lemma_bounds();
}

/// Whatever is handed in, what is stored lies in range: the iterations
/// between 1 and 15, the angle a number between 5 and 60, the length a number
/// between 20 and 200. This holds of every integer and of every pattern, the
/// infinities and the NaNs included.
pub proof fn lemma_update_stores_in_range(s: Snapshot, iterations: i32, angle: u32, length: u32)
    ensures
        ({
            let stored = s.update(iterations, angle, length).params;
            &&& stored.iterations == clamped_iterations(iterations as int)
            &&& 1 <= stored.iterations <= 15
            &&& is_between(stored.angle, 5, 60)
            &&& is_between(stored.length, 20, 200)
        }),
{
    lemma_clamped_in_range(FractalParams { iterations, angle, length });
}

/// After running is switched off the surface shows the background alone: the
/// one command is a `Clear` of the whole surface, and nothing is stroked.
pub proof fn lemma_stop_clears(s: Snapshot)
    requires
        s.attached,
    ensures
        !s.set_running(false).running,
        s.set_running_commands(false) == seq![Command::Clear { width: s.width, height: s.height }],
{
}

/// New parameters that arrive while not running are stored, clamped, and
/// nothing is drawn; the next time running is switched on, the tree is drawn
/// with them.
pub proof fn lemma_update_while_stopped(s: Snapshot, iterations: i32, angle: u32, length: u32)
    requires
        !s.running,
    ensures
        s.update_commands(iterations, angle, length) == Seq::<Command>::empty(),
        s.update(iterations, angle, length).params == (FractalParams {
            iterations,
            angle,
            length,
        }).clamped(),
        s.attached ==> s.update(iterations, angle, length).set_running_commands(true) == rendering(
            s.width,
            s.height,
            (FractalParams { iterations, angle, length }).clamped(),
        ),
{
}

/// Drawing again with nothing changed gives the same commands again:
/// switching running on twice, or handing in the same parameters twice,
/// leaves the state and the commands of the first time.
pub proof fn lemma_redraw_repeats(s: Snapshot, iterations: i32, angle: u32, length: u32)
    ensures
        s.set_running(true).set_running(true) == s.set_running(true),
        s.set_running(true).set_running_commands(true) == s.set_running_commands(true),
        s.update(iterations, angle, length).update(iterations, angle, length) == s.update(
            iterations,
            angle,
            length,
        ),
        s.update(iterations, angle, length).update_commands(iterations, angle, length)
            == s.update_commands(iterations, angle, length),
{
    lemma_clamped_in_range(FractalParams { iterations, angle, length });
}

} // verus!

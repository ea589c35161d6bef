//! From parameters and a surface size to the commands that draw the tree.
//!
//! Rendering keeps nothing between calls: the commands are a function of the
//! surface size and the parameters alone. They carry all that a drawing takes:
//! the size to clear, the branch angle and the base length, and the segments.
use vstd::prelude::*;
use vstd::arithmetic::power2::*;
use crate::params::FractalParams;
use crate::tree::{
    draw_tree,
    lemma_segment_count,
    lemma_segment_count_grows,
    lemma_subtree_len,
    tree,
    Origin,
    Segment,
};

verus! {

/// Colour that fills the surface when it is cleared.
pub const COLOR_BG: &'static str = "#000000";

/// Colour of the strokes.
pub const COLOR_FG: &'static str = "#ffffff";

/// Shape of the ends of a stroke.
pub const LINE_CAP: &'static str = "round";

/// The trunk begins this many units above the bottom edge.
pub const FOOT_MARGIN: u32 = 20;

/// One step of a drawing.
#[derive(Clone, Copy, Debug, PartialEq, Eq, Structural)]
pub enum Command {
    /// Fill the rectangle from `(0, 0)` to `(width, height)` with `COLOR_BG`.
    Clear { width: u32, height: u32 },
    /// Select `COLOR_FG` as stroke colour and `LINE_CAP` as line cap. The
    /// strokes that follow form one tree, with this branch angle in degrees
    /// and this base length in surface units, both as binary32 bits.
    Style { angle: u32, length: u32 },
    /// Stroke one segment from its origin to its end point.
    Stroke { segment: Segment },
}

/// The foot of the trunk on a surface of the given size: centred, and
/// `FOOT_MARGIN` units above the bottom edge.
pub open spec fn foot(width: u32, height: u32) -> Origin {
    Origin::Foot { twice_x: width, y: (height - FOOT_MARGIN) as i64 }
}

/// One `Stroke` for each segment, in the same order.
pub open spec fn strokes(segments: Seq<Segment>) -> Seq<Command> {
    Seq::new(segments.len(), |i: int| Command::Stroke { segment: segments[i] })
}

/// The two commands that open a rendering.
pub open spec fn opening(width: u32, height: u32, params: FractalParams) -> Seq<Command> {
    seq![
        Command::Clear { width, height },
        Command::Style { angle: params.angle, length: params.length },
    ]
}

/// The commands that draw the tree: clear the surface, select the stroke
/// style and hand on the branch angle and the base length, then stroke every
/// segment of the tree in depth-first pre-order. All three parameters of one
/// rendering come from the same `params`.
pub open spec fn rendering(width: u32, height: u32, params: FractalParams) -> Seq<Command> {
    opening(width, height, params) + strokes(tree(foot(width, height), params.iterations as nat))
}

/// The commands that clear a surface of the given size.
pub open spec fn clearing(width: u32, height: u32) -> Seq<Command> {
    seq![Command::Clear { width, height }]
}

/// A rendering begins with one `Clear` of the whole surface and one `Style`
/// that carries the angle and the length of the parameters;
/// after them come the strokes and nothing else, `2^iterations - 1` of them,
/// one for each segment of the tree and in the order of the tree.
pub proof fn lemma_rendering_shape(width: u32, height: u32, params: FractalParams)
    requires
        params.iterations >= 0,
    ensures
        ({
            let commands = rendering(width, height, params);
            let segments = tree(foot(width, height), params.iterations as nat);
            &&& segments.len() == pow2(params.iterations as nat) - 1
            &&& commands.len() == 2 + segments.len()
            &&& commands[0] == (Command::Clear { width, height })
            &&& commands[1] == (Command::Style { angle: params.angle, length: params.length })
            &&& forall|i: int|
                0 <= i < segments.len() ==> #[trigger] commands[2 + i] == (Command::Stroke {
                    segment: segments[i],
                })
        }),
{
    lemma_subtree_len(foot(width, height), params.iterations as nat, 0);
    lemma_segment_count(params.iterations as nat);
}

/// Where the foot of the trunk stands.
pub fn foot_of(width: u32, height: u32) -> (origin: Origin)
    ensures
        origin == foot(width, height),
{
    Origin::Foot { twice_x: width, y: height as i64 - FOOT_MARGIN as i64 }
}

/// The commands that draw the tree with the given parameters on a surface of
/// the given size.
pub fn render(width: u32, height: u32, params: FractalParams) -> (commands: Vec<Command>)
    requires
        params.in_range(),
    ensures
        commands@ == rendering(width, height, params),
        commands@.len() == pow2(params.iterations as nat) + 1,
{
    let depth: u32 = params.iterations as u32;
    proof {
        lemma_segment_count_grows(depth as nat, 15);
        lemma_segment_count(15);
        lemma2_to64();
        lemma_rendering_shape(width, height, params);
    }
    let mut segments: Vec<Segment> = Vec::new();
    draw_tree(&mut segments, foot_of(width, height), depth);
    let mut commands: Vec<Command> = Vec::new();
    commands.push(Command::Clear { width, height });
    commands.push(Command::Style { angle: params.angle, length: params.length });
    let mut i: usize = 0;
    while i < segments.len()
        invariant
            i <= segments.len(),
            commands@ == opening(width, height, params) + strokes(segments@.take(i as int)),
        decreases segments.len() - i,
    {
        commands.push(Command::Stroke { segment: segments[i] });
        i = i + 1;
        assert(commands@ =~= opening(width, height, params) + strokes(segments@.take(i as int)));
    }
    assert(segments@.take(i as int) =~= segments@);
    assert(segments@ =~= tree(foot(width, height), depth as nat));
    commands
}

/// The commands that clear a surface of the given size: the whole of it is
/// filled with the background colour, and nothing is stroked.
pub fn clear(width: u32, height: u32) -> (commands: Vec<Command>)
    ensures
        commands@ == clearing(width, height),
{
    let mut commands: Vec<Command> = Vec::new();
    commands.push(Command::Clear { width, height });
    commands
}

} // verus!

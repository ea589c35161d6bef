//! The branching structure of a fractal tree.
//!
//! A tree of `n` generations is a sequence of segments in depth-first
//! pre-order, left before right. Each segment says where it begins and which
//! way it goes from there (up from the foot of the trunk, or to the left or
//! to the right from the end point of an earlier segment), and how many
//! generations remain. The coordinates themselves depend on the branch angle
//! and on the base length; whoever strokes the segments computes them along
//! the way, each segment from its parent.
use vstd::prelude::*;
use vstd::arithmetic::power2::*;

verus! {

/// Where a segment begins, and its heading and length.
#[derive(Clone, Copy, Debug, PartialEq, Eq, Structural)]
pub enum Origin {
    /// The trunk. It begins at the point `(twice_x / 2, y)` of the surface,
    /// its heading is `TRUNK_HEADING_DEGREES`, its length is the base length.
    Foot { twice_x: u32, y: i64 },
    /// A left branch. It begins at the end point of the segment at index
    /// `parent` of the same sequence; its heading is the parent's minus the
    /// branch angle; its length is the parent's times `SHRINK_NUMERATOR /
    /// SHRINK_DENOMINATOR`.
    Left { parent: usize },
    /// A right branch: as a left branch, but its heading is the parent's
    /// plus the branch angle.
    Right { parent: usize },
}

/// One line of the tree.
#[derive(Clone, Copy, Debug, PartialEq, Eq, Structural)]
pub struct Segment {
    pub origin: Origin,
    /// Generations that remain, this one included: the trunk has the
    /// iteration count, a leaf has 1.
    pub depth: u32,
    /// Width of the stroke in tenths of a unit, as an exact number.
    pub stroke_tenths: u64,
}

/// Heading of the trunk in degrees: 0 points along +x and angles grow
/// clockwise on the screen, so this is straight up.
pub const TRUNK_HEADING_DEGREES: i32 = -90;

/// A branch is `SHRINK_NUMERATOR / SHRINK_DENOMINATOR` as long as its
/// parent.
pub const SHRINK_NUMERATOR: u32 = 3;

pub const SHRINK_DENOMINATOR: u32 = 4;

/// A stroke is this many tenths of a unit wide for each generation that its
/// segment has to go.
pub const STROKE_TENTHS_PER_GENERATION: u64 = 8;

/// No stroke is under this many tenths of a unit wide.
pub const MIN_STROKE_TENTHS: u64 = 10;

/// Width of the stroke of a segment with `depth` generations to go, in
/// tenths of a unit: eight tenths for each generation, and at least one
/// unit.
pub open spec fn stroke_tenths(depth: int) -> int {
    if STROKE_TENTHS_PER_GENERATION * depth < MIN_STROKE_TENTHS {
        MIN_STROKE_TENTHS as int
    } else {
        STROKE_TENTHS_PER_GENERATION * depth
    }
}

/// The segment that begins at `origin` with `depth` generations to go.
pub open spec fn segment(origin: Origin, depth: nat) -> Segment {
    Segment { origin, depth: depth as u32, stroke_tenths: stroke_tenths(depth as int) as u64 }
}

/// Number of segments in a tree of `depth` generations.
pub open spec fn segment_count(depth: nat) -> nat
    decreases depth,
{
    if depth == 0 {
        0
    } else {
        1 + 2 * segment_count((depth - 1) as nat)
    }
}

/// The segments of the subtree that begins at `origin` with `depth`
/// generations to go, when its first segment stands at index `first` of the
/// whole sequence: the segment itself, then everything that grows from its
/// left branch, then everything that grows from its right branch. With no
/// generation to go there is nothing.
pub open spec fn subtree(origin: Origin, depth: nat, first: nat) -> Seq<Segment>
    decreases depth,
{
    if depth == 0 {
        Seq::empty()
    } else {
        let below = (depth - 1) as nat;
        seq![segment(origin, depth)]
            + subtree(Origin::Left { parent: first as usize }, below, first + 1)
            + subtree(
            Origin::Right { parent: first as usize },
            below,
            first + 1 + segment_count(below),
        )
    }
}

/// The whole tree of `depth` generations that stands on `foot`.
pub open spec fn tree(foot: Origin, depth: nat) -> Seq<Segment> {
    subtree(foot, depth, 0)
}

/// A subtree has as many segments as `segment_count` says.
pub proof fn lemma_subtree_len(origin: Origin, depth: nat, first: nat)
    ensures
        subtree(origin, depth, first).len() == segment_count(depth),
    decreases depth,
{
    if depth > 0 {
        let below = (depth - 1) as nat;
        lemma_subtree_len(Origin::Left { parent: first as usize }, below, first + 1);
        lemma_subtree_len(
            Origin::Right { parent: first as usize },
            below,
            first + 1 + segment_count(below),
        );
    }
}

/// A tree of `depth` generations has `2^depth - 1` segments.
pub proof fn lemma_segment_count(depth: nat)
    ensures
        segment_count(depth) == pow2(depth) - 1,
    decreases depth,
{
    if depth == 0 {
        lemma2_to64();
    } else {
        lemma_segment_count((depth - 1) as nat);
        lemma_pow2_unfold(depth);
    }
}

/// More generations make more segments, and there are at least as many
/// segments as generations.
pub proof fn lemma_segment_count_grows(a: nat, b: nat)
    requires
        a <= b,
    ensures
        segment_count(a) <= segment_count(b),
        a < b ==> segment_count(a) < segment_count(b),
        a <= segment_count(a),
    decreases b,
{
    if a < b {
        lemma_segment_count_grows(a, (b - 1) as nat);
    } else if a > 0 {
        lemma_segment_count_grows((a - 1) as nat, (a - 1) as nat);
    }
}

/// A tree whose segments can be counted in a `usize` has at most 64
/// generations.
pub proof fn lemma_countable_depth(depth: nat)
    requires
        segment_count(depth) <= usize::MAX,
    ensures
        depth <= 64,
{
    if depth > 64 {
        lemma_segment_count_grows(65, depth);
        lemma_segment_count(65);
        lemma_pow2_unfold(65);
        lemma2_to64();
    }
}

/// The index of the parent that an origin names; 0 for the foot.
pub open spec fn parent_of(origin: Origin) -> int {
    match origin {
        Origin::Foot { .. } => 0,
        Origin::Left { parent } => parent as int,
        Origin::Right { parent } => parent as int,
    }
}

/// What stands at index `i` of a subtree, and how it is tied to its
/// neighbours: its depth, the room that its own subtree takes, its parent and
/// its two children.
proof fn lemma_subtree_shape(origin: Origin, depth: nat, first: nat, i: int)
    requires
        first + segment_count(depth) <= usize::MAX,
        0 <= i < segment_count(depth),
    ensures
        ({
            let s = subtree(origin, depth, first);
            let here = s[i];
            let below = (here.depth - 1) as nat;
            let parent = parent_of(here.origin);
            &&& s.len() == segment_count(depth)
            &&& 1 <= here.depth <= depth
            &&& here.stroke_tenths == stroke_tenths(here.depth as int)
            &&& i + segment_count(here.depth as nat) <= segment_count(depth)
            &&& i == 0 ==> here == segment(origin, depth)
            &&& i > 0 ==> {
                &&& !(here.origin is Foot)
                &&& here.origin is Left ==> parent == first + i - 1
                &&& here.origin is Right ==> parent == first + i - 1 - segment_count(
                    here.depth as nat,
                )
                &&& first <= parent < first + i
                &&& s[parent - first].depth == here.depth + 1
            }
            &&& here.depth > 1 ==> {
                &&& s[i + 1] == segment(Origin::Left { parent: (first + i) as usize }, below)
                &&& s[i + 1 + segment_count(below)] == segment(
                    Origin::Right { parent: (first + i) as usize },
                    below,
                )
            }
        }),
    decreases depth,
{
    let below = (depth - 1) as nat;
    let count = segment_count(below) as int;
    let to_left = Origin::Left { parent: first as usize };
    let to_right = Origin::Right { parent: first as usize };
    let head = seq![segment(origin, depth)];
    let left = subtree(to_left, below, first + 1);
    let right = subtree(to_right, below, first + 1 + segment_count(below));
    let s = subtree(origin, depth, first);
    lemma_subtree_len(origin, depth, first);
    lemma_subtree_len(to_left, below, first + 1);
    lemma_subtree_len(to_right, below, first + 1 + segment_count(below));
    lemma_segment_count_grows(depth, depth);
    lemma_countable_depth(depth);
    assert(s == head + left + right);
    if i == 0 {
        if depth > 1 {
            lemma_segment_count_grows(1, below);
            lemma_subtree_shape(to_left, below, first + 1, 0);
            lemma_subtree_shape(to_right, below, first + 1 + segment_count(below), 0);
            assert(s[1] == left[0]);
            assert(s[1 + count] == right[0]);
        }
    } else if i <= count {
        lemma_subtree_shape(to_left, below, first + 1, i - 1);
        assert(s[i] == left[i - 1]);
        let here = s[i];
        if i > 1 {
            let parent = parent_of(here.origin);
            assert(s[parent - first] == left[parent - first - 1]);
        }
        if here.depth > 1 {
            let under = (here.depth - 1) as nat;
            lemma_segment_count_grows(1, under);
            assert(s[i + 1] == left[i]);
            assert(s[i + 1 + segment_count(under)] == left[i + segment_count(under)]);
        }
    } else {
        lemma_subtree_shape(to_right, below, first + 1 + segment_count(below), i - 1 - count);
        assert(s[i] == right[i - 1 - count]);
        let here = s[i];
        if i > 1 + count {
            let parent = parent_of(here.origin);
            assert(s[parent - first] == right[parent - first - 1 - count]);
        }
        if here.depth > 1 {
            let under = (here.depth - 1) as nat;
            lemma_segment_count_grows(1, under);
            assert(s[i + 1] == right[i - count]);
            assert(s[i + 1 + segment_count(under)] == right[i - count + segment_count(under)]);
        }
    }
}

/// The first segment of a tree is its trunk: it stands on the foot and has
/// all the generations to go.
pub proof fn lemma_trunk(foot: Origin, depth: nat)
    requires
        0 < depth,
        segment_count(depth) <= usize::MAX,
    ensures
        tree(foot, depth)[0] == segment(foot, depth),
{
    lemma_segment_count_grows(1, depth);
    lemma_subtree_shape(foot, depth, 0, 0);
}

/// Every segment has between 1 and `depth` generations to go, and the
/// subtree that grows from it lies within the sequence.
pub proof fn lemma_depth_in_range(foot: Origin, depth: nat, i: int)
    requires
        segment_count(depth) <= usize::MAX,
        0 <= i < segment_count(depth),
    ensures
        1 <= tree(foot, depth)[i].depth <= depth,
        i + segment_count(tree(foot, depth)[i].depth as nat) <= tree(foot, depth).len(),
{
    lemma_subtree_shape(foot, depth, 0, i);
}

/// The stroke of every segment is eight tenths of a unit wide for each
/// generation that it has to go, and never under one unit: thick near the
/// trunk, thin toward the leaves.
pub proof fn lemma_stroke_width(foot: Origin, depth: nat, i: int)
    requires
        segment_count(depth) <= usize::MAX,
        0 <= i < segment_count(depth),
    ensures
        tree(foot, depth)[i].stroke_tenths == stroke_tenths(tree(foot, depth)[i].depth as int),
        tree(foot, depth)[i].stroke_tenths >= 10,
{
    lemma_subtree_shape(foot, depth, 0, i);
}

/// The two children of a segment that is no leaf begin exactly at its end
/// point. The left child follows it at once; the right child follows the
/// whole of the left child's subtree. Both have one generation less to go.
pub proof fn lemma_children_start_at_end(foot: Origin, depth: nat, i: int)
    requires
        segment_count(depth) <= usize::MAX,
        0 <= i < segment_count(depth),
        tree(foot, depth)[i].depth > 1,
    ensures
        ({
            let t = tree(foot, depth);
            let below = (t[i].depth - 1) as nat;
            &&& i + 1 + segment_count(below) < t.len()
            &&& t[i + 1] == segment(Origin::Left { parent: i as usize }, below)
            &&& t[i + 1 + segment_count(below)] == segment(Origin::Right { parent: i as usize }, below)
        }),
{
    lemma_subtree_shape(foot, depth, 0, i);
    lemma_segment_count_grows(1, (tree(foot, depth)[i].depth - 1) as nat);
}

/// Every segment but the trunk begins at the end point of an earlier
/// segment, its parent, which has one generation more to go. Seen from the
/// child, the parent stands just before a left child, and before a right
/// child by one more than the size of that child's own subtree: so a parent
/// has its two children and no others.
pub proof fn lemma_parent_comes_first(foot: Origin, depth: nat, i: int)
    requires
        segment_count(depth) <= usize::MAX,
        0 < i < segment_count(depth),
    ensures
        ({
            let t = tree(foot, depth);
            let parent = parent_of(t[i].origin);
            &&& !(t[i].origin is Foot)
            &&& t[i].origin is Left ==> parent == i - 1
            &&& t[i].origin is Right ==> parent == i - 1 - segment_count(t[i].depth as nat)
            &&& 0 <= parent < i
            &&& t[parent].depth == t[i].depth + 1
        }),
{
    lemma_subtree_shape(foot, depth, 0, i);
}

/// Width of the stroke of a segment with `depth` generations to go, in
/// tenths of a unit.
pub fn stroke_width_tenths(depth: u32) -> (tenths: u64)
    ensures
        tenths == stroke_tenths(depth as int),
{
    let scaled: u64 = STROKE_TENTHS_PER_GENERATION * (depth as u64);
    if scaled < MIN_STROKE_TENTHS {
        MIN_STROKE_TENTHS
    } else {
        scaled
    }
}

/// Appends to `out` the subtree that begins at `origin`, in depth-first
/// pre-order, left before right. With `depth` 0 nothing is appended; with
/// `depth` 1 the one segment is a leaf.
pub fn draw_tree(out: &mut Vec<Segment>, origin: Origin, depth: u32)
    requires
        old(out).len() + segment_count(depth as nat) <= usize::MAX,
    ensures
        final(out)@ == old(out)@ + subtree(origin, depth as nat, old(out).len() as nat),
    decreases depth,
{
    if depth == 0 {
        return ;
    }
    let index: usize = out.len();
    let ghost below = (depth - 1) as nat;
    out.push(Segment { origin, depth, stroke_tenths: stroke_width_tenths(depth) });
    if depth > 1 {
        draw_tree(out, Origin::Left { parent: index }, depth - 1);
        proof {
            lemma_subtree_len(Origin::Left { parent: index }, below, (index + 1) as nat);
        }
        draw_tree(out, Origin::Right { parent: index }, depth - 1);
    }
    proof {
        let head = seq![segment(origin, depth as nat)];
        let left = subtree(Origin::Left { parent: index }, below, (index + 1) as nat);
        let right = subtree(
            Origin::Right { parent: index },
            below,
            (index + 1 + segment_count(below)) as nat,
        );
        assert(out@ =~= old(out)@ + (head + left + right));
    }
}

} // verus!

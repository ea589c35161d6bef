use fractal_trees::tree::{
    draw_tree, stroke_width_tenths, Origin, Segment, MIN_STROKE_TENTHS, SHRINK_DENOMINATOR,
    SHRINK_NUMERATOR, STROKE_TENTHS_PER_GENERATION, TRUNK_HEADING_DEGREES,
};

const FOOT: Origin = Origin::Foot { twice_x: 800, y: 580 };

fn plan(depth: u32) -> Vec<Segment> {
    let mut out = Vec::new();
    draw_tree(&mut out, FOOT, depth);
    out
}

fn segment(origin: Origin, depth: u32, stroke_tenths: u64) -> Segment {
    Segment { origin, depth, stroke_tenths }
}

fn subtree_size(depth: u32) -> usize {
    (1usize << depth) - 1
}

#[test]
fn no_generation_gives_no_segment() {
    assert_eq!(plan(0), vec![]);
}

#[test]
fn one_generation_is_a_single_leaf() {
    assert_eq!(plan(1), vec![segment(FOOT, 1, 10)]);
}

#[test]
fn two_generations_are_a_trunk_and_two_leaves() {
    assert_eq!(
        plan(2),
        vec![
            segment(FOOT, 2, 16),
            segment(Origin::Left { parent: 0 }, 1, 10),
            segment(Origin::Right { parent: 0 }, 1, 10),
        ]
    );
}

#[test]
fn three_generations_come_depth_first_and_left_before_right() {
    assert_eq!(
        plan(3),
        vec![
            segment(FOOT, 3, 24),
            segment(Origin::Left { parent: 0 }, 2, 16),
            segment(Origin::Left { parent: 1 }, 1, 10),
            segment(Origin::Right { parent: 1 }, 1, 10),
            segment(Origin::Right { parent: 0 }, 2, 16),
            segment(Origin::Left { parent: 4 }, 1, 10),
            segment(Origin::Right { parent: 4 }, 1, 10),
        ]
    );
}

#[test]
fn a_tree_of_n_generations_has_two_to_the_n_minus_one_segments() {
    let mut expected: usize = 1;
    for n in 1..=15u32 {
        assert_eq!(plan(n).len(), expected, "{} generations", n);
        assert_eq!(plan(n).len(), (1usize << n) - 1);
        expected = 2 * expected + 1;
    }
    assert_eq!(plan(5).len(), 31);
    assert_eq!(plan(15).len(), 32767);
}

#[test]
fn the_trunk_comes_first_and_has_all_generations() {
    for n in 1..=12u32 {
        assert_eq!(plan(n)[0], segment(FOOT, n, stroke_width_tenths(n)));
    }
}

#[test]
fn children_begin_at_the_end_of_their_parent() {
    let t = plan(10);
    for (i, segment) in t.iter().enumerate() {
        if segment.depth > 1 {
            let below = segment.depth - 1;
            assert_eq!(t[i + 1].origin, Origin::Left { parent: i });
            assert_eq!(t[i + 1].depth, below);
            assert_eq!(t[i + 1 + subtree_size(below)].origin, Origin::Right { parent: i });
            assert_eq!(t[i + 1 + subtree_size(below)].depth, below);
        }
    }
}

#[test]
fn every_branch_has_an_earlier_parent_one_generation_up() {
    let t = plan(10);
    for (i, segment) in t.iter().enumerate().skip(1) {
        let parent = match segment.origin {
            Origin::Foot { .. } => panic!("a second trunk at {}", i),
            Origin::Left { parent } => {
                assert_eq!(parent, i - 1);
                parent
            }
            Origin::Right { parent } => {
                assert_eq!(parent, i - 1 - subtree_size(segment.depth));
                parent
            }
        };
        assert!(parent < i);
        assert_eq!(t[parent].depth, segment.depth + 1);
    }
}

#[test]
fn every_parent_has_exactly_two_children() {
    let t = plan(8);
    let mut children = vec![0usize; t.len()];
    for segment in &t {
        match segment.origin {
            Origin::Foot { .. } => {}
            Origin::Left { parent } | Origin::Right { parent } => children[parent] += 1,
        }
    }
    for (i, segment) in t.iter().enumerate() {
        let expected = if segment.depth > 1 { 2 } else { 0 };
        assert_eq!(children[i], expected, "segment {}", i);
    }
}

#[test]
fn depths_run_from_one_to_the_number_of_generations() {
    let t = plan(9);
    for segment in &t {
        assert!(1 <= segment.depth && segment.depth <= 9);
    }
    assert_eq!(t.iter().filter(|s| s.depth == 1).count(), 256);
}

#[test]
fn stroke_width_is_eight_tenths_a_generation_and_at_least_one() {
    assert_eq!(stroke_width_tenths(0), 10);
    assert_eq!(stroke_width_tenths(1), 10);
    assert_eq!(stroke_width_tenths(2), 16);
    assert_eq!(stroke_width_tenths(3), 24);
    assert_eq!(stroke_width_tenths(5), 40);
    assert_eq!(stroke_width_tenths(15), 120);
    assert_eq!(stroke_width_tenths(u32::MAX), 34359738360);
}

#[test]
fn stroke_width_in_units_is_the_greater_of_one_and_eight_tenths_of_the_depth() {
    for depth in 0..=15u32 {
        let units = stroke_width_tenths(depth) as f64 / 10.0;
        let expected = (depth as f64 * 0.8).max(1.0);
        assert!((units - expected).abs() < 1e-12, "depth {}", depth);
    }
}

#[test]
fn the_stroke_constants_give_the_binary64_width_bit_for_bit() {
    assert_eq!(STROKE_TENTHS_PER_GENERATION, 8);
    assert_eq!(MIN_STROKE_TENTHS, 10);
    let per_generation = STROKE_TENTHS_PER_GENERATION as f64 / 10.0;
    let least = MIN_STROKE_TENTHS as f64 / 10.0;
    assert_eq!(per_generation.to_bits(), 0.8f64.to_bits());
    assert_eq!(least.to_bits(), 1.0f64.to_bits());
    for depth in 0..=15u32 {
        let width = (depth as f64 * per_generation).max(least);
        assert_eq!(width.to_bits(), (depth as f64 * 0.8).max(1.0).to_bits(), "depth {}", depth);
    }
    assert_eq!(3.0f64 * per_generation, 2.4000000000000004);
}

#[test]
fn every_segment_carries_the_stroke_width_of_its_depth() {
    let t = plan(15);
    for segment in &t {
        assert_eq!(segment.stroke_tenths, stroke_width_tenths(segment.depth));
        assert_eq!(segment.stroke_tenths, (8 * segment.depth as u64).max(10));
    }
    assert_eq!(t[0].stroke_tenths, 120);
    assert_eq!(t[t.len() - 1].stroke_tenths, 10);
}

#[test]
fn what_is_in_the_vector_stays_and_parents_count_from_its_start() {
    let mut out = plan(2);
    draw_tree(&mut out, Origin::Right { parent: 2 }, 2);
    assert_eq!(
        out,
        vec![
            segment(FOOT, 2, 16),
            segment(Origin::Left { parent: 0 }, 1, 10),
            segment(Origin::Right { parent: 0 }, 1, 10),
            segment(Origin::Right { parent: 2 }, 2, 16),
            segment(Origin::Left { parent: 3 }, 1, 10),
            segment(Origin::Right { parent: 3 }, 1, 10),
        ]
    );
    draw_tree(&mut out, FOOT, 0);
    assert_eq!(out.len(), 6);
}

#[test]
fn the_same_input_gives_the_same_segments() {
    assert_eq!(plan(11), plan(11));
}

/// One stroked line: from, to.
type Line = (f64, f64, f64, f64);

/// The lines of a tree by direct recursion on coordinates.
fn lines_by_recursion(out: &mut Vec<Line>, x: f64, y: f64, heading: f64, length: f64, depth: u32, angle: f64) {
    if depth == 0 {
        return;
    }
    let radians = heading.to_radians();
    let end_x = x + length * radians.cos();
    let end_y = y + length * radians.sin();
    out.push((x, y, end_x, end_y));
    if depth > 1 {
        lines_by_recursion(out, end_x, end_y, heading - angle, length * 0.75, depth - 1, angle);
        lines_by_recursion(out, end_x, end_y, heading + angle, length * 0.75, depth - 1, angle);
    }
}

/// The lines of a tree by walking its segments, each computed from its
/// parent.
fn lines_by_plan(segments: &[Segment], base: f64, angle: f64) -> Vec<Line> {
    let shrink = SHRINK_NUMERATOR as f64 / SHRINK_DENOMINATOR as f64;
    let mut lines: Vec<Line> = Vec::new();
    let mut courses: Vec<(f64, f64)> = Vec::new();
    for segment in segments {
        let (x, y, heading, length) = match segment.origin {
            Origin::Foot { twice_x, y } => (twice_x as f64 / 2.0, y as f64, TRUNK_HEADING_DEGREES as f64, base),
            Origin::Left { parent } => (lines[parent].2, lines[parent].3, courses[parent].0 - angle, courses[parent].1 * shrink),
            Origin::Right { parent } => (lines[parent].2, lines[parent].3, courses[parent].0 + angle, courses[parent].1 * shrink),
        };
        let radians = heading.to_radians();
        lines.push((x, y, x + length * radians.cos(), y + length * radians.sin()));
        courses.push((heading, length));
    }
    lines
}

#[test]
fn walking_the_segments_gives_the_lines_of_the_recursion() {
    for (depth, angle, base) in [(1u32, 25.0f64, 100.0f64), (5, 25.0, 100.0), (9, 33.3, 57.5), (12, 60.0, 200.0)] {
        let mut expected = Vec::new();
        lines_by_recursion(&mut expected, 400.0, 580.0, -90.0, base, depth, angle);
        let got = lines_by_plan(&plan(depth), base, angle);
        assert_eq!(got.len(), expected.len());
        for (g, e) in got.iter().zip(expected.iter()) {
            assert_eq!(g.0.to_bits(), e.0.to_bits());
            assert_eq!(g.1.to_bits(), e.1.to_bits());
            assert_eq!(g.2.to_bits(), e.2.to_bits());
            assert_eq!(g.3.to_bits(), e.3.to_bits());
        }
    }
}

#[test]
fn the_trunk_of_the_default_tree_goes_straight_up() {
    let lines = lines_by_plan(&plan(5), 100.0, 25.0);
    assert_eq!(lines.len(), 31);
    assert_eq!(lines[0], (400.0, 580.0, 400.0, 480.0));
}

#[test]
fn the_shrink_ratio_is_three_quarters() {
    assert_eq!(SHRINK_NUMERATOR as f64 / SHRINK_DENOMINATOR as f64, 0.75);
    assert_eq!(TRUNK_HEADING_DEGREES, -90);
}

use fractal_trees::params::FractalParams;
use fractal_trees::render::{
    clear, foot_of, render, Command, COLOR_BG, COLOR_FG, FOOT_MARGIN, LINE_CAP,
};
use fractal_trees::tree::{draw_tree, Origin, Segment};

fn params(iterations: i32) -> FractalParams {
    FractalParams { iterations, ..FractalParams::default() }
}

#[test]
fn the_colours_and_the_cap_are_fixed() {
    assert_eq!(COLOR_BG, "#000000");
    assert_eq!(COLOR_FG, "#ffffff");
    assert_eq!(LINE_CAP, "round");
    assert_eq!(FOOT_MARGIN, 20);
}

#[test]
fn the_foot_is_centred_twenty_units_above_the_bottom() {
    assert_eq!(foot_of(800, 600), Origin::Foot { twice_x: 800, y: 580 });
    assert_eq!(foot_of(801, 300), Origin::Foot { twice_x: 801, y: 280 });
    assert_eq!(foot_of(0, 0), Origin::Foot { twice_x: 0, y: -20 });
    assert_eq!(foot_of(u32::MAX, u32::MAX), Origin::Foot { twice_x: u32::MAX, y: 4294967275 });
}

#[test]
fn a_rendering_clears_sets_the_style_and_strokes_the_tree() {
    let commands = render(800, 600, params(3));
    let mut segments = Vec::new();
    draw_tree(&mut segments, foot_of(800, 600), 3);
    let mut expected = vec![
        Command::Clear { width: 800, height: 600 },
        Command::Style { angle: 25.0f32.to_bits(), length: 100.0f32.to_bits() },
    ];
    for segment in segments {
        expected.push(Command::Stroke { segment });
    }
    assert_eq!(commands, expected);
}

#[test]
fn a_rendering_of_one_generation_strokes_one_leaf() {
    assert_eq!(
        render(640, 480, params(1)),
        vec![
            Command::Clear { width: 640, height: 480 },
            Command::Style { angle: 25.0f32.to_bits(), length: 100.0f32.to_bits() },
            Command::Stroke {
                segment: Segment { origin: Origin::Foot { twice_x: 640, y: 460 }, depth: 1, stroke_tenths: 10 },
            },
        ]
    );
}

#[test]
fn a_rendering_strokes_two_to_the_n_minus_one_segments() {
    for n in 1..=15 {
        let commands = render(800, 600, params(n));
        let strokes = commands.iter().filter(|c| matches!(c, Command::Stroke { .. })).count();
        assert_eq!(strokes, (1usize << n) - 1);
        assert_eq!(commands.len(), strokes + 2);
    }
}

#[test]
fn angle_and_length_are_carried_by_the_style_and_change_nothing_else() {
    let a = render(800, 600, FractalParams { iterations: 6, angle: 5.0f32.to_bits(), length: 20.0f32.to_bits() });
    let b = render(800, 600, FractalParams { iterations: 6, angle: 60.0f32.to_bits(), length: 200.0f32.to_bits() });
    assert_eq!(a[1], Command::Style { angle: 5.0f32.to_bits(), length: 20.0f32.to_bits() });
    assert_eq!(b[1], Command::Style { angle: 60.0f32.to_bits(), length: 200.0f32.to_bits() });
    assert_eq!(a[0], b[0]);
    assert_eq!(a[2..], b[2..]);
}

#[test]
fn a_rendering_has_one_clear_and_one_style() {
    let commands = render(800, 600, params(8));
    assert_eq!(commands.iter().filter(|c| matches!(c, Command::Clear { .. })).count(), 1);
    assert_eq!(commands.iter().filter(|c| matches!(c, Command::Style { .. })).count(), 1);
}

#[test]
fn rendering_twice_gives_the_same_commands() {
    assert_eq!(render(800, 600, params(7)), render(800, 600, params(7)));
}

#[test]
fn clearing_fills_the_surface_and_strokes_nothing() {
    assert_eq!(clear(800, 600), vec![Command::Clear { width: 800, height: 600 }]);
    assert_eq!(clear(0, 0), vec![Command::Clear { width: 0, height: 0 }]);
}

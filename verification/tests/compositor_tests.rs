use sprite_compositor::compositor::{render, render_to_buffer, CompositeError};
use sprite_compositor::grid::{Cell, Grid};
use sprite_compositor::sprite::Sprite;
use sprite_compositor::transform::Transform;

fn glyph(ch: char) -> Cell {
    Cell { character: Some(ch), ..Default::default() }
}

fn single_cell_sprite(cell: Cell) -> Sprite {
    let mut g = Grid::new(1, 1);
    g.set(0, 0, cell);
    Sprite { buffer: g }
}

#[test]
fn render_to_buffer_test() {
    let mut buffer = Grid::new(2, 3);
    let sprite = single_cell_sprite(glyph('x'));

    render_to_buffer(&sprite, &Default::default(), &mut buffer);

    let mut expected = Grid::new(2, 3);
    expected.set(0, 0, glyph('x'));
    assert_eq!(buffer, expected);
}

#[test]
fn render_to_buffer_with_x_translation_test() {
    let mut buffer = Grid::new(2, 3);
    let sprite = single_cell_sprite(glyph('x'));

    render_to_buffer(&sprite, &Transform::new(1, 0, 0), &mut buffer);

    let mut expected = Grid::new(2, 3);
    expected.set(0, 1, glyph('x'));
    assert_eq!(buffer, expected);
}

#[test]
fn render_to_buffer_with_y_translation_test() {
    let mut buffer = Grid::new(2, 3);
    let sprite = single_cell_sprite(glyph('x'));

    render_to_buffer(&sprite, &Transform::new(0, 1, 0), &mut buffer);

    let mut expected = Grid::new(2, 3);
    expected.set(1, 0, glyph('x'));
    assert_eq!(buffer, expected);
}

#[test]
fn render_to_buffer_with_non_trivial_sprite_test() {
    let mut buffer = Grid::new(2, 3);

    let mut sprite_grid = Grid::new(2, 2);
    sprite_grid.set(0, 0, glyph('x'));
    sprite_grid.set(0, 1, glyph('x'));
    sprite_grid.set(1, 0, Default::default());
    sprite_grid.set(1, 1, glyph('x'));
    let sprite = Sprite { buffer: sprite_grid };

    render_to_buffer(&sprite, &Default::default(), &mut buffer);

    let mut expected = Grid::new(2, 3);
    expected.set(0, 0, glyph('x'));
    expected.set(0, 1, glyph('x'));
    expected.set(1, 1, glyph('x'));
    assert_eq!(buffer, expected);
}

#[test]
fn render_to_buffer_with_existing_texel_in_front() {
    let mut buffer = Grid::new(1, 1);
    buffer.set(0, 0, Cell { character: Some('a'), depth: -1, ..Default::default() });

    let sprite = single_cell_sprite(glyph('x'));

    let unchanged = buffer.clone();

    render_to_buffer(&sprite, &Default::default(), &mut buffer);

    assert_eq!(buffer, unchanged);
}

#[test]
fn render_to_buffer_with_existing_texel_behind() {
    let mut buffer = Grid::new(1, 1);
    buffer.set(0, 0, Cell { character: Some('a'), depth: -1, ..Default::default() });

    let sprite = single_cell_sprite(glyph('x'));

    render_to_buffer(&sprite, &Transform::new(0, 0, -2), &mut buffer);

    let mut expected = Grid::new(1, 1);
    expected.set(0, 0, Cell { character: Some('x'), depth: -2, ..Default::default() });
    assert_eq!(buffer, expected);
}

#[test]
fn render_to_buffer_equal_depth_incoming_wins() {
    let mut buffer = Grid::new(1, 1);
    buffer.set(0, 0, Cell { character: Some('a'), depth: 0, ..Default::default() });

    let sprite = single_cell_sprite(glyph('x'));

    render_to_buffer(&sprite, &Default::default(), &mut buffer);

    let mut expected = Grid::new(1, 1);
    expected.set(0, 0, glyph('x'));
    assert_eq!(buffer, expected);
}

#[test]
fn render_to_buffer_negative_x_translation_skips_sprite() {
    let mut buffer = Grid::new(2, 3);
    let mut sprite_grid = Grid::new(2, 2);
    sprite_grid.set(0, 0, glyph('x'));
    sprite_grid.set(0, 1, glyph('y'));
    sprite_grid.set(1, 0, glyph('z'));
    sprite_grid.set(1, 1, glyph('w'));
    let sprite = Sprite { buffer: sprite_grid };

    let unchanged = buffer.clone();
    render_to_buffer(&sprite, &Transform::new(-1, 0, 0), &mut buffer);
    assert_eq!(buffer, unchanged);
}

#[test]
fn render_to_buffer_negative_y_translation_skips_sprite() {
    let mut buffer = Grid::new(2, 3);
    let sprite = single_cell_sprite(glyph('x'));

    let unchanged = buffer.clone();
    render_to_buffer(&sprite, &Transform::new(0, -1, 0), &mut buffer);
    assert_eq!(buffer, unchanged);
}

#[test]
fn render_to_buffer_fully_clipped_sprite_changes_nothing() {
    let mut buffer = Grid::new(2, 3);
    buffer.set(1, 2, Cell { character: Some('q'), depth: 5, ..Default::default() });
    let sprite = single_cell_sprite(glyph('x'));

    let unchanged = buffer.clone();
    render_to_buffer(&sprite, &Transform::new(7, 5, 0), &mut buffer);
    assert_eq!(buffer, unchanged);
}

#[test]
fn render_to_buffer_partially_clipped_sprite() {
    let mut buffer = Grid::new(2, 3);
    let mut sprite_grid = Grid::new(2, 2);
    sprite_grid.set(0, 0, glyph('a'));
    sprite_grid.set(0, 1, glyph('b'));
    sprite_grid.set(1, 0, glyph('c'));
    sprite_grid.set(1, 1, glyph('d'));
    let sprite = Sprite { buffer: sprite_grid };

    render_to_buffer(&sprite, &Transform::new(2, 0, 0), &mut buffer);

    let mut expected = Grid::new(2, 3);
    expected.set(0, 2, glyph('a'));
    expected.set(1, 2, glyph('c'));
    assert_eq!(buffer, expected);
}

#[test]
fn render_to_buffer_per_cell_depth_offsets() {
    let mut buffer = Grid::new(1, 2);
    buffer.set(0, 0, Cell { character: Some('n'), depth: -4, ..Default::default() });
    buffer.set(0, 1, Cell { character: Some('f'), depth: 3, ..Default::default() });

    let mut sprite_grid = Grid::new(1, 2);
    sprite_grid.set(0, 0, Cell { character: Some('x'), depth: -1, ..Default::default() });
    sprite_grid.set(0, 1, Cell { character: Some('y'), depth: 1, ..Default::default() });
    let sprite = Sprite { buffer: sprite_grid };

    render_to_buffer(&sprite, &Transform::new(0, 0, -2), &mut buffer);

    let mut expected = Grid::new(1, 2);
    expected.set(0, 0, Cell { character: Some('n'), depth: -4, ..Default::default() });
    expected.set(0, 1, Cell { character: Some('y'), depth: -1, ..Default::default() });
    assert_eq!(buffer, expected);
}

#[test]
fn render_with_unique_frame_composites_relative_to_it() {
    let mut buffer = Grid::new(3, 3);
    let sprite = single_cell_sprite(glyph('x'));
    let frames = vec![Transform::new(1, 0, 2)];
    let sprites = vec![(sprite, Transform::new(2, 1, -1))];

    let result = render(&frames, &sprites, &mut buffer);

    assert_eq!(result, Ok(()));
    let mut expected = Grid::new(3, 3);
    expected.set(1, 1, Cell { character: Some('x'), depth: -3, ..Default::default() });
    assert_eq!(buffer, expected);
}

#[test]
fn render_with_no_frame_reports_failure_and_leaves_buffer() {
    let mut buffer = Grid::new(2, 3);
    buffer.set(0, 0, glyph('k'));
    let sprites = vec![(single_cell_sprite(glyph('x')), Transform::new(0, 0, 0))];

    let unchanged = buffer.clone();
    let result = render(&vec![], &sprites, &mut buffer);

    assert_eq!(result, Err(CompositeError::NoUniqueFrame));
    assert_eq!(buffer, unchanged);
}

#[test]
fn render_with_two_frames_reports_failure_and_leaves_buffer() {
    let mut buffer = Grid::new(2, 3);
    buffer.set(1, 1, glyph('k'));
    let sprites = vec![(single_cell_sprite(glyph('x')), Transform::new(0, 0, 0))];
    let frames = vec![Transform::new(0, 0, 0), Transform::new(1, 1, 0)];

    let unchanged = buffer.clone();
    let result = render(&frames, &sprites, &mut buffer);

    assert_eq!(result, Err(CompositeError::NoUniqueFrame));
    assert_eq!(buffer, unchanged);
}

#[test]
fn render_equal_depth_later_sprite_wins() {
    let mut buffer = Grid::new(1, 1);
    let frames = vec![Transform::new(0, 0, 0)];
    let sprites = vec![
        (single_cell_sprite(glyph('a')), Transform::new(0, 0, 0)),
        (single_cell_sprite(glyph('b')), Transform::new(0, 0, 0)),
    ];

    let result = render(&frames, &sprites, &mut buffer);

    assert_eq!(result, Ok(()));
    let mut expected = Grid::new(1, 1);
    expected.set(0, 0, glyph('b'));
    assert_eq!(buffer, expected);
}

#[test]
fn render_gate_applies_to_frame_relative_translation() {
    let mut buffer = Grid::new(2, 3);
    let frames = vec![Transform::new(2, 0, 0)];
    let sprites = vec![(single_cell_sprite(glyph('x')), Transform::new(1, 0, 0))];

    let unchanged = buffer.clone();
    let result = render(&frames, &sprites, &mut buffer);

    assert_eq!(result, Ok(()));
    assert_eq!(buffer, unchanged);
}

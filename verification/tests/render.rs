use termpix::grid::ImageGrid;
use termpix::pixel::ColorClass;
use termpix::render::{area_too_small, cell_targets, render_commands, DrawCommand};

const FULL: char = '\u{28FF}';
const BLANK: char = '\u{2800}';

#[test]
fn run_inside_area() {
    // pixel (1, 0) covers cells (2, 0) and (3, 0)
    assert_eq!(cell_targets(1, 0, 80, 24), vec![(2, 0), (3, 0)]);
    assert_eq!(cell_targets(0, 5, 80, 24), vec![(0, 5), (1, 5)]);
}

#[test]
fn run_clipped_at_right_edge() {
    // only the first cell of the run fits in 3 columns
    assert_eq!(cell_targets(1, 0, 3, 24), vec![(2, 0)]);
    // none of the run fits in 2 columns
    assert_eq!(cell_targets(1, 0, 2, 24), Vec::new());
}

#[test]
fn run_clipped_below_area() {
    // the row itself lies outside the area: nothing is written
    assert_eq!(cell_targets(0, 24, 80, 24), Vec::new());
    assert_eq!(cell_targets(3, 100, 80, 24), Vec::new());
}

#[test]
fn frame_of_mixed_pixels() {
    let bytes: Vec<u8> = vec![
        255, 0, 0, 255, // (0, 0) red
        0, 0, 0, 0, // (1, 0) transparent: skipped
        0, 0, 0, 255, // (0, 1) black: blank glyph
        128, 64, 32, 255, // (1, 1) cube entry 131
    ];
    let grid = ImageGrid::from_rgba_bytes(2, 2, &bytes).unwrap();
    let cmds = render_commands(&grid, 80, 24);
    let expected = vec![
        DrawCommand { col: 0, row: 0, glyph: FULL, color: ColorClass::Red },
        DrawCommand { col: 1, row: 0, glyph: FULL, color: ColorClass::Red },
        DrawCommand { col: 0, row: 1, glyph: BLANK, color: ColorClass::Black },
        DrawCommand { col: 1, row: 1, glyph: BLANK, color: ColorClass::Black },
        DrawCommand { col: 2, row: 1, glyph: FULL, color: ColorClass::Indexed(131) },
        DrawCommand { col: 3, row: 1, glyph: FULL, color: ColorClass::Indexed(131) },
    ];
    assert_eq!(cmds, expected);
}

#[test]
fn frame_clipped_to_small_area() {
    let bytes: Vec<u8> = vec![
        255, 0, 0, 255, // (0, 0) red
        0, 255, 0, 255, // (1, 0) green
        0, 0, 255, 255, // (0, 1) blue, but row 1 lies outside the area
        255, 255, 255, 255, // (1, 1) white, likewise dropped
    ];
    let grid = ImageGrid::from_rgba_bytes(2, 2, &bytes).unwrap();
    // area of 3 columns and 1 row: green keeps only cell (2, 0)
    let cmds = render_commands(&grid, 3, 1);
    let expected = vec![
        DrawCommand { col: 0, row: 0, glyph: FULL, color: ColorClass::Red },
        DrawCommand { col: 1, row: 0, glyph: FULL, color: ColorClass::Red },
        DrawCommand { col: 2, row: 0, glyph: FULL, color: ColorClass::Green },
    ];
    assert_eq!(cmds, expected);
    // every command stays inside the area
    for c in &cmds {
        assert!(c.col < 3 && c.row < 1);
    }
}

#[test]
fn small_area_warning() {
    // a 10x8 image needs 20 columns and at least 2 rows
    assert!(!area_too_small(10, 8, 20, 2));
    assert!(area_too_small(10, 8, 19, 2));
    assert!(area_too_small(10, 8, 20, 1));
    // a height below 4 pixels asks for no rows at all
    assert!(!area_too_small(1, 3, 2, 0));
}

#[test]
fn fully_transparent_frame_is_empty() {
    let bytes: Vec<u8> = vec![9, 9, 9, 0, 200, 100, 50, 0];
    let grid = ImageGrid::from_rgba_bytes(2, 1, &bytes).unwrap();
    assert_eq!(render_commands(&grid, 80, 24), Vec::new());
}

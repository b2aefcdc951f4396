use gorillas::canvas::{Canvas, Run};
use gorillas::palette::{HUD_TEXT_ATTR, SUN_ATTR};
use gorillas::text::{centered_col, draw_char, draw_text, TEXT_CELL_HEIGHT, TEXT_CELL_WIDTH};

fn painted(canvas: &Canvas) -> Vec<(i32, i32)> {
    let mut out = Vec::new();
    for y in 0..canvas.height() as i32 {
        for x in 0..canvas.width() as i32 {
            if canvas.point(x, y).is_some() {
                out.push((x, y));
            }
        }
    }
    out
}

#[test]
fn new_canvas_is_blank_and_ignores_points_outside() {
    let mut canvas = Canvas::new(4, 3);
    assert!(painted(&canvas).is_empty());
    canvas.pixel(-1, 0, 5);
    canvas.pixel(4, 0, 5);
    canvas.pixel(0, 3, 5);
    assert!(painted(&canvas).is_empty());
    canvas.pixel(3, 2, 5);
    assert_eq!(canvas.point(3, 2), Some(5));
    assert_eq!(canvas.point(7, 2), None);
}

#[test]
fn fill_rect_inclusive_paints_both_corners_in_any_order() {
    let mut canvas = Canvas::new(8, 8);
    canvas.fill_rect_inclusive(5, 4, 2, 1, 7);
    let pts = painted(&canvas);
    assert_eq!(pts.len(), 4 * 4);
    assert!(pts.contains(&(2, 1)) && pts.contains(&(5, 4)));
    assert!(!pts.contains(&(6, 4)));
}

#[test]
fn runs_merge_equal_neighbours_row_by_row() {
    let mut canvas = Canvas::new(6, 2);
    canvas.fill_rect_inclusive(0, 0, 2, 0, 1);
    canvas.pixel(3, 0, 2);
    canvas.pixel(5, 0, 2);
    canvas.pixel(1, 1, 4);
    let runs = canvas.into_runs();
    assert_eq!(
        runs,
        vec![
            Run { x: 0, y: 0, len: 3, attr: 1 },
            Run { x: 3, y: 0, len: 1, attr: 2 },
            Run { x: 5, y: 0, len: 1, attr: 2 },
            Run { x: 1, y: 1, len: 1, attr: 4 },
        ]
    );
}

#[test]
fn bresenham_line_hits_both_ends_and_every_column() {
    let mut canvas = Canvas::new(20, 20);
    canvas.line_single(1, 2, 11, 6, SUN_ATTR);
    let pts = painted(&canvas);
    assert!(pts.contains(&(1, 2)) && pts.contains(&(11, 6)));
    assert_eq!(pts.len(), 11);
    for x in 1..=11 {
        assert_eq!(pts.iter().filter(|p| p.0 == x).count(), 1);
    }
}

#[test]
fn bresenham_line_runs_backwards_and_steep() {
    let mut canvas = Canvas::new(20, 20);
    canvas.line_single(5, 15, 3, 1, SUN_ATTR);
    let pts = painted(&canvas);
    assert!(pts.contains(&(5, 15)) && pts.contains(&(3, 1)));
    assert_eq!(pts.len(), 15);
    let mut single = Canvas::new(3, 3);
    single.line_single(1, 1, 1, 1, SUN_ATTR);
    assert_eq!(painted(&single), vec![(1, 1)]);
}

#[test]
fn centered_col_centres_text_on_eighty_columns() {
    assert_eq!(centered_col("GAME OVER!"), 35);
    assert_eq!(centered_col("2>Score<1"), 36);
    assert_eq!(centered_col(""), 40);
    assert_eq!(centered_col(&"x".repeat(200)), 1);
}

#[test]
fn draw_char_doubles_each_glyph_row() {
    let mut canvas = Canvas::new(10, 20);
    draw_char(&mut canvas, 0, 0, '_', 9);
    let pts = painted(&canvas);
    assert_eq!(pts.len(), 10);
    assert!(pts.iter().all(|p| p.1 == 12 || p.1 == 13));
    let mut unknown = Canvas::new(10, 20);
    draw_char(&mut unknown, 0, 0, '#', 9);
    assert!(painted(&unknown).is_empty());
}

#[test]
fn draw_text_places_glyphs_eight_pixels_apart() {
    let mut canvas = Canvas::new(40, 20);
    draw_text(&mut canvas, 1, 1, "--", 3);
    let pts = painted(&canvas);
    assert_eq!(pts.len(), 20);
    assert!(pts.contains(&(0, 6)) && pts.contains(&(4, 7)) && pts.contains(&(8, 6)));
    assert!(!pts.contains(&(5, 6)));
}

#[test]
fn line_single_paints_exactly_bresenhams_pixels() {
    let mut canvas = Canvas::new(8, 8);
    canvas.line_single(0, 0, 4, 2, SUN_ATTR);
    assert_eq!(painted(&canvas), vec![(0, 0), (1, 1), (2, 1), (3, 2), (4, 2)]);
}

#[test]
fn wide_rectangles_are_clipped_to_the_raster() {
    let mut canvas = Canvas::new(4, 3);
    canvas.fill_rect_wide(i64::MIN, 1, i64::MAX, 1, SUN_ATTR);
    assert_eq!(painted(&canvas), vec![(0, 1), (1, 1), (2, 1), (3, 1)]);
    let mut empty = Canvas::new(4, 3);
    empty.fill_rect_wide(10, 10, 20, 20, SUN_ATTR);
    assert!(painted(&empty).is_empty());
    let mut huge = Canvas::new(4, 3);
    huge.rect(i32::MAX, 0, i32::MAX, 1, SUN_ATTR);
    assert!(painted(&huge).is_empty());
}

use gorillas::canvas::Canvas;
use gorillas::city::{Building, WindowRect};
use gorillas::palette::{BACKGROUND_ATTR, DARK_WINDOW_ATTR, EXPLOSION_ATTR, LIT_WINDOW_ATTR};
use gorillas::scene::{draw_city, draw_wind};

fn building() -> Building {
    Building {
        x: 10,
        width: 20,
        height: 30,
        color: 5,
        windows: vec![
            WindowRect { x: 13, y: 308, lit: true },
            WindowRect { x: 23, y: 308, lit: false },
        ],
    }
}

#[test]
fn building_has_border_body_and_windows() {
    let mut canvas = Canvas::new(640, 350);
    canvas.fill_rect_inclusive(0, 0, 639, 349, 3);
    draw_city(&mut canvas, &vec![building()]);
    // The roof is at 335 - 30 = 305; the border runs one pixel outside.
    assert_eq!(canvas.point(9, 304), Some(BACKGROUND_ATTR));
    assert_eq!(canvas.point(30, 335), Some(BACKGROUND_ATTR));
    assert_eq!(canvas.point(8, 320), Some(3));
    assert_eq!(canvas.point(10, 305), Some(5));
    assert_eq!(canvas.point(29, 334), Some(5));
    // Windows are four by seven pixels.
    assert_eq!(canvas.point(13, 308), Some(LIT_WINDOW_ATTR));
    assert_eq!(canvas.point(16, 314), Some(LIT_WINDOW_ATTR));
    assert_eq!(canvas.point(17, 314), Some(5));
    assert_eq!(canvas.point(16, 315), Some(5));
    assert_eq!(canvas.point(26, 314), Some(DARK_WINDOW_ATTR));
}

#[test]
fn later_buildings_paint_over_earlier_borders() {
    let mut canvas = Canvas::new(640, 350);
    let mut second = building();
    second.x = 32;
    second.windows.clear();
    draw_city(&mut canvas, &vec![building(), second]);
    // The first building's right border column is the second one's left border.
    assert_eq!(canvas.point(31, 320), Some(BACKGROUND_ATTR));
    assert_eq!(canvas.point(32, 320), Some(5));
}

#[test]
fn calm_draws_no_wind_arrow() {
    let mut canvas = Canvas::new(640, 350);
    draw_wind(&mut canvas, 0);
    assert!(canvas.into_runs().is_empty());
}

#[test]
fn wind_arrow_points_with_the_wind() {
    let mut canvas = Canvas::new(640, 350);
    draw_wind(&mut canvas, 5);
    for x in 320..=350 {
        assert_eq!(canvas.point(x, 345), Some(EXPLOSION_ATTR));
    }
    assert_eq!(canvas.point(351, 345), None);
    assert_eq!(canvas.point(319, 345), None);
    assert_eq!(canvas.point(349, 344), Some(EXPLOSION_ATTR));
    assert_eq!(canvas.point(348, 343), Some(EXPLOSION_ATTR));
    assert_eq!(canvas.point(349, 346), Some(EXPLOSION_ATTR));
    assert_eq!(canvas.point(348, 347), Some(EXPLOSION_ATTR));
}

#[test]
fn westward_wind_arrow_heads_back_to_the_right() {
    let mut canvas = Canvas::new(640, 350);
    draw_wind(&mut canvas, -3);
    assert_eq!(canvas.point(302, 345), Some(EXPLOSION_ATTR));
    assert_eq!(canvas.point(301, 345), None);
    assert_eq!(canvas.point(304, 343), Some(EXPLOSION_ATTR));
    assert_eq!(canvas.point(304, 347), Some(EXPLOSION_ATTR));
}

#[test]
fn generated_round_draws_within_the_screen() {
    let layout = gorillas::city::make_round(1991);
    let mut canvas = Canvas::new(640, 350);
    draw_city(&mut canvas, &layout.round.buildings);
    draw_wind(&mut canvas, layout.round.wind);
    // Every building body reaches the street.
    for b in &layout.round.buildings {
        assert_eq!(canvas.point(b.x, 334), Some(b.color));
    }
}

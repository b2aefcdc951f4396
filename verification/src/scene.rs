//! The parts of the playing field that are drawn on whole pixels: the
//! skyline with its windows, and the wind arrow at the bottom of the screen.

use vstd::prelude::*;

use crate::canvas::{
    bresenham_pixel, digital_line, lemma_paint_twice, lemma_painted_is_repainted, lemma_repaint_twice, rect_cell,
    shade, Canvas, LINE_COORD_LIMIT,
};
use crate::city::{Building, WindowRect, BOTTOM_LINE};
use crate::palette::{BACKGROUND_ATTR, DARK_WINDOW_ATTR, EXPLOSION_ATTR, LIT_WINDOW_ATTR};

verus! {

/// Width of a window as drawn, in pixels.
pub const WINDOW_DRAWN_WIDTH: i32 = 4;
/// Height of a window as drawn, in pixels.
pub const WINDOW_DRAWN_HEIGHT: i32 = 7;

/// Colour attribute of a window: yellow when lit, dark grey otherwise.
pub open spec fn window_attr(w: WindowRect) -> u8 {
    if w.lit {
        LIT_WINDOW_ATTR
    } else {
        DARK_WINDOW_ATTR
    }
}

/// What the pixel `(px, py)` shows after the windows `ws` were drawn, in
/// order, over `earlier`.
pub open spec fn windows_paint(ws: Seq<WindowRect>, px: int, py: int, earlier: Option<u8>) -> Option<u8>
    decreases ws.len(),
{
    if ws.len() == 0 {
        earlier
    } else {
        let w = ws.last();
        shade(
            rect_cell(
                w.x as int,
                w.y as int,
                WINDOW_DRAWN_WIDTH as int,
                WINDOW_DRAWN_HEIGHT as int,
                px,
                py,
            ),
            window_attr(w),
            windows_paint(ws.drop_last(), px, py, earlier),
        )
    }
}

/// Top edge of a building's roof.
pub open spec fn building_top(b: Building) -> int {
    BOTTOM_LINE - b.height
}

/// What the pixel `(px, py)` shows after the building `b` was drawn over
/// `earlier`: a one-pixel background border around it, its body in its
/// colour, then its windows.
pub open spec fn building_paint(b: Building, px: int, py: int, earlier: Option<u8>) -> Option<u8> {
    let top = building_top(b);
    let border = shade(
        rect_cell(b.x - 1, top - 1, b.width + 2, b.height + 2, px, py),
        BACKGROUND_ATTR,
        earlier,
    );
    let body = shade(rect_cell(b.x as int, top, b.width as int, b.height as int, px, py), b.color, border);
    windows_paint(b.windows@, px, py, body)
}

/// What the pixel `(px, py)` shows after the buildings `bs` were drawn, left
/// to right, over `earlier`.
pub open spec fn city_paint(bs: Seq<Building>, px: int, py: int, earlier: Option<u8>) -> Option<u8>
    decreases bs.len(),
{
    if bs.len() == 0 {
        earlier
    } else {
        building_paint(bs.last(), px, py, city_paint(bs.drop_last(), px, py, earlier))
    }
}

/// Draws the windows of `building`, each four by seven pixels.
pub fn draw_windows(canvas: &mut Canvas, building: &Building)
    requires
        old(canvas).wf(),
    ensures
        final(canvas).repainted(
            *old(canvas),
            |px: int, py: int, e: Option<u8>| windows_paint(building.windows@, px, py, e),
        ),
{
    let ghost start = *canvas;
    let ghost ws = building.windows@;
    let mut index: usize = 0;
    while index < building.windows.len()
        invariant
            ws == building.windows@,
                index <= ws.len(),
            canvas.repainted(
                start,
                |px: int, py: int, e: Option<u8>| windows_paint(ws.subrange(0, index as int), px, py, e),
            ),
        decreases ws.len() - index,
    {
        let window = building.windows[index];
        assert(window == ws[index as int]);
        let attr = if window.lit {
            LIT_WINDOW_ATTR
        } else {
            DARK_WINDOW_ATTR
        };
        let ghost before = *canvas;
        canvas.rect(window.x, window.y, WINDOW_DRAWN_WIDTH, WINDOW_DRAWN_HEIGHT, attr);
        proof {
            let done = ws.subrange(0, index as int);
            let next = ws.subrange(0, index as int + 1);
            assert(next.drop_last() =~= done);
            assert(next.last() == window);
            let paint_window = |px: int, py: int|
                rect_cell(
                    window.x as int,
                    window.y as int,
                    WINDOW_DRAWN_WIDTH as int,
                    WINDOW_DRAWN_HEIGHT as int,
                    px,
                    py,
                );
            lemma_painted_is_repainted(*canvas, before, paint_window, attr);
            lemma_repaint_twice(
                start,
                before,
                *canvas,
                |px: int, py: int, e: Option<u8>| windows_paint(done, px, py, e),
                |px: int, py: int, e: Option<u8>| shade(paint_window(px, py), attr, e),
            );
            assert forall|px: int, py: int| #![trigger canvas.at(px, py)] canvas.in_bounds(px, py) implies canvas.at(px, py)
                == windows_paint(next, px, py, start.at(px, py)) by {
            }
        }
        index = index + 1;
    }
    proof {
        assert(ws.subrange(0, ws.len() as int) =~= ws);
    }
}

/// Draws one building: its background border, its body and its windows.
fn draw_building(canvas: &mut Canvas, building: &Building)
    requires
        old(canvas).wf(),
    ensures
        final(canvas).repainted(
            *old(canvas),
            |px: int, py: int, e: Option<u8>| building_paint(*building, px, py, e),
        ),
{
    let ghost c0 = *canvas;
    let x = building.x as i64;
    let width = building.width as i64;
    let height = building.height as i64;
    let top = BOTTOM_LINE as i64 - height;
    canvas.fill_rect_wide(x - 1, top - 1, x + width, top + height, BACKGROUND_ATTR);
    let ghost c1 = *canvas;
    canvas.fill_rect_wide(x, top, x + width - 1, top + height - 1, building.color);
    let ghost c2 = *canvas;
    draw_windows(canvas, building);
    proof {
        let b = *building;
        let border = |px: int, py: int|
            rect_cell(b.x - 1, top - 1, b.width + 2, b.height + 2, px, py);
        let body = |px: int, py: int| rect_cell(b.x as int, top as int, b.width as int, b.height as int, px, py);
        lemma_painted_is_repainted(c1, c0, border, BACKGROUND_ATTR);
        lemma_painted_is_repainted(c2, c1, body, b.color);
        assert forall|px: int, py: int| #![trigger canvas.at(px, py)] canvas.in_bounds(px, py) implies canvas.at(px, py)
            == building_paint(b, px, py, c0.at(px, py)) by {
            assert(c1.at(px, py) == shade(border(px, py), BACKGROUND_ATTR, c0.at(px, py)));
            assert(c2.at(px, py) == shade(body(px, py), b.color, c1.at(px, py)));
        }
    }
}

/// Draws the skyline, building after building from the left.
pub fn draw_city(canvas: &mut Canvas, buildings: &Vec<Building>)
    requires
        old(canvas).wf(),
    ensures
        final(canvas).repainted(
            *old(canvas),
            |px: int, py: int, e: Option<u8>| city_paint(buildings@, px, py, e),
        ),
{
    let ghost start = *canvas;
    let ghost bs = buildings@;
    let mut index: usize = 0;
    while index < buildings.len()
        invariant
            bs == buildings@,
            index <= bs.len(),
            canvas.repainted(
                start,
                |px: int, py: int, e: Option<u8>| city_paint(bs.subrange(0, index as int), px, py, e),
            ),
        decreases bs.len() - index,
    {
        let building = &buildings[index];
        let ghost before = *canvas;
        draw_building(canvas, building);
        proof {
            let done = bs.subrange(0, index as int);
            let next = bs.subrange(0, index as int + 1);
            assert(next.drop_last() =~= done);
            assert(next.last() == *building);
            assert forall|px: int, py: int| #![trigger canvas.at(px, py)] canvas.in_bounds(px, py) implies canvas.at(px, py)
                == city_paint(next, px, py, start.at(px, py)) by {
                assert(before.at(px, py) == city_paint(done, px, py, start.at(px, py)));
            }
        }
        index = index + 1;
    }
    proof {
        assert(bs.subrange(0, bs.len() as int) =~= bs);
    }
}

/// Horizontal centre of the screen, where the wind arrow starts.
pub const WIND_START_X: i32 = 320;
/// Row of the wind arrow: five pixels above the bottom of the screen.
pub const WIND_Y: i32 = 345;

/// Where the wind arrow's shaft ends: six pixels per unit of wind from the
/// centre, to the right for a positive wind.
pub open spec fn wind_end(wind: int) -> int {
    WIND_START_X + 6 * wind
}

/// Horizontal extent of the arrow head's strokes: back towards the centre.
pub open spec fn wind_head_dx(wind: int) -> int {
    if wind > 0 {
        -2
    } else {
        2
    }
}

/// The pixel `(px, py)` lies on one of the wind arrow's three Bresenham
/// lines: the shaft and the two strokes of the head.
pub open spec fn wind_arrow_pixel(wind: int, px: int, py: int) -> bool {
    let e = wind_end(wind);
    let d = wind_head_dx(wind);
    ||| bresenham_pixel(WIND_START_X as int, WIND_Y as int, e, WIND_Y as int, px, py)
    ||| bresenham_pixel(e, WIND_Y as int, e + d, WIND_Y - 2, px, py)
    ||| bresenham_pixel(e, WIND_Y as int, e + d, WIND_Y + 2, px, py)
}

/// The wind arrow: nothing for a calm, else a shaft from the centre to the
/// wind's end point and two two-pixel strokes of the head from that point,
/// back towards the centre, one up and one down, each Bresenham's line, all
/// in the explosion colour.
pub fn draw_wind(canvas: &mut Canvas, wind: i32)
    requires
        old(canvas).wf(),
        -LINE_COORD_LIMIT <= wind_end(wind as int) - 2,
        wind_end(wind as int) + 2 <= LINE_COORD_LIMIT,
    ensures
        wind == 0 ==> final(canvas).painted_over(*old(canvas), |px: int, py: int| false, EXPLOSION_ATTR),
        wind != 0 ==> final(canvas).painted_over(
            *old(canvas),
            |px: int, py: int| wind_arrow_pixel(wind as int, px, py),
            EXPLOSION_ATTR,
        ),
        wind != 0 ==> exists|shaft: Set<(int, int)>, up: Set<(int, int)>, down: Set<(int, int)>|
            #![trigger digital_line(shaft, WIND_START_X as int, WIND_Y as int, wind_end(wind as int), WIND_Y as int), digital_line(up, wind_end(wind as int), WIND_Y as int, wind_end(wind as int) + wind_head_dx(wind as int), WIND_Y - 2), digital_line(down, wind_end(wind as int), WIND_Y as int, wind_end(wind as int) + wind_head_dx(wind as int), WIND_Y + 2)]
            {
                &&& digital_line(shaft, WIND_START_X as int, WIND_Y as int, wind_end(wind as int), WIND_Y as int)
                &&& digital_line(up, wind_end(wind as int), WIND_Y as int, wind_end(wind as int) + wind_head_dx(wind as int), WIND_Y - 2)
                &&& digital_line(down, wind_end(wind as int), WIND_Y as int, wind_end(wind as int) + wind_head_dx(wind as int), WIND_Y + 2)
                &&& final(canvas).painted_over(
                    *old(canvas),
                    |px: int, py: int| shaft.contains((px, py)) || up.contains((px, py)) || down.contains((px, py)),
                    EXPLOSION_ATTR,
                )
            },
{
    if wind == 0 {
        return;
    }
    let end_x = WIND_START_X + 6 * wind;
    let head_dx: i32 = if wind > 0 {
        -2
    } else {
        2
    };
    let ghost c0 = *canvas;
    canvas.line_single(WIND_START_X, WIND_Y, end_x, WIND_Y, EXPLOSION_ATTR);
    let ghost c1 = *canvas;
    let ghost shaft = choose|pts: Set<(int, int)>|
        #[trigger] digital_line(pts, WIND_START_X as int, WIND_Y as int, end_x as int, WIND_Y as int)
            && c1.painted_over(c0, |px: int, py: int| pts.contains((px, py)), EXPLOSION_ATTR);
    canvas.line_single(end_x, WIND_Y, end_x + head_dx, WIND_Y - 2, EXPLOSION_ATTR);
    let ghost c2 = *canvas;
    let ghost up = choose|pts: Set<(int, int)>|
        #[trigger] digital_line(pts, end_x as int, WIND_Y as int, end_x + head_dx, WIND_Y - 2)
            && c2.painted_over(c1, |px: int, py: int| pts.contains((px, py)), EXPLOSION_ATTR);
    canvas.line_single(end_x, WIND_Y, end_x + head_dx, WIND_Y + 2, EXPLOSION_ATTR);
    let ghost c3 = *canvas;
    let ghost down = choose|pts: Set<(int, int)>|
        #[trigger] digital_line(pts, end_x as int, WIND_Y as int, end_x + head_dx, WIND_Y + 2)
            && c3.painted_over(c2, |px: int, py: int| pts.contains((px, py)), EXPLOSION_ATTR);
    proof {
        let e = wind_end(wind as int);
        let d = wind_head_dx(wind as int);
        let g1 = |px: int, py: int| bresenham_pixel(WIND_START_X as int, WIND_Y as int, e, WIND_Y as int, px, py);
        let g2 = |px: int, py: int| bresenham_pixel(e, WIND_Y as int, e + d, WIND_Y - 2, px, py);
        let g3 = |px: int, py: int| bresenham_pixel(e, WIND_Y as int, e + d, WIND_Y + 2, px, py);
        assert(e == end_x && d == head_dx);
        lemma_paint_twice(c0, c1, c2, g1, g2, EXPLOSION_ATTR);
        let g12 = |px: int, py: int| g1(px, py) || g2(px, py);
        lemma_paint_twice(c0, c2, c3, g12, g3, EXPLOSION_ATTR);
        assert(c3.painted_over(
            c0,
            |px: int, py: int| wind_arrow_pixel(wind as int, px, py),
            EXPLOSION_ATTR,
        ));
        let f1 = |px: int, py: int| shaft.contains((px, py));
        let f2 = |px: int, py: int| up.contains((px, py));
        let f3 = |px: int, py: int| down.contains((px, py));
        lemma_paint_twice(c0, c1, c2, f1, f2, EXPLOSION_ATTR);
        let f12 = |px: int, py: int| f1(px, py) || f2(px, py);
        lemma_paint_twice(c0, c2, c3, f12, f3, EXPLOSION_ATTR);
        assert(c3.painted_over(
            c0,
            |px: int, py: int| shaft.contains((px, py)) || up.contains((px, py)) || down.contains((px, py)),
            EXPLOSION_ATTR,
        ));
        let e = wind_end(wind as int);
        let d = wind_head_dx(wind as int);
        assert(e == end_x && d == head_dx);
        assert(digital_line(shaft, WIND_START_X as int, WIND_Y as int, e, WIND_Y as int));
        assert(digital_line(up, e, WIND_Y as int, e + d, WIND_Y - 2));
        assert(digital_line(down, e, WIND_Y as int, e + d, WIND_Y + 2));
    }
}

} // verus!

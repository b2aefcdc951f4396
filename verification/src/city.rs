//! The city skyline of a round: randomly sized buildings with lit and dark
//! windows, the wind, and the roof tops the two gorillas stand on.

use rand::rngs::SmallRng;
use rand::{RngExt, SeedableRng};
use vstd::prelude::*;

verus! {

/// The random number generator a round is built from.
#[verifier::external_type_specification]
#[verifier::external_body]
pub struct ExSmallRng(SmallRng);

/// Street level: buildings stand on this line.
pub const BOTTOM_LINE: i32 = 335;
/// Height kept free above the tallest roof for a gorilla.
pub const GORILLA_HEIGHT: i32 = 25;
/// Horizontal offset from a roof's centre to the gorilla's origin.
pub const GORILLA_X_ADJUST: i32 = 14;
/// Vertical offset from a roof to the gorilla's origin.
pub const GORILLA_Y_ADJUST: i32 = 30;
/// Step of the skyline slope and smallest building height.
pub const HEIGHT_INCREMENT: i32 = 10;
/// A building is this wide plus a random 1..=37 pixels.
pub const DEFAULT_BUILDING_WIDTH: u32 = 37;
/// A building is its slope height plus a random 1..=120 pixels tall.
pub const RANDOM_HEIGHT: u32 = 120;
/// Vertical distance between window rows.
pub const WINDOW_VERTICAL_SPACING: i32 = 15;
/// Horizontal distance between window columns.
pub const WINDOW_HORIZONTAL_SPACING: i32 = 10;
/// Width of the logical screen.
pub const SCREEN_WIDTH: i32 = 640;

/// One building window; `y` is its top edge.
#[derive(Clone, Copy, Debug, PartialEq, Eq)]
pub struct WindowRect {
    pub x: i32,
    pub y: i32,
    pub lit: bool,
}

/// A building: left edge, width, height above street level, colour
/// attribute, and windows.
#[derive(Clone, Debug, PartialEq, Eq)]
pub struct Building {
    pub x: i32,
    pub width: i32,
    pub height: i32,
    pub color: u8,
    pub windows: Vec<WindowRect>,
}

/// The skyline and the wind of one round.
#[derive(Clone, Debug, PartialEq, Eq)]
pub struct Round {
    pub buildings: Vec<Building>,
    pub wind: i32,
}

/// Where a gorilla stands: `x_halves` is its horizontal origin in half
/// pixels (roof centres can fall between two pixels), `y` its top edge.
#[derive(Clone, Copy, Debug, PartialEq, Eq)]
pub struct GorillaSpot {
    pub x_halves: i64,
    pub y: i64,
}

/// A round and where its gorillas stand.
#[derive(Clone, Debug, PartialEq, Eq)]
pub struct RoundLayout {
    pub round: Round,
    pub gorillas: [GorillaSpot; 2],
}

/// `rand::random::<u64>()`: a seed from the thread-local generator. Nothing
/// is stated of the value: it is random.
#[verifier::external_body]
fn random_seed() -> u64 {
    rand::random::<u64>()
}

/// `SmallRng::seed_from_u64`: a generator seeded from `seed`. The generator
/// is opaque; nothing is stated of the numbers it will draw.
#[verifier::external_body]
fn seeded_rng(seed: u64) -> SmallRng {
    SmallRng::seed_from_u64(seed)
}

/// `RngExt::random_range(1..=upper)` on `rng`: a number from `1` to `upper`,
/// both included. The range is never empty, so
/// rand does not panic.
#[verifier::external_body]
fn fn_ran(rng: &mut SmallRng, upper: u32) -> (r: u32)
    requires
        upper >= 1,
    ensures
        1 <= r <= upper,
{
    rng.random_range(1..=upper)
}

/// The slope height of the next building, from the previous one: slope 1
/// climbs by 10, slope 2 falls by 10, slopes 3 to 5 form a "V" (falling by 20
/// right of the centre, climbing by 20 left of it), slope 6 an inverted "V".
pub open spec fn spec_next_height(slope: u32, height: int, x: int) -> int {
    if slope == 1 {
        height + HEIGHT_INCREMENT
    } else if slope == 2 {
        height - HEIGHT_INCREMENT
    } else if 3 <= slope <= 5 {
        if x > SCREEN_WIDTH / 2 {
            height - 2 * HEIGHT_INCREMENT
        } else {
            height + 2 * HEIGHT_INCREMENT
        }
    } else if slope == 6 {
        if x > SCREEN_WIDTH / 2 {
            height + 20
        } else {
            height - 20
        }
    } else {
        height
    }
}

/// Starting slope height: low for rising and "V" skylines, high otherwise.
pub open spec fn spec_initial_height(slope: u32) -> int {
    if slope == 1 || (3 <= slope <= 5) {
        15
    } else {
        130
    }
}

/// Width of a building at `x` from its random draw: the draw plus 37,
/// narrowed to end two pixels before the screen edge when it would stick out.
pub open spec fn spec_building_width(x: int, draw: int) -> int {
    if x + draw + DEFAULT_BUILDING_WIDTH > SCREEN_WIDTH {
        SCREEN_WIDTH - x - 2
    } else {
        draw + DEFAULT_BUILDING_WIDTH
    }
}

/// Height of a building from its random draw and slope height: at least 10,
/// and lowered to 20 when the roof would leave no room for a gorilla.
pub open spec fn spec_building_height(slope_height: int, draw: int) -> int {
    let h = if draw + slope_height < HEIGHT_INCREMENT {
        HEIGHT_INCREMENT as int
    } else {
        draw + slope_height
    };
    if BOTTOM_LINE - h <= GORILLA_HEIGHT {
        GORILLA_HEIGHT - 5
    } else {
        h
    }
}

/// Number of window columns of a building `width` pixels wide.
pub open spec fn window_cols(width: int) -> int {
    if width > 6 {
        (width - 7) / (WINDOW_HORIZONTAL_SPACING as int) + 1
    } else {
        0
    }
}

/// Number of window rows of a building `height` pixels tall.
pub open spec fn window_rows(height: int) -> int {
    if height >= 10 {
        (height - 10) / (WINDOW_VERTICAL_SPACING as int) + 1
    } else {
        0
    }
}

/// The windows form a grid: column `c` starts 3 + 10c pixels right of the
/// building's edge, row `r` starts 3 + 15r pixels below its roof line, read
/// from the bottom up (`r` counts from the highest row).
pub open spec fn windows_form_grid(windows: Seq<WindowRect>, x: int, width: int, height: int) -> bool {
    let rows = window_rows(height);
    &&& windows.len() == window_cols(width) * rows
    &&& forall|k: int|
        #![trigger windows[k]]
        0 <= k < windows.len() ==> windows[k].x == x + 3 + WINDOW_HORIZONTAL_SPACING * (k / rows)
            && windows[k].y == BOTTOM_LINE - (height - 3 - WINDOW_VERTICAL_SPACING * (k % rows))
}

/// The shape that every generated building has.
pub open spec fn building_ok(b: Building) -> bool {
    &&& 2 <= b.x
    &&& 8 <= b.width <= 74
    &&& b.x + b.width <= SCREEN_WIDTH
    &&& (b.width >= 38 || b.x + b.width == SCREEN_WIDTH - 2)
    &&& HEIGHT_INCREMENT <= b.height
    &&& BOTTOM_LINE - b.height > GORILLA_HEIGHT
    &&& 5 <= b.color <= 7
    &&& windows_form_grid(b.windows@, b.x as int, b.width as int, b.height as int)
}

/// The skyline rules: buildings start at x = 2, follow each other two
/// pixels apart, each starts at most ten pixels before the screen's right
/// edge, and the last one reaches past that point. The wind lies in -14..=15.
pub open spec fn round_ok(r: Round) -> bool {
    let b = r.buildings@;
    &&& b.len() >= 1
    &&& b[0].x == 2
    &&& forall|i: int| 0 <= i < b.len() ==> building_ok(#[trigger] b[i])
    &&& forall|i: int| 0 <= i < b.len() ==> (#[trigger] b[i]).x <= SCREEN_WIDTH - 10
    &&& forall|i: int|
        0 <= i < b.len() - 1 ==> (#[trigger] b[i + 1]).x == b[i].x + b[i].width + 2
    &&& b[b.len() - 1].x + b[b.len() - 1].width + 2 > SCREEN_WIDTH - 10
    &&& -14 <= r.wind <= 15
}

/// The skyline follows the generator's rules for the slope pattern `slope`
/// with slope heights `heights`: each building's slope height steps from the
/// previous one (the first from the pattern's starting height), and its width
/// and height come from some random draws (1 to 37 and 1 to 120) by the
/// width and height rules.
pub open spec fn skyline_follows(bs: Seq<Building>, slope: u32, heights: Seq<int>) -> bool {
    &&& heights.len() == bs.len()
    &&& forall|i: int|
        0 <= i < bs.len() ==> #[trigger] heights[i] == spec_next_height(
            slope,
            if i == 0 {
                spec_initial_height(slope)
            } else {
                heights[i - 1]
            },
            bs[i].x as int,
        )
    &&& forall|i: int| 0 <= i < bs.len() ==> building_sized_by_draws(#[trigger] bs[i], heights[i])
}

/// The building's width and height come, by the width and height rules, from
/// a width draw of 1 to 37 and a height draw of 1 to 120 on the slope height
/// `slope_height`.
pub open spec fn building_sized_by_draws(b: Building, slope_height: int) -> bool {
    exists|dw: int, dh: int|
        #![trigger spec_building_width(b.x as int, dw), spec_building_height(slope_height, dh)]
        1 <= dw <= DEFAULT_BUILDING_WIDTH && 1 <= dh <= RANDOM_HEIGHT && b.width
            == spec_building_width(b.x as int, dw) && b.height == spec_building_height(
            slope_height,
            dh,
        )
}

/// The skyline was generated for one of the six slope patterns.
pub open spec fn skyline_generated(bs: Seq<Building>) -> bool {
    exists|slope: u32, heights: Seq<int>|
        1 <= slope <= 6 && #[trigger] skyline_follows(bs, slope, heights)
}

/// The slope height before building `i` of a skyline: the pattern's
/// starting height `start` for the first building, the previous building's
/// slope height otherwise.
pub open spec fn previous_slope_height(heights: Seq<int>, start: int, i: int) -> int {
    if i == 0 {
        start
    } else {
        heights[i - 1]
    }
}

/// The slope patterns of the skyline: the rising skyline (pattern 1) starts
/// at 15 and climbs 10 pixels per building, so its slope heights strictly
/// increase from left to right; the falling skyline (pattern 2) starts at 130
/// and drops 10 per building; the "V" skylines (patterns 3 to 5) start at 15
/// and climb 20 per building up to the screen's centre, then drop 20; the
/// inverted "V" (pattern 6) starts at 130, drops 20 up to the centre and
/// climbs 20 after it.
pub proof fn lemma_skyline_slope_patterns(bs: Seq<Building>, slope: u32, heights: Seq<int>)
    requires
        skyline_follows(bs, slope, heights),
    ensures
        slope == 1 ==> forall|i: int| 0 <= i < bs.len() ==> #[trigger] heights[i] == 25 + 10 * i,
        slope == 1 ==> forall|i: int, j: int|
            0 <= i < j < bs.len() ==> #[trigger] heights[i] < #[trigger] heights[j],
        slope == 2 ==> forall|i: int| 0 <= i < bs.len() ==> #[trigger] heights[i] == 120 - 10 * i,
        3 <= slope <= 5 ==> forall|i: int|
            0 <= i < bs.len() ==> #[trigger] heights[i] - previous_slope_height(heights, 15, i) == if bs[i].x
                <= 320 {
                20int
            } else {
                -20int
            },
        slope == 6 ==> forall|i: int|
            0 <= i < bs.len() ==> #[trigger] heights[i] - previous_slope_height(heights, 130, i) == if bs[i].x
                <= 320 {
                -20int
            } else {
                20int
            },
{
    if slope == 1 {
        lemma_linear_slope(bs, slope, heights, 25, 10, bs.len() as int);
        assert forall|i: int, j: int| 0 <= i < j < bs.len() implies #[trigger] heights[i]
            < #[trigger] heights[j] by {
            assert(heights[i] == 25 + 10 * i);
            assert(heights[j] == 25 + 10 * j);
        }
    } else if slope == 2 {
        lemma_linear_slope(bs, slope, heights, 120, -10, bs.len() as int);
    } else {
        assert forall|i: int| 0 <= i < bs.len() implies #[trigger] heights[i] == spec_next_height(
            slope,
            previous_slope_height(heights, spec_initial_height(slope), i),
            bs[i].x as int,
        ) by {}
    }
}

/// For the rising and falling skylines the slope heights form an arithmetic
/// progression from `first` with step `step`, up to building `n`.
proof fn lemma_linear_slope(bs: Seq<Building>, slope: u32, heights: Seq<int>, first: int, step: int, n: int)
    requires
        skyline_follows(bs, slope, heights),
        slope == 1 || slope == 2,
        first == spec_next_height(slope, spec_initial_height(slope), 0),
        step == spec_next_height(slope, 0, 0),
        0 <= n <= bs.len(),
    ensures
        forall|i: int| 0 <= i < n ==> #[trigger] heights[i] == first + step * i,
    decreases n,
{
    if n > 0 {
        lemma_linear_slope(bs, slope, heights, first, step, n - 1);
        assert(heights[n - 1] == spec_next_height(
            slope,
            if n - 1 == 0 {
                spec_initial_height(slope)
            } else {
                heights[n - 2]
            },
            bs[n - 1].x as int,
        ));
    }
}

fn next_height(slope: u32, height: i32, x: i32) -> (h: i32)
    requires
        i32::MIN + 20 <= height <= i32::MAX - 20,
    ensures
        h == spec_next_height(slope, height as int, x as int),
{
    if slope == 1 {
        height + HEIGHT_INCREMENT
    } else if slope == 2 {
        height - HEIGHT_INCREMENT
    } else if 3 <= slope && slope <= 5 {
        if x > SCREEN_WIDTH / 2 {
            height - 2 * HEIGHT_INCREMENT
        } else {
            height + 2 * HEIGHT_INCREMENT
        }
    } else if slope == 6 {
        if x > SCREEN_WIDTH / 2 {
            height + 20
        } else {
            height - 20
        }
    } else {
        height
    }
}

/// Every window is lit unless its draw is 1 (a chance of 1 in 4 for draws
/// of 1 to 4).
pub open spec fn windows_lit_by(windows: Seq<WindowRect>, draws: Seq<u32>) -> bool {
    &&& windows.len() == draws.len()
    &&& forall|k: int| 0 <= k < windows.len() ==> (#[trigger] windows[k]).lit == (draws[k] != 1)
}

/// The windows of a building at `building_x`, `building_width` pixels wide
/// and `height` tall, column by column from the left and each column from
/// the bottom up; window `k` is lit unless `draws[k]` is 1.
pub fn windows_from_draws(building_x: i32, building_width: i32, height: i32, draws: &Vec<u32>) -> (windows:
    Vec<WindowRect>)
    requires
        0 <= building_x <= SCREEN_WIDTH,
        -2 <= building_width <= SCREEN_WIDTH,
        0 <= height <= BOTTOM_LINE,
        draws@.len() == window_cols(building_width as int) * window_rows(height as int),
    ensures
        windows_form_grid(windows@, building_x as int, building_width as int, height as int),
        windows_lit_by(windows@, draws@),
{
    let mut windows: Vec<WindowRect> = Vec::new();
    let ghost rows = window_rows(height as int);
    let mut x = building_x + 3;
    let mut col: i32 = 0;
    while x < building_x + building_width - 3
        invariant
            0 <= building_x <= SCREEN_WIDTH,
            -2 <= building_width <= SCREEN_WIDTH,
            0 <= height <= BOTTOM_LINE,
            draws@.len() == window_cols(building_width as int) * rows,
            forall|k: int| 0 <= k < windows@.len() ==> (#[trigger] windows@[k]).lit == (draws@[k] != 1),
            rows == window_rows(height as int),
            0 <= col,
            x == building_x + 3 + WINDOW_HORIZONTAL_SPACING * col,
            col <= window_cols(building_width as int),
            x < building_x + building_width - 3 ==> col < window_cols(building_width as int),
            windows@.len() == col * rows,
            forall|k: int|
                #![trigger windows@[k]]
                0 <= k < windows@.len() ==> windows@[k].x == building_x + 3
                    + WINDOW_HORIZONTAL_SPACING * (k / rows) && windows@[k].y == BOTTOM_LINE - (
                height - 3 - WINDOW_VERTICAL_SPACING * (k % rows)),
        decreases window_cols(building_width as int) - col,
    {
        let mut i = height - 3;
        let mut row: i32 = 0;
        while i >= 7
            invariant
                0 <= building_x <= SCREEN_WIDTH,
                0 <= height <= BOTTOM_LINE,
                col < window_cols(building_width as int),
                draws@.len() == window_cols(building_width as int) * rows,
                forall|k: int| 0 <= k < windows@.len() ==> (#[trigger] windows@[k]).lit == (draws@[k] != 1),
                rows == window_rows(height as int),
                0 <= col,
                x == building_x + 3 + WINDOW_HORIZONTAL_SPACING * col,
                0 <= row,
                i == height - 3 - WINDOW_VERTICAL_SPACING * row,
                row <= rows,
                i >= 7 ==> row < rows,
                windows@.len() == col * rows + row,
                forall|k: int|
                    #![trigger windows@[k]]
                    0 <= k < windows@.len() ==> windows@[k].x == building_x + 3
                        + WINDOW_HORIZONTAL_SPACING * (k / rows) && windows@[k].y == BOTTOM_LINE
                        - (height - 3 - WINDOW_VERTICAL_SPACING * (k % rows)),
            decreases rows - row,
        {
            proof {
                let k = col * rows + row;
                assert(k / rows == col && k % rows == row) by (nonlinear_arith)
                    requires
                        k == col * rows + row,
                        0 <= row < rows,
                        0 <= col,
                ;
                assert(k < draws@.len()) by (nonlinear_arith)
                    requires
                        k == col * rows + row,
                        0 <= row < rows,
                        0 <= col < window_cols(building_width as int),
                        draws@.len() == window_cols(building_width as int) * rows,
                ;
            }
            let lit = draws[windows.len()] != 1;
            windows.push(WindowRect { x, y: BOTTOM_LINE - i, lit });
            i = i - WINDOW_VERTICAL_SPACING;
            row = row + 1;
        }
        proof {
            assert(row == rows);
            assert((col + 1) * rows == col * rows + rows) by (nonlinear_arith);
        }
        x = x + WINDOW_HORIZONTAL_SPACING;
        col = col + 1;
    }
    proof {
        assert(col == window_cols(building_width as int));
    }
    windows
}

/// Number of window rows of a building `height` pixels tall.
fn window_rows_of(height: i32) -> (rows: i32)
    requires
        0 <= height <= BOTTOM_LINE,
    ensures
        rows == window_rows(height as int),
{
    if height >= 10 {
        (height - 10) / WINDOW_VERTICAL_SPACING + 1
    } else {
        0
    }
}

/// Number of windows of a building `width` pixels wide and `height` tall.
fn window_count(width: i32, height: i32) -> (count: usize)
    requires
        -2 <= width <= SCREEN_WIDTH,
        0 <= height <= BOTTOM_LINE,
    ensures
        count == window_cols(width as int) * window_rows(height as int),
{
    let cols: i32 = if width > 6 {
        (width - 7) / WINDOW_HORIZONTAL_SPACING + 1
    } else {
        0
    };
    let rows = window_rows_of(height);
    assert(0 <= cols * rows <= 64 * 22) by (nonlinear_arith)
        requires
            0 <= cols <= 64,
            0 <= rows <= 22,
    ;
    (cols * rows) as usize
}

/// Draws the lit-or-dark roll (1 to 4) of each of `count` windows.
fn window_draws(rng: &mut SmallRng, count: usize) -> (draws: Vec<u32>)
    ensures
        draws@.len() == count,
        forall|k: int| 0 <= k < count ==> 1 <= #[trigger] draws@[k] <= 4,
{
    let mut draws: Vec<u32> = Vec::new();
    let mut k: usize = 0;
    while k < count
        invariant
            k <= count,
            draws@.len() == k,
            forall|i: int| 0 <= i < k ==> 1 <= #[trigger] draws@[i] <= 4,
        decreases count - k,
    {
        draws.push(fn_ran(rng, 4));
        k = k + 1;
    }
    draws
}

/// Width of a building at `x` from its width draw.
pub fn building_width(x: i32, draw: u32) -> (width: i32)
    requires
        0 <= x <= SCREEN_WIDTH,
    ensures
        width == spec_building_width(x as int, draw as int),
{
    let w: i64 = draw as i64 + DEFAULT_BUILDING_WIDTH as i64;
    if x as i64 + w > SCREEN_WIDTH as i64 {
        SCREEN_WIDTH - x - 2
    } else {
        w as i32
    }
}

/// Height of a building from its height draw and slope height.
pub fn building_height(slope_height: i32, draw: u32) -> (height: i32)
    ensures
        height == spec_building_height(slope_height as int, draw as int),
        HEIGHT_INCREMENT <= height < BOTTOM_LINE - GORILLA_HEIGHT,
{
    let mut h: i64 = draw as i64 + slope_height as i64;
    if h < HEIGHT_INCREMENT as i64 {
        h = HEIGHT_INCREMENT as i64;
    }
    if BOTTOM_LINE as i64 - h <= GORILLA_HEIGHT as i64 {
        h = (GORILLA_HEIGHT - 5) as i64;
    }
    h as i32
}

/// The building `b` is the one drawn at `x` on the slope height
/// `slope_height` from the width, height and colour draws and the windows'
/// lit rolls: its width and height follow the width and height rules, its
/// colour attribute is the colour draw plus 4, its windows form the grid and
/// window `k` is lit unless roll `k` is 1.
pub open spec fn building_matches_draws(
    b: Building,
    x: int,
    slope_height: int,
    width_draw: int,
    height_draw: int,
    color_draw: int,
    window_rolls: Seq<u32>,
) -> bool {
    &&& b.x == x
    &&& b.width == spec_building_width(x, width_draw)
    &&& b.height == spec_building_height(slope_height, height_draw)
    &&& b.color == color_draw + 4
    &&& windows_form_grid(b.windows@, x, b.width as int, b.height as int)
    &&& windows_lit_by(b.windows@, window_rolls)
}

/// The building at `x` on the slope height `slope_height` for the given draws.
pub fn building_from_draws(
    x: i32,
    slope_height: i32,
    width_draw: u32,
    height_draw: u32,
    color_draw: u32,
    window_rolls: &Vec<u32>,
) -> (b: Building)
    requires
        0 <= x <= SCREEN_WIDTH,
        color_draw <= 251,
        window_rolls@.len() == window_cols(spec_building_width(x as int, width_draw as int))
            * window_rows(spec_building_height(slope_height as int, height_draw as int)),
    ensures
        building_matches_draws(
            b,
            x as int,
            slope_height as int,
            width_draw as int,
            height_draw as int,
            color_draw as int,
            window_rolls@,
        ),
{
    let width = building_width(x, width_draw);
    let height = building_height(slope_height, height_draw);
    let color = (color_draw + 4) as u8;
    let windows = windows_from_draws(x, width, height, window_rolls);
    Building { x, width, height, color, windows }
}

/// The wind is its base draw, or the base blown further by 1 to 10 in its
/// own direction (a calm base grows negative).
pub open spec fn wind_from_base(wind: int, base: int) -> bool {
    ||| wind == base
    ||| base > 0 && base < wind <= base + 10
    ||| base <= 0 && base - 10 <= wind < base
}

/// The wind of a round: -4..=5, and with chance 1 in 3 blown up further by
/// another 1..=10 in its own direction (a calm or negative wind grows
/// negative).
fn make_wind(rng: &mut SmallRng) -> (wind: i32)
    ensures
        -14 <= wind <= 15,
        exists|base: int| -4 <= base <= 5 && #[trigger] wind_from_base(wind as int, base),
{
    let base = fn_ran(rng, 10);
    let gust_roll = fn_ran(rng, 3);
    let gust = if gust_roll == 1 {
        fn_ran(rng, 10)
    } else {
        0
    };
    let wind = wind_from_draws(base, gust_roll, gust);
    assert(wind_from_base(wind as int, base - 5));
    wind as i32
}

/// The wind from its draws: the base draw minus 5 and, when the gust roll
/// is 1, blown further by the gust draw in its own direction (a calm base
/// grows negative).
pub open spec fn spec_wind(base: int, gust_roll: int, gust: int) -> int {
    let w = base - 5;
    if gust_roll == 1 {
        if w > 0 {
            w + gust
        } else {
            w - gust
        }
    } else {
        w
    }
}

/// The wind for the base draw, the gust roll and the gust draw.
pub fn wind_from_draws(base: u32, gust_roll: u32, gust: u32) -> (wind: i64)
    ensures
        wind == spec_wind(base as int, gust_roll as int, gust as int),
{
    let w: i64 = base as i64 - 5;
    if gust_roll == 1 {
        if w > 0 {
            w + gust as i64
        } else {
            w - gust as i64
        }
    } else {
        w
    }
}

/// Generates a skyline and its wind from `rng`: the slope pattern is drawn
/// first, then each building's width, height, colour (attribute 5 to 7) and
/// windows from left to right, and the wind last.
pub fn make_cityscape_with_rng(rng: &mut SmallRng) -> (round: Round)
    ensures
        round_ok(round),
        skyline_generated(round.buildings@),
{
    let slope = fn_ran(rng, 6);
    let mut new_height: i32 = if slope == 1 || (3 <= slope && slope <= 5) {
        15
    } else {
        130
    };
    let mut x: i32 = 2;
    let mut buildings: Vec<Building> = Vec::new();
    let ghost mut heights: Seq<int> = Seq::empty();
    while x <= SCREEN_WIDTH - 10
        invariant
            1 <= slope <= 6,
            skyline_follows(buildings@, slope, heights),
            new_height == if buildings@.len() == 0 {
                spec_initial_height(slope)
            } else {
                heights.last()
            },
            2 <= x <= SCREEN_WIDTH + 2,
            10 * buildings@.len() <= x - 2,
            -130 - 20 * buildings@.len() <= new_height <= 130 + 20 * buildings@.len(),
            forall|i: int|
                0 <= i < buildings@.len() ==> building_ok(#[trigger] buildings@[i])
                    && buildings@[i].x <= SCREEN_WIDTH - 10,
            forall|i: int|
                0 <= i < buildings@.len() - 1 ==> (#[trigger] buildings@[i + 1]).x
                    == buildings@[i].x + buildings@[i].width + 2,
            buildings@.len() == 0 ==> x == 2,
            buildings@.len() > 0 ==> buildings@[0].x == 2 && x == buildings@[buildings@.len()
                - 1].x + buildings@[buildings@.len() - 1].width + 2,
        decreases SCREEN_WIDTH + 10 - x,
    {
        new_height = next_height(slope, new_height, x);
        let width_draw = fn_ran(rng, DEFAULT_BUILDING_WIDTH);
        let height_draw = fn_ran(rng, RANDOM_HEIGHT);
        let color_draw = fn_ran(rng, 3);
        let width = building_width(x, width_draw);
        let height = building_height(new_height, height_draw);
        let rolls = window_draws(rng, window_count(width, height));
        let building = building_from_draws(x, new_height, width_draw, height_draw, color_draw, &rolls);
        let ghost before = buildings@;
        let ghost before_heights = heights;
        buildings.push(building);
        proof {
            heights = heights.push(new_height as int);
            assert(width == spec_building_width(x as int, width_draw as int));
            assert(height == spec_building_height(new_height as int, height_draw as int));
            assert forall|i: int| 0 <= i < buildings@.len() implies building_sized_by_draws(
                #[trigger] buildings@[i],
                heights[i],
            ) by {
                if i < before.len() {
                    assert(buildings@[i] == before[i]);
                    assert(heights[i] == before_heights[i]);
                } else {
                    assert(spec_building_width(buildings@[i].x as int, width_draw as int) == width);
                    assert(spec_building_height(heights[i], height_draw as int) == height);
                }
            }
            assert forall|i: int| 0 <= i < buildings@.len() implies #[trigger] heights[i] == spec_next_height(
                slope,
                if i == 0 {
                    spec_initial_height(slope)
                } else {
                    heights[i - 1]
                },
                buildings@[i].x as int,
            ) by {
                if i < before.len() {
                    assert(buildings@[i] == before[i]);
                    assert(heights[i] == before_heights[i]);
                    if i > 0 {
                        assert(heights[i - 1] == before_heights[i - 1]);
                    }
                }
            }
            assert forall|i: int| 0 <= i < buildings@.len() - 1 implies (#[trigger] buildings@[i
                + 1]).x == buildings@[i].x + buildings@[i].width + 2 by {
                if i + 1 < before.len() {
                    assert(buildings@[i + 1] == before[i + 1]);
                    assert(buildings@[i] == before[i]);
                }
            }
        }
        x = x + width + 2;
    }
    let wind = make_wind(rng);
    assert(skyline_follows(buildings@, slope, heights));
    Round { buildings, wind }
}

/// Where a gorilla stands on building `index`: centred on the roof, where
/// the roof counts up to the next building's edge (two pixels of gap
/// included), 14 pixels left of the centre and 30 pixels above the roof.
pub open spec fn spec_gorilla_on(buildings: Seq<Building>, index: int) -> GorillaSpot {
    let b = buildings[index];
    let next_x = if index < buildings.len() - 1 {
        buildings[index + 1].x as int
    } else {
        b.x + b.width + 2
    };
    GorillaSpot {
        x_halves: (b.x + next_x - 2 * GORILLA_X_ADJUST) as i64,
        y: (BOTTOM_LINE - b.height - GORILLA_Y_ADJUST) as i64,
    }
}

/// The spot on building `index` where a gorilla stands.
pub fn gorilla_on(buildings: &Vec<Building>, index: usize) -> (spot: GorillaSpot)
    requires
        index < buildings@.len(),
    ensures
        spot == spec_gorilla_on(buildings@, index as int),
{
    let b = &buildings[index];
    let next_x: i64 = if index < buildings.len() - 1 {
        buildings[index + 1].x as i64
    } else {
        b.x as i64 + b.width as i64 + 2
    };
    GorillaSpot {
        x_halves: b.x as i64 + next_x - 2 * GORILLA_X_ADJUST as i64,
        y: BOTTOM_LINE as i64 - b.height as i64 - GORILLA_Y_ADJUST as i64,
    }
}

/// The fixed spots used when a skyline has fewer than four buildings.
pub open spec fn fallback_spots() -> [GorillaSpot; 2] {
    [GorillaSpot { x_halves: 280, y: 200 }, GorillaSpot { x_halves: 1000, y: 200 }]
}

/// The gorillas' spots from the two placement draws: with fewer than four
/// buildings the fixed spots; otherwise the left gorilla on building
/// `left_draw` and the right one on building `len - 1 - right_draw`.
pub open spec fn spec_spots_from_draws(buildings: Seq<Building>, left_draw: int, right_draw: int) -> [GorillaSpot; 2] {
    if buildings.len() < 4 {
        fallback_spots()
    } else {
        [
            spec_gorilla_on(buildings, left_draw),
            spec_gorilla_on(buildings, buildings.len() - 1 - right_draw),
        ]
    }
}

/// Places the gorillas for the draws `left_draw` and `right_draw`.
pub fn gorilla_spots_from_draws(buildings: &Vec<Building>, left_draw: usize, right_draw: usize) -> (spots: [GorillaSpot; 2])
    requires
        buildings@.len() >= 4 ==> left_draw < buildings@.len() && right_draw < buildings@.len(),
    ensures
        spots == spec_spots_from_draws(buildings@, left_draw as int, right_draw as int),
{
    if buildings.len() < 4 {
        return [GorillaSpot { x_halves: 280, y: 200 }, GorillaSpot { x_halves: 1000, y: 200 }];
    }
    let left = gorilla_on(buildings, left_draw);
    let right = gorilla_on(buildings, buildings.len() - 1 - right_draw);
    [left, right]
}

/// Puts the gorillas on the second or third building from the left and the
/// second or third building from the right, chosen at random.
pub fn place_gorillas_with_rng(buildings: &Vec<Building>, rng: &mut SmallRng) -> (spots: [GorillaSpot;
    2])
    ensures
        buildings@.len() < 4 ==> spots == fallback_spots(),
        buildings@.len() >= 4 ==> exists|left: int, right: int|
            #![trigger spec_gorilla_on(buildings@, left), spec_gorilla_on(buildings@, right)]
            (left == 1 || left == 2) && (right == buildings@.len() - 2 || right == buildings@.len()
                - 3) && spots == [spec_gorilla_on(buildings@, left), spec_gorilla_on(
                buildings@,
                right,
            )],
{
    if buildings.len() < 4 {
        return gorilla_spots_from_draws(buildings, 0, 0);
    }
    let left_draw = fn_ran(rng, 2) as usize;
    let right_draw = fn_ran(rng, 2) as usize;
    let spots = gorilla_spots_from_draws(buildings, left_draw, right_draw);
    assert(spots == [spec_gorilla_on(buildings@, left_draw as int), spec_gorilla_on(buildings@, buildings@.len() - 1 - right_draw)]);
    spots
}

/// Builds the round for `seed`: the skyline, then the gorillas' spots, all
/// drawn from one generator seeded with `seed`.
pub fn make_round(seed: u64) -> (layout: RoundLayout)
    ensures
        round_ok(layout.round),
        skyline_generated(layout.round.buildings@),
        layout.round.buildings@.len() < 4 ==> layout.gorillas == fallback_spots(),
        layout.round.buildings@.len() >= 4 ==> exists|left: int, right: int|
            #![trigger spec_gorilla_on(layout.round.buildings@, left), spec_gorilla_on(layout.round.buildings@, right)]
            (left == 1 || left == 2) && (right == layout.round.buildings@.len() - 2 || right
                == layout.round.buildings@.len() - 3) && layout.gorillas == [
                spec_gorilla_on(layout.round.buildings@, left),
                spec_gorilla_on(layout.round.buildings@, right),
            ],
{
    let mut rng = seeded_rng(seed);
    let round = make_cityscape_with_rng(&mut rng);
    let gorillas = place_gorillas_with_rng(&round.buildings, &mut rng);
    RoundLayout { round, gorillas }
}

/// The skyline that a generator seeded with `seed` draws.
pub fn make_cityscape_with_seed(seed: u64) -> (round: Round)
    ensures
        round_ok(round),
        skyline_generated(round.buildings@),
{
    let mut rng = seeded_rng(seed);
    make_cityscape_with_rng(&mut rng)
}

/// A round from a fresh random seed.
pub fn new_round() -> (layout: RoundLayout)
    ensures
        round_ok(layout.round),
        skyline_generated(layout.round.buildings@),
        layout.round.buildings@.len() < 4 ==> layout.gorillas == fallback_spots(),
        layout.round.buildings@.len() >= 4 ==> exists|left: int, right: int|
            #![trigger spec_gorilla_on(layout.round.buildings@, left), spec_gorilla_on(layout.round.buildings@, right)]
            (left == 1 || left == 2) && (right == layout.round.buildings@.len() - 2 || right
                == layout.round.buildings@.len() - 3) && layout.gorillas == [
                spec_gorilla_on(layout.round.buildings@, left),
                spec_gorilla_on(layout.round.buildings@, right),
            ],
{
    make_round(random_seed())
}

} // verus!

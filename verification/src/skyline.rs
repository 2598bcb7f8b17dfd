//! The random city of a round: the row of buildings with their windows, the
//! two gorillas' perches and the wind.

use vstd::prelude::*;
use crate::effects::SCREEN_WIDTH;
use crate::render_ref::{COLOR_BUILDING_CYAN, COLOR_BUILDING_GRAY, COLOR_BUILDING_RED, COLOR_DARK, COLOR_WINDOW};

verus! {

/// The street: every building stands on this row.
pub const BOTTOM_LINE: i32 = 335;

/// A window's width in pixels, less the one of its right edge.
pub const WINDOW_WIDTH: i32 = 3;

/// A window's height in pixels, less the one of its bottom edge.
pub const WINDOW_HEIGHT: i32 = 6;

/// A window: its top-left corner and whether it is lit.
#[derive(Debug, Clone, Copy, PartialEq, Eq, Structural)]
pub struct WindowPlan {
    pub x: i32,
    pub y: i32,
    pub color: u8,
}

/// A building: its left column, its width, its roof row, its colour and its
/// windows.
#[derive(Debug, Clone)]
pub struct BuildingPlan {
    pub x: i32,
    pub width: i32,
    pub top_y: i32,
    pub color: u8,
    pub windows: Vec<WindowPlan>,
}

/// Where a gorilla stands: the top-left corner of its sprite. The column is
/// counted in half pixels, since a gorilla stands in the middle of its roof.
#[derive(Debug, Clone, Copy, PartialEq, Eq, Structural)]
pub struct GorillaSpot {
    pub x_halves: i32,
    pub y: i32,
}

/// A round's city.
#[derive(Debug, Clone)]
pub struct RoundPlan {
    pub buildings: Vec<BuildingPlan>,
    pub gorillas: [GorillaSpot; 2],
    pub wind: i32,
}

// ---------------------------------------------------------------------------
// Chance

/// `quad_rand::gen_range` on `i32` (the generator that `macroquad::rand`
/// re-exports, so the game and the city draw from one stream): a
/// pseudo-random number from `low` up to, but not including, `high`. The
/// generator scales a 32-bit draw into the range in `f64` and truncates
/// toward zero. Truncation moves a value toward zero, so it stays inside the
/// range only when the range's upper end is positive: a value just below a
/// non-positive `high` would be truncated up to `high` itself, which is why
/// `high` must be at least 1. Which number comes out depends on the
/// generator's state, and nothing more is claimed of it.
#[verifier::external_body]
fn gen_range(low: i32, high: i32) -> (r: i32)
    requires
        -1000 <= low < high <= 1000,
        1 <= high,
    ensures
        low <= r < high,
{
    quad_rand::gen_range(low, high)
}

/// A pseudo-random number from `min` to `max`, both included.
fn rand_inclusive(min: i32, max: i32) -> (r: i32)
    requires
        -1000 <= min <= max < 1000,
        0 <= max,
    ensures
        min <= r <= max,
{
    gen_range(min, max + 1)
}

// ---------------------------------------------------------------------------
// The rules of the skyline

/// The height the skyline starts from: low for a rising or a valley-shaped
/// skyline, high for a falling or a peak-shaped one.
pub open spec fn initial_height_spec(slope: int) -> int {
    if slope == 1 {
        15
    } else if slope == 2 {
        130
    } else if 3 <= slope <= 5 {
        15
    } else {
        130
    }
}

/// The skyline height at the building starting at column `x`: slope 1 rises,
/// slope 2 falls, slopes 3 to 5 rise up to the middle of the screen and fall
/// after it, and the others fall and then rise.
pub open spec fn next_height_spec(slope: int, x: int, height: int) -> int {
    if slope == 1 {
        height + 10
    } else if slope == 2 {
        height - 10
    } else if 3 <= slope <= 5 {
        if x <= SCREEN_WIDTH / 2 {
            height + 20
        } else {
            height - 20
        }
    } else {
        if x <= SCREEN_WIDTH / 2 {
            height - 20
        } else {
            height + 20
        }
    }
}

/// A building's width: 37 plus the draw, narrowed to end two pixels before
/// the right edge of the screen (but at least 10 wide) where it would cross it.
pub open spec fn building_width_spec(x: int, draw: int) -> int {
    let width = draw + 37;
    if x + width > SCREEN_WIDTH {
        if SCREEN_WIDTH - x - 2 >= 10 {
            SCREEN_WIDTH - x - 2
        } else {
            10
        }
    } else {
        width
    }
}

/// A building's roof row: the skyline height plus the draw, kept between 25
/// and 265 pixels, and the roof no higher than row 70.
pub open spec fn building_top_spec(height: int, draw: int) -> int {
    let h0 = draw + height;
    let h = if h0 < 25 {
        25
    } else if h0 > 265 {
        265
    } else {
        h0
    };
    if BOTTOM_LINE - h >= 70 {
        BOTTOM_LINE - h
    } else {
        70
    }
}

/// A building's colour: gray, red or cyan for a draw of 1, 2 or more.
pub open spec fn building_color_spec(draw: int) -> u8 {
    if draw == 1 {
        COLOR_BUILDING_GRAY
    } else if draw == 2 {
        COLOR_BUILDING_RED
    } else {
        COLOR_BUILDING_CYAN
    }
}

/// A window is dark for a draw of 1 and lit otherwise.
pub open spec fn window_color_spec(draw: int) -> u8 {
    if draw == 1 {
        COLOR_DARK
    } else {
        COLOR_WINDOW
    }
}

/// How many windows a column holds whose lowest window is `i0` pixels above
/// the street: one every 15 rows while at least 7 pixels above it.
pub open spec fn column_rows(i0: int) -> nat {
    if i0 >= 7 {
        ((i0 - 7) / 15 + 1) as nat
    } else {
        0
    }
}

/// The top-left corners of the windows of the column at `c`, from the
/// lowest up.
pub open spec fn column_cells(c: int, i0: int) -> Seq<(int, int)> {
    Seq::new(column_rows(i0), |k: int| (c, BOTTOM_LINE - (i0 - 15 * k)))
}

/// How many window columns a building of width `width` holds: one every 10
/// columns from 3 pixels inside its left edge while 3 pixels inside its right
/// edge.
pub open spec fn column_count(width: int) -> nat {
    if width > 6 {
        ((width - 7) / 10 + 1) as nat
    } else {
        0
    }
}

/// The window corners of the first `cols` columns of the building at `x`
/// with roof row `top_y`, column by column from the left.
pub open spec fn window_grid(x: int, top_y: int, cols: nat) -> Seq<(int, int)>
    decreases cols,
{
    if cols == 0 {
        Seq::empty()
    } else {
        window_grid(x, top_y, (cols - 1) as nat) + column_cells(x + 3 + 10 * (cols - 1), BOTTOM_LINE - top_y - 3)
    }
}

/// The corners of a list of windows.
pub open spec fn window_cells(windows: Seq<WindowPlan>) -> Seq<(int, int)> {
    Seq::new(windows.len(), |k: int| (windows[k].x as int, windows[k].y as int))
}

/// A building lies on the screen, has a roof between rows 70 and 310, one of
/// the three building colours, and exactly the windows of its grid, each lit
/// or dark.
pub open spec fn building_ok(b: BuildingPlan) -> bool {
    &&& 2 <= b.x <= SCREEN_WIDTH - 10
    &&& 10 <= b.width <= 74
    &&& b.x + b.width <= SCREEN_WIDTH
    &&& 70 <= b.top_y <= 310
    &&& (b.color == COLOR_BUILDING_GRAY || b.color == COLOR_BUILDING_RED || b.color == COLOR_BUILDING_CYAN)
    &&& window_cells(b.windows@) == window_grid(b.x as int, b.top_y as int, column_count(b.width as int))
    &&& forall|k: int|
        0 <= k < b.windows@.len() ==> (#[trigger] b.windows@[k]).color == COLOR_DARK || b.windows@[k].color
            == COLOR_WINDOW
}

/// The skyline: at least nine buildings side by side from column 2, two
/// pixels apart, up to the right part of the screen.
pub open spec fn skyline_ok(bs: Seq<BuildingPlan>) -> bool {
    &&& bs.len() >= 9
    &&& bs[0].x == 2
    &&& forall|i: int| 0 <= i < bs.len() ==> building_ok(#[trigger] bs[i])
    &&& forall|i: int| 0 <= i < bs.len() - 1 ==> (#[trigger] bs[i + 1]).x == bs[i].x + bs[i].width + 2
    &&& bs.last().x + bs.last().width + 2 > SCREEN_WIDTH - 10
}

/// The perch on building `b`: centred on the span from its left edge to the
/// next building's, 30 pixels above its roof.
pub open spec fn gorilla_spot_spec(bs: Seq<BuildingPlan>, b: int) -> GorillaSpot {
    GorillaSpot { x_halves: (2 * bs[b].x + (bs[b + 1].x - bs[b].x) - 28) as i32, y: (bs[b].top_y - 30) as i32 }
}

/// The wind: the base draw, pushed further the way it blows (or west when
/// there is none) by the gust when the gust roll is 1.
pub open spec fn wind_spec(base: int, gust_roll: int, gust: int) -> int {
    if gust_roll == 1 {
        if base > 0 {
            base + gust
        } else {
            base - gust
        }
    } else {
        base
    }
}

/// The wind follows the rules for the base draw `base` (-5 to 5), the gust
/// roll `roll` (1 to 3) and the gust `gust` (1 to 10).
pub open spec fn wind_follows_draws(wind: int, base: int, roll: int, gust: int) -> bool {
    &&& -5 <= base <= 5
    &&& 1 <= roll <= 3
    &&& 1 <= gust <= 10
    &&& wind == wind_spec(base, roll, gust)
}

/// A round's city: a skyline, the left gorilla on the third or fourth
/// building, the right one on the fourth or third from the right, and a wind
/// of at most 15 either way.
pub open spec fn round_plan_ok(r: RoundPlan) -> bool {
    let bs = r.buildings@;
    &&& skyline_ok(bs)
    &&& (r.gorillas[0] == gorilla_spot_spec(bs, 2) || r.gorillas[0] == gorilla_spot_spec(bs, 3))
    &&& (r.gorillas[1] == gorilla_spot_spec(bs, bs.len() - 3) || r.gorillas[1] == gorilla_spot_spec(bs, bs.len() - 4))
    &&& -15 <= r.wind <= 15
}

/// Building `i` follows the rules for slope `slope` and its draws: width
/// draw `wd[i]` (1 to 37), height draw `hd[i]` (1 to 120) and colour draw
/// `cd[i]` (1 to 3), with the skyline height `heights[i]` one slope step on
/// from the previous building's (or from the starting height).
pub open spec fn building_follows_draws(
    bs: Seq<BuildingPlan>,
    i: int,
    slope: int,
    heights: Seq<int>,
    wd: Seq<int>,
    hd: Seq<int>,
    cd: Seq<int>,
) -> bool {
    let previous = if i == 0 {
        initial_height_spec(slope)
    } else {
        heights[i - 1]
    };
    &&& 1 <= wd[i] <= 37
    &&& 1 <= hd[i] <= 120
    &&& 1 <= cd[i] <= 3
    &&& heights[i] == next_height_spec(slope, bs[i].x as int, previous)
    &&& bs[i].width == building_width_spec(bs[i].x as int, wd[i])
    &&& bs[i].top_y == building_top_spec(heights[i], hd[i])
    &&& bs[i].color == building_color_spec(cd[i])
}

/// The skyline follows the rules for slope `slope` and the per-building
/// draws `wd`, `hd` and `cd`, its height running through `heights`.
pub open spec fn skyline_follows_draws(
    bs: Seq<BuildingPlan>,
    slope: int,
    heights: Seq<int>,
    wd: Seq<int>,
    hd: Seq<int>,
    cd: Seq<int>,
) -> bool {
    &&& 1 <= slope <= 6
    &&& heights.len() == bs.len()
    &&& wd.len() == bs.len()
    &&& hd.len() == bs.len()
    &&& cd.len() == bs.len()
    &&& forall|i: int| 0 <= i < bs.len() ==> #[trigger] building_follows_draws(bs, i, slope, heights, wd, hd, cd)
}

// ---------------------------------------------------------------------------
// The rules, executable

/// The height the skyline starts from.
pub fn initial_height(slope: i32) -> (r: i32)
    ensures
        r == initial_height_spec(slope as int),
{
    if slope == 1 {
        15
    } else if slope == 2 {
        130
    } else if 3 <= slope && slope <= 5 {
        15
    } else {
        130
    }
}

/// The skyline height at the building starting at column `x`.
pub fn next_height(slope: i32, x: i32, height: i32) -> (r: i32)
    requires
        -100_000 <= height <= 100_000,
    ensures
        r == next_height_spec(slope as int, x as int, height as int),
{
    if slope == 1 {
        height + 10
    } else if slope == 2 {
        height - 10
    } else if 3 <= slope && slope <= 5 {
        if x <= SCREEN_WIDTH / 2 {
            height + 20
        } else {
            height - 20
        }
    } else {
        if x <= SCREEN_WIDTH / 2 {
            height - 20
        } else {
            height + 20
        }
    }
}

/// The six skyline shapes, one per slope draw. Slope 1 starts low (15) and
/// rises by 10 at every building; slope 2 starts high (130) and falls by 10.
/// Slopes 3, 4 and 5 all start low and make a peak: the height rises by 20 at
/// each building that starts in the left half of the screen (column 320 or
/// less) and falls by 20 at each one after it. Slope 6 starts high and makes
/// the mirrored valley.
pub proof fn lemma_skyline_shapes(x: int, height: int)
    ensures
        initial_height_spec(1) == 15,
        next_height_spec(1, x, height) == height + 10,
        initial_height_spec(2) == 130,
        next_height_spec(2, x, height) == height - 10,
        forall|slope: int| 3 <= slope <= 5 ==> #[trigger] initial_height_spec(slope) == 15,
        forall|slope: int|
            3 <= slope <= 5 ==> #[trigger] next_height_spec(slope, x, height) == (if x <= 320 {
                height + 20
            } else {
                height - 20
            }),
        initial_height_spec(6) == 130,
        next_height_spec(6, x, height) == (if x <= 320 {
            height - 20
        } else {
            height + 20
        }),
        forall|slope: int|
            3 <= slope <= 5 ==> #[trigger] next_height_spec(slope, x, height) - height == height - next_height_spec(
                6,
                x,
                height,
            ),
{
}

/// The rules of one building. Its width is 37 plus the width draw, but a
/// building that would run past the right edge of the 640-pixel screen ends
/// two pixels before it, and is never narrower than 10. Its roof lies the
/// skyline height plus the height draw above the street (row 335), that sum
/// kept from 25 to 265, so the roof row runs from 70 to 310. A colour draw
/// of 1, 2 or 3 gives gray, red or cyan; a window draw of 1 (of 1 to 4)
/// gives a dark window and any other a lit one.
pub proof fn lemma_building_rules(x: int, width_draw: int, height: int, height_draw: int)
    ensures
        1 <= width_draw ==> building_width_spec(x, width_draw) <= width_draw + 37,
        x + width_draw + 37 <= 640 ==> building_width_spec(x, width_draw) == width_draw + 37,
        x + width_draw + 37 > 640 && x <= 628 ==> building_width_spec(x, width_draw) == 638 - x,
        x + width_draw + 37 > 640 && x > 628 ==> building_width_spec(x, width_draw) == 10,
        25 <= height + height_draw <= 265 ==> building_top_spec(height, height_draw) == 335 - (height + height_draw),
        height + height_draw < 25 ==> building_top_spec(height, height_draw) == 310,
        height + height_draw > 265 ==> building_top_spec(height, height_draw) == 70,
        building_color_spec(1) == COLOR_BUILDING_GRAY,
        building_color_spec(2) == COLOR_BUILDING_RED,
        building_color_spec(3) == COLOR_BUILDING_CYAN,
        window_color_spec(1) == COLOR_DARK,
        window_color_spec(2) == COLOR_WINDOW,
        window_color_spec(3) == COLOR_WINDOW,
        window_color_spec(4) == COLOR_WINDOW,
{
}

/// The wind: with a gust roll of 2 or 3 it is the base draw; with a gust roll
/// of 1 the gust pushes it further east when the base blows east, and
/// further west otherwise, so it grows in strength by the gust.
pub proof fn lemma_wind_rules(base: int, gust: int)
    requires
        1 <= gust,
    ensures
        wind_spec(base, 2, gust) == base,
        wind_spec(base, 3, gust) == base,
        base > 0 ==> wind_spec(base, 1, gust) == base + gust,
        base <= 0 ==> wind_spec(base, 1, gust) == base - gust,
        wind_spec(base, 1, gust) != base,
{
}

/// A gorilla perches 30 pixels above the roof of its building, its left edge
/// 14 pixels left of the middle between that building's left edge and the
/// next building's: twice its column is the sum of the two edges less 28.
pub proof fn lemma_gorilla_perch(bs: Seq<BuildingPlan>, b: int)
    requires
        0 <= b,
        b + 1 < bs.len(),
        skyline_ok(bs),
    ensures
        gorilla_spot_spec(bs, b).x_halves == bs[b].x + bs[b + 1].x - 28,
        gorilla_spot_spec(bs, b).y == bs[b].top_y - 30,
{
}

proof fn lemma_window_grid_cells(x: int, top_y: int, cols: nat)
    ensures
        window_grid(x, top_y, cols).len() == cols * column_rows(BOTTOM_LINE - top_y - 3),
        forall|j: int, k: int|
            0 <= j < cols && 0 <= k < column_rows(BOTTOM_LINE - top_y - 3) ==> #[trigger] window_grid(x, top_y, cols)[j
                * column_rows(BOTTOM_LINE - top_y - 3) + k] == (x + 3 + 10 * j, top_y + 3 + 15 * k),
    decreases cols,
{
    let rows = column_rows(BOTTOM_LINE - top_y - 3);
    if cols > 0 {
        let prev = (cols - 1) as nat;
        lemma_window_grid_cells(x, top_y, prev);
        let g = window_grid(x, top_y, cols);
        let a = window_grid(x, top_y, prev);
        let c = column_cells(x + 3 + 10 * prev, BOTTOM_LINE - top_y - 3);
        assert(g == a + c);
        assert(prev * rows + rows == cols * rows) by (nonlinear_arith)
            requires
                prev + 1 == cols,
        ;
        assert forall|j: int, k: int| 0 <= j < cols && 0 <= k < rows implies #[trigger] g[j * rows + k] == (
        x + 3 + 10 * j, top_y + 3 + 15 * k) by {
            if j < prev {
                assert(j * rows + k < prev * rows) by (nonlinear_arith)
                    requires
                        j < prev,
                        0 <= k < rows,
                        0 <= j,
                ;
                assert(g[j * rows + k] == a[j * rows + k]);
            } else {
                assert(j * rows == prev * rows);
                assert(g[j * rows + k] == c[k]);
            }
        }
    }
}

/// The windows of a building, column by column from the left and in each
/// column from the lowest up: the columns stand 3, 13, 23, ... pixels inside
/// the building's left edge, as many as start more than 3 pixels inside its
/// right edge; in each column a window every 15 rows, from 3 rows below the
/// roof, as many as start at least 7 rows above the street (row 335).
pub proof fn lemma_window_layout(x: int, width: int, top_y: int)
    requires
        10 <= width,
        70 <= top_y <= 310,
    ensures
        ({
            let cols = column_count(width);
            let rows = column_rows(BOTTOM_LINE - top_y - 3);
            let grid = window_grid(x, top_y, cols);
            &&& cols >= 1 && 3 + 10 * (cols - 1) < width - 3 && width - 3 <= 3 + 10 * cols
            &&& rows >= 1 && top_y + 3 + 15 * (rows - 1) <= 328 && top_y + 3 + 15 * rows > 328
            &&& grid.len() == cols * rows
            &&& forall|j: int, k: int|
                0 <= j < cols && 0 <= k < rows ==> #[trigger] grid[j * rows + k] == (x + 3 + 10 * j, top_y + 3 + 15 * k)
        }),
{
    lemma_window_grid_cells(x, top_y, column_count(width));
    let i0 = BOTTOM_LINE - top_y - 3;
    vstd::arithmetic::div_mod::lemma_fundamental_div_mod(width - 7, 10);
    vstd::arithmetic::div_mod::lemma_fundamental_div_mod(i0 - 7, 15);
}

/// The width of the building starting at column `x`.
pub fn building_width(x: i32, draw: i32) -> (r: i32)
    requires
        -100_000 <= x <= 100_000,
        -100_000 <= draw <= 100_000,
    ensures
        r == building_width_spec(x as int, draw as int),
{
    let width = draw + 37;
    if x + width > SCREEN_WIDTH {
        if SCREEN_WIDTH - x - 2 >= 10 {
            SCREEN_WIDTH - x - 2
        } else {
            10
        }
    } else {
        width
    }
}

/// The roof row of a building.
pub fn building_top(height: i32, draw: i32) -> (r: i32)
    requires
        -100_000 <= height <= 100_000,
        -100_000 <= draw <= 100_000,
    ensures
        r == building_top_spec(height as int, draw as int),
{
    let h0 = draw + height;
    let h = if h0 < 25 {
        25
    } else if h0 > 265 {
        265
    } else {
        h0
    };
    if BOTTOM_LINE - h >= 70 {
        BOTTOM_LINE - h
    } else {
        70
    }
}

/// The colour of a building.
pub fn building_color(draw: i32) -> (r: u8)
    ensures
        r == building_color_spec(draw as int),
{
    if draw == 1 {
        COLOR_BUILDING_GRAY
    } else if draw == 2 {
        COLOR_BUILDING_RED
    } else {
        COLOR_BUILDING_CYAN
    }
}

/// The colour of a window.
pub fn window_color(draw: i32) -> (r: u8)
    ensures
        r == window_color_spec(draw as int),
{
    if draw == 1 {
        COLOR_DARK
    } else {
        COLOR_WINDOW
    }
}

/// The wind from its draws.
pub fn wind_from_draws(base: i32, gust_roll: i32, gust: i32) -> (r: i32)
    requires
        -100_000 <= base <= 100_000,
        -100_000 <= gust <= 100_000,
    ensures
        r == wind_spec(base as int, gust_roll as int, gust as int),
{
    if gust_roll == 1 {
        if base > 0 {
            base + gust
        } else {
            base - gust
        }
    } else {
        base
    }
}

/// The perch on building `b`.
pub fn gorilla_spot(buildings: &Vec<BuildingPlan>, b: usize) -> (r: GorillaSpot)
    requires
        b + 1 < buildings@.len(),
        -100_000 <= buildings@[b as int].x <= 100_000,
        -100_000 <= buildings@[b + 1].x <= 100_000,
        -100_000 <= buildings@[b as int].top_y <= 100_000,
    ensures
        r == gorilla_spot_spec(buildings@, b as int),
{
    let n = buildings.len();
    let here = &buildings[b];
    let next = &buildings[b + 1];
    GorillaSpot { x_halves: 2 * here.x + (next.x - here.x) - 28, y: here.top_y - 30 }
}

proof fn lemma_rows_exit(i0: int, k: int)
    requires
        0 <= k,
        k == 0 || i0 - 15 * (k - 1) >= 7,
        i0 - 15 * k < 7,
    ensures
        column_rows(i0) == k,
{
    if k > 0 {
        vstd::arithmetic::div_mod::lemma_fundamental_div_mod_converse(i0 - 7, 15, k - 1, i0 - 7 - 15 * (k - 1));
    }
}

proof fn lemma_cols_exit(width: int, j: int)
    requires
        0 <= j,
        j == 0 || 10 * (j - 1) < width - 6,
        10 * j >= width - 6,
        width >= 10,
    ensures
        column_count(width) == j,
{
    if j > 0 {
        vstd::arithmetic::div_mod::lemma_fundamental_div_mod_converse(width - 7, 10, j - 1, width - 7 - 10 * (j - 1));
    }
}

/// The windows of the building at `x`, of width `width` and roof row
/// `top_y`, each lit or dark at random.
fn building_windows(x: i32, width: i32, top_y: i32) -> (r: Vec<WindowPlan>)
    requires
        2 <= x <= SCREEN_WIDTH - 10,
        10 <= width <= 74,
        70 <= top_y <= 310,
    ensures
        window_cells(r@) == window_grid(x as int, top_y as int, column_count(width as int)),
        forall|k: int| 0 <= k < r@.len() ==> (#[trigger] r@[k]).color == COLOR_DARK || r@[k].color == COLOR_WINDOW,
{
    let mut windows: Vec<WindowPlan> = Vec::new();
    let i0 = BOTTOM_LINE - top_y - 3;
    let mut c = x + 3;
    let ghost mut j: int = 0;
    while c < x + width - 3
        invariant
            2 <= x <= SCREEN_WIDTH - 10,
            10 <= width <= 74,
            70 <= top_y <= 310,
            i0 == BOTTOM_LINE - top_y - 3,
            0 <= j,
            c == x + 3 + 10 * j,
            j == 0 || 10 * (j - 1) < width - 6,
            window_cells(windows@) == window_grid(x as int, top_y as int, j as nat),
            forall|k: int|
                0 <= k < windows@.len() ==> (#[trigger] windows@[k]).color == COLOR_DARK || windows@[k].color
                    == COLOR_WINDOW,
        decreases x + width + 7 - c,
    {
        let ghost before = windows@;
        let mut i = i0;
        let ghost mut k: int = 0;
        while i >= 7
            invariant
                2 <= x <= SCREEN_WIDTH - 10,
                10 <= width <= 74,
                70 <= top_y <= 310,
                i0 == BOTTOM_LINE - top_y - 3,
                c < x + width - 3,
                0 <= k,
                i == i0 - 15 * k,
                k == 0 || i0 - 15 * (k - 1) >= 7,
                windows@.len() == before.len() + k,
                forall|m: int| 0 <= m < before.len() ==> #[trigger] windows@[m] == before[m],
                forall|m: int|
                    0 <= m < k ==> (#[trigger] windows@[before.len() + m]).x == c && windows@[before.len() + m].y
                        == BOTTOM_LINE - (i0 - 15 * m),
                forall|m: int|
                    0 <= m < windows@.len() ==> (#[trigger] windows@[m]).color == COLOR_DARK || windows@[m].color
                        == COLOR_WINDOW,
            decreases i + 15,
        {
            let draw = rand_inclusive(1, 4);
            let color = window_color(draw);
            windows.push(WindowPlan { x: c, y: BOTTOM_LINE - i, color });
            i = i - 15;
            proof {
                k = k + 1;
            }
        }
        proof {
            lemma_rows_exit(i0 as int, k);
            let column = column_cells(c as int, i0 as int);
            assert forall|n: int| 0 <= n < windows@.len() implies #[trigger] window_cells(windows@)[n] == (
            window_cells(before) + column)[n] by {
                if n >= before.len() {
                    let m = n - before.len();
                    assert(windows@[before.len() + m].x == c);
                }
            }
            assert(window_cells(windows@) =~= window_cells(before) + column);
            assert(window_grid(x as int, top_y as int, (j + 1) as nat) == window_grid(x as int, top_y as int, j as nat)
                + column_cells(x + 3 + 10 * j, BOTTOM_LINE - top_y - 3));
        }
        c = c + 10;
        proof {
            j = j + 1;
        }
    }
    proof {
        lemma_cols_exit(width as int, j);
    }
    windows
}

/// Builds a round's city at random: a skyline of buildings whose heights
/// follow one of six slopes, a gorilla on the third or fourth building from
/// each side, and the wind. Every city it builds is one that the rules give
/// for some draws.
pub fn generate_round() -> (r: RoundPlan)
    ensures
        round_plan_ok(r),
        exists|slope: int, heights: Seq<int>, wd: Seq<int>, hd: Seq<int>, cd: Seq<int>|
            #[trigger] skyline_follows_draws(r.buildings@, slope, heights, wd, hd, cd),
        exists|base: int, roll: int, gust: int| #[trigger] wind_follows_draws(r.wind as int, base, roll, gust),
{
    let slope = rand_inclusive(1, 6);
    let mut height = initial_height(slope);
    let mut buildings: Vec<BuildingPlan> = Vec::new();
    let ghost mut heights: Seq<int> = Seq::empty();
    let ghost mut wd: Seq<int> = Seq::empty();
    let ghost mut hd: Seq<int> = Seq::empty();
    let ghost mut cd: Seq<int> = Seq::empty();
    let mut x: i32 = 2;
    while x <= SCREEN_WIDTH - 10
        invariant
            2 <= x <= SCREEN_WIDTH + 2,
            x >= 2 + 12 * buildings@.len(),
            x <= 2 + 76 * buildings@.len(),
            -130 - 20 * buildings@.len() <= height <= 130 + 20 * buildings@.len(),
            buildings@.len() == 0 ==> x == 2,
            buildings@.len() > 0 ==> buildings@[0].x == 2 && x == buildings@.last().x + buildings@.last().width + 2,
            forall|i: int| 0 <= i < buildings@.len() ==> building_ok(#[trigger] buildings@[i]),
            forall|i: int|
                0 <= i < buildings@.len() - 1 ==> (#[trigger] buildings@[i + 1]).x == buildings@[i].x
                    + buildings@[i].width + 2,
            skyline_follows_draws(buildings@, slope as int, heights, wd, hd, cd),
            height == (if buildings@.len() == 0 {
                initial_height_spec(slope as int)
            } else {
                heights.last()
            }),
        decreases SCREEN_WIDTH + 2 - x,
    {
        let ghost prev_height = height;
        height = next_height(slope, x, height);
        let width_draw = rand_inclusive(1, 37);
        let width = building_width(x, width_draw);
        let height_draw = rand_inclusive(1, 120);
        let top_y = building_top(height, height_draw);
        let color_draw = rand_inclusive(1, 3);
        let color = building_color(color_draw);
        let windows = building_windows(x, width, top_y);
        let ghost old_buildings = buildings@;
        let ghost old_heights = heights;
        let ghost old_wd = wd;
        let ghost old_hd = hd;
        let ghost old_cd = cd;
        buildings.push(BuildingPlan { x, width, top_y, color, windows });
        proof {
            heights = heights.push(height as int);
            wd = wd.push(width_draw as int);
            hd = hd.push(height_draw as int);
            cd = cd.push(color_draw as int);
            assert forall|i: int| 0 <= i < buildings@.len() - 1 implies (#[trigger] buildings@[i + 1]).x
                == buildings@[i].x + buildings@[i].width + 2 by {
                if i + 1 < old_buildings.len() {
                    assert(buildings@[i + 1] == old_buildings[i + 1]);
                    assert(buildings@[i] == old_buildings[i]);
                }
            }
            assert forall|i: int| 0 <= i < buildings@.len() implies #[trigger] building_follows_draws(
                buildings@,
                i,
                slope as int,
                heights,
                wd,
                hd,
                cd,
            ) by {
                if i < old_buildings.len() {
                    assert(building_follows_draws(old_buildings, i, slope as int, old_heights, old_wd, old_hd, old_cd));
                    assert(buildings@[i] == old_buildings[i]);
                    assert(heights[i] == old_heights[i]);
                    assert(wd[i] == old_wd[i]);
                    assert(hd[i] == old_hd[i]);
                    assert(cd[i] == old_cd[i]);
                    if i > 0 {
                        assert(heights[i - 1] == old_heights[i - 1]);
                    }
                } else {
                    assert(i == old_buildings.len());
                    if i > 0 {
                        assert(heights[i - 1] == old_heights.last());
                    }
                    assert(prev_height == (if i == 0 {
                        initial_height_spec(slope as int)
                    } else {
                        heights[i - 1]
                    }));
                }
            }
            assert(skyline_follows_draws(buildings@, slope as int, heights, wd, hd, cd));
        }
        x = x + width + 2;
    }
    proof {
        assert(skyline_follows_draws(buildings@, slope as int, heights, wd, hd, cd));
    }
    let left_draw = rand_inclusive(2, 3);
    let right_draw = rand_inclusive(2, 3);
    let left_b = left_draw as usize;
    let right_b = buildings.len() - (right_draw as usize + 1);
    let left = gorilla_spot(&buildings, left_b);
    let right = gorilla_spot(&buildings, right_b);
    let base = rand_inclusive(-5, 5);
    let gust_roll = rand_inclusive(1, 3);
    let gust = if gust_roll == 1 {
        rand_inclusive(1, 10)
    } else {
        0
    };
    let wind = wind_from_draws(base, gust_roll, gust);
    let ghost gust_witness: int = if gust_roll == 1 {
        gust as int
    } else {
        1
    };
    proof {
        assert(wind_follows_draws(wind as int, base as int, gust_roll as int, gust_witness));
    }
    let plan = RoundPlan { buildings, gorillas: [left, right], wind };
    assert(wind_follows_draws(plan.wind as int, base as int, gust_roll as int, gust_witness));
    plan
}

}

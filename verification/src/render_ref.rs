//! Palette-indexed checkpoints: building them from rows of markers, the
//! sprite checkpoints of the game, and conversion to RGB and RGBA.

use vstd::prelude::*;
use crate::sprites::{
    SUN_HAPPY_ROWS,
    SUN_SHOCKED_ROWS,
    GORILLA_LEFT_UP_ROWS,
    GORILLA_ARMS_DOWN_ROWS,
    GORILLA_RIGHT_UP_ROWS,
    BANANA_ROWS_0,
    BANANA_ROWS_1,
    BANANA_ROWS_2,
    BANANA_ROWS_3,
    lemma_sun_happy_rows_ok,
    lemma_sun_shocked_rows_ok,
    lemma_gorilla_left_up_rows_ok,
    lemma_gorilla_arms_down_rows_ok,
    lemma_gorilla_right_up_rows_ok,
    lemma_banana_rows_0_ok,
    lemma_banana_rows_1_ok,
    lemma_banana_rows_2_ok,
    lemma_banana_rows_3_ok,
    lemma_gorilla_left_up_rows_two_markers,
    lemma_gorilla_right_up_rows_two_markers,
    lemma_gorilla_arms_down_rows_two_markers,
    lemma_gorilla_rows_shared_and_top,
    lemma_banana_rows_0_two_markers,
    lemma_banana_rows_1_two_markers,
    lemma_banana_rows_2_two_markers,
    lemma_banana_rows_3_two_markers,
    lemma_banana_rows_shape,
};

verus! {

/// Palette index of the sky-blue background.
pub const COLOR_BG: u8 = 0;
pub const COLOR_GORILLA: u8 = 1;
pub const COLOR_EXPLOSION: u8 = 2;
pub const COLOR_SUN: u8 = 3;
pub const COLOR_BUILDING_GRAY: u8 = 4;
pub const COLOR_BUILDING_RED: u8 = 5;
pub const COLOR_BUILDING_CYAN: u8 = 6;
pub const COLOR_DARK: u8 = 8;
pub const COLOR_WINDOW: u8 = 14;
pub const COLOR_BANANA: u8 = COLOR_WINDOW;

/// A named image of palette indices, stored row by row.
#[derive(Debug, Clone)]
pub struct RenderCheckpoint {
    pub name: String,
    pub width: usize,
    pub height: usize,
    pub pixels: Vec<u8>,
}

/// The mathematical content of a `RenderCheckpoint`.
pub struct CheckpointView {
    pub name: Seq<char>,
    pub width: nat,
    pub height: nat,
    pub pixels: Seq<u8>,
}

impl View for RenderCheckpoint {
    type V = CheckpointView;

    open spec fn view(&self) -> CheckpointView {
        CheckpointView {
            name: self.name@,
            width: self.width as nat,
            height: self.height as nat,
            pixels: self.pixels@,
        }
    }
}

/// The pixels fill the rectangle exactly.
pub open spec fn checkpoint_wf(v: CheckpointView) -> bool {
    v.pixels.len() == v.width * v.height
}

/// The pixel in column `x` of row `y`.
pub open spec fn pixel_at(v: CheckpointView, x: int, y: int) -> u8 {
    v.pixels[y * v.width + x]
}

/// The three arm positions of a gorilla.
#[derive(Debug, Clone, Copy, PartialEq, Eq, Structural)]
pub enum GorillaPose {
    LeftUp,
    RightUp,
    ArmsDown,
}

/// The two halves of a building explosion.
#[derive(Debug, Clone, Copy, PartialEq, Eq, Structural)]
pub enum BuildingExplosionPhase {
    Expand,
    Collapse,
}

/// The three stages of a gorilla explosion.
#[derive(Debug, Clone, Copy, PartialEq, Eq, Structural)]
pub enum GorillaExplosionPhase {
    LowerBurst,
    UpperBurst,
    Erase,
}

// ---------------------------------------------------------------------------
// Markers

/// The characters that a sprite row may hold.
pub open spec fn is_marker(c: char) -> bool {
    c == '.' || c == '1' || c == '2' || c == '3' || c == '4' || c == '5' || c == '6' || c == '8'
        || c == 'E' || c == 'W'
}

/// The palette index that a marker stands for.
pub open spec fn marker_color(c: char) -> u8 {
    if c == '1' {
        COLOR_GORILLA
    } else if c == '2' {
        COLOR_EXPLOSION
    } else if c == '3' {
        COLOR_SUN
    } else if c == '4' {
        COLOR_BUILDING_GRAY
    } else if c == '5' {
        COLOR_BUILDING_RED
    } else if c == '6' {
        COLOR_BUILDING_CYAN
    } else if c == '8' {
        COLOR_DARK
    } else if c == 'E' {
        COLOR_BANANA
    } else if c == 'W' {
        COLOR_WINDOW
    } else {
        COLOR_BG
    }
}

/// The width of a sheet of rows: that of its first row.
pub open spec fn ascii_width(rows: Seq<&str>) -> nat {
    if rows.len() == 0 {
        0
    } else {
        rows[0]@.len()
    }
}

/// Every row is as wide as the first and holds markers only.
pub open spec fn ascii_rows_ok(rows: Seq<&str>) -> bool {
    &&& forall|i: int| 0 <= i < rows.len() ==> (#[trigger] rows[i])@.len() == ascii_width(rows)
    &&& forall|i: int, j: int|
        0 <= i < rows.len() && 0 <= j < rows[i]@.len() ==> is_marker(#[trigger] rows[i]@[j])
}

/// The checkpoint that a sheet of marker rows draws.
pub open spec fn ascii_checkpoint(name: Seq<char>, rows: Seq<&str>) -> CheckpointView {
    let w = ascii_width(rows);
    CheckpointView {
        name,
        width: w,
        height: rows.len(),
        pixels: Seq::new(rows.len() * w, |i: int| marker_color(rows[i / (w as int)]@[i % (w as int)])),
    }
}

// ---------------------------------------------------------------------------
// Index arithmetic

/// Row and column of a cell of a row-major grid of width `w`.
pub proof fn lemma_grid_cell(x: int, y: int, w: int)
    requires
        0 <= x < w,
        0 <= y,
    ensures
        (y * w + x) / w == y,
        (y * w + x) % w == x,
        0 <= y * w + x,
{
    vstd::arithmetic::div_mod::lemma_fundamental_div_mod_converse(y * w + x, w, y, x);
    assert(0 <= y * w) by (nonlinear_arith)
        requires
            0 <= y,
            0 < w,
    ;
}

/// A cell of a row-major grid lies inside it.
pub proof fn lemma_grid_cell_bound(x: int, y: int, w: int, h: int)
    requires
        0 <= x < w,
        0 <= y < h,
    ensures
        0 <= y * w + x < w * h,
{
    assert(0 <= y * w + x < w * h) by (nonlinear_arith)
        requires
            0 <= x < w,
            0 <= y < h,
    ;
}

/// Row and column of index `i` of a row-major grid of width `w` and height `h`.
pub proof fn lemma_grid_index(i: int, w: int, h: int)
    requires
        0 <= i < w * h,
        0 <= w,
        0 <= h,
    ensures
        0 < w,
        0 <= i / w < h,
        0 <= i % w < w,
        i == (i / w) * w + i % w,
{
    assert(0 < w) by (nonlinear_arith)
        requires
            0 <= i < w * h,
            0 <= w,
            0 <= h,
    ;
    vstd::arithmetic::div_mod::lemma_fundamental_div_mod(i, w);
    let q = i / w;
    let r = i % w;
    assert(0 <= r < w) by {
        vstd::arithmetic::div_mod::lemma_mod_bound(i, w);
    }
    assert(q * w == w * q) by (nonlinear_arith);
    assert(0 <= q < h) by (nonlinear_arith)
        requires
            i == w * q + r,
            0 <= r < w,
            0 <= i < w * h,
            0 < w,
    ;
}

/// The size of `y` whole rows and `x` more cells.
pub(crate) proof fn lemma_next_row(y: int, w: int)
    ensures
        (y + 1) * w == y * w + w,
{
    assert((y + 1) * w == y * w + w) by (nonlinear_arith);
}

// ---------------------------------------------------------------------------
// Building checkpoints

fn marker_color_exec(c: char) -> (r: u8)
    ensures
        r == marker_color(c),
{
    if c == '1' {
        COLOR_GORILLA
    } else if c == '2' {
        COLOR_EXPLOSION
    } else if c == '3' {
        COLOR_SUN
    } else if c == '4' {
        COLOR_BUILDING_GRAY
    } else if c == '5' {
        COLOR_BUILDING_RED
    } else if c == '6' {
        COLOR_BUILDING_CYAN
    } else if c == '8' {
        COLOR_DARK
    } else if c == 'E' {
        COLOR_BANANA
    } else if c == 'W' {
        COLOR_WINDOW
    } else {
        COLOR_BG
    }
}

/// Draws a sheet of marker rows into a checkpoint named `name`, one pixel
/// per marker; its width is that of the first row.
pub fn checkpoint_from_ascii(name: &str, rows: &[&str]) -> (r: RenderCheckpoint)
    requires
        ascii_rows_ok(rows@),
        rows@.len() * ascii_width(rows@) <= usize::MAX,
    ensures
        r@ == ascii_checkpoint(name@, rows@),
        checkpoint_wf(r@),
{
    let height = rows.len();
    let width = if height == 0 {
        0
    } else {
        rows[0].unicode_len()
    };
    let ghost w = width as int;
    let mut pixels: Vec<u8> = Vec::new();
    let mut y: usize = 0;
    while y < height
        invariant
            height == rows@.len(),
            width == ascii_width(rows@),
            ascii_rows_ok(rows@),
            w == width as int,
            y <= height,
            pixels@.len() == y * w,
            forall|k: int|
                0 <= k < pixels@.len() ==> #[trigger] pixels@[k] == marker_color(rows@[k / w]@[k % w]),
        decreases height - y,
    {
        let row = rows[y];
        let mut x: usize = 0;
        assert(row@.len() == width);
        while x < width
            invariant
                height == rows@.len(),
                width == ascii_width(rows@),
                ascii_rows_ok(rows@),
                w == width as int,
                y < height,
                row == rows@[y as int],
                row@.len() == width,
                x <= width,
                pixels@.len() == y * w + x,
                forall|k: int|
                    0 <= k < pixels@.len() ==> #[trigger] pixels@[k] == marker_color(rows@[k / w]@[k % w]),
            decreases width - x,
        {
            let c = row.get_char(x);
            let ghost k = y * w + x;
            proof {
                lemma_grid_cell(x as int, y as int, w);
            }
            pixels.push(marker_color_exec(c));
            assert(pixels@[k] == marker_color(rows@[k / w]@[k % w]));
            x = x + 1;
        }
        proof {
            lemma_next_row(y as int, w);
        }
        y = y + 1;
    }
    let r = RenderCheckpoint { name: name.to_owned(), width, height, pixels };
    assert(r@.pixels =~= ascii_checkpoint(name@, rows@).pixels);
    assert(height * w == w * height) by (nonlinear_arith);
    r
}

// ---------------------------------------------------------------------------
// The game's sprites

/// The rows of the sun sprite.
pub open spec fn sun_rows(shocked: bool) -> Seq<&'static str> {
    if shocked {
        SUN_SHOCKED_ROWS@
    } else {
        SUN_HAPPY_ROWS@
    }
}

/// The sun checkpoint, smiling or shocked.
pub open spec fn sun_checkpoint_view(shocked: bool) -> CheckpointView {
    if shocked {
        ascii_checkpoint("sun_shocked"@, sun_rows(true))
    } else {
        ascii_checkpoint("sun_happy"@, sun_rows(false))
    }
}

/// The rows of the gorilla sprite in a pose.
pub open spec fn gorilla_rows(pose: GorillaPose) -> Seq<&'static str> {
    match pose {
        GorillaPose::LeftUp => GORILLA_LEFT_UP_ROWS@,
        GorillaPose::RightUp => GORILLA_RIGHT_UP_ROWS@,
        GorillaPose::ArmsDown => GORILLA_ARMS_DOWN_ROWS@,
    }
}

/// The usual name of the gorilla checkpoint in a pose.
pub open spec fn gorilla_name(pose: GorillaPose) -> Seq<char> {
    match pose {
        GorillaPose::LeftUp => "gorilla_left_up"@,
        GorillaPose::RightUp => "gorilla_right_up"@,
        GorillaPose::ArmsDown => "gorilla_arms_down"@,
    }
}

/// The rows of the banana sprite after `rotation` quarter turns; only the
/// turn count modulo four matters.
pub open spec fn banana_rows(rotation: int) -> Seq<&'static str> {
    let turn = rotation % 4;
    if turn == 0 {
        BANANA_ROWS_0@
    } else if turn == 1 {
        BANANA_ROWS_1@
    } else if turn == 2 {
        BANANA_ROWS_2@
    } else {
        BANANA_ROWS_3@
    }
}

/// The name of the banana checkpoint after `rotation` quarter turns.
pub open spec fn banana_name(rotation: int) -> Seq<char> {
    let turn = rotation % 4;
    if turn == 0 {
        "banana_0"@
    } else if turn == 1 {
        "banana_1"@
    } else if turn == 2 {
        "banana_2"@
    } else {
        "banana_3"@
    }
}

/// The banana checkpoint after `rotation` quarter turns.
pub open spec fn banana_checkpoint_view(rotation: int) -> CheckpointView {
    ascii_checkpoint(banana_name(rotation), banana_rows(rotation))
}

/// Draws the sun, smiling or shocked.
pub fn render_sun_checkpoint(shocked: bool) -> (r: RenderCheckpoint)
    ensures
        r@ == sun_checkpoint_view(shocked),
        checkpoint_wf(r@),
{
    if !shocked {
        proof {
            lemma_sun_happy_rows_ok();
        }
        return checkpoint_from_ascii("sun_happy", &SUN_HAPPY_ROWS);
    }
    proof {
        lemma_sun_shocked_rows_ok();
    }
    checkpoint_from_ascii("sun_shocked", &SUN_SHOCKED_ROWS)
}

/// Draws a gorilla in `pose`, under the given name.
pub fn render_gorilla_checkpoint(name: &str, pose: GorillaPose) -> (r: RenderCheckpoint)
    ensures
        r@ == ascii_checkpoint(name@, gorilla_rows(pose)),
        checkpoint_wf(r@),
{
    match pose {
        GorillaPose::LeftUp => {
            proof {
                lemma_gorilla_left_up_rows_ok();
            }
            checkpoint_from_ascii(name, &GORILLA_LEFT_UP_ROWS)
        }
        GorillaPose::ArmsDown => {
            proof {
                lemma_gorilla_arms_down_rows_ok();
            }
            checkpoint_from_ascii(name, &GORILLA_ARMS_DOWN_ROWS)
        }
        GorillaPose::RightUp => {
            proof {
                lemma_gorilla_right_up_rows_ok();
            }
            checkpoint_from_ascii(name, &GORILLA_RIGHT_UP_ROWS)
        }
    }
}

/// The quarter-turn count of a banana, from 0 to 3 whatever the sign.
fn quarter_turn(rotation: i32) -> (r: i32)
    ensures
        r == rotation % 4,
        0 <= r < 4,
{
    match rotation.checked_rem_euclid(4) {
        Some(turn) => turn,
        None => 0,
    }
}

/// Draws the banana after `rotation` quarter turns.
pub fn render_banana_checkpoint(rotation: i32) -> (r: RenderCheckpoint)
    ensures
        r@ == banana_checkpoint_view(rotation as int),
        checkpoint_wf(r@),
{
    let turn = quarter_turn(rotation);
    if turn == 0 {
        proof {
            lemma_banana_rows_0_ok();
        }
        checkpoint_from_ascii("banana_0", &BANANA_ROWS_0)
    } else if turn == 1 {
        proof {
            lemma_banana_rows_1_ok();
        }
        checkpoint_from_ascii("banana_1", &BANANA_ROWS_1)
    } else if turn == 2 {
        proof {
            lemma_banana_rows_2_ok();
        }
        checkpoint_from_ascii("banana_2", &BANANA_ROWS_2)
    } else {
        proof {
            lemma_banana_rows_3_ok();
        }
        checkpoint_from_ascii("banana_3", &BANANA_ROWS_3)
    }
}

/// The sun sprite, smiling or shocked.
pub fn sun_checkpoint(shocked: bool) -> (r: RenderCheckpoint)
    ensures
        r@ == sun_checkpoint_view(shocked),
        checkpoint_wf(r@),
{
    render_sun_checkpoint(shocked)
}

/// The gorilla sprite in `pose`, under its usual name.
pub fn gorilla_checkpoint(pose: GorillaPose) -> (r: RenderCheckpoint)
    ensures
        r@ == ascii_checkpoint(gorilla_name(pose), gorilla_rows(pose)),
        checkpoint_wf(r@),
{
    match pose {
        GorillaPose::LeftUp => render_gorilla_checkpoint("gorilla_left_up", GorillaPose::LeftUp),
        GorillaPose::RightUp => render_gorilla_checkpoint("gorilla_right_up", GorillaPose::RightUp),
        GorillaPose::ArmsDown => render_gorilla_checkpoint("gorilla_arms_down", GorillaPose::ArmsDown),
    }
}

/// The banana sprite after `rotation` quarter turns.
pub fn banana_checkpoint(rotation: i32) -> (r: RenderCheckpoint)
    ensures
        r@ == banana_checkpoint_view(rotation as int),
        checkpoint_wf(r@),
{
    render_banana_checkpoint(quarter_turn(rotation))
}

/// The checkpoints of all sprites, in a fixed order: the two suns, the three
/// gorilla poses, and the four banana turns.
pub fn render_checkpoints() -> (r: Vec<RenderCheckpoint>)
    ensures
        r@.len() == 9,
        r@[0]@ == sun_checkpoint_view(false),
        r@[1]@ == sun_checkpoint_view(true),
        r@[2]@ == ascii_checkpoint("gorilla_arms_down"@, gorilla_rows(GorillaPose::ArmsDown)),
        r@[3]@ == ascii_checkpoint("gorilla_left_up"@, gorilla_rows(GorillaPose::LeftUp)),
        r@[4]@ == ascii_checkpoint("gorilla_right_up"@, gorilla_rows(GorillaPose::RightUp)),
        forall|k: int| 0 <= k < 4 ==> #[trigger] r@[5 + k]@ == banana_checkpoint_view(k),
{
    let mut all: Vec<RenderCheckpoint> = Vec::new();
    all.push(render_sun_checkpoint(false));
    all.push(render_sun_checkpoint(true));
    all.push(render_gorilla_checkpoint("gorilla_arms_down", GorillaPose::ArmsDown));
    all.push(render_gorilla_checkpoint("gorilla_left_up", GorillaPose::LeftUp));
    all.push(render_gorilla_checkpoint("gorilla_right_up", GorillaPose::RightUp));
    all.push(render_banana_checkpoint(0));
    all.push(render_banana_checkpoint(1));
    all.push(render_banana_checkpoint(2));
    all.push(render_banana_checkpoint(3));
    assert forall|k: int| 0 <= k < 4 implies #[trigger] all@[5 + k]@ == banana_checkpoint_view(k) by {
        if k == 0 {
        } else if k == 1 {
        } else if k == 2 {
        } else {
        }
    }
    all
}

// ---------------------------------------------------------------------------
// Palette

/// The RGB colour of a palette index; unknown indices show as magenta.
pub open spec fn palette_spec(index: u8) -> Seq<u8> {
    if index == COLOR_BG {
        seq![0u8, 0u8, 173u8]
    } else if index == COLOR_GORILLA {
        seq![255u8, 173u8, 81u8]
    } else if index == COLOR_EXPLOSION {
        seq![252u8, 0u8, 84u8]
    } else if index == COLOR_SUN {
        seq![255u8, 255u8, 0u8]
    } else if index == COLOR_BUILDING_GRAY {
        seq![168u8, 168u8, 168u8]
    } else if index == COLOR_BUILDING_RED {
        seq![168u8, 0u8, 0u8]
    } else if index == COLOR_BUILDING_CYAN {
        seq![0u8, 168u8, 168u8]
    } else if index == COLOR_DARK {
        seq![84u8, 84u8, 84u8]
    } else if index == COLOR_WINDOW {
        seq![252u8, 252u8, 84u8]
    } else {
        seq![255u8, 0u8, 255u8]
    }
}

/// The RGB colour of a palette index.
pub fn palette_rgb(index: u8) -> (r: [u8; 3])
    ensures
        r@ == palette_spec(index),
{
    let r: [u8; 3] = if index == COLOR_BG {
        [0, 0, 173]
    } else if index == COLOR_GORILLA {
        [255, 173, 81]
    } else if index == COLOR_EXPLOSION {
        [252, 0, 84]
    } else if index == COLOR_SUN {
        [255, 255, 0]
    } else if index == COLOR_BUILDING_GRAY {
        [168, 168, 168]
    } else if index == COLOR_BUILDING_RED {
        [168, 0, 0]
    } else if index == COLOR_BUILDING_CYAN {
        [0, 168, 168]
    } else if index == COLOR_DARK {
        [84, 84, 84]
    } else if index == COLOR_WINDOW {
        [252, 252, 84]
    } else {
        [255, 0, 255]
    };
    assert(r@ =~= palette_spec(index));
    r
}

/// The CGA palette, by index: 0 sky blue (0, 0, 173), 1 the gorillas'
/// orange (255, 173, 81), 2 the explosions' red (252, 0, 84), 3 the sun's
/// yellow (255, 255, 0), 4 gray (168, 168, 168), 5 dark red (168, 0, 0),
/// 6 cyan (0, 168, 168), 8 dark gray (84, 84, 84), 14 light yellow
/// (252, 252, 84); any other index shows as magenta (255, 0, 255). The sprite
/// markers `.`, `1` to `6`, `8`, `E` and `W` stand for indices 0, 1 to 6, 8,
/// 14 and 14.
pub proof fn lemma_palette_and_markers(other: u8)
    requires
        other != 0 && other != 1 && other != 2 && other != 3 && other != 4 && other != 5 && other != 6 && other != 8
            && other != 14,
    ensures
        palette_spec(0) == seq![0u8, 0u8, 173u8],
        palette_spec(1) == seq![255u8, 173u8, 81u8],
        palette_spec(2) == seq![252u8, 0u8, 84u8],
        palette_spec(3) == seq![255u8, 255u8, 0u8],
        palette_spec(4) == seq![168u8, 168u8, 168u8],
        palette_spec(5) == seq![168u8, 0u8, 0u8],
        palette_spec(6) == seq![0u8, 168u8, 168u8],
        palette_spec(8) == seq![84u8, 84u8, 84u8],
        palette_spec(14) == seq![252u8, 252u8, 84u8],
        palette_spec(other) == seq![255u8, 0u8, 255u8],
        marker_color('.') == 0,
        marker_color('1') == 1,
        marker_color('2') == 2,
        marker_color('3') == 3,
        marker_color('4') == 4,
        marker_color('5') == 5,
        marker_color('6') == 6,
        marker_color('8') == 8,
        marker_color('E') == 14,
        marker_color('W') == 14,
{
}

/// Each pixel becomes four RGBA bytes in order: its palette colour and an
/// opaque alpha of 255, except that a background pixel gets alpha 0 when
/// background is drawn transparent.
pub proof fn lemma_rgba_pixels(pixels: Seq<u8>, transparent_zero: bool)
    ensures
        rgba_spec(pixels, transparent_zero).len() == 4 * pixels.len(),
        forall|i: int|
            0 <= i < pixels.len() ==> {
                let px = #[trigger] pixels[i];
                let out = rgba_spec(pixels, transparent_zero);
                &&& out[4 * i] == palette_spec(px)[0]
                &&& out[4 * i + 1] == palette_spec(px)[1]
                &&& out[4 * i + 2] == palette_spec(px)[2]
                &&& out[4 * i + 3] == (if transparent_zero && px == 0 {
                    0u8
                } else {
                    255u8
                })
            },
{
    assert forall|i: int| 0 <= i < pixels.len() implies {
        let px = #[trigger] pixels[i];
        let out = rgba_spec(pixels, transparent_zero);
        &&& out[4 * i] == palette_spec(px)[0]
        &&& out[4 * i + 1] == palette_spec(px)[1]
        &&& out[4 * i + 2] == palette_spec(px)[2]
        &&& out[4 * i + 3] == (if transparent_zero && px == 0 {
            0u8
        } else {
            255u8
        })
    } by {
        assert((4 * i) / 4 == i && (4 * i) % 4 == 0);
        assert((4 * i + 1) / 4 == i && (4 * i + 1) % 4 == 1);
        assert((4 * i + 2) / 4 == i && (4 * i + 2) % 4 == 2);
        assert((4 * i + 3) / 4 == i && (4 * i + 3) % 4 == 3);
    }
}

/// RGBA bytes of palette pixels: the palette colour, opaque, except that
/// background pixels are fully transparent when `transparent_zero` holds.
pub open spec fn rgba_spec(pixels: Seq<u8>, transparent_zero: bool) -> Seq<u8> {
    Seq::new(
        4 * pixels.len(),
        |i: int|
            {
                let p = pixels[i / 4];
                let c = i % 4;
                if c < 3 {
                    palette_spec(p)[c]
                } else if transparent_zero && p == COLOR_BG {
                    0u8
                } else {
                    255u8
                }
            },
    )
}

/// Replaces the contents of `rgba` by the RGBA bytes of the checkpoint.
pub fn checkpoint_rgba_into(checkpoint: &RenderCheckpoint, transparent_zero: bool, rgba: &mut Vec<u8>)
    ensures
        final(rgba)@ == rgba_spec(checkpoint.pixels@, transparent_zero),
{
    rgba.clear();
    let mut i: usize = 0;
    while i < checkpoint.pixels.len()
        invariant
            i <= checkpoint.pixels@.len(),
            rgba@.len() == 4 * i,
            forall|k: int| 0 <= k < rgba@.len() ==> #[trigger] rgba@[k] == rgba_spec(checkpoint.pixels@, transparent_zero)[k],
        decreases checkpoint.pixels@.len() - i,
    {
        let pixel = checkpoint.pixels[i];
        let rgb = palette_rgb(pixel);
        let alpha: u8 = if transparent_zero && pixel == COLOR_BG {
            0
        } else {
            255
        };
        rgba.push(rgb[0]);
        rgba.push(rgb[1]);
        rgba.push(rgb[2]);
        rgba.push(alpha);
        i = i + 1;
    }
    assert(rgba@ =~= rgba_spec(checkpoint.pixels@, transparent_zero));
}

/// The RGBA bytes of the checkpoint.
pub fn checkpoint_rgba(checkpoint: &RenderCheckpoint, transparent_zero: bool) -> (r: Vec<u8>)
    ensures
        r@ == rgba_spec(checkpoint.pixels@, transparent_zero),
{
    let mut rgba: Vec<u8> = Vec::new();
    checkpoint_rgba_into(checkpoint, transparent_zero, &mut rgba);
    rgba
}

// ---------------------------------------------------------------------------
// Hit testing

/// Column `x` of row `y` lies inside the checkpoint and is not background.
pub open spec fn checkpoint_hit(v: CheckpointView, x: int, y: int) -> bool {
    0 <= x < v.width && 0 <= y < v.height && pixel_at(v, x, y) != COLOR_BG
}

/// Whether column `local_x` of row `local_y` lies inside the checkpoint and
/// holds a non-background pixel.
pub fn checkpoint_pixel_set(checkpoint: &RenderCheckpoint, local_x: i32, local_y: i32) -> (r: bool)
    requires
        checkpoint_wf(checkpoint@),
        checkpoint.width <= i32::MAX,
        checkpoint.height <= i32::MAX,
    ensures
        r == checkpoint_hit(checkpoint@, local_x as int, local_y as int),
{
    if local_x < 0 || local_y < 0 || local_x >= checkpoint.width as i32 || local_y >= checkpoint.height as i32 {
        return false;
    }
    let x = local_x as usize;
    let y = local_y as usize;
    let n = checkpoint.pixels.len();
    proof {
        lemma_grid_cell(x as int, y as int, checkpoint.width as int);
        assert(y * checkpoint.width + x < checkpoint.height * checkpoint.width) by (nonlinear_arith)
            requires
                y < checkpoint.height,
                x < checkpoint.width,
        ;
        assert(checkpoint.height * checkpoint.width == checkpoint.width * checkpoint.height) by (nonlinear_arith);
    }
    checkpoint.pixels[y * checkpoint.width + x] != COLOR_BG
}


// ---------------------------------------------------------------------------
// Laws of the sprites

/// Any whole number of full turns brings the banana back to the same sprite,
/// which is the sprite of the quarter turn `rotation % 4`.
pub proof fn lemma_banana_turns_repeat(rotation: int, turns: int)
    ensures
        banana_checkpoint_view(rotation + 4 * turns) == banana_checkpoint_view(rotation),
        banana_checkpoint_view(rotation) == banana_checkpoint_view(rotation % 4),
{
    vstd::arithmetic::div_mod::lemma_mod_multiples_vanish(turns, rotation, 4);
    assert(4 * turns + rotation == rotation + 4 * turns);
    assert((rotation % 4) % 4 == rotation % 4);
}

/// The sun is 45 pixels wide and 37 high in both moods, every gorilla pose
/// is 30 by 30, and every banana turn is 16 by 16.
pub proof fn lemma_sprite_sizes(shocked: bool, pose: GorillaPose, name: Seq<char>, rotation: int)
    ensures
        sun_checkpoint_view(shocked).width == 45,
        sun_checkpoint_view(shocked).height == 37,
        ascii_checkpoint(name, gorilla_rows(pose)).width == 30,
        ascii_checkpoint(name, gorilla_rows(pose)).height == 30,
        banana_checkpoint_view(rotation).width == 16,
        banana_checkpoint_view(rotation).height == 16,
{
    lemma_sun_happy_rows_ok();
    lemma_sun_shocked_rows_ok();
    lemma_gorilla_left_up_rows_ok();
    lemma_gorilla_right_up_rows_ok();
    lemma_gorilla_arms_down_rows_ok();
    lemma_banana_rows_0_ok();
    lemma_banana_rows_1_ok();
    lemma_banana_rows_2_ok();
    lemma_banana_rows_3_ok();
}

/// Pixel (`x`, `y`) of a checkpoint drawn from marker rows is the colour of
/// the marker in row `y`, column `x`.
proof fn lemma_ascii_pixel(name: Seq<char>, rows: Seq<&str>, x: int, y: int)
    requires
        0 <= x < ascii_width(rows),
        0 <= y < rows.len(),
    ensures
        pixel_at(ascii_checkpoint(name, rows), x, y) == marker_color(rows[y]@[x]),
{
    let w = ascii_width(rows) as int;
    let c = ascii_checkpoint(name, rows);
    lemma_grid_cell(x, y, w);
    lemma_grid_cell_bound(x, y, w, rows.len() as int);
    let i = y * w + x;
    assert(c.width == w);
    assert(rows.len() * w == w * rows.len()) by (nonlinear_arith);
    assert(0 <= i < c.pixels.len());
    assert(c.pixels[i] == marker_color(rows[i / w]@[i % w]));
}

/// The gorilla sprites are drawn in the gorilla colour on background only;
/// the three poses share their legs, rows 21 to 29; and the top row is
/// empty with the arms down and holds the raised fist over columns 4 to 8
/// with the left arm up, or 21 to 25 with the right arm up.
pub proof fn lemma_gorilla_sprites(
    name: Seq<char>,
    pose: GorillaPose,
    other_name: Seq<char>,
    other_pose: GorillaPose,
    x: int,
    y: int,
)
    requires
        0 <= x < 30,
        0 <= y < 30,
    ensures
        ({
            let c = ascii_checkpoint(name, gorilla_rows(pose));
            let d = ascii_checkpoint(other_name, gorilla_rows(other_pose));
            &&& pixel_at(c, x, y) == COLOR_BG || pixel_at(c, x, y) == COLOR_GORILLA
            &&& 21 <= y ==> pixel_at(c, x, y) == pixel_at(d, x, y)
            &&& y == 0 ==> pixel_at(c, x, y) == (if (pose == GorillaPose::LeftUp && 4 <= x <= 8) || (pose
                == GorillaPose::RightUp && 21 <= x <= 25) {
                COLOR_GORILLA
            } else {
                COLOR_BG
            })
        }),
{
    lemma_gorilla_left_up_rows_ok();
    lemma_gorilla_right_up_rows_ok();
    lemma_gorilla_arms_down_rows_ok();
    lemma_gorilla_left_up_rows_two_markers();
    lemma_gorilla_right_up_rows_two_markers();
    lemma_gorilla_arms_down_rows_two_markers();
    lemma_gorilla_rows_shared_and_top();
    lemma_ascii_pixel(name, gorilla_rows(pose), x, y);
    lemma_ascii_pixel(other_name, gorilla_rows(other_pose), x, y);
    let row = gorilla_rows(pose)[y]@;
    let other_row = gorilla_rows(other_pose)[y]@;
    assert(row[x] == '.' || row[x] == '1');
    if 21 <= y {
        assert(row == GORILLA_ARMS_DOWN_ROWS@[y]@);
        assert(other_row == GORILLA_ARMS_DOWN_ROWS@[y]@);
    }
}

/// The banana sprites are drawn in the banana colour on background only,
/// are empty below row 6, and the last quarter turn is the first one
/// mirrored into the six left columns.
pub proof fn lemma_banana_sprites(rotation: int, x: int, y: int)
    requires
        0 <= x < 16,
        0 <= y < 16,
    ensures
        pixel_at(banana_checkpoint_view(rotation), x, y) == COLOR_BG || pixel_at(banana_checkpoint_view(rotation), x, y)
            == COLOR_BANANA,
        7 <= y ==> pixel_at(banana_checkpoint_view(rotation), x, y) == COLOR_BG,
        pixel_at(banana_checkpoint_view(3), x, y) == (if x <= 5 {
            pixel_at(banana_checkpoint_view(0), 5 - x, y)
        } else {
            COLOR_BG
        }),
{
    lemma_banana_rows_0_ok();
    lemma_banana_rows_1_ok();
    lemma_banana_rows_2_ok();
    lemma_banana_rows_3_ok();
    lemma_banana_rows_0_two_markers();
    lemma_banana_rows_1_two_markers();
    lemma_banana_rows_2_two_markers();
    lemma_banana_rows_3_two_markers();
    lemma_banana_rows_shape();
    lemma_ascii_pixel(banana_name(rotation), banana_rows(rotation), x, y);
    lemma_ascii_pixel(banana_name(3), banana_rows(3), x, y);
    if x <= 5 {
        lemma_ascii_pixel(banana_name(0), banana_rows(0), 5 - x, y);
    }
    let row = banana_rows(rotation)[y]@;
    assert(row[x] == '.' || row[x] == 'E');
    assert(BANANA_ROWS_3@[y]@[x] == (if x <= 5 {
        BANANA_ROWS_0@[y]@[5 - x]
    } else {
        '.'
    }));
}

/// How many of the pixels have colour `c`.
pub open spec fn color_count(pixels: Seq<u8>, c: u8) -> nat
    decreases pixels.len(),
{
    if pixels.len() == 0 {
        0
    } else {
        color_count(pixels.drop_last(), c) + (if pixels.last() == c {
            1nat
        } else {
            0nat
        })
    }
}

/// How many markers of a row stand for colour `c`.
pub open spec fn row_color_count(row: Seq<char>, c: u8) -> nat
    decreases row.len(),
{
    if row.len() == 0 {
        0
    } else {
        row_color_count(row.drop_last(), c) + (if marker_color(row.last()) == c {
            1nat
        } else {
            0nat
        })
    }
}

/// How many markers of a sheet of rows stand for colour `c`.
pub open spec fn rows_color_count(rows: Seq<&str>, c: u8) -> nat
    decreases rows.len(),
{
    if rows.len() == 0 {
        0
    } else {
        rows_color_count(rows.drop_last(), c) + row_color_count(rows.last()@, c)
    }
}

proof fn lemma_color_count_cells(name: Seq<char>, rows: Seq<&str>, c: u8, k: int, j: int)
    requires
        ascii_rows_ok(rows),
        0 <= k < rows.len(),
        0 <= j <= ascii_width(rows),
    ensures
        color_count(ascii_checkpoint(name, rows).pixels.take(k * ascii_width(rows) + j), c) == rows_color_count(
            rows.take(k),
            c,
        ) + row_color_count(rows[k]@.take(j), c),
    decreases k, j,
{
    let w = ascii_width(rows) as int;
    let px = ascii_checkpoint(name, rows).pixels;
    assert(rows.len() * w == w * rows.len()) by (nonlinear_arith);
    assert(k * ascii_width(rows) + j == k * w + j);
    if j == 0 {
        assert(rows[k]@.take(0) =~= Seq::<char>::empty());
        if k == 0 {
            assert(k * w == 0) by (nonlinear_arith)
                requires
                    k == 0,
            ;
            assert(px.take(0) =~= Seq::<u8>::empty());
            assert(rows.take(0) =~= Seq::<&str>::empty());
            assert(color_count(Seq::<u8>::empty(), c) == 0);
            assert(rows_color_count(Seq::<&str>::empty(), c) == 0);
        } else {
            lemma_color_count_cells(name, rows, c, k - 1, w);
            assert(rows[k - 1]@.len() == w);
            assert(rows[k - 1]@.take(w) =~= rows[k - 1]@);
            assert((k - 1) * w + w == k * w) by (nonlinear_arith);
            assert((k - 1) * ascii_width(rows) + w == k * w);
            assert(px.take((k - 1) * ascii_width(rows) + w) == px.take(k * w));
            assert(rows.take(k).drop_last() =~= rows.take(k - 1));
            assert(rows.take(k).last() == rows[k - 1]);
            assert(rows_color_count(rows.take(k), c) == rows_color_count(rows.take(k - 1), c) + row_color_count(
                rows[k - 1]@,
                c,
            ));
        }
        assert(row_color_count(rows[k]@.take(0), c) == 0);
        assert(color_count(px.take(k * w), c) == rows_color_count(rows.take(k), c));
    } else {
        lemma_color_count_cells(name, rows, c, k, j - 1);
        let n = k * w + j - 1;
        lemma_grid_cell(j - 1, k, w);
        lemma_grid_cell_bound(j - 1, k, w, rows.len() as int);
        assert(rows[k]@.len() == w);
        assert(n + 1 <= px.len());
        assert(px.take(n + 1).drop_last() =~= px.take(n));
        assert(px.take(n + 1).last() == px[n]);
        assert(px[n] == marker_color(rows[k]@[j - 1]));
        assert(rows[k]@.take(j).drop_last() =~= rows[k]@.take(j - 1));
        assert(rows[k]@.take(j).last() == rows[k]@[j - 1]);
        assert(color_count(px.take(n + 1), c) == color_count(px.take(n), c) + (if px[n] == c {
            1nat
        } else {
            0nat
        }));
        assert(row_color_count(rows[k]@.take(j), c) == row_color_count(rows[k]@.take(j - 1), c) + (if marker_color(
            rows[k]@[j - 1],
        ) == c {
            1nat
        } else {
            0nat
        }));
        assert(color_count(px.take(n + 1), c) == rows_color_count(rows.take(k), c) + row_color_count(
            rows[k]@.take(j),
            c,
        ));
    }
}

/// Counting the pixels of a colour in a checkpoint drawn from rows is
/// counting the markers of that colour, row by row.
proof fn lemma_color_count_rows(name: Seq<char>, rows: Seq<&str>, c: u8)
    requires
        ascii_rows_ok(rows),
        rows.len() > 0,
    ensures
        color_count(ascii_checkpoint(name, rows).pixels, c) == rows_color_count(rows, c),
{
    let w = ascii_width(rows) as int;
    let h = rows.len() as int;
    let px = ascii_checkpoint(name, rows).pixels;
    lemma_color_count_cells(name, rows, c, h - 1, w);
    assert((h - 1) * w + w == h * w) by (nonlinear_arith);
    assert(h * w == px.len()) by (nonlinear_arith)
        requires
            px.len() == h * w,
    ;
    assert(px.take(h * w) =~= px);
    assert(rows[h - 1]@.take(w) =~= rows[h - 1]@);
    assert(rows.take(h - 1) =~= rows.drop_last());
}

proof fn lemma_banana_rows_0_count()
    ensures
        rows_color_count(BANANA_ROWS_0@, COLOR_BANANA) == 19,
{
    reveal_strlit("....EE..........");
    reveal_strlit("...EEE..........");
    reveal_strlit("..EEE...........");
    reveal_strlit("................");
    reveal_with_fuel(row_color_count, 17);
    assert(row_color_count(BANANA_ROWS_0@[0]@, COLOR_BANANA) == 2);
    assert(row_color_count(BANANA_ROWS_0@[1]@, COLOR_BANANA) == 3);
    assert(row_color_count(BANANA_ROWS_0@[2]@, COLOR_BANANA) == 3);
    assert(row_color_count(BANANA_ROWS_0@[3]@, COLOR_BANANA) == 3);
    assert(row_color_count(BANANA_ROWS_0@[4]@, COLOR_BANANA) == 3);
    assert(row_color_count(BANANA_ROWS_0@[5]@, COLOR_BANANA) == 3);
    assert(row_color_count(BANANA_ROWS_0@[6]@, COLOR_BANANA) == 2);
    assert(row_color_count(BANANA_ROWS_0@[7]@, COLOR_BANANA) == 0);
    assert(row_color_count(BANANA_ROWS_0@[8]@, COLOR_BANANA) == 0);
    assert(row_color_count(BANANA_ROWS_0@[9]@, COLOR_BANANA) == 0);
    assert(row_color_count(BANANA_ROWS_0@[10]@, COLOR_BANANA) == 0);
    assert(row_color_count(BANANA_ROWS_0@[11]@, COLOR_BANANA) == 0);
    assert(row_color_count(BANANA_ROWS_0@[12]@, COLOR_BANANA) == 0);
    assert(row_color_count(BANANA_ROWS_0@[13]@, COLOR_BANANA) == 0);
    assert(row_color_count(BANANA_ROWS_0@[14]@, COLOR_BANANA) == 0);
    assert(row_color_count(BANANA_ROWS_0@[15]@, COLOR_BANANA) == 0);
    reveal_with_fuel(rows_color_count, 17);
}

proof fn lemma_banana_rows_1_count()
    ensures
        rows_color_count(BANANA_ROWS_1@, COLOR_BANANA) == 25,
{
    reveal_strlit("..EEEEE.........");
    reveal_strlit(".EEEEEEE........");
    reveal_strlit("EEEEEEEEE.......");
    reveal_strlit("EE.....EE.......");
    reveal_strlit("................");
    reveal_with_fuel(row_color_count, 17);
    assert(row_color_count(BANANA_ROWS_1@[0]@, COLOR_BANANA) == 5);
    assert(row_color_count(BANANA_ROWS_1@[1]@, COLOR_BANANA) == 7);
    assert(row_color_count(BANANA_ROWS_1@[2]@, COLOR_BANANA) == 9);
    assert(row_color_count(BANANA_ROWS_1@[3]@, COLOR_BANANA) == 4);
    assert(row_color_count(BANANA_ROWS_1@[4]@, COLOR_BANANA) == 0);
    assert(row_color_count(BANANA_ROWS_1@[5]@, COLOR_BANANA) == 0);
    assert(row_color_count(BANANA_ROWS_1@[6]@, COLOR_BANANA) == 0);
    assert(row_color_count(BANANA_ROWS_1@[7]@, COLOR_BANANA) == 0);
    assert(row_color_count(BANANA_ROWS_1@[8]@, COLOR_BANANA) == 0);
    assert(row_color_count(BANANA_ROWS_1@[9]@, COLOR_BANANA) == 0);
    assert(row_color_count(BANANA_ROWS_1@[10]@, COLOR_BANANA) == 0);
    assert(row_color_count(BANANA_ROWS_1@[11]@, COLOR_BANANA) == 0);
    assert(row_color_count(BANANA_ROWS_1@[12]@, COLOR_BANANA) == 0);
    assert(row_color_count(BANANA_ROWS_1@[13]@, COLOR_BANANA) == 0);
    assert(row_color_count(BANANA_ROWS_1@[14]@, COLOR_BANANA) == 0);
    assert(row_color_count(BANANA_ROWS_1@[15]@, COLOR_BANANA) == 0);
    reveal_with_fuel(rows_color_count, 17);
}

proof fn lemma_banana_rows_2_count()
    ensures
        rows_color_count(BANANA_ROWS_2@, COLOR_BANANA) == 25,
{
    reveal_strlit("EE.....EE.......");
    reveal_strlit("EEEEEEEEE.......");
    reveal_strlit(".EEEEEEE........");
    reveal_strlit("..EEEEE.........");
    reveal_strlit("................");
    reveal_with_fuel(row_color_count, 17);
    assert(row_color_count(BANANA_ROWS_2@[0]@, COLOR_BANANA) == 4);
    assert(row_color_count(BANANA_ROWS_2@[1]@, COLOR_BANANA) == 9);
    assert(row_color_count(BANANA_ROWS_2@[2]@, COLOR_BANANA) == 7);
    assert(row_color_count(BANANA_ROWS_2@[3]@, COLOR_BANANA) == 5);
    assert(row_color_count(BANANA_ROWS_2@[4]@, COLOR_BANANA) == 0);
    assert(row_color_count(BANANA_ROWS_2@[5]@, COLOR_BANANA) == 0);
    assert(row_color_count(BANANA_ROWS_2@[6]@, COLOR_BANANA) == 0);
    assert(row_color_count(BANANA_ROWS_2@[7]@, COLOR_BANANA) == 0);
    assert(row_color_count(BANANA_ROWS_2@[8]@, COLOR_BANANA) == 0);
    assert(row_color_count(BANANA_ROWS_2@[9]@, COLOR_BANANA) == 0);
    assert(row_color_count(BANANA_ROWS_2@[10]@, COLOR_BANANA) == 0);
    assert(row_color_count(BANANA_ROWS_2@[11]@, COLOR_BANANA) == 0);
    assert(row_color_count(BANANA_ROWS_2@[12]@, COLOR_BANANA) == 0);
    assert(row_color_count(BANANA_ROWS_2@[13]@, COLOR_BANANA) == 0);
    assert(row_color_count(BANANA_ROWS_2@[14]@, COLOR_BANANA) == 0);
    assert(row_color_count(BANANA_ROWS_2@[15]@, COLOR_BANANA) == 0);
    reveal_with_fuel(rows_color_count, 17);
}

proof fn lemma_banana_rows_3_count()
    ensures
        rows_color_count(BANANA_ROWS_3@, COLOR_BANANA) == 19,
{
    reveal_strlit("EE..............");
    reveal_strlit("EEE.............");
    reveal_strlit(".EEE............");
    reveal_strlit("................");
    reveal_with_fuel(row_color_count, 17);
    assert(row_color_count(BANANA_ROWS_3@[0]@, COLOR_BANANA) == 2);
    assert(row_color_count(BANANA_ROWS_3@[1]@, COLOR_BANANA) == 3);
    assert(row_color_count(BANANA_ROWS_3@[2]@, COLOR_BANANA) == 3);
    assert(row_color_count(BANANA_ROWS_3@[3]@, COLOR_BANANA) == 3);
    assert(row_color_count(BANANA_ROWS_3@[4]@, COLOR_BANANA) == 3);
    assert(row_color_count(BANANA_ROWS_3@[5]@, COLOR_BANANA) == 3);
    assert(row_color_count(BANANA_ROWS_3@[6]@, COLOR_BANANA) == 2);
    assert(row_color_count(BANANA_ROWS_3@[7]@, COLOR_BANANA) == 0);
    assert(row_color_count(BANANA_ROWS_3@[8]@, COLOR_BANANA) == 0);
    assert(row_color_count(BANANA_ROWS_3@[9]@, COLOR_BANANA) == 0);
    assert(row_color_count(BANANA_ROWS_3@[10]@, COLOR_BANANA) == 0);
    assert(row_color_count(BANANA_ROWS_3@[11]@, COLOR_BANANA) == 0);
    assert(row_color_count(BANANA_ROWS_3@[12]@, COLOR_BANANA) == 0);
    assert(row_color_count(BANANA_ROWS_3@[13]@, COLOR_BANANA) == 0);
    assert(row_color_count(BANANA_ROWS_3@[14]@, COLOR_BANANA) == 0);
    assert(row_color_count(BANANA_ROWS_3@[15]@, COLOR_BANANA) == 0);
    reveal_with_fuel(rows_color_count, 17);
}

/// A banana sprite shows 19 banana pixels in its first and last quarter
/// turns and 25 in the two middle ones.
pub proof fn lemma_banana_pixel_counts(rotation: int)
    ensures
        color_count(banana_checkpoint_view(rotation).pixels, COLOR_BANANA) == (if rotation % 4 == 0 || rotation % 4
            == 3 {
            19nat
        } else {
            25nat
        }),
{
    lemma_banana_rows_0_ok();
    lemma_banana_rows_1_ok();
    lemma_banana_rows_2_ok();
    lemma_banana_rows_3_ok();
    lemma_banana_rows_0_count();
    lemma_banana_rows_1_count();
    lemma_banana_rows_2_count();
    lemma_banana_rows_3_count();
    lemma_color_count_rows(banana_name(rotation), banana_rows(rotation), COLOR_BANANA);
}

}

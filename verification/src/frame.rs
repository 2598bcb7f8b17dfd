//! An indexed-colour frame buffer and its drawing primitives: pixels,
//! rectangles, lines and sprite blits.

use vstd::prelude::*;
use crate::render_ref::{
    checkpoint_wf, lemma_grid_cell, lemma_grid_cell_bound, lemma_grid_index, pixel_at, CheckpointView, RenderCheckpoint,
};

verus! {

/// A frame of palette indices, stored row by row.
pub struct IndexedFrame {
    width: usize,
    height: usize,
    pixels: Vec<u8>,
}

/// The mathematical content of an `IndexedFrame`.
pub struct FrameView {
    pub width: nat,
    pub height: nat,
    pub pixels: Seq<u8>,
}

impl View for IndexedFrame {
    type V = FrameView;

    closed spec fn view(&self) -> FrameView {
        FrameView { width: self.width as nat, height: self.height as nat, pixels: self.pixels@ }
    }
}

/// The pixels fill the frame exactly.
pub open spec fn frame_wf(f: FrameView) -> bool {
    f.pixels.len() == f.width * f.height
}

/// Column `x` of row `y` lies inside the frame.
pub open spec fn in_frame(f: FrameView, x: int, y: int) -> bool {
    0 <= x < f.width && 0 <= y < f.height
}

/// The frame after setting one pixel; points outside the frame change nothing.
pub open spec fn set_pixel_spec(f: FrameView, x: int, y: int, color: u8) -> FrameView {
    if in_frame(f, x, y) {
        FrameView { pixels: f.pixels.update(y * f.width + x, color), ..f }
    } else {
        f
    }
}

/// The frame with every pixel whose point lies in `region` set to `color`.
pub open spec fn paint(f: FrameView, region: Set<(int, int)>, color: u8) -> FrameView {
    let w = f.width as int;
    FrameView {
        pixels: Seq::new(
            f.pixels.len(),
            |i: int| if region.contains((i % w, i / w)) { color } else { f.pixels[i] },
        ),
        ..f
    }
}

/// Whether a sprite pixel is drawn: it lies in the sprite, in the rows
/// before `rows_done` or in the first `cols_done` columns of that row, and is
/// not a background pixel skipped as transparent.
pub open spec fn blit_covers(
    ck: CheckpointView,
    lx: int,
    ly: int,
    transparent_zero: bool,
    rows_done: int,
    cols_done: int,
) -> bool {
    &&& 0 <= lx < ck.width
    &&& 0 <= ly < ck.height
    &&& (ly < rows_done || (ly == rows_done && lx < cols_done))
    &&& !(transparent_zero && pixel_at(ck, lx, ly) == 0)
}

/// The frame after copying the covered part of a sprite with its top-left
/// corner at (`ox`, `oy`).
pub open spec fn blit_part(
    f: FrameView,
    ck: CheckpointView,
    ox: int,
    oy: int,
    transparent_zero: bool,
    rows_done: int,
    cols_done: int,
) -> FrameView {
    let w = f.width as int;
    FrameView {
        pixels: Seq::new(
            f.pixels.len(),
            |i: int|
                if blit_covers(ck, i % w - ox, i / w - oy, transparent_zero, rows_done, cols_done) {
                    pixel_at(ck, i % w - ox, i / w - oy)
                } else {
                    f.pixels[i]
                },
        ),
        ..f
    }
}

/// The frame after copying a whole sprite with its top-left corner at
/// (`ox`, `oy`); background pixels are skipped when `transparent_zero` holds.
pub open spec fn blit_spec(f: FrameView, ck: CheckpointView, ox: int, oy: int, transparent_zero: bool) -> FrameView {
    blit_part(f, ck, ox, oy, transparent_zero, ck.height as int, 0)
}

// ---------------------------------------------------------------------------
// Lemmas on painting

/// Setting a pixel of a painted frame paints one more point.
pub proof fn lemma_paint_insert(f0: FrameView, region: Set<(int, int)>, x: int, y: int, color: u8)
    requires
        frame_wf(f0),
    ensures
        set_pixel_spec(paint(f0, region, color), x, y, color) == paint(f0, region.insert((x, y)), color),
{
    let f = paint(f0, region, color);
    let g = set_pixel_spec(f, x, y, color);
    let h = paint(f0, region.insert((x, y)), color);
    let w = f0.width as int;
    if in_frame(f0, x, y) {
        lemma_grid_cell_bound(x, y, w, f0.height as int);
    }
    assert forall|i: int| 0 <= i < g.pixels.len() implies g.pixels[i] == h.pixels[i] by {
        lemma_grid_index(i, w, f0.height as int);
        if in_frame(f0, x, y) {
            lemma_grid_cell(x, y, w);
            if i == y * w + x {
            } else {
                assert((i % w, i / w) != (x, y));
            }
        } else {
            assert((i % w, i / w) != (x, y));
        }
    }
    assert(g.pixels =~= h.pixels);
}

/// Painting nothing changes nothing.
pub proof fn lemma_paint_empty(f: FrameView, color: u8)
    ensures
        paint(f, Set::empty(), color) == f,
{
    assert(paint(f, Set::empty(), color).pixels =~= f.pixels);
}

/// Painting with equal regions gives equal frames.
pub proof fn lemma_paint_same_region(f: FrameView, a: Set<(int, int)>, b: Set<(int, int)>, color: u8)
    requires
        a =~= b,
    ensures
        paint(f, a, color) == paint(f, b, color),
{
}

/// The set of points of a sequence.
pub open spec fn seq_set(s: Seq<(int, int)>) -> Set<(int, int)> {
    Set::new(|p: (int, int)| s.contains(p))
}

/// Painting twice in one colour paints the union.
pub proof fn lemma_paint_union(f0: FrameView, a: Set<(int, int)>, b: Set<(int, int)>, color: u8)
    ensures
        paint(paint(f0, a, color), b, color) == paint(f0, a.union(b), color),
{
    assert(paint(paint(f0, a, color), b, color).pixels =~= paint(f0, a.union(b), color).pixels);
}

/// The points of a concatenation are those of both parts.
pub proof fn lemma_seq_set_concat(s: Seq<(int, int)>, t: Seq<(int, int)>)
    ensures
        seq_set(s + t) == seq_set(s).union(seq_set(t)),
{
    assert forall|p: (int, int)| #[trigger] seq_set(s + t).contains(p) <==> seq_set(s).union(seq_set(t)).contains(p) by {
        if (s + t).contains(p) {
            let k = choose|k: int| 0 <= k < (s + t).len() && (s + t)[k] == p;
            if k < s.len() {
                assert(s[k] == p);
            } else {
                assert(t[k - s.len()] == p);
            }
        }
        if s.contains(p) {
            let k = choose|k: int| 0 <= k < s.len() && s[k] == p;
            assert((s + t)[k] == p);
        }
        if t.contains(p) {
            let k = choose|k: int| 0 <= k < t.len() && t[k] == p;
            assert((s + t)[s.len() + k] == p);
        }
    }
    assert(seq_set(s + t) =~= seq_set(s).union(seq_set(t)));
}

/// Copying one more sprite pixel.
proof fn lemma_blit_step(
    f0: FrameView,
    ck: CheckpointView,
    ox: int,
    oy: int,
    t: bool,
    r: int,
    c: int,
)
    requires
        frame_wf(f0),
        0 <= r < ck.height,
        0 <= c < ck.width,
    ensures
        !(t && pixel_at(ck, c, r) == 0) ==> set_pixel_spec(blit_part(f0, ck, ox, oy, t, r, c), ox + c, oy + r, pixel_at(ck, c, r))
            == blit_part(f0, ck, ox, oy, t, r, c + 1),
        (t && pixel_at(ck, c, r) == 0) ==> blit_part(f0, ck, ox, oy, t, r, c) == blit_part(f0, ck, ox, oy, t, r, c + 1),
{
    let w = f0.width as int;
    let f = blit_part(f0, ck, ox, oy, t, r, c);
    let h = blit_part(f0, ck, ox, oy, t, r, c + 1);
    if in_frame(f0, ox + c, oy + r) {
        lemma_grid_cell_bound(ox + c, oy + r, w, f0.height as int);
    }
    if !(t && pixel_at(ck, c, r) == 0) {
        let g = set_pixel_spec(f, ox + c, oy + r, pixel_at(ck, c, r));
        assert forall|i: int| 0 <= i < g.pixels.len() implies g.pixels[i] == h.pixels[i] by {
            lemma_grid_index(i, w, f0.height as int);
            if in_frame(f0, ox + c, oy + r) {
                lemma_grid_cell(ox + c, oy + r, w);
                if i == (oy + r) * w + (ox + c) {
                } else {
                    assert((i % w, i / w) != (ox + c, oy + r));
                }
            } else {
                assert((i % w, i / w) != (ox + c, oy + r));
            }
        }
        assert(g.pixels =~= h.pixels);
    } else {
        assert(f.pixels =~= h.pixels);
    }
}

/// The end of a sprite row is the start of the next.
proof fn lemma_blit_next_row(f0: FrameView, ck: CheckpointView, ox: int, oy: int, t: bool, r: int)
    ensures
        blit_part(f0, ck, ox, oy, t, r, ck.width as int) == blit_part(f0, ck, ox, oy, t, r + 1, 0),
{
    assert(blit_part(f0, ck, ox, oy, t, r, ck.width as int).pixels =~= blit_part(f0, ck, ox, oy, t, r + 1, 0).pixels);
}

/// Copying nothing changes nothing.
proof fn lemma_blit_empty(f0: FrameView, ck: CheckpointView, ox: int, oy: int, t: bool)
    ensures
        blit_part(f0, ck, ox, oy, t, 0, 0) == f0,
{
    assert(blit_part(f0, ck, ox, oy, t, 0, 0).pixels =~= f0.pixels);
}

// ---------------------------------------------------------------------------
// The frame

impl IndexedFrame {
    /// A frame of `width` by `height` background pixels.
    pub fn new(width: usize, height: usize) -> (r: IndexedFrame)
        requires
            width * height <= usize::MAX,
        ensures
            r@.width == width,
            r@.height == height,
            r@.pixels == Seq::new((width * height) as nat, |i: int| 0u8),
            frame_wf(r@),
    {
        let pixels = vec![0u8; width * height];
        let r = IndexedFrame { width, height, pixels };
        assert(r@.pixels =~= Seq::new((width * height) as nat, |i: int| 0u8));
        r
    }

    /// The width in pixels.
    pub fn width(&self) -> (r: usize)
        ensures
            r == self@.width,
    {
        self.width
    }

    /// The height in pixels.
    pub fn height(&self) -> (r: usize)
        ensures
            r == self@.height,
    {
        self.height
    }

    /// Fills the whole frame with `color`.
    pub fn clear(&mut self, color: u8)
        requires
            frame_wf(old(self)@),
        ensures
            final(self)@.width == old(self)@.width,
            final(self)@.height == old(self)@.height,
            final(self)@.pixels == Seq::new(old(self)@.pixels.len(), |i: int| color),
            frame_wf(final(self)@),
    {
        let n = self.pixels.len();
        let mut i: usize = 0;
        while i < n
            invariant
                n == self.pixels@.len(),
                self.width == old(self).width,
                self.height == old(self).height,
                n == old(self)@.pixels.len(),
                i <= n,
                forall|k: int| 0 <= k < i ==> #[trigger] self.pixels@[k] == color,
            decreases n - i,
        {
            self.pixels.set(i, color);
            i = i + 1;
        }
        assert(self@.pixels =~= Seq::new(old(self)@.pixels.len(), |i: int| color));
    }

    /// Sets the pixel in column `x` of row `y`; points outside the frame are
    /// ignored.
    pub fn set_pixel(&mut self, x: i32, y: i32, color: u8)
        requires
            frame_wf(old(self)@),
        ensures
            final(self)@ == set_pixel_spec(old(self)@, x as int, y as int, color),
            frame_wf(final(self)@),
    {
        if x < 0 || y < 0 {
            return;
        }
        let x = x as usize;
        let y = y as usize;
        if x >= self.width || y >= self.height {
            return;
        }
        let n = self.pixels.len();
        proof {
            assert(y * self.width + x < self.width * self.height) by (nonlinear_arith)
                requires
                    y < self.height,
                    x < self.width,
            ;
        }
        self.pixels.set(y * self.width + x, color);
    }

    /// The frame as a checkpoint named `name`.
    pub fn into_checkpoint(self, name: &str) -> (r: RenderCheckpoint)
        requires
            frame_wf(self@),
        ensures
            r@ == (CheckpointView { name: name@, width: self@.width, height: self@.height, pixels: self@.pixels }),
            checkpoint_wf(r@),
    {
        RenderCheckpoint { name: name.to_owned(), width: self.width, height: self.height, pixels: self.pixels }
    }

    /// Paints the pixels (`xx`, `yy`) with `x0 <= xx < x1` and `y0 <= yy < y1`.
    pub fn fill_rect(&mut self, x0: i32, y0: i32, x1: i32, y1: i32, color: u8)
        requires
            frame_wf(old(self)@),
        ensures
            final(self)@ == paint(old(self)@, rect_region(x0 as int, y0 as int, x1 as int, y1 as int), color),
            frame_wf(final(self)@),
    {
        let ghost f0 = self@;
        proof {
            lemma_paint_empty(f0, color);
            lemma_paint_same_region(f0, Set::empty(), rect_part(x0 as int, y0 as int, x1 as int, y0 as int, x0 as int), color);
            if y0 >= y1 {
                lemma_paint_same_region(f0, Set::empty(), rect_region(x0 as int, y0 as int, x1 as int, y1 as int), color);
            }
        }
        let mut yy = y0;
        while yy < y1
            invariant
                frame_wf(f0),
                frame_wf(self@),
                y0 <= yy,
                yy < y1 ==> self@ == paint(f0, rect_part(x0 as int, y0 as int, x1 as int, yy as int, x0 as int), color),
                yy >= y1 ==> self@ == paint(f0, rect_region(x0 as int, y0 as int, x1 as int, y1 as int), color),
            decreases y1 - yy,
        {
            proof {
                if x0 >= x1 {
                    lemma_paint_same_region(
                        f0,
                        rect_part(x0 as int, y0 as int, x1 as int, yy as int, x0 as int),
                        rect_part(x0 as int, y0 as int, x1 as int, yy + 1, x0 as int),
                        color,
                    );
                }
            }
            let mut xx = x0;
            while xx < x1
                invariant
                    frame_wf(f0),
                    frame_wf(self@),
                    y0 <= yy < y1,
                    x0 <= xx,
                    xx < x1 ==> self@ == paint(f0, rect_part(x0 as int, y0 as int, x1 as int, yy as int, xx as int), color),
                    xx >= x1 ==> self@ == paint(f0, rect_part(x0 as int, y0 as int, x1 as int, yy as int + 1, x0 as int), color),
                decreases x1 - xx,
            {
                proof {
                    lemma_paint_insert(f0, rect_part(x0 as int, y0 as int, x1 as int, yy as int, xx as int), xx as int, yy as int, color);
                }
                self.set_pixel(xx, yy, color);
                proof {
                    if xx + 1 < x1 {
                        lemma_paint_same_region(
                            f0,
                            rect_part(x0 as int, y0 as int, x1 as int, yy as int, xx as int).insert((xx as int, yy as int)),
                            rect_part(x0 as int, y0 as int, x1 as int, yy as int, xx + 1),
                            color,
                        );
                    } else {
                        lemma_paint_same_region(
                            f0,
                            rect_part(x0 as int, y0 as int, x1 as int, yy as int, xx as int).insert((xx as int, yy as int)),
                            rect_part(x0 as int, y0 as int, x1 as int, yy + 1, x0 as int),
                            color,
                        );
                    }
                }
                xx = xx + 1;
            }
            proof {
                if yy + 1 >= y1 {
                    lemma_paint_same_region(
                        f0,
                        rect_part(x0 as int, y0 as int, x1 as int, yy + 1, x0 as int),
                        rect_region(x0 as int, y0 as int, x1 as int, y1 as int),
                        color,
                    );
                }
            }
            yy = yy + 1;
        }
    }

    /// Copies a sprite with its top-left corner at (`origin_x`, `origin_y`);
    /// with `transparent_zero`, background pixels of the sprite are skipped.
    pub fn blit_checkpoint(&mut self, checkpoint: &RenderCheckpoint, origin_x: i32, origin_y: i32, transparent_zero: bool)
        requires
            frame_wf(old(self)@),
            checkpoint_wf(checkpoint@),
            checkpoint.width <= i32::MAX,
            checkpoint.height <= i32::MAX,
            origin_x + checkpoint.width <= i32::MAX + 1,
            origin_y + checkpoint.height <= i32::MAX + 1,
        ensures
            final(self)@ == blit_spec(old(self)@, checkpoint@, origin_x as int, origin_y as int, transparent_zero),
            frame_wf(final(self)@),
    {
        let ghost f0 = self@;
        let ghost ck = checkpoint@;
        let n = checkpoint.pixels.len();
        proof {
            lemma_blit_empty(f0, ck, origin_x as int, origin_y as int, transparent_zero);
        }
        let mut yy: usize = 0;
        while yy < checkpoint.height
            invariant
                frame_wf(f0),
                frame_wf(self@),
                ck == checkpoint@,
                n == checkpoint.pixels@.len(),
                checkpoint_wf(ck),
                checkpoint.width <= i32::MAX,
                checkpoint.height <= i32::MAX,
                origin_x + checkpoint.width <= i32::MAX + 1,
                origin_y + checkpoint.height <= i32::MAX + 1,
                yy <= checkpoint.height,
                self@ == blit_part(f0, ck, origin_x as int, origin_y as int, transparent_zero, yy as int, 0),
            decreases checkpoint.height - yy,
        {
            let mut xx: usize = 0;
            while xx < checkpoint.width
                invariant
                    frame_wf(f0),
                    frame_wf(self@),
                    ck == checkpoint@,
                    n == checkpoint.pixels@.len(),
                    checkpoint_wf(ck),
                    checkpoint.width <= i32::MAX,
                    checkpoint.height <= i32::MAX,
                    origin_x + checkpoint.width <= i32::MAX + 1,
                    origin_y + checkpoint.height <= i32::MAX + 1,
                    yy < checkpoint.height,
                    xx <= checkpoint.width,
                    self@ == blit_part(f0, ck, origin_x as int, origin_y as int, transparent_zero, yy as int, xx as int),
                decreases checkpoint.width - xx,
            {
                proof {
                    lemma_grid_cell(xx as int, yy as int, checkpoint.width as int);
                    assert(yy * checkpoint.width + xx < checkpoint.height * checkpoint.width) by (nonlinear_arith)
                        requires
                            yy < checkpoint.height,
                            xx < checkpoint.width,
                    ;
                    assert(checkpoint.height * checkpoint.width == checkpoint.width * checkpoint.height) by (nonlinear_arith);
                    lemma_blit_step(f0, ck, origin_x as int, origin_y as int, transparent_zero, yy as int, xx as int);
                }
                let pixel = checkpoint.pixels[yy * checkpoint.width + xx];
                if !(transparent_zero && pixel == 0) {
                    self.set_pixel(origin_x + xx as i32, origin_y + yy as i32, pixel);
                }
                xx = xx + 1;
            }
            proof {
                lemma_blit_next_row(f0, ck, origin_x as int, origin_y as int, transparent_zero, yy as int);
            }
            yy = yy + 1;
        }
    }
}

/// The points of the rectangle `x0 <= x < x1`, `y0 <= y < y1`.
pub open spec fn rect_region(x0: int, y0: int, x1: int, y1: int) -> Set<(int, int)> {
    Set::new(|p: (int, int)| x0 <= p.0 < x1 && y0 <= p.1 < y1)
}

/// Filling a rectangle keeps the frame's size and sets, among the frame's
/// pixels, exactly those in columns `x0` up to but not including `x1` and
/// rows `y0` up to but not including `y1`; every other pixel keeps its colour.
pub proof fn lemma_fill_rect_pixels(f: FrameView, x0: int, y0: int, x1: int, y1: int, color: u8, x: int, y: int)
    requires
        frame_wf(f),
        in_frame(f, x, y),
    ensures
        ({
            let g = paint(f, rect_region(x0, y0, x1, y1), color);
            &&& g.width == f.width && g.height == f.height && frame_wf(g)
            &&& g.pixels[y * f.width + x] == (if x0 <= x < x1 && y0 <= y < y1 {
                color
            } else {
                f.pixels[y * f.width + x]
            })
        }),
{
    lemma_grid_cell(x, y, f.width as int);
    lemma_grid_cell_bound(x, y, f.width as int, f.height as int);
}

/// Blitting a sprite with its top-left corner at (`ox`, `oy`) keeps the
/// frame's size; a frame pixel under the sprite takes the sprite's pixel
/// (`x - ox`, `y - oy`), unless that is background (index 0) and background
/// is drawn transparent, in which case it keeps its colour, as does every
/// pixel outside the sprite.
pub proof fn lemma_blit_pixels(f: FrameView, ck: CheckpointView, ox: int, oy: int, transparent_zero: bool, x: int, y: int)
    requires
        frame_wf(f),
        in_frame(f, x, y),
    ensures
        ({
            let g = blit_spec(f, ck, ox, oy, transparent_zero);
            let under = 0 <= x - ox < ck.width && 0 <= y - oy < ck.height;
            let sprite_pixel = pixel_at(ck, x - ox, y - oy);
            &&& g.width == f.width && g.height == f.height && frame_wf(g)
            &&& g.pixels[y * f.width + x] == (if under && !(transparent_zero && sprite_pixel == 0) {
                sprite_pixel
            } else {
                f.pixels[y * f.width + x]
            })
        }),
{
    lemma_grid_cell(x, y, f.width as int);
    lemma_grid_cell_bound(x, y, f.width as int, f.height as int);
}

/// The points of the rectangle in the rows before `row`, and in row `row`
/// before column `col`.
pub open spec fn rect_part(x0: int, y0: int, x1: int, row: int, col: int) -> Set<(int, int)> {
    Set::new(|p: (int, int)| (x0 <= p.0 < x1 && y0 <= p.1 < row) || (p.1 == row && x0 <= p.0 < col))
}


// ---------------------------------------------------------------------------
// Lines

pub open spec fn iabs(v: int) -> int {
    if v < 0 {
        -v
    } else {
        v
    }
}

/// The points that a Bresenham walk visits from (`x`, `y`) to (`x1`, `y1`),
/// with error term `err`, spans `dx >= 0` and `dy <= 0`, and step signs
/// `sx` and `sy`.
pub open spec fn line_walk(x: int, y: int, x1: int, y1: int, err: int, dx: int, dy: int, sx: int, sy: int) -> Seq<
    (int, int),
>
    decreases iabs(x1 - x) + iabs(y1 - y),
{
    if x == x1 && y == y1 {
        seq![(x, y)]
    } else {
        let e2 = 2 * err;
        let nx = if e2 >= dy { x + sx } else { x };
        let ny = if e2 <= dx { y + sy } else { y };
        let nerr = err + (if e2 >= dy { dy } else { 0 }) + (if e2 <= dx { dx } else { 0 });
        if iabs(x1 - nx) + iabs(y1 - ny) < iabs(x1 - x) + iabs(y1 - y) {
            seq![(x, y)] + line_walk(nx, ny, x1, y1, nerr, dx, dy, sx, sy)
        } else {
            seq![(x, y)]
        }
    }
}

/// The points, in order, of the Bresenham line from (`x0`, `y0`) to
/// (`x1`, `y1`), both ends included.
pub open spec fn line_points(x0: int, y0: int, x1: int, y1: int) -> Seq<(int, int)> {
    let dx = iabs(x1 - x0);
    let dy = -iabs(y1 - y0);
    let sx = if x0 < x1 { 1int } else { -1int };
    let sy = if y0 < y1 { 1int } else { -1int };
    line_walk(x0, y0, x1, y1, dx + dy, dx, dy, sx, sy)
}

/// The set of points of the Bresenham line.
pub open spec fn line_region(x0: int, y0: int, x1: int, y1: int) -> Set<(int, int)> {
    Set::new(|p: (int, int)| line_points(x0, y0, x1, y1).contains(p))
}

/// The relation that a Bresenham walk keeps between its position and its
/// error term; with it, each step moves toward the end and never past it.
pub open spec fn walk_ok(x: int, y: int, x1: int, y1: int, err: int, dx: int, dy: int, sx: int, sy: int) -> bool {
    let a = sx * (x1 - x);
    let b = sy * (y1 - y);
    &&& dx >= 0
    &&& dy <= 0
    &&& (sx == 1 || sx == -1)
    &&& (sy == 1 || sy == -1)
    &&& 0 <= a <= dx
    &&& 0 <= b <= -dy
    &&& err == dx * (1 - b) + (-dy) * (a - 1)
    &&& 2 * dy <= err <= 2 * dx
}

/// One step of a walk that is not at its end keeps `walk_ok` and gets
/// closer to the end.
proof fn lemma_walk_step(x: int, y: int, x1: int, y1: int, err: int, dx: int, dy: int, sx: int, sy: int)
    requires
        walk_ok(x, y, x1, y1, err, dx, dy, sx, sy),
        !(x == x1 && y == y1),
    ensures
        ({
            let e2 = 2 * err;
            let nx = if e2 >= dy { x + sx } else { x };
            let ny = if e2 <= dx { y + sy } else { y };
            let nerr = err + (if e2 >= dy { dy } else { 0 }) + (if e2 <= dx { dx } else { 0 });
            &&& walk_ok(nx, ny, x1, y1, nerr, dx, dy, sx, sy)
            &&& iabs(x1 - nx) + iabs(y1 - ny) < iabs(x1 - x) + iabs(y1 - y)
        }),
{
    let a = sx * (x1 - x);
    let b = sy * (y1 - y);
    let h = -dy;
    assert(iabs(x1 - x) == a) by (nonlinear_arith)
        requires
            sx == 1 || sx == -1,
            a == sx * (x1 - x),
            0 <= a,
    ;
    assert(iabs(y1 - y) == b) by (nonlinear_arith)
        requires
            sy == 1 || sy == -1,
            b == sy * (y1 - y),
            0 <= b,
    ;
    let e2 = 2 * err;
    let step_x = e2 >= dy;
    let step_y = e2 <= dx;
    if a == 0 {
        assert(b >= 1);
        assert(dx * (1 - b) <= 0) by (nonlinear_arith)
            requires
                dx >= 0,
                b >= 1,
        ;
        assert(h * (a - 1) == -h) by (nonlinear_arith)
            requires
                a == 0,
        ;
        assert(!step_x);
        assert(step_y);
    } else if b == 0 {
        assert(dx * (1 - b) == dx) by (nonlinear_arith)
            requires
                b == 0,
        ;
        assert(h * (a - 1) >= 0) by (nonlinear_arith)
            requires
                h >= 0,
                a >= 1,
        ;
        assert(!step_y);
        assert(step_x);
    } else {
        assert(step_x || step_y);
    }
    let na = if step_x { a - 1 } else { a };
    let nb = if step_y { b - 1 } else { b };
    assert(h * (na - 1) == h * (a - 1) - (if step_x { h } else { 0 })) by (nonlinear_arith)
        requires
            na == (if step_x { a - 1 } else { a }),
    ;
    assert(dx * (1 - nb) == dx * (1 - b) + (if step_y { dx } else { 0 })) by (nonlinear_arith)
        requires
            nb == (if step_y { b - 1 } else { b }),
    ;
    let nx = if step_x { x + sx } else { x };
    let ny = if step_y { y + sy } else { y };
    assert(sx * (x1 - nx) == na) by (nonlinear_arith)
        requires
            sx == 1 || sx == -1,
            a == sx * (x1 - x),
            nx == (if step_x { x + sx } else { x }),
            na == (if step_x { a - 1 } else { a }),
    ;
    assert(sy * (y1 - ny) == nb) by (nonlinear_arith)
        requires
            sy == 1 || sy == -1,
            b == sy * (y1 - y),
            ny == (if step_y { y + sy } else { y }),
            nb == (if step_y { b - 1 } else { b }),
    ;
    assert(iabs(x1 - nx) == na);
    assert(iabs(y1 - ny) == nb);
}

/// The walk that a line starts with keeps `walk_ok`.
proof fn lemma_walk_start(x0: int, y0: int, x1: int, y1: int)
    ensures
        walk_ok(
            x0,
            y0,
            x1,
            y1,
            iabs(x1 - x0) - iabs(y1 - y0),
            iabs(x1 - x0),
            -iabs(y1 - y0),
            if x0 < x1 { 1int } else { -1int },
            if y0 < y1 { 1int } else { -1int },
        ),
{
    let dx = iabs(x1 - x0);
    let h = iabs(y1 - y0);
    let sx = if x0 < x1 { 1int } else { -1int };
    let sy = if y0 < y1 { 1int } else { -1int };
    assert(sx * (x1 - x0) == dx) by (nonlinear_arith)
        requires
            sx == (if x0 < x1 { 1int } else { -1int }),
            dx == iabs(x1 - x0),
    ;
    assert(sy * (y1 - y0) == h) by (nonlinear_arith)
        requires
            sy == (if y0 < y1 { 1int } else { -1int }),
            h == iabs(y1 - y0),
    ;
    assert(dx * (1 - h) + h * (dx - 1) == dx - h) by (nonlinear_arith);
}

impl IndexedFrame {
    /// Draws the Bresenham line from (`x0`, `y0`) to (`x1`, `y1`) in `color`.
    ///
    /// The spans of the line must stay below 2^29 so that its error term
    /// fits in 32 bits.
    pub fn line(&mut self, x0: i32, y0: i32, x1: i32, y1: i32, color: u8)
        requires
            frame_wf(old(self)@),
            -0x1fff_ffff <= x1 - x0 <= 0x1fff_ffff,
            -0x1fff_ffff <= y1 - y0 <= 0x1fff_ffff,
        ensures
            final(self)@ == paint(old(self)@, line_region(x0 as int, y0 as int, x1 as int, y1 as int), color),
            frame_wf(final(self)@),
    {
        let ghost f0 = self@;
        let dx: i32 = if x1 >= x0 { x1 - x0 } else { x0 - x1 };
        let sx: i32 = if x0 < x1 { 1 } else { -1 };
        let dy: i32 = if y1 >= y0 { y0 - y1 } else { y1 - y0 };
        let sy: i32 = if y0 < y1 { 1 } else { -1 };
        let mut err: i32 = dx + dy;
        let mut x = x0;
        let mut y = y0;
        let ghost mut walked: Seq<(int, int)> = Seq::empty();
        proof {
            lemma_walk_start(x0 as int, y0 as int, x1 as int, y1 as int);
            lemma_paint_empty(f0, color);
            lemma_paint_same_region(f0, Set::empty(), Set::new(|p: (int, int)| walked.contains(p)), color);
            assert(line_points(x0 as int, y0 as int, x1 as int, y1 as int) =~= walked + line_walk(
                x as int, y as int, x1 as int, y1 as int, err as int, dx as int, dy as int, sx as int, sy as int));
        }
        loop
            invariant_except_break
                line_points(x0 as int, y0 as int, x1 as int, y1 as int) == walked + line_walk(
                    x as int, y as int, x1 as int, y1 as int, err as int, dx as int, dy as int, sx as int, sy as int),
            invariant
                frame_wf(f0),
                frame_wf(self@),
                -0x1fff_ffff <= dx <= 0x1fff_ffff,
                -0x1fff_ffff <= dy <= 0x1fff_ffff,
                walk_ok(x as int, y as int, x1 as int, y1 as int, err as int, dx as int, dy as int, sx as int, sy as int),
                self@ == paint(f0, Set::new(|p: (int, int)| walked.contains(p)), color),
            ensures
                self@ == paint(f0, line_region(x0 as int, y0 as int, x1 as int, y1 as int), color),
                frame_wf(self@),
            decreases iabs(x1 - x) + iabs(y1 - y),
        {
            let ghost region = Set::new(|p: (int, int)| walked.contains(p));
            proof {
                lemma_paint_insert(f0, region, x as int, y as int, color);
            }
            self.set_pixel(x, y, color);
            let ghost old_walked = walked;
            proof {
                walked = walked.push((x as int, y as int));
                assert forall|p: (int, int)| #[trigger] walked.contains(p) <==> region.insert((x as int, y as int)).contains(p) by {
                    if walked.contains(p) {
                        let k = choose|k: int| 0 <= k < walked.len() && walked[k] == p;
                        if k < old_walked.len() {
                            assert(old_walked[k] == p);
                        }
                    }
                    if old_walked.contains(p) {
                        let k = choose|k: int| 0 <= k < old_walked.len() && old_walked[k] == p;
                        assert(walked[k] == p);
                    }
                    if p == (x as int, y as int) {
                        assert(walked[old_walked.len() as int] == p);
                    }
                }
                lemma_paint_same_region(f0, region.insert((x as int, y as int)), Set::new(|p: (int, int)| walked.contains(p)), color);
            }
            if x == x1 && y == y1 {
                proof {
                    assert(walked =~= line_points(x0 as int, y0 as int, x1 as int, y1 as int));
                    lemma_paint_same_region(f0, Set::new(|p: (int, int)| walked.contains(p)), line_region(x0 as int, y0 as int, x1 as int, y1 as int), color);
                }
                break;
            }
            proof {
                lemma_walk_step(x as int, y as int, x1 as int, y1 as int, err as int, dx as int, dy as int, sx as int, sy as int);
            }
            let ghost before = line_walk(x as int, y as int, x1 as int, y1 as int, err as int, dx as int, dy as int, sx as int, sy as int);
            let ghost here = (x as int, y as int);
            let e2 = 2 * err;
            if e2 >= dy {
                err = err + dy;
                x = x + sx;
            }
            if e2 <= dx {
                err = err + dx;
                y = y + sy;
            }
            proof {
                assert(before == seq![here] + line_walk(
                    x as int, y as int, x1 as int, y1 as int, err as int, dx as int, dy as int, sx as int, sy as int));
                assert(walked == old_walked.push(here));
                assert(line_points(x0 as int, y0 as int, x1 as int, y1 as int) =~= walked + line_walk(
                    x as int, y as int, x1 as int, y1 as int, err as int, dx as int, dy as int, sx as int, sy as int));
            }
        }
    }
}


// ---------------------------------------------------------------------------
// Laws of lines

/// `v` lies between `a` and `b`, both included, in either order.
pub open spec fn between(v: int, a: int, b: int) -> bool {
    (a <= v <= b) || (b <= v <= a)
}

proof fn lemma_walk_ends(x: int, y: int, x1: int, y1: int, err: int, dx: int, dy: int, sx: int, sy: int)
    requires
        walk_ok(x, y, x1, y1, err, dx, dy, sx, sy),
    ensures
        line_walk(x, y, x1, y1, err, dx, dy, sx, sy).len() > 0,
        line_walk(x, y, x1, y1, err, dx, dy, sx, sy)[0] == (x, y),
        line_walk(x, y, x1, y1, err, dx, dy, sx, sy).contains((x1, y1)),
    decreases iabs(x1 - x) + iabs(y1 - y),
{
    let w = line_walk(x, y, x1, y1, err, dx, dy, sx, sy);
    if x == x1 && y == y1 {
        assert(w[0] == (x1, y1));
    } else {
        lemma_walk_step(x, y, x1, y1, err, dx, dy, sx, sy);
        let e2 = 2 * err;
        let nx = if e2 >= dy { x + sx } else { x };
        let ny = if e2 <= dx { y + sy } else { y };
        let nerr = err + (if e2 >= dy { dy } else { 0 }) + (if e2 <= dx { dx } else { 0 });
        lemma_walk_ends(nx, ny, x1, y1, nerr, dx, dy, sx, sy);
        let rest = line_walk(nx, ny, x1, y1, nerr, dx, dy, sx, sy);
        assert(w == seq![(x, y)] + rest);
        let k = choose|k: int| 0 <= k < rest.len() && rest[k] == (x1, y1);
        assert(w[k + 1] == (x1, y1));
    }
}

/// A line starts at its first end point and passes through its second.
pub proof fn lemma_line_ends(x0: int, y0: int, x1: int, y1: int)
    ensures
        line_points(x0, y0, x1, y1)[0] == (x0, y0),
        line_region(x0, y0, x1, y1).contains((x0, y0)),
        line_region(x0, y0, x1, y1).contains((x1, y1)),
{
    lemma_walk_start(x0, y0, x1, y1);
    let dx = iabs(x1 - x0);
    let dy = -iabs(y1 - y0);
    let sx = if x0 < x1 { 1int } else { -1int };
    let sy = if y0 < y1 { 1int } else { -1int };
    lemma_walk_ends(x0, y0, x1, y1, dx + dy, dx, dy, sx, sy);
    assert(line_points(x0, y0, x1, y1).contains((x0, y0))) by {
        assert(line_points(x0, y0, x1, y1)[0] == (x0, y0));
    }
}

proof fn lemma_flat_walk(x: int, y: int, x1: int, err: int, dx: int, sx: int, sy: int)
    requires
        walk_ok(x, y, x1, y, err, dx, 0, sx, sy),
    ensures
        seq_set(line_walk(x, y, x1, y, err, dx, 0, sx, sy)) == Set::new(|p: (int, int)| p.1 == y && between(p.0, x, x1)),
    decreases iabs(x1 - x),
{
    let w = line_walk(x, y, x1, y, err, dx, 0, sx, sy);
    let target = Set::new(|p: (int, int)| p.1 == y && between(p.0, x, x1));
    if x == x1 {
        assert forall|p: (int, int)| #[trigger] seq_set(w).contains(p) <==> target.contains(p) by {
            if w.contains(p) {
                let k = choose|k: int| 0 <= k < w.len() && w[k] == p;
            }
            if target.contains(p) {
                assert(w[0] == p);
            }
        }
        assert(seq_set(w) =~= target);
    } else {
        lemma_walk_step(x, y, x1, y, err, dx, 0, sx, sy);
        let nx = x + sx;
        let a = sx * (x1 - x);
        assert(err == dx) by (nonlinear_arith)
            requires
                err == dx * (1 - sy * (y - y)) + (-0) * (a - 1),
        ;
        assert(a >= 1);
        assert(2 * err <= dx ==> false);
        lemma_flat_walk(nx, y, x1, err, dx, sx, sy);
        let rest = line_walk(nx, y, x1, y, err, dx, 0, sx, sy);
        assert(w == seq![(x, y)] + rest);
        lemma_seq_set_concat(seq![(x, y)], rest);
        assert forall|p: (int, int)| #[trigger] seq_set(w).contains(p) <==> target.contains(p) by {
            if p == (x, y) {
                assert(seq![(x, y)][0] == p);
            }
            if seq![(x, y)].contains(p) {
                let k = choose|k: int| 0 <= k < 1 && seq![(x, y)][k] == p;
            }
        }
        assert(seq_set(w) =~= target);
    }
}

/// A horizontal line covers exactly the pixels of its row between its two
/// ends.
pub proof fn lemma_horizontal_line(x0: int, x1: int, y: int)
    ensures
        line_region(x0, y, x1, y) == Set::new(|p: (int, int)| p.1 == y && between(p.0, x0, x1)),
{
    lemma_walk_start(x0, y, x1, y);
    let dx = iabs(x1 - x0);
    let sx = if x0 < x1 { 1int } else { -1int };
    let sy = -1int;
    lemma_flat_walk(x0, y, x1, dx, dx, sx, sy);
    assert(line_region(x0, y, x1, y) =~= seq_set(line_points(x0, y, x1, y)));
}

proof fn lemma_column_walk(x: int, y: int, y1: int, err: int, dy: int, sx: int, sy: int)
    requires
        walk_ok(x, y, x, y1, err, 0, dy, sx, sy),
    ensures
        seq_set(line_walk(x, y, x, y1, err, 0, dy, sx, sy)) == Set::new(|p: (int, int)| p.0 == x && between(p.1, y, y1)),
    decreases iabs(y1 - y),
{
    let w = line_walk(x, y, x, y1, err, 0, dy, sx, sy);
    let target = Set::new(|p: (int, int)| p.0 == x && between(p.1, y, y1));
    if y == y1 {
        assert forall|p: (int, int)| #[trigger] seq_set(w).contains(p) <==> target.contains(p) by {
            if w.contains(p) {
                let k = choose|k: int| 0 <= k < w.len() && w[k] == p;
            }
            if target.contains(p) {
                assert(w[0] == p);
            }
        }
        assert(seq_set(w) =~= target);
    } else {
        lemma_walk_step(x, y, x, y1, err, 0, dy, sx, sy);
        let ny = y + sy;
        let b = sy * (y1 - y);
        assert(err == dy) by (nonlinear_arith)
            requires
                err == 0 * (1 - b) + (-dy) * (sx * (x - x) - 1),
        ;
        assert(b >= 1);
        assert(2 * err >= dy ==> false);
        lemma_column_walk(x, ny, y1, err, dy, sx, sy);
        let rest = line_walk(x, ny, x, y1, err, 0, dy, sx, sy);
        assert(w == seq![(x, y)] + rest);
        lemma_seq_set_concat(seq![(x, y)], rest);
        assert forall|p: (int, int)| #[trigger] seq_set(w).contains(p) <==> target.contains(p) by {
            if p == (x, y) {
                assert(seq![(x, y)][0] == p);
            }
            if seq![(x, y)].contains(p) {
                let k = choose|k: int| 0 <= k < 1 && seq![(x, y)][k] == p;
            }
        }
        assert(seq_set(w) =~= target);
    }
}

/// A vertical line covers exactly the pixels of its column between its two
/// ends.
pub proof fn lemma_vertical_line(x: int, y0: int, y1: int)
    ensures
        line_region(x, y0, x, y1) == Set::new(|p: (int, int)| p.0 == x && between(p.1, y0, y1)),
{
    lemma_walk_start(x, y0, x, y1);
    let dy = -iabs(y1 - y0);
    let sx = -1int;
    let sy = if y0 < y1 { 1int } else { -1int };
    lemma_column_walk(x, y0, y1, dy, dy, sx, sy);
    assert(line_region(x, y0, x, y1) =~= seq_set(line_points(x, y0, x, y1)));
}

}

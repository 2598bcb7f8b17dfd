//! Explosion outlines and the wind arrow, drawn into an `IndexedFrame` at
//! whole-pixel positions.

use vstd::prelude::*;
use crate::effect_masks::{
    lemma_building_blast_radius_10_mask_width, lemma_building_blast_radius_4_mask_width,
    lemma_building_blast_radius_6_mask_width, lemma_gorilla_blast_radius_12_mask_width,
    lemma_gorilla_blast_radius_4_mask_width, lemma_gorilla_blast_radius_8_mask_width,
    BUILDING_BLAST_RADIUS_10_MASK, BUILDING_BLAST_RADIUS_4_MASK, BUILDING_BLAST_RADIUS_6_MASK,
    GORILLA_BLAST_RADIUS_12_MASK, GORILLA_BLAST_RADIUS_4_MASK, GORILLA_BLAST_RADIUS_8_MASK,
};
use crate::frame::{
    frame_wf, lemma_paint_empty, lemma_paint_insert, lemma_paint_same_region, lemma_paint_union,
    between, lemma_horizontal_line, lemma_line_ends, lemma_seq_set_concat, line_region, paint, seq_set, FrameView,
    IndexedFrame,
};
use crate::render_ref::{COLOR_BG, COLOR_EXPLOSION};

verus! {

// ---------------------------------------------------------------------------
// Masks

/// The mask, placed with its top-left corner at (`x0`, `y0`), marks point `p`.
pub open spec fn mask_covers(rows: Seq<&str>, x0: int, y0: int, p: (int, int)) -> bool {
    let r = p.1 - y0;
    let c = p.0 - x0;
    0 <= r < rows.len() && 0 <= c < rows[r]@.len() && rows[r]@[c] == 'X'
}

/// The points that a mask marks.
pub open spec fn mask_region(rows: Seq<&str>, x0: int, y0: int) -> Set<(int, int)> {
    Set::new(|p: (int, int)| mask_covers(rows, x0, y0, p))
}

/// The points that a mask marks in its rows before `rows_done`, and in that
/// row before column `cols_done`.
pub open spec fn mask_part(rows: Seq<&str>, x0: int, y0: int, rows_done: int, cols_done: int) -> Set<(int, int)> {
    Set::new(
        |p: (int, int)|
            mask_covers(rows, x0, y0, p) && (p.1 - y0 < rows_done || (p.1 - y0 == rows_done && p.0 - x0 < cols_done)),
    )
}

/// The mask fits, at (`x0`, `y0`), in 32-bit pixel coordinates.
pub open spec fn mask_fits(rows: Seq<&str>, x0: int, y0: int) -> bool {
    &&& rows.len() <= i32::MAX
    &&& y0 + rows.len() <= i32::MAX + 1
    &&& forall|i: int| 0 <= i < rows.len() ==> (#[trigger] rows[i])@.len() <= i32::MAX && x0 + rows[i]@.len() <= i32::MAX + 1
}

/// Paints, in `color`, the pixels that the `X` characters of the mask mark,
/// with the mask's top-left corner at (`x0`, `y0`).
pub fn draw_effect_mask(frame: &mut IndexedFrame, x0: i32, y0: i32, rows: &[&str], color: u8)
    requires
        frame_wf(old(frame)@),
        mask_fits(rows@, x0 as int, y0 as int),
    ensures
        final(frame)@ == paint(old(frame)@, mask_region(rows@, x0 as int, y0 as int), color),
        frame_wf(final(frame)@),
{
    let ghost f0 = frame@;
    proof {
        lemma_paint_empty(f0, color);
        lemma_paint_same_region(f0, Set::empty(), mask_part(rows@, x0 as int, y0 as int, 0, 0), color);
    }
    let mut r: usize = 0;
    while r < rows.len()
        invariant
            frame_wf(f0),
            frame_wf(frame@),
            mask_fits(rows@, x0 as int, y0 as int),
            r <= rows@.len(),
            frame@ == paint(f0, mask_part(rows@, x0 as int, y0 as int, r as int, 0), color),
        decreases rows@.len() - r,
    {
        let row = rows[r];
        let n = row.unicode_len();
        let mut c: usize = 0;
        while c < n
            invariant
                frame_wf(f0),
                frame_wf(frame@),
                mask_fits(rows@, x0 as int, y0 as int),
                r < rows@.len(),
                row == rows@[r as int],
                n == row@.len(),
                c <= n,
                frame@ == paint(f0, mask_part(rows@, x0 as int, y0 as int, r as int, c as int), color),
            decreases n - c,
        {
            let ghost before = mask_part(rows@, x0 as int, y0 as int, r as int, c as int);
            let ghost after = mask_part(rows@, x0 as int, y0 as int, r as int, c + 1);
            let ghost here = (x0 + c, y0 + r);
            if row.get_char(c) == 'X' {
                proof {
                    lemma_paint_insert(f0, before, here.0, here.1, color);
                    lemma_paint_same_region(f0, before.insert(here), after, color);
                }
                frame.set_pixel(x0 + c as i32, y0 + r as i32, color);
            } else {
                proof {
                    lemma_paint_same_region(f0, before, after, color);
                }
            }
            c = c + 1;
        }
        proof {
            lemma_paint_same_region(
                f0,
                mask_part(rows@, x0 as int, y0 as int, r as int, n as int),
                mask_part(rows@, x0 as int, y0 as int, r + 1, 0),
                color,
            );
        }
        r = r + 1;
    }
    proof {
        lemma_paint_same_region(
            f0,
            mask_part(rows@, x0 as int, y0 as int, rows@.len() as int, 0),
            mask_region(rows@, x0 as int, y0 as int),
            color,
        );
    }
}

// ---------------------------------------------------------------------------
// Rings

/// The eight points symmetric to offset (`dx`, `dy`) around (`cx`, `cy`),
/// in drawing order.
pub open spec fn octant_points(cx: int, cy: int, dx: int, dy: int) -> Seq<(int, int)> {
    seq![
        (cx + dx, cy + dy),
        (cx + dy, cy + dx),
        (cx - dy, cy + dx),
        (cx - dx, cy + dy),
        (cx - dx, cy - dy),
        (cx - dy, cy - dx),
        (cx + dy, cy - dx),
        (cx + dx, cy - dy),
    ]
}

/// The points that the midpoint circle walk plots from offset (`dx`, `dy`)
/// with decision term `err` until `dy` passes `dx`.
pub open spec fn ring_walk(cx: int, cy: int, dx: int, dy: int, err: int) -> Seq<(int, int)>
    decreases dx - dy + 2,
{
    if dx < dy || dy < 0 {
        Seq::empty()
    } else {
        let ndy = dy + 1;
        let ndx = if err < 0 { dx } else { dx - 1 };
        let nerr = if err < 0 { err + 2 * ndy + 1 } else { err + 2 * (ndy - ndx) + 1 };
        octant_points(cx, cy, dx, dy) + ring_walk(cx, cy, ndx, ndy, nerr)
    }
}

/// The points of the explosion ring of `radius` around (`cx`, `cy`); none
/// when the radius is not positive.
pub open spec fn ring_points(cx: int, cy: int, radius: int) -> Seq<(int, int)> {
    if radius <= 0 {
        Seq::empty()
    } else {
        ring_walk(cx, cy, radius, 0, 1 - radius)
    }
}

/// The set of points of the explosion ring.
pub open spec fn ring_region(cx: int, cy: int, radius: int) -> Set<(int, int)> {
    seq_set(ring_points(cx, cy, radius))
}

proof fn lemma_octant_symmetric(cx: int, cy: int, dx: int, dy: int, a: int, b: int)
    requires
        octant_points(cx, cy, dx, dy).contains((cx + a, cy + b)),
    ensures
        octant_points(cx, cy, dx, dy).contains((cx + b, cy + a)),
        octant_points(cx, cy, dx, dy).contains((cx - a, cy + b)),
        octant_points(cx, cy, dx, dy).contains((cx + a, cy - b)),
{
    let o = octant_points(cx, cy, dx, dy);
    let i = choose|i: int| 0 <= i < o.len() && o[i] == (cx + a, cy + b);
    assert(o[0] == (cx + dx, cy + dy));
    assert(o[1] == (cx + dy, cy + dx));
    assert(o[2] == (cx - dy, cy + dx));
    assert(o[3] == (cx - dx, cy + dy));
    assert(o[4] == (cx - dx, cy - dy));
    assert(o[5] == (cx - dy, cy - dx));
    assert(o[6] == (cx + dy, cy - dx));
    assert(o[7] == (cx + dx, cy - dy));
}

proof fn lemma_ring_walk_symmetric(cx: int, cy: int, dx: int, dy: int, err: int, a: int, b: int)
    requires
        ring_walk(cx, cy, dx, dy, err).contains((cx + a, cy + b)),
    ensures
        ring_walk(cx, cy, dx, dy, err).contains((cx + b, cy + a)),
        ring_walk(cx, cy, dx, dy, err).contains((cx - a, cy + b)),
        ring_walk(cx, cy, dx, dy, err).contains((cx + a, cy - b)),
    decreases dx - dy + 2,
{
    if !(dx < dy || dy < 0) {
        let ndy = dy + 1;
        let ndx = if err < 0 {
            dx
        } else {
            dx - 1
        };
        let nerr = if err < 0 {
            err + 2 * ndy + 1
        } else {
            err + 2 * (ndy - ndx) + 1
        };
        let o = octant_points(cx, cy, dx, dy);
        let rest = ring_walk(cx, cy, ndx, ndy, nerr);
        assert(ring_walk(cx, cy, dx, dy, err) == o + rest);
        vstd::seq_lib::lemma_seq_concat_contains_all_elements(o, rest, (cx + a, cy + b));
        vstd::seq_lib::lemma_seq_concat_contains_all_elements(o, rest, (cx + b, cy + a));
        vstd::seq_lib::lemma_seq_concat_contains_all_elements(o, rest, (cx - a, cy + b));
        vstd::seq_lib::lemma_seq_concat_contains_all_elements(o, rest, (cx + a, cy - b));
        if o.contains((cx + a, cy + b)) {
            lemma_octant_symmetric(cx, cy, dx, dy, a, b);
        } else {
            lemma_ring_walk_symmetric(cx, cy, ndx, ndy, nerr, a, b);
        }
    }
}

/// The explosion ring: empty for a radius that is not positive; otherwise it
/// passes through the four points `radius` away from the centre straight
/// left, right, up and down, and it is symmetric about the centre's row, its
/// column and both diagonals.
pub proof fn lemma_ring_shape(cx: int, cy: int, radius: int, a: int, b: int)
    ensures
        radius <= 0 ==> ring_points(cx, cy, radius).len() == 0,
        radius >= 1 ==> ring_region(cx, cy, radius).contains((cx + radius, cy)) && ring_region(cx, cy, radius).contains(
            (cx - radius, cy),
        ) && ring_region(cx, cy, radius).contains((cx, cy + radius)) && ring_region(cx, cy, radius).contains(
            (cx, cy - radius),
        ),
        ring_region(cx, cy, radius).contains((cx + a, cy + b)) ==> ring_region(cx, cy, radius).contains((cx + b, cy + a))
            && ring_region(cx, cy, radius).contains((cx - a, cy + b)) && ring_region(cx, cy, radius).contains(
            (cx + a, cy - b),
        ),
{
    if radius >= 1 {
        let w = ring_points(cx, cy, radius);
        let o = octant_points(cx, cy, radius, 0);
        let ndx = if 1 - radius < 0 {
            radius
        } else {
            radius - 1
        };
        let nerr = if 1 - radius < 0 {
            1 - radius + 3
        } else {
            1 - radius + 2 * (1 - ndx) + 1
        };
        assert(w == o + ring_walk(cx, cy, ndx, 1, nerr));
        assert(w[0] == (cx + radius, cy));
        assert(w[1] == (cx, cy + radius));
        assert(w[3] == (cx - radius, cy));
        assert(w[5] == (cx, cy - radius));
        assert(w.contains((cx + radius, cy)));
        assert(w.contains((cx, cy + radius)));
        assert(w.contains((cx - radius, cy)));
        assert(w.contains((cx, cy - radius)));
        if w.contains((cx + a, cy + b)) {
            lemma_ring_walk_symmetric(cx, cy, radius, 0, 1 - radius, a, b);
        }
    }
}

/// The ring of `radius` around (`cx`, `cy`) stays inside 32-bit coordinates
/// and its decision term cannot overflow.
pub open spec fn ring_fits(cx: int, cy: int, radius: int) -> bool {
    radius <= 0 || (radius <= 0x07ff_ffff && i32::MIN <= cx - radius && cx + radius <= i32::MAX && i32::MIN <= cy
        - radius && cy + radius <= i32::MAX)
}

/// Paints the eight symmetric points of one step of the ring.
fn plot_octants(frame: &mut IndexedFrame, cx: i32, cy: i32, dx: i32, dy: i32, color: u8)
    requires
        frame_wf(old(frame)@),
        0 <= dy <= dx,
        i32::MIN <= cx - dx,
        cx + dx <= i32::MAX,
        i32::MIN <= cy - dx,
        cy + dx <= i32::MAX,
    ensures
        final(frame)@ == paint(old(frame)@, seq_set(octant_points(cx as int, cy as int, dx as int, dy as int)), color),
        frame_wf(final(frame)@),
{
    let ghost f0 = frame@;
    let ghost pts = octant_points(cx as int, cy as int, dx as int, dy as int);
    proof {
        lemma_paint_empty(f0, color);
        lemma_paint_insert(f0, Set::empty(), pts[0].0, pts[0].1, color);
        lemma_paint_insert(f0, Set::empty().insert(pts[0]), pts[1].0, pts[1].1, color);
        lemma_paint_insert(f0, Set::empty().insert(pts[0]).insert(pts[1]), pts[2].0, pts[2].1, color);
        lemma_paint_insert(f0, Set::empty().insert(pts[0]).insert(pts[1]).insert(pts[2]), pts[3].0, pts[3].1, color);
        lemma_paint_insert(
            f0,
            Set::empty().insert(pts[0]).insert(pts[1]).insert(pts[2]).insert(pts[3]),
            pts[4].0,
            pts[4].1,
            color,
        );
        lemma_paint_insert(
            f0,
            Set::empty().insert(pts[0]).insert(pts[1]).insert(pts[2]).insert(pts[3]).insert(pts[4]),
            pts[5].0,
            pts[5].1,
            color,
        );
        lemma_paint_insert(
            f0,
            Set::empty().insert(pts[0]).insert(pts[1]).insert(pts[2]).insert(pts[3]).insert(pts[4]).insert(pts[5]),
            pts[6].0,
            pts[6].1,
            color,
        );
        lemma_paint_insert(
            f0,
            Set::empty().insert(pts[0]).insert(pts[1]).insert(pts[2]).insert(pts[3]).insert(pts[4]).insert(
                pts[5],
            ).insert(pts[6]),
            pts[7].0,
            pts[7].1,
            color,
        );
    }
    frame.set_pixel(cx + dx, cy + dy, color);
    frame.set_pixel(cx + dy, cy + dx, color);
    frame.set_pixel(cx - dy, cy + dx, color);
    frame.set_pixel(cx - dx, cy + dy, color);
    frame.set_pixel(cx - dx, cy - dy, color);
    frame.set_pixel(cx - dy, cy - dx, color);
    frame.set_pixel(cx + dy, cy - dx, color);
    frame.set_pixel(cx + dx, cy - dy, color);
    proof {
        let all = Set::empty().insert(pts[0]).insert(pts[1]).insert(pts[2]).insert(pts[3]).insert(pts[4]).insert(
            pts[5],
        ).insert(pts[6]).insert(pts[7]);
        assert forall|p: (int, int)| #[trigger] all.contains(p) <==> seq_set(pts).contains(p) by {
            if pts.contains(p) {
                let k = choose|k: int| 0 <= k < pts.len() && pts[k] == p;
                assert(0 <= k < 8);
            }
            if all.contains(p) {
                if p == pts[0] {
                    assert(pts[0] == p);
                } else if p == pts[1] {
                    assert(pts[1] == p);
                } else if p == pts[2] {
                    assert(pts[2] == p);
                } else if p == pts[3] {
                    assert(pts[3] == p);
                } else if p == pts[4] {
                    assert(pts[4] == p);
                } else if p == pts[5] {
                    assert(pts[5] == p);
                } else if p == pts[6] {
                    assert(pts[6] == p);
                } else {
                    assert(pts[7] == p);
                }
            }
        }
        lemma_paint_same_region(f0, all, seq_set(pts), color);
    }
}

/// Draws the midpoint-circle ring of `radius` around (`cx`, `cy`).
pub fn draw_explosion_ring(frame: &mut IndexedFrame, cx: i32, cy: i32, radius: i32, color: u8)
    requires
        frame_wf(old(frame)@),
        ring_fits(cx as int, cy as int, radius as int),
    ensures
        final(frame)@ == paint(old(frame)@, ring_region(cx as int, cy as int, radius as int), color),
        frame_wf(final(frame)@),
{
    let ghost f0 = frame@;
    proof {
        lemma_paint_empty(f0, color);
    }
    let mut dx = radius;
    if dx <= 0 {
        proof {
            lemma_paint_same_region(f0, Set::empty(), ring_region(cx as int, cy as int, radius as int), color);
        }
        return;
    }
    let mut dy: i32 = 0;
    let mut err: i32 = 1 - dx;
    let ghost mut walked: Seq<(int, int)> = Seq::empty();
    proof {
        lemma_paint_same_region(f0, Set::empty(), seq_set(walked), color);
        assert(ring_points(cx as int, cy as int, radius as int) =~= walked + ring_walk(
            cx as int, cy as int, dx as int, dy as int, err as int));
    }
    while dx >= dy
        invariant
            frame_wf(f0),
            frame_wf(frame@),
            ring_fits(cx as int, cy as int, radius as int),
            0 < radius <= 0x07ff_ffff,
            0 <= dy <= radius + 1,
            dy - 2 <= dx <= radius,
            -2 * radius <= err <= 2 * radius + 3 + 5 * dy,
            ring_points(cx as int, cy as int, radius as int) == walked + ring_walk(
                cx as int, cy as int, dx as int, dy as int, err as int),
            frame@ == paint(f0, seq_set(walked), color),
        decreases dx - dy + 2,
    {
        let ghost step_pts = octant_points(cx as int, cy as int, dx as int, dy as int);
        let ghost before = ring_walk(cx as int, cy as int, dx as int, dy as int, err as int);
        plot_octants(frame, cx, cy, dx, dy, color);
        proof {
            lemma_paint_union(f0, seq_set(walked), seq_set(step_pts), color);
            lemma_seq_set_concat(walked, step_pts);
            walked = walked + step_pts;
        }
        dy = dy + 1;
        if err < 0 {
            err = err + 2 * dy + 1;
        } else {
            dx = dx - 1;
            err = err + 2 * (dy - dx) + 1;
        }
        proof {
            assert(before == step_pts + ring_walk(cx as int, cy as int, dx as int, dy as int, err as int));
            assert(ring_points(cx as int, cy as int, radius as int) =~= walked + ring_walk(
                cx as int, cy as int, dx as int, dy as int, err as int));
        }
    }
    proof {
        assert(ring_walk(cx as int, cy as int, dx as int, dy as int, err as int) =~= Seq::<(int, int)>::empty());
        assert(walked =~= ring_points(cx as int, cy as int, radius as int));
    }
}


// ---------------------------------------------------------------------------
// Explosions

/// The pixels of a building explosion of whole-pixel `radius` around
/// (`x`, `y`): the traced outline for radii 4, 6 and 10, the midpoint ring
/// otherwise.
pub open spec fn building_explosion_region(x: int, y: int, radius: int) -> Set<(int, int)> {
    if radius == 4 {
        mask_region(BUILDING_BLAST_RADIUS_4_MASK@, x - 20, y - 20)
    } else if radius == 6 {
        mask_region(BUILDING_BLAST_RADIUS_6_MASK@, x - 6, y - 4)
    } else if radius == 10 {
        mask_region(BUILDING_BLAST_RADIUS_10_MASK@, x - 20, y - 20)
    } else {
        ring_region(x, y, radius)
    }
}

/// The building explosion stays inside 32-bit coordinates.
pub open spec fn building_explosion_fits(x: int, y: int, radius: int) -> bool {
    if radius == 4 || radius == 10 {
        i32::MIN + 20 <= x && x + 20 <= i32::MAX && i32::MIN + 20 <= y && y + 20 <= i32::MAX
    } else if radius == 6 {
        i32::MIN + 6 <= x && x + 6 <= i32::MAX && i32::MIN + 4 <= y && y + 4 <= i32::MAX
    } else {
        ring_fits(x, y, radius)
    }
}

/// The colour of a building explosion: background when it is erased.
pub open spec fn building_explosion_color(erase: bool) -> u8 {
    if erase {
        COLOR_BG
    } else {
        COLOR_EXPLOSION
    }
}

/// Draws, or erases, a building explosion of whole-pixel `radius` around
/// (`x`, `y`).
pub fn draw_building_explosion(frame: &mut IndexedFrame, x: i32, y: i32, radius: i32, erase: bool)
    requires
        frame_wf(old(frame)@),
        building_explosion_fits(x as int, y as int, radius as int),
    ensures
        final(frame)@ == paint(
            old(frame)@,
            building_explosion_region(x as int, y as int, radius as int),
            building_explosion_color(erase),
        ),
        frame_wf(final(frame)@),
{
    let color = if erase {
        COLOR_BG
    } else {
        COLOR_EXPLOSION
    };
    if radius == 4 {
        proof {
            lemma_building_blast_radius_4_mask_width();
        }
        draw_effect_mask(frame, x - 20, y - 20, &BUILDING_BLAST_RADIUS_4_MASK, color);
    } else if radius == 6 {
        proof {
            lemma_building_blast_radius_6_mask_width();
        }
        draw_effect_mask(frame, x - 6, y - 4, &BUILDING_BLAST_RADIUS_6_MASK, color);
    } else if radius == 10 {
        proof {
            lemma_building_blast_radius_10_mask_width();
        }
        draw_effect_mask(frame, x - 20, y - 20, &BUILDING_BLAST_RADIUS_10_MASK, color);
    } else {
        draw_explosion_ring(frame, x, y, radius, color);
    }
}

/// The pixels of a gorilla explosion of whole-pixel `radius`: a traced
/// burst placed from the left end and row of its line for radii 4, 8 and 12;
/// otherwise a ring around (`cx`, `cy`) and the line from (`lx0`, `ly`) to
/// (`lx1`, `ly`).
pub open spec fn gorilla_explosion_region(cx: int, cy: int, radius: int, lx0: int, lx1: int, ly: int) -> Set<
    (int, int),
> {
    let left = if lx0 <= lx1 { lx0 } else { lx1 };
    if radius == 4 {
        mask_region(GORILLA_BLAST_RADIUS_4_MASK@, left - 6, ly - 14)
    } else if radius == 8 {
        mask_region(GORILLA_BLAST_RADIUS_8_MASK@, left, ly)
    } else if radius == 12 {
        mask_region(GORILLA_BLAST_RADIUS_12_MASK@, left - 6, ly - 6)
    } else {
        ring_region(cx, cy, radius).union(line_region(lx0, ly, lx1, ly))
    }
}

/// The gorilla explosion stays inside 32-bit coordinates.
pub open spec fn gorilla_explosion_fits(cx: int, cy: int, radius: int, lx0: int, lx1: int, ly: int) -> bool {
    let left = if lx0 <= lx1 { lx0 } else { lx1 };
    if radius == 4 {
        i32::MIN + 6 <= left && left + 30 <= i32::MAX && i32::MIN + 14 <= ly && ly + 30 <= i32::MAX
    } else if radius == 8 {
        left + 21 <= i32::MAX + 1 && ly + 20 <= i32::MAX + 1
    } else if radius == 12 {
        i32::MIN + 6 <= left && left + 30 <= i32::MAX && i32::MIN + 6 <= ly && ly + 38 <= i32::MAX
    } else {
        ring_fits(cx, cy, radius) && -0x1fff_ffff <= lx1 - lx0 <= 0x1fff_ffff
    }
}

/// Draws a gorilla explosion of whole-pixel `radius`.
pub fn draw_gorilla_explosion(
    frame: &mut IndexedFrame,
    circle_x: i32,
    circle_y: i32,
    radius: i32,
    line_x0: i32,
    line_x1: i32,
    line_y: i32,
)
    requires
        frame_wf(old(frame)@),
        gorilla_explosion_fits(circle_x as int, circle_y as int, radius as int, line_x0 as int, line_x1 as int, line_y as int),
    ensures
        final(frame)@ == paint(
            old(frame)@,
            gorilla_explosion_region(circle_x as int, circle_y as int, radius as int, line_x0 as int, line_x1 as int, line_y as int),
            COLOR_EXPLOSION,
        ),
        frame_wf(final(frame)@),
{
    let line_min = if line_x0 <= line_x1 {
        line_x0
    } else {
        line_x1
    };
    if radius == 4 {
        proof {
            lemma_gorilla_blast_radius_4_mask_width();
        }
        draw_effect_mask(frame, line_min - 6, line_y - 14, &GORILLA_BLAST_RADIUS_4_MASK, COLOR_EXPLOSION);
    } else if radius == 8 {
        proof {
            lemma_gorilla_blast_radius_8_mask_width();
        }
        draw_effect_mask(frame, line_min, line_y, &GORILLA_BLAST_RADIUS_8_MASK, COLOR_EXPLOSION);
    } else if radius == 12 {
        proof {
            lemma_gorilla_blast_radius_12_mask_width();
        }
        draw_effect_mask(frame, line_min - 6, line_y - 6, &GORILLA_BLAST_RADIUS_12_MASK, COLOR_EXPLOSION);
    } else {
        let ghost f0 = frame@;
        draw_explosion_ring(frame, circle_x, circle_y, radius, COLOR_EXPLOSION);
        frame.line(line_x0, line_y, line_x1, line_y, COLOR_EXPLOSION);
        proof {
            lemma_paint_union(
                f0,
                ring_region(circle_x as int, circle_y as int, radius as int),
                line_region(line_x0 as int, line_y as int, line_x1 as int, line_y as int),
                COLOR_EXPLOSION,
            );
        }
    }
}

/// A building explosion paints exactly the cells marked `X` in the traced
/// outline of its radius, and nothing else: for radii 4 and 10 the outline's
/// top-left corner lies 20 pixels left of and 20 above the centre, for radius
/// 6 it lies 6 left and 4 above; any other radius paints the points of the
/// midpoint ring around the centre.
pub proof fn lemma_building_explosion_cells(x: int, y: int, radius: int, p: (int, int))
    ensures
        radius == 4 ==> (building_explosion_region(x, y, radius).contains(p) <==> mask_covers(
            BUILDING_BLAST_RADIUS_4_MASK@,
            x - 20,
            y - 20,
            p,
        )),
        radius == 6 ==> (building_explosion_region(x, y, radius).contains(p) <==> mask_covers(
            BUILDING_BLAST_RADIUS_6_MASK@,
            x - 6,
            y - 4,
            p,
        )),
        radius == 10 ==> (building_explosion_region(x, y, radius).contains(p) <==> mask_covers(
            BUILDING_BLAST_RADIUS_10_MASK@,
            x - 20,
            y - 20,
            p,
        )),
        radius != 4 && radius != 6 && radius != 10 ==> (building_explosion_region(x, y, radius).contains(p)
            <==> ring_points(x, y, radius).contains(p)),
{
}

/// A gorilla explosion paints exactly the cells marked `X` in the traced
/// burst of its radius, placed from the left end `left` of its line and the
/// line's row: 6 left of and 14 above that point for radius 4, at it for
/// radius 8, 6 left of and 6 above it for radius 12; any other radius paints
/// the midpoint ring and the line.
pub proof fn lemma_gorilla_explosion_cells(cx: int, cy: int, radius: int, lx0: int, lx1: int, ly: int, p: (int, int))
    ensures
        ({
            let left = if lx0 <= lx1 {
                lx0
            } else {
                lx1
            };
            let painted = gorilla_explosion_region(cx, cy, radius, lx0, lx1, ly).contains(p);
            &&& radius == 4 ==> (painted <==> mask_covers(GORILLA_BLAST_RADIUS_4_MASK@, left - 6, ly - 14, p))
            &&& radius == 8 ==> (painted <==> mask_covers(GORILLA_BLAST_RADIUS_8_MASK@, left, ly, p))
            &&& radius == 12 ==> (painted <==> mask_covers(GORILLA_BLAST_RADIUS_12_MASK@, left - 6, ly - 6, p))
            &&& radius != 4 && radius != 8 && radius != 12 ==> (painted <==> (ring_points(cx, cy, radius).contains(p)
                || line_region(lx0, ly, lx1, ly).contains(p)))
        }),
{
}

// ---------------------------------------------------------------------------
// Wind

/// Width of the playing screen in pixels.
pub const SCREEN_WIDTH: i32 = 640;
/// Height of the playing screen in pixels.
pub const SCREEN_HEIGHT: i32 = 350;

/// Where the shaft of the wind arrow ends: six pixels per unit of wind from
/// the middle of the screen.
pub open spec fn wind_arrow_end(wind: int) -> int {
    SCREEN_WIDTH / 2 + wind * 3 * (SCREEN_WIDTH / 320)
}

/// The pixels of the wind arrow: a shaft along row 345 from the middle of the
/// screen, and two strokes of two pixels that point the way the wind blows.
pub open spec fn wind_arrow_region(wind: int) -> Set<(int, int)> {
    let y = SCREEN_HEIGHT - 5;
    let end_x = wind_arrow_end(wind);
    let arrow = if wind > 0 { -2int } else { 2int };
    line_region(SCREEN_WIDTH / 2, y, end_x, y).union(line_region(end_x, y, end_x + arrow, y - 2)).union(
        line_region(end_x, y, end_x + arrow, y + 2),
    )
}

/// The wind arrow's shaft runs along row 345 from column 320, the middle of
/// the screen, six columns per unit of wind: east for a positive wind, west
/// for a negative one; it covers every column between its ends. Its two head
/// strokes start at the shaft's end and reach two columns back along the
/// shaft and two rows up and down, so the head points the way the wind blows.
pub proof fn lemma_wind_arrow_shape(wind: int)
    ensures
        ({
            let end = 320 + 6 * wind;
            let region = wind_arrow_region(wind);
            &&& forall|c: int| between(c, 320, end) ==> #[trigger] region.contains((c, 345))
            &&& wind > 0 ==> region.contains((end - 2, 343)) && region.contains((end - 2, 347))
            &&& wind <= 0 ==> region.contains((end + 2, 343)) && region.contains((end + 2, 347))
        }),
{
    let end = 320 + 6 * wind;
    let arrow = if wind > 0 { -2int } else { 2int };
    let shaft = line_region(320, 345, end, 345);
    let up = line_region(end, 345, end + arrow, 343);
    let down = line_region(end, 345, end + arrow, 347);
    assert(wind_arrow_end(wind) == end);
    assert(wind_arrow_region(wind) == shaft.union(up).union(down));
    lemma_horizontal_line(320, end, 345);
    lemma_line_ends(end, 345, end + arrow, 343);
    lemma_line_ends(end, 345, end + arrow, 347);
    assert forall|c: int| between(c, 320, end) implies #[trigger] wind_arrow_region(wind).contains((c, 345)) by {
        assert(line_region(320, 345, end, 345).contains((c, 345)));
    }
}

/// The strongest wind whose arrow is drawn: its shaft then ends within 2^24
/// pixels of the middle of the screen, the range in which the game's
/// single-precision screen coordinates hold every whole number exactly.
pub const MAX_DRAWN_WIND: i32 = 2_796_149;

/// Draws the wind arrow for a wind of `wind`.
///
/// The wind is bounded so that the arrow's end lies where single-precision
/// coordinates are whole numbers exactly; beyond that a coordinate could not
/// name the column the arrow ends in.
pub fn draw_wind_arrow(frame: &mut IndexedFrame, wind: i32)
    requires
        frame_wf(old(frame)@),
        -MAX_DRAWN_WIND <= wind <= MAX_DRAWN_WIND,
    ensures
        final(frame)@ == paint(old(frame)@, wind_arrow_region(wind as int), COLOR_EXPLOSION),
        frame_wf(final(frame)@),
{
    let ghost f0 = frame@;
    let start_x = SCREEN_WIDTH / 2;
    let y = SCREEN_HEIGHT - 5;
    let end_x = start_x + wind * 3 * (SCREEN_WIDTH / 320);
    frame.line(start_x, y, end_x, y, COLOR_EXPLOSION);
    let arrow: i32 = if wind > 0 {
        -2
    } else {
        2
    };
    let ghost f1 = frame@;
    frame.line(end_x, y, end_x + arrow, y - 2, COLOR_EXPLOSION);
    let ghost f2 = frame@;
    frame.line(end_x, y, end_x + arrow, y + 2, COLOR_EXPLOSION);
    proof {
        let shaft = line_region(start_x as int, y as int, end_x as int, y as int);
        let up = line_region(end_x as int, y as int, end_x + arrow, y - 2);
        let down = line_region(end_x as int, y as int, end_x + arrow, y + 2);
        lemma_paint_union(f0, shaft, up, COLOR_EXPLOSION);
        lemma_paint_union(f0, shaft.union(up), down, COLOR_EXPLOSION);
    }
}

}

//! Checkpoints as files: cutting out a rectangle, and binary PPM images.

use vstd::prelude::*;
use crate::play_ref::{digits_value, is_digit};
use crate::render_ref::{
    checkpoint_wf, lemma_grid_cell, lemma_grid_cell_bound, lemma_next_row, palette_rgb, palette_spec, pixel_at, CheckpointView,
    RenderCheckpoint,
};

verus! {

/// Pixel `k` of the `w`-wide crop of `v` whose top-left corner is
/// (`x0`, `y0`).
pub open spec fn crop_pixel(v: CheckpointView, x0: int, y0: int, w: int, k: int) -> u8 {
    pixel_at(v, x0 + k % w, y0 + k / w)
}

/// The `w` by `h` rectangle of `v` whose top-left corner is (`x0`, `y0`),
/// under the name `name`.
pub open spec fn crop_view(name: Seq<char>, v: CheckpointView, x0: int, y0: int, w: nat, h: nat) -> CheckpointView {
    CheckpointView { name, width: w, height: h, pixels: Seq::new(w * h, |k: int| crop_pixel(v, x0, y0, w as int, k)) }
}

/// Copies the `width` by `height` rectangle of `checkpoint` whose top-left
/// corner is (`x0`, `y0`) into a checkpoint of its own called `name`.
pub fn crop_checkpoint(
    name: &str,
    checkpoint: &RenderCheckpoint,
    x0: usize,
    y0: usize,
    width: usize,
    height: usize,
) -> (r: RenderCheckpoint)
    requires
        checkpoint_wf(checkpoint@),
        x0 + width <= checkpoint.width,
        y0 + height <= checkpoint.height,
    ensures
        r@ == crop_view(name@, checkpoint@, x0 as int, y0 as int, width as nat, height as nat),
        checkpoint_wf(r@),
{
    let ghost v = checkpoint@;
    let cw = checkpoint.width;
    let total = checkpoint.pixels.len();
    let mut pixels: Vec<u8> = Vec::new();
    let mut row: usize = 0;
    while row < height
        invariant
            v == checkpoint@,
            cw == checkpoint.width,
            total == v.pixels.len(),
            checkpoint_wf(v),
            x0 + width <= cw,
            y0 + height <= checkpoint.height,
            row <= height,
            pixels@.len() == row * width,
            forall|k: int|
                0 <= k < pixels@.len() ==> #[trigger] pixels@[k] == crop_pixel(v, x0 as int, y0 as int, width as int, k),
        decreases height - row,
    {
        proof {
            assert((y0 + row) * cw + x0 <= (y0 + row + 1) * cw) by (nonlinear_arith)
                requires
                    x0 <= cw,
            ;
            assert((y0 + row + 1) * cw <= checkpoint.height * cw) by (nonlinear_arith)
                requires
                    y0 + row + 1 <= checkpoint.height,
            ;
            assert(checkpoint.height * cw == v.pixels.len()) by (nonlinear_arith)
                requires
                    v.pixels.len() == v.width * v.height,
                    v.width == cw,
                    v.height == checkpoint.height,
            ;
            assert((y0 + row) * cw <= (y0 + row) * cw + x0);
        }
        let start = (y0 + row) * cw + x0;
        let mut col: usize = 0;
        while col < width
            invariant
                v == checkpoint@,
                cw == checkpoint.width,
                total == v.pixels.len(),
                checkpoint_wf(v),
                x0 + width <= cw,
                y0 + height <= checkpoint.height,
                row < height,
                start == (y0 + row) * cw + x0,
                col <= width,
                pixels@.len() == row * width + col,
                forall|k: int|
                    0 <= k < pixels@.len() ==> #[trigger] pixels@[k] == crop_pixel(
                        v,
                        x0 as int,
                        y0 as int,
                        width as int,
                        k,
                    ),
            decreases width - col,
        {
            proof {
                lemma_grid_cell(col as int, row as int, width as int);
                lemma_grid_cell_bound((x0 + col) as int, (y0 + row) as int, cw as int, checkpoint.height as int);
                assert(cw * checkpoint.height == total) by (nonlinear_arith)
                    requires
                        total == v.pixels.len(),
                        v.pixels.len() == v.width * v.height,
                        v.width == cw,
                        v.height == checkpoint.height,
                ;
            }
            let p = checkpoint.pixels[start + col];
            pixels.push(p);
            col = col + 1;
        }
        proof {
            lemma_next_row(row as int, width as int);
        }
        row = row + 1;
    }
    proof {
        assert(height * width == width * height) by (nonlinear_arith);
        assert(pixels@ =~= Seq::new(
            (width * height) as nat,
            |k: int| crop_pixel(v, x0 as int, y0 as int, width as int, k),
        ));
    }
    RenderCheckpoint { name: name.to_owned(), width, height, pixels }
}

// ---------------------------------------------------------------------------
// PPM

/// The ASCII decimal digits of `n`, most significant first.
pub open spec fn decimal(n: nat) -> Seq<u8>
    decreases n,
{
    if n < 10 {
        seq![(48 + n) as u8]
    } else {
        decimal(n / 10).push((48 + n % 10) as u8)
    }
}

/// Three bytes per pixel: its palette colour.
pub open spec fn rgb_bytes(pixels: Seq<u8>) -> Seq<u8> {
    Seq::new(3 * pixels.len(), |i: int| palette_spec(pixels[i / 3])[i % 3])
}

/// A binary PPM image (`P6`) of the checkpoint in palette colours: the
/// header `P6`, the width and the height in decimal, the maximum value
/// `255`, then the pixels row by row.
pub open spec fn ppm_spec(v: CheckpointView) -> Seq<u8> {
    seq![80u8, 54u8, 10u8] + decimal(v.width) + seq![32u8] + decimal(v.height) + seq![10u8, 50u8, 53u8, 53u8, 10u8]
        + rgb_bytes(v.pixels)
}

/// Appends the decimal digits of `n`.
fn push_decimal(out: &mut Vec<u8>, n: usize)
    ensures
        final(out)@ == old(out)@ + decimal(n as nat),
    decreases n,
{
    if n >= 10 {
        push_decimal(out, n / 10);
    }
    let digit: u8 = (n % 10) as u8;
    out.push(48 + digit);
    proof {
        if n >= 10 {
            assert(final(out)@ =~= old(out)@ + decimal(n as nat));
        } else {
            assert(final(out)@ =~= old(out)@ + decimal(n as nat));
        }
    }
}

/// The checkpoint as a binary PPM image.
pub fn ppm_bytes(checkpoint: &RenderCheckpoint) -> (r: Vec<u8>)
    ensures
        r@ == ppm_spec(checkpoint@),
{
    let mut out: Vec<u8> = Vec::new();
    out.push(80);
    out.push(54);
    out.push(10);
    push_decimal(&mut out, checkpoint.width);
    out.push(32);
    push_decimal(&mut out, checkpoint.height);
    out.push(10);
    out.push(50);
    out.push(53);
    out.push(53);
    out.push(10);
    let ghost header = out@;
    proof {
        assert(header =~= seq![80u8, 54u8, 10u8] + decimal(checkpoint.width as nat) + seq![32u8] + decimal(
            checkpoint.height as nat,
        ) + seq![10u8, 50u8, 53u8, 53u8, 10u8]);
    }
    let mut i: usize = 0;
    while i < checkpoint.pixels.len()
        invariant
            i <= checkpoint.pixels@.len(),
            out@.len() == header.len() + 3 * i,
            forall|k: int| 0 <= k < header.len() ==> #[trigger] out@[k] == header[k],
            forall|k: int|
                0 <= k < 3 * i ==> #[trigger] out@[header.len() + k] == rgb_bytes(checkpoint.pixels@)[k],
        decreases checkpoint.pixels@.len() - i,
    {
        let rgb = palette_rgb(checkpoint.pixels[i]);
        out.push(rgb[0]);
        out.push(rgb[1]);
        out.push(rgb[2]);
        proof {
            assert forall|k: int| 0 <= k < 3 * (i + 1) implies #[trigger] out@[header.len() + k] == rgb_bytes(
                checkpoint.pixels@,
            )[k] by {
                if k >= 3 * i {
                    assert(k / 3 == i);
                }
            }
        }
        i = i + 1;
    }
    proof {
        let body = rgb_bytes(checkpoint.pixels@);
        assert(ppm_spec(checkpoint@) == header + body);
        assert forall|k: int| 0 <= k < out@.len() implies #[trigger] out@[k] == (header + body)[k] by {
            if k >= header.len() {
                assert(out@[header.len() + (k - header.len())] == body[k - header.len()]);
            }
        }
        assert(out@ =~= header + body);
    }
    out
}


// ---------------------------------------------------------------------------
// Laws

/// A crop shows, at each of its own pixels (`x`, `y`), the pixel of the
/// original at (`x0 + x`, `y0 + y`).
pub proof fn lemma_crop_pixels(name: Seq<char>, v: CheckpointView, x0: int, y0: int, w: nat, h: nat, x: int, y: int)
    requires
        0 <= x < w,
        0 <= y < h,
    ensures
        crop_view(name, v, x0, y0, w, h).width == w,
        crop_view(name, v, x0, y0, w, h).height == h,
        pixel_at(crop_view(name, v, x0, y0, w, h), x, y) == pixel_at(v, x0 + x, y0 + y),
{
    lemma_grid_cell(x, y, w as int);
    lemma_grid_cell_bound(x, y, w as int, h as int);
}

proof fn lemma_decimal_reads_back(n: nat)
    ensures
        decimal(n).len() >= 1,
        forall|k: int| 0 <= k < decimal(n).len() ==> is_digit(#[trigger] decimal(n)[k]),
        digits_value(decimal(n), 0, decimal(n).len() as int) == n,
    decreases n,
{
    if n >= 10 {
        lemma_decimal_reads_back(n / 10);
        let d = decimal(n / 10);
        let e = decimal(n);
        assert(e == d.push((48 + n % 10) as u8));
        lemma_digits_value_prefix(e, d, d.len() as int);
        assert(e[d.len() as int] == (48 + n % 10) as u8);
        assert(digits_value(e, 0, e.len() as int) == digits_value(e, 0, d.len() as int) * 10 + (n % 10));
        assert(n == (n / 10) * 10 + n % 10);
    } else {
        assert(digits_value(decimal(n), 0, 0) == 0);
    }
}

proof fn lemma_digits_value_prefix(e: Seq<u8>, d: Seq<u8>, k: int)
    requires
        0 <= k <= d.len(),
        d.len() <= e.len(),
        forall|i: int| 0 <= i < d.len() ==> e[i] == d[i],
    ensures
        digits_value(e, 0, k) == digits_value(d, 0, k),
    decreases k,
{
    if k > 0 {
        lemma_digits_value_prefix(e, d, k - 1);
    }
}

/// A PPM image starts with `P6` and a line break, then the width, a space
/// and the height, each in decimal digits that read back to the number, then
/// a line break, `255` and a line break, and then three bytes per pixel, row
/// by row: each pixel's palette colour.
pub proof fn lemma_ppm_layout(v: CheckpointView)
    ensures
        ({
            let out = ppm_spec(v);
            let w = decimal(v.width);
            let h = decimal(v.height);
            let start = 3 + w.len() as int + 1 + h.len() as int + 5;
            &&& out.subrange(0, 3) == seq![80u8, 54u8, 10u8]
            &&& out.subrange(3, 3 + w.len() as int) == w
            &&& digits_value(w, 0, w.len() as int) == v.width
            &&& out[3 + w.len() as int] == 32u8
            &&& out.subrange(4 + w.len() as int, 4 + w.len() as int + h.len() as int) == h
            &&& digits_value(h, 0, h.len() as int) == v.height
            &&& out.subrange(4 + w.len() as int + h.len() as int, start) == seq![10u8, 50u8, 53u8, 53u8, 10u8]
            &&& out.len() == start + 3 * v.pixels.len()
            &&& forall|i: int, c: int|
                0 <= i < v.pixels.len() && 0 <= c < 3 ==> #[trigger] out[start + 3 * i + c] == palette_spec(
                    v.pixels[i],
                )[c]
        }),
{
    let out = ppm_spec(v);
    let w = decimal(v.width);
    let h = decimal(v.height);
    let head = seq![80u8, 54u8, 10u8] + w + seq![32u8] + h + seq![10u8, 50u8, 53u8, 53u8, 10u8];
    let body = rgb_bytes(v.pixels);
    lemma_decimal_reads_back(v.width);
    lemma_decimal_reads_back(v.height);
    assert(out == head + body);
    assert(out.subrange(0, 3) =~= seq![80u8, 54u8, 10u8]);
    assert(out.subrange(3, 3 + w.len() as int) =~= w);
    assert(out.subrange(4 + w.len() as int, 4 + w.len() as int + h.len() as int) =~= h);
    assert(out.subrange(4 + w.len() as int + h.len() as int, head.len() as int) =~= seq![10u8, 50u8, 53u8, 53u8, 10u8]);
    assert forall|i: int, c: int|
        0 <= i < v.pixels.len() && 0 <= c < 3 implies #[trigger] out[head.len() + 3 * i + c] == palette_spec(
        v.pixels[i],
    )[c] by {
        assert(out[head.len() + 3 * i + c] == body[3 * i + c]);
        assert((3 * i + c) / 3 == i && (3 * i + c) % 3 == c);
    }
}

}

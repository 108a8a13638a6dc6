//! Solid fills of the software renderer's BGRA scratch buffer.
//!
//! The buffer holds rows of `stride` bytes; each complete group of four
//! bytes in a row is one pixel, stored blue, green, red, alpha.
use vstd::prelude::*;
use vstd::arithmetic::div_mod::{lemma_fundamental_div_mod, lemma_fundamental_div_mod_converse};

verus! {

/// The byte that channel `ch` (0 blue, 1 green, 2 red, 3 alpha) of an
/// opaque pixel of color `rgba` holds.
pub open spec fn channel_byte(rgba: (u8, u8, u8, u8), ch: int) -> u8 {
    if ch == 0 {
        rgba.2
    } else if ch == 1 {
        rgba.1
    } else if ch == 2 {
        rgba.0
    } else {
        0xffu8
    }
}

/// Byte `i` belongs to a pixel of rows `[y0, y1)` and columns `[x0, x1)`,
/// the pixel lying wholly inside its row.
pub open spec fn in_region(i: int, stride: int, x0: int, x1: int, y0: int, y1: int) -> bool {
    let row = i / stride;
    let px = (i % stride) / 4;
    y0 <= row < y1 && x0 <= px < x1 && px < stride / 4
}

/// `old` with the pixels of rows `[y0, y1)` and columns `[x0, x1)` set to
/// the opaque color `rgba`, every other byte kept.
pub open spec fn painted(old: Seq<u8>, stride: int, x0: int, x1: int, y0: int, y1: int, rgba: (u8, u8, u8, u8)) -> Seq<u8> {
    Seq::new(
        old.len(),
        |i: int|
            if in_region(i, stride, x0, x1, y0, y1) {
                channel_byte(rgba, (i % stride) % 4)
            } else {
                old[i]
            },
    )
}

/// Byte `i` lies in pixel `p` of row `row` exactly when it is one of the
/// four bytes from `row * stride + p * 4` on, and then its channel is its
/// distance from there.
proof fn lemma_pixel_bytes(i: int, stride: int, row: int, p: int)
    requires
        stride > 0,
        i >= 0,
        row >= 0,
        p >= 0,
        p * 4 + 4 <= stride,
    ensures
        (i / stride == row && (i % stride) / 4 == p) <==> (row * stride + p * 4 <= i < row * stride + p * 4 + 4),
        row * stride + p * 4 <= i < row * stride + p * 4 + 4 ==> (i % stride) % 4 == i - (row * stride + p * 4),
{
    lemma_fundamental_div_mod(i, stride);
    lemma_fundamental_div_mod(i % stride, 4);
    let o = row * stride + p * 4;
    if o <= i < o + 4 {
        let c = i - o;
        lemma_fundamental_div_mod_converse(i, stride, row, p * 4 + c);
        assert(i == row * stride + (p * 4 + c));
        lemma_fundamental_div_mod_converse(p * 4 + c, 4, p, c);
    }
    if i / stride == row && (i % stride) / 4 == p {
        assert(i == stride * row + (i % stride));
        assert(i % stride == 4 * p + (i % stride) % 4);
        assert(0 <= (i % stride) % 4 < 4);
        assert(stride * row == row * stride) by (nonlinear_arith);
    }
}

proof fn lemma_row_bytes_fit(stride: int, len: int, row: int)
    requires
        stride > 0,
        len >= 0,
        0 <= row < len / stride,
    ensures
        row * stride + stride <= len,
{
    lemma_fundamental_div_mod(len, stride);
    assert(row * stride + stride <= (len / stride) * stride) by (nonlinear_arith)
        requires
            row + 1 <= len / stride,
            stride > 0,
    ;
    assert(stride * (len / stride) == (len / stride) * stride) by (nonlinear_arith);
}

/// Paints the pixels of rows `[y0, y1)` and columns `[x0, x1)` with the
/// opaque color `rgba`.
pub(crate) fn paint_region(pixels: &mut Vec<u8>, stride: usize, x0: usize, x1: usize, y0: usize, y1: usize, rgba: (u8, u8, u8, u8))
    requires
        stride > 0,
        y1 <= (old(pixels)@.len() as int) / (stride as int),
        x1 <= stride / 4,
    ensures
        final(pixels)@ == painted(old(pixels)@, stride as int, x0 as int, x1 as int, y0 as int, y1 as int, rgba),
{
    let ghost old_px = pixels@;
    let ghost s = stride as int;
    let n = pixels.len();
    let mut yy = y0;
    if y0 >= y1 || x0 >= x1 {
        assert(pixels@ =~= painted(old_px, s, x0 as int, x1 as int, y0 as int, y1 as int, rgba));
        return;
    }
    assert(pixels@ =~= painted(old_px, s, x0 as int, x1 as int, y0 as int, y0 as int, rgba));
    while yy < y1
        invariant
            y0 <= yy <= y1,
            x0 < x1,
            s == stride as int,
            stride > 0,
            n == old_px.len(),
            pixels@.len() == old_px.len(),
            y1 <= (old_px.len() as int) / s,
            x1 <= stride / 4,
            pixels@ == painted(old_px, s, x0 as int, x1 as int, y0 as int, yy as int, rgba),
        decreases y1 - yy,
    {
        proof {
            lemma_row_bytes_fit(s, old_px.len() as int, yy as int);
        }
        assert((yy as int) * s + s <= n);
        let row_start = yy * stride;
        let mut p = x0;
        let ghost done_rows = pixels@;
        while p < x1
            invariant
                y0 <= yy < y1,
                x0 <= p <= x1,
                n == old_px.len(),
                s == stride as int,
                stride > 0,
                x1 <= stride / 4,
                row_start == yy * s,
                row_start + s <= old_px.len(),
                pixels@.len() == old_px.len(),
                done_rows == painted(old_px, s, x0 as int, x1 as int, y0 as int, yy as int, rgba),
                forall|i: int| 0 <= i < old_px.len() ==> #[trigger] pixels@[i] == if i / s == yy && x0 <= (i % s) / 4 < p
                    && (i % s) / 4 < s / 4 {
                    channel_byte(rgba, (i % s) % 4)
                } else {
                    done_rows[i]
                },
            decreases x1 - p,
        {
            assert(p * 4 + 4 <= stride) by {
                assert(p < stride / 4);
            }
            let o = row_start + p * 4;
            assert(o + 4 <= n);
            let ghost before = pixels@;
            pixels.set(o, rgba.2);
            pixels.set(o + 1, rgba.1);
            pixels.set(o + 2, rgba.0);
            pixels.set(o + 3, 0xff);
            proof {
                assert forall|i: int| 0 <= i < old_px.len() implies #[trigger] pixels@[i] == if i / s == yy && x0 <= (i
                    % s) / 4 < p + 1 && (i % s) / 4 < s / 4 {
                    channel_byte(rgba, (i % s) % 4)
                } else {
                    done_rows[i]
                } by {
                    lemma_pixel_bytes(i, s, yy as int, p as int);
                    if o <= i < o + 4 {
                        assert(i % s / 4 == p);
                    } else {
                        assert(pixels@[i] == before[i]);
                    }
                }
            }
            p += 1;
        }
        proof {
            assert forall|i: int| 0 <= i < old_px.len() implies #[trigger] pixels@[i] == painted(
                old_px,
                s,
                x0 as int,
                x1 as int,
                y0 as int,
                yy + 1,
                rgba,
            )[i] by {}
            assert(pixels@ =~= painted(old_px, s, x0 as int, x1 as int, y0 as int, yy + 1, rgba));
        }
        yy += 1;
    }
}

/// The smaller of `a` and `b`.
pub open spec fn min_of(a: int, b: int) -> int {
    if a <= b { a } else { b }
}

/// Fill the whole buffer with the opaque color `rgba`: every pixel of
/// every complete row.
pub fn fill_solid(pixels: &mut Vec<u8>, stride: u32, rgba: (u8, u8, u8, u8))
    requires
        stride > 0,
    ensures
        final(pixels)@ == painted(
            old(pixels)@,
            stride as int,
            0,
            stride as int / 4,
            0,
            (old(pixels)@.len() as int) / (stride as int),
            rgba,
        ),
{
    let s = stride as usize;
    let h = pixels.len() / s;
    paint_region(pixels, s, 0, s / 4, 0, h, rgba);
}

/// Fill `h` rows starting at `y_top` (as far as the buffer reaches).
pub fn fill_row_stripe(pixels: &mut Vec<u8>, stride: u32, y_top: usize, h: usize, rgba: (u8, u8, u8, u8))
    requires
        stride > 0,
        y_top + h <= usize::MAX,
    ensures
        final(pixels)@ == painted(
            old(pixels)@,
            stride as int,
            0,
            stride as int / 4,
            y_top as int,
            min_of(y_top + h, (old(pixels)@.len() as int) / (stride as int)),
            rgba,
        ),
{
    let s = stride as usize;
    let total_h = pixels.len() / s;
    let y_end = if y_top + h < total_h { y_top + h } else { total_h };
    paint_region(pixels, s, 0, s / 4, y_top, y_end, rgba);
}

/// Fill the `w` × `h` pixel rectangle at (`x`, `y`), clipped to the
/// buffer.
pub fn fill_rect(pixels: &mut Vec<u8>, stride: u32, x: usize, y: usize, w: usize, h: usize, rgba: (u8, u8, u8, u8))
    requires
        stride > 0,
        y + h <= usize::MAX,
        x + w <= usize::MAX,
    ensures
        final(pixels)@ == painted(
            old(pixels)@,
            stride as int,
            x as int,
            min_of(x + w, stride as int / 4),
            y as int,
            min_of(y + h, (old(pixels)@.len() as int) / (stride as int)),
            rgba,
        ),
{
    let s = stride as usize;
    let total_h = pixels.len() / s;
    let y_end = if y + h < total_h { y + h } else { total_h };
    let bytes_per_row = s / 4;
    let x_end = if x + w < bytes_per_row { x + w } else { bytes_per_row };
    if x >= x_end || y >= y_end {
        assert(pixels@ =~= painted(pixels@, s as int, x as int, x_end as int, y as int, y_end as int, rgba));
        return;
    }
    paint_region(pixels, s, x, x_end, y, y_end, rgba);
}

} // verus!

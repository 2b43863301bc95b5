//! The test picture: red grows to the right, green downwards, on constant blue.
use crate::paint::{self, painted, row_set, rows_fit};
use vstd::prelude::*;

verus! {

/// Byte `x` of line `r` of the picture, four bytes per pixel in the order blue, green, red,
/// unused.
pub open spec fn gradient_px(w: int, h: int) -> spec_fn(int, int) -> u8 {
    |r: int, x: int|
        if x % 4 == 0 {
            128u8
        } else if x % 4 == 1 {
            (r * 255 / h) as u8
        } else if x % 4 == 2 {
            (x / 4 * 255 / w) as u8
        } else {
            0u8
        }
}

/// `buf` with the picture drawn into it.
pub open spec fn gradient_drawn(buf: Seq<u8>, pitch: int, w: int, h: int) -> Seq<u8> {
    painted(buf, 0, pitch, 4 * w, h, gradient_px(w, h))
}

/// The share of 255 that `i` is of `n`.
fn shade(i: u32, n: u32) -> (r: u8)
    requires
        i < n,
    ensures
        r == i * 255 / n as int,
        r < 255,
{
    assert(0 <= i * 255 / n as int && i * 255 / n as int <= 254) by (nonlinear_arith)
        requires
            0 <= i < n,
    ;
    let v: u64 = (i as u64 * 255) / (n as u64);
    v as u8
}

/// Draws the picture into a mapped buffer of four bytes per pixel.
pub fn draw_gradient(buf: &mut [u8], pitch: usize, w: u32, h: u32)
    requires
        h > 0 && w > 0 ==> rows_fit(old(buf)@.len() as int, 0, pitch as int, 4 * w, h as int),
    ensures
        final(buf)@ == painted(
            old(buf)@,
            0,
            pitch as int,
            4 * w,
            h as int,
            gradient_px(w as int, h as int),
        ),
        final(buf)@ == gradient_drawn(old(buf)@, pitch as int, w as int, h as int),
{
    let ghost before = buf@;
    let ghost px = gradient_px(w as int, h as int);
    if w == 0 || h == 0 {
        assert(buf@ =~= painted(before, 0, pitch as int, 4 * w, h as int, px)) by {
            assert forall|k: int| 0 <= k < before.len() && h > 0 implies k - paint::last_row(
                k,
                pitch as int,
                h as int,
            ) * pitch >= 0 by {
                paint::lemma_last_row_starts_before(k, pitch as int, h as int);
            }
        }
        return;
    }
    let mut y: u32 = 0;
    assert(buf@ =~= painted(before, 0, pitch as int, 4 * w, 0, px));
    while y < h
        invariant
            y <= h,
            buf@.len() == before.len(),
            px == gradient_px(w as int, h as int),
            0 < w,
            rows_fit(before.len() as int, 0, pitch as int, 4 * w, h as int),
            buf@ == painted(before, 0, pitch as int, 4 * w, y as int, px),
        decreases h - y,
    {
        proof {
            assert(buf.len() == buf@.len());
            assert(0 <= y * pitch <= (h - 1) * pitch) by (nonlinear_arith)
                requires
                    0 <= y <= h - 1,
                    0 <= pitch,
            ;
        }
        let line: usize = y as usize * pitch;
        let g = shade(y, h);
        let ghost so_far = buf@;
        let ghost samples = |x: int| px(y as int, x);
        let mut x: u32 = 0;
        assert(buf@ =~= row_set(so_far, line as int, 0, samples));
        while x < w
            invariant
                x <= w,
                y < h,
                line == y * pitch,
                line + 4 * w <= buf@.len(),
                g == y * 255 / h as int,
                px == gradient_px(w as int, h as int),
                samples == |x: int| px(y as int, x),
                buf@ == row_set(so_far, line as int, 4 * x as int, samples),
            decreases w - x,
        {
            assert(buf.len() == buf@.len());
            let r = shade(x, w);
            let at: usize = line + x as usize * 4;
            buf[at] = 128;
            buf[at + 1] = g;
            buf[at + 2] = r;
            buf[at + 3] = 0;
            proof {
                let b = 4 * x as int;
                assert(b % 4 == 0 && (b + 1) % 4 == 1 && (b + 2) % 4 == 2 && (b + 3) % 4 == 3);
                assert((b + 2) / 4 == x);
                assert(samples(b + 1) == g);
                assert(samples(b + 2) == r);
                assert(buf@ =~= row_set(so_far, line as int, b + 4, samples));
            }
            x += 1;
        }
        proof {
            paint::lemma_paint_row(before, 0, pitch as int, 4 * w, y as int, px);
            assert(buf@ =~= painted(before, 0, pitch as int, 4 * w, y + 1, px));
        }
        y += 1;
    }
}

/// Pixel `x` of line `y`: blue is half, green the share of the height above it, red the share of
/// the width to its left, and the fourth byte is unused. Where lines are longer than the pitch,
/// the later one stays.
pub proof fn gradient_pixels(buf: Seq<u8>, pitch: int, w: int, h: int, x: int, y: int)
    requires
        0 <= x < w,
        0 <= y < h,
        0 <= pitch,
        (h - 1) * pitch + 4 * w <= buf.len(),
        y == h - 1 || 4 * x + 3 < pitch,
    ensures
        ({
            let out = gradient_drawn(buf, pitch, w, h);
            let at = y * pitch + 4 * x;
            &&& out[at] == 128
            &&& out[at + 1] as int == y * 255 / h
            &&& out[at + 2] as int == x * 255 / w
            &&& out[at + 3] == 0
            &&& out.len() == buf.len()
        }),
{
    let px = gradient_px(w, h);
    paint::painted_row_wins(buf, 0, pitch, 4 * w, h, px, y, 4 * x);
    paint::painted_row_wins(buf, 0, pitch, 4 * w, h, px, y, 4 * x + 1);
    paint::painted_row_wins(buf, 0, pitch, 4 * w, h, px, y, 4 * x + 2);
    paint::painted_row_wins(buf, 0, pitch, 4 * w, h, px, y, 4 * x + 3);
    assert((4 * x) % 4 == 0 && (4 * x + 1) % 4 == 1 && (4 * x + 2) % 4 == 2 && (4 * x + 3) % 4 == 3
        && (4 * x + 2) / 4 == x);
    assert(0 <= y * 255 / h <= 254) by (nonlinear_arith)
        requires
            0 <= y < h,
    ;
    assert(0 <= x * 255 / w <= 254) by (nonlinear_arith)
        requires
            0 <= x < w,
    ;
}

/// What lies behind the lines of the picture and below them stays.
pub proof fn gradient_leaves_padding(buf: Seq<u8>, pitch: int, w: int, h: int, k: int)
    requires
        0 <= w,
        0 <= h,
        0 < pitch,
        4 * w <= pitch,
        0 <= k < buf.len(),
        k % pitch >= 4 * w || k >= h * pitch,
    ensures
        gradient_drawn(buf, pitch, w, h)[k] == buf[k],
{
    paint::painted_elsewhere(buf, 0, pitch, 4 * w, h, gradient_px(w, h), k);
}

} // verus!

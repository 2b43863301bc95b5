//! What it means to write rows of bytes into a pitched buffer.
//!
//! Rows start `pitch` bytes apart. When the pitch is smaller than a row, rows overlap and the
//! later row wins; [`painted`] says which byte ends up where in either case.
use vstd::prelude::*;

verus! {

/// Among `rows` rows starting `pitch` bytes apart, the last one that starts at or before `j`.
pub open spec fn last_row(j: int, pitch: int, rows: int) -> int {
    if pitch <= 0 || j / pitch >= rows {
        rows - 1
    } else {
        j / pitch
    }
}

/// `dst` after `rows` rows of `width` bytes were written from `base` on, row `r` holding
/// `px(r, 0), px(r, 1), ..`.
pub open spec fn painted(
    dst: Seq<u8>,
    base: int,
    pitch: int,
    width: int,
    rows: int,
    px: spec_fn(int, int) -> u8,
) -> Seq<u8> {
    Seq::new(
        dst.len(),
        |k: int|
            {
                let j = k - base;
                let r = last_row(j, pitch, rows);
                if 0 <= j && 0 < rows && j - r * pitch < width {
                    px(r, j - r * pitch)
                } else {
                    dst[k]
                }
            },
    )
}

/// `dst` with the `n` bytes from `at` on replaced by `f(0), f(1), ..`.
pub open spec fn row_set(dst: Seq<u8>, at: int, n: int, f: spec_fn(int) -> u8) -> Seq<u8> {
    Seq::new(
        dst.len(),
        |k: int|
            if at <= k < at + n {
                f(k - at)
            } else {
                dst[k]
            },
    )
}

/// The rows from `base` on lie inside a buffer of `len` bytes.
pub open spec fn rows_fit(len: int, base: int, pitch: int, width: int, rows: int) -> bool {
    &&& base <= len
    &&& rows > 0 ==> base + (rows - 1) * pitch + width <= len
}

pub(crate) proof fn lemma_row_of(j: int, pitch: int, n: int)
    requires
        pitch > 0,
        j >= 0,
        n >= 0,
    ensures
        j / pitch >= n <==> j >= n * pitch,
        j - (j / pitch) * pitch == j % pitch,
        0 <= j % pitch < pitch,
        j / pitch >= 0,
{
    vstd::arithmetic::div_mod::lemma_fundamental_div_mod(j, pitch);
    vstd::arithmetic::div_mod::lemma_mod_bound(j, pitch);
    vstd::arithmetic::div_mod::lemma_div_pos_is_pos(j, pitch);
    let q = j / pitch;
    assert(pitch * q == q * pitch) by (nonlinear_arith);
    if q >= n {
        assert(q * pitch >= n * pitch) by (nonlinear_arith)
            requires
                q >= n,
                pitch > 0,
        ;
    } else {
        assert((q + 1) * pitch <= n * pitch) by (nonlinear_arith)
            requires
                q + 1 <= n,
                pitch > 0,
        ;
        assert((q + 1) * pitch == q * pitch + pitch) by (nonlinear_arith);
    }
}

pub(crate) proof fn lemma_last_row_starts_before(j: int, pitch: int, rows: int)
    requires
        j >= 0,
        pitch >= 0,
        rows > 0,
    ensures
        j - last_row(j, pitch, rows) * pitch >= 0,
{
    if pitch > 0 {
        lemma_row_of(j, pitch, rows);
        assert((rows - 1) * pitch == rows * pitch - pitch) by (nonlinear_arith);
    } else {
        assert((rows - 1) * pitch == 0) by (nonlinear_arith)
            requires
                pitch == 0,
        ;
    }
}

/// Writing one more row turns `rows` painted rows into `rows + 1`.
pub(crate) proof fn lemma_paint_row(
    dst: Seq<u8>,
    base: int,
    pitch: int,
    width: int,
    rows: int,
    px: spec_fn(int, int) -> u8,
)
    requires
        pitch >= 0,
        rows >= 0,
        width >= 0,
    ensures
        painted(dst, base, pitch, width, rows + 1, px) == row_set(
            painted(dst, base, pitch, width, rows, px),
            base + rows * pitch,
            width,
            |x: int| px(rows, x),
        ),
{
    let before = painted(dst, base, pitch, width, rows, px);
    let after = painted(dst, base, pitch, width, rows + 1, px);
    let set = row_set(before, base + rows * pitch, width, |x: int| px(rows, x));
    assert((rows - 1) * pitch == rows * pitch - pitch) by (nonlinear_arith);
    assert(rows * pitch >= 0) by (nonlinear_arith)
        requires
            rows >= 0,
            pitch >= 0,
    ;
    assert forall|k: int| 0 <= k < dst.len() implies after[k] == set[k] by {
        let j = k - base;
        if j >= 0 && pitch > 0 {
            lemma_row_of(j, pitch, rows);
            lemma_row_of(j, pitch, rows + 1);
        }
        if pitch == 0 {
            assert(rows * pitch == 0) by (nonlinear_arith)
                requires
                    pitch == 0,
            ;
            assert((rows - 1) * pitch == 0) by (nonlinear_arith)
                requires
                    pitch == 0,
            ;
        }
    }
    assert(after =~= set);
}

/// With rows no longer than the pitch, byte `x` of row `r` is found at `base + r * pitch + x`.
pub proof fn painted_pixel(
    dst: Seq<u8>,
    base: int,
    pitch: int,
    width: int,
    rows: int,
    px: spec_fn(int, int) -> u8,
    r: int,
    x: int,
)
    requires
        0 <= width <= pitch,
        0 <= r < rows,
        0 <= x < width,
        0 <= base,
        rows_fit(dst.len() as int, base, pitch, width, rows),
    ensures
        0 <= base + r * pitch + x < dst.len(),
        painted(dst, base, pitch, width, rows, px)[base + r * pitch + x] == px(r, x),
{
    let j = r * pitch + x;
    assert(0 <= r * pitch <= (rows - 1) * pitch) by (nonlinear_arith)
        requires
            0 <= r <= rows - 1,
            pitch >= 0,
    ;
    lemma_row_of(j, pitch, r);
    lemma_row_of(j, pitch, r + 1);
    assert((r + 1) * pitch == r * pitch + pitch) by (nonlinear_arith);
}

/// Bytes before the first row, after the last row and in the padding between rows keep their
/// value.
pub proof fn painted_elsewhere(
    dst: Seq<u8>,
    base: int,
    pitch: int,
    width: int,
    rows: int,
    px: spec_fn(int, int) -> u8,
    k: int,
)
    requires
        0 <= width <= pitch,
        0 <= rows,
        0 <= k < dst.len(),
        k < base || k >= base + rows * pitch || (k - base) % pitch >= width,
    ensures
        painted(dst, base, pitch, width, rows, px)[k] == dst[k],
{
    let j = k - base;
    if j >= 0 && rows > 0 {
        let last = rows - 1;
        assert(last * pitch == rows * pitch - pitch) by (nonlinear_arith)
            requires
                last == rows - 1,
        ;
        if pitch > 0 {
            lemma_row_of(j, pitch, rows);
            if j / pitch >= rows {
                // Past the last row's start by at least one pitch.
            } else {
                assert(j - (j / pitch) * pitch == j % pitch);
            }
        }
    }
}

/// Where rows are longer than the pitch, the later row wins: byte `x` of row `r` is found at its
/// place unless another row starts at or before it.
pub proof fn painted_row_wins(
    dst: Seq<u8>,
    base: int,
    pitch: int,
    width: int,
    rows: int,
    px: spec_fn(int, int) -> u8,
    r: int,
    x: int,
)
    requires
        0 <= pitch,
        0 <= r < rows,
        0 <= x < width,
        0 <= base,
        base + (rows - 1) * pitch + width <= dst.len(),
        r == rows - 1 || x < pitch,
    ensures
        painted(dst, base, pitch, width, rows, px)[base + r * pitch + x] == px(r, x),
        painted(dst, base, pitch, width, rows, px).len() == dst.len(),
{
    let j = r * pitch + x;
    assert(0 <= r * pitch <= (rows - 1) * pitch) by (nonlinear_arith)
        requires
            0 <= r <= rows - 1,
            pitch >= 0,
    ;
    assert((r + 1) * pitch == r * pitch + pitch) by (nonlinear_arith);
    if pitch > 0 {
        lemma_row_of(j, pitch, r);
        lemma_row_of(j, pitch, r + 1);
        lemma_row_of(j, pitch, rows);
    }
}

} // verus!

//! The average of the samples of one pixel.

use vstd::prelude::*;
use crate::vector::Vec4;
use crate::fixed::{trunc_div, lemma_trunc_div_multiple};

verus! {

/// Four channel sums.
pub struct Sum4 {
    pub x: int,
    pub y: int,
    pub z: int,
    pub w: int,
}

/// No colour at all.
pub open spec fn zero4() -> Sum4 {
    Sum4 { x: 0, y: 0, z: 0, w: 0 }
}

/// A sum with one more colour in it.
pub open spec fn with_color(a: Sum4, c: Vec4) -> Sum4 {
    Sum4 { x: a.x + c.x, y: a.y + c.y, z: a.z + c.z, w: a.w + c.w }
}

/// Two sums together.
pub open spec fn plus4(a: Sum4, b: Sum4) -> Sum4 {
    Sum4 { x: a.x + b.x, y: a.y + b.y, z: a.z + b.z, w: a.w + b.w }
}

/// The colour `k` places after `base`.
pub open spec fn color_at(buf: Seq<Vec4>, base: int, k: int) -> Vec4 {
    buf[base + k]
}

/// The sum of the `n` colours of `buf` from place `base` on.
pub open spec fn run_sum(buf: Seq<Vec4>, base: int, n: int) -> Sum4
    decreases n,
{
    if n <= 0 {
        zero4()
    } else {
        with_color(run_sum(buf, base, n - 1), buf[base + n - 1])
    }
}

/// Where the samples of row `l` of the pixel in column `x` and row `y` (from
/// the top) begin, in a buffer of `ws` sample columns.
pub open spec fn run_base(ws: int, s: int, x: int, y: int, l: int) -> int {
    (y * s + l) * ws + x * s
}

/// The sum of the first `rows` sample rows of that pixel.
pub open spec fn block_sum(buf: Seq<Vec4>, ws: int, s: int, x: int, y: int, rows: int) -> Sum4
    decreases rows,
{
    if rows <= 0 {
        zero4()
    } else {
        plus4(
            block_sum(buf, ws, s, x, y, rows - 1),
            run_sum(buf, run_base(ws, s, x, y, rows - 1), s),
        )
    }
}

/// The colour of the pixel in column `x` and row `y` (from the top): the
/// average of all `s` × `s` of its samples, each channel rounded toward zero.
pub open spec fn average(buf: Seq<Vec4>, ws: int, s: int, x: int, y: int) -> Vec4 {
    let t = block_sum(buf, ws, s, x, y, s);
    Vec4 {
        x: trunc_div(t.x, s * s) as i32,
        y: trunc_div(t.y, s * s) as i32,
        z: trunc_div(t.z, s * s) as i32,
        w: trunc_div(t.w, s * s) as i32,
    }
}

/// `n` times a colour.
pub open spec fn times4(n: int, c: Vec4) -> Sum4 {
    Sum4 { x: n * c.x, y: n * c.y, z: n * c.z, w: n * c.w }
}

proof fn lemma_times_step(n: int, c: Vec4)
    ensures
        with_color(times4(n - 1, c), c) == times4(n, c),
        times4(0, c) == zero4(),
{
    let (x, y, z, w) = (c.x as int, c.y as int, c.z as int, c.w as int);
    assert((n - 1) * x + x == n * x) by (nonlinear_arith);
    assert((n - 1) * y + y == n * y) by (nonlinear_arith);
    assert((n - 1) * z + z == n * z) by (nonlinear_arith);
    assert((n - 1) * w + w == n * w) by (nonlinear_arith);
}

proof fn lemma_times_plus(m: int, s: int, c: Vec4)
    ensures
        plus4(times4((m - 1) * s, c), times4(s, c)) == times4(m * s, c),
{
    let (x, y, z, w) = (c.x as int, c.y as int, c.z as int, c.w as int);
    assert(((m - 1) * s) * x + s * x == (m * s) * x) by (nonlinear_arith);
    assert(((m - 1) * s) * y + s * y == (m * s) * y) by (nonlinear_arith);
    assert(((m - 1) * s) * z + s * z == (m * s) * z) by (nonlinear_arith);
    assert(((m - 1) * s) * w + s * w == (m * s) * w) by (nonlinear_arith);
}

/// A run of equal colours sums to that many times the colour.
pub proof fn lemma_run_of_one_color(buf: Seq<Vec4>, base: int, n: int, c: Vec4)
    requires
        0 <= n,
        forall|k: int| 0 <= k < n ==> #[trigger] color_at(buf, base, k) == c,
    ensures
        run_sum(buf, base, n) == times4(n, c),
    decreases n,
{
    lemma_times_step(n, c);
    if n > 0 {
        lemma_run_of_one_color(buf, base, n - 1, c);
        assert(color_at(buf, base, n - 1) == c);
    }
}

/// Rows of equal colours sum to that many times the colour.
pub proof fn lemma_block_of_one_color(
    buf: Seq<Vec4>,
    ws: int,
    s: int,
    x: int,
    y: int,
    rows: int,
    c: Vec4,
)
    requires
        0 <= rows,
        0 <= s,
        forall|l: int, k: int|
            0 <= l < rows && 0 <= k < s ==> #[trigger] color_at(
                buf,
                run_base(ws, s, x, y, l),
                k,
            ) == c,
    ensures
        block_sum(buf, ws, s, x, y, rows) == times4(rows * s, c),
    decreases rows,
{
    if rows > 0 {
        lemma_block_of_one_color(buf, ws, s, x, y, rows - 1, c);
        let base = run_base(ws, s, x, y, rows - 1);
        assert forall|k: int| 0 <= k < s implies #[trigger] color_at(buf, base, k) == c by {}
        lemma_run_of_one_color(buf, base, s, c);
        lemma_times_plus(rows, s, c);
    } else {
        assert(0 * s == 0);
        lemma_times_step(0, c);
    }
}

/// A pixel all of whose samples hold one colour resolves to exactly that
/// colour.
pub proof fn lemma_average_of_one_color(buf: Seq<Vec4>, ws: int, s: int, x: int, y: int, c: Vec4)
    requires
        s >= 1,
        forall|l: int, k: int|
            0 <= l < s && 0 <= k < s ==> #[trigger] color_at(buf, run_base(ws, s, x, y, l), k) == c,
    ensures
        average(buf, ws, s, x, y) == c,
{
    lemma_block_of_one_color(buf, ws, s, x, y, s, c);
    let d = s * s;
    assert(d > 0) by (nonlinear_arith)
        requires
            s >= 1,
            d == s * s,
    ;
    lemma_trunc_div_multiple(c.x as int, d);
    lemma_trunc_div_multiple(c.y as int, d);
    lemma_trunc_div_multiple(c.z as int, d);
    lemma_trunc_div_multiple(c.w as int, d);
    assert(d * c.x == c.x * d && d * c.y == c.y * d && d * c.z == c.z * d && d * c.w == c.w * d)
        by (nonlinear_arith);
}

} // verus!

//! The pixels of a line segment.

use vstd::prelude::*;
use crate::vector::Vec3;
use crate::fixed::{trunc_div, magnitude, div_toward_zero, lemma_mul_bounded};
use crate::triangle::pixel_floor;

verus! {

/// Whether the segment is steeper than the diagonal: it is then walked row by
/// row, and otherwise column by column.
pub open spec fn is_steep(begin: Vec3, end: Vec3) -> bool {
    magnitude(end.x - begin.x) < magnitude(end.y - begin.y)
}

/// The number of pixels that the segment is drawn with.
pub open spec fn line_length(begin: Vec3, end: Vec3) -> int {
    if is_steep(begin, end) {
        magnitude(pixel_floor(end.y as int) - pixel_floor(begin.y as int)) + 1
    } else {
        magnitude(pixel_floor(end.x as int) - pixel_floor(begin.x as int)) + 1
    }
}

/// The coordinate reached from `base` after `step` pixels along the other
/// axis, on a line that rises `rise` for every `run`; kept within 0 to 32768.
pub open spec fn along(base: int, step: int, rise: int, run: int) -> int {
    let q = trunc_div(base * run + step * rise, run);
    if q < 0 {
        0
    } else if q > 32768 {
        32768
    } else {
        q
    }
}

/// The lesser of two integers.
pub open spec fn lesser(a: int, b: int) -> int {
    if a <= b {
        a
    } else {
        b
    }
}

/// Pixel `n` of the segment, as column and row counted from the bottom left.
/// A segment without length is the pixel of its begin.
pub open spec fn line_point(begin: Vec3, end: Vec3, n: int) -> (int, int) {
    let dx = end.x - begin.x;
    let dy = end.y - begin.y;
    let x0 = pixel_floor(begin.x as int);
    let y0 = pixel_floor(begin.y as int);
    let x1 = pixel_floor(end.x as int);
    let y1 = pixel_floor(end.y as int);
    if is_steep(begin, end) {
        let y = lesser(y0, y1) + n;
        (along(x0, y - y0, dx, dy), y)
    } else {
        let x = lesser(x0, x1) + n;
        (
            x,
            if dx == 0 {
                y0
            } else {
                along(y0, x - x0, dy, dx)
            },
        )
    }
}

fn pixel_of(x: i32) -> (r: i64)
    ensures
        r == pixel_floor(x as int),
        0 <= r < 32768,
{
    if x <= 0 {
        0
    } else {
        (x / 65536) as i64
    }
}

fn walk(base: i64, step: i64, rise: i64, run: i64) -> (r: usize)
    requires
        0 <= base < 32768,
        -32768 <= step <= 32768,
        -0x1_0000_0000 <= rise <= 0x1_0000_0000,
        -0x1_0000_0000 <= run <= 0x1_0000_0000,
        run != 0,
    ensures
        r == along(base as int, step as int, rise as int, run as int),
{
    proof {
        lemma_mul_bounded(base as int, run as int, 32768, 0x1_0000_0000);
        lemma_mul_bounded(step as int, rise as int, 32768, 0x1_0000_0000);
    }
    let num: i128 = (base as i128) * (run as i128) + (step as i128) * (rise as i128);
    let q: i128 = div_toward_zero(num, run as i128);
    if q < 0 {
        0
    } else if q > 32768 {
        32768
    } else {
        q as usize
    }
}

/// The number of pixels that the segment from `begin` to `end` is drawn with.
pub fn line_pixels(begin: Vec3, end: Vec3) -> (r: usize)
    ensures
        r == line_length(begin, end),
        1 <= r <= 32768,
{
    let dx: i64 = (end.x as i64) - (begin.x as i64);
    let dy: i64 = (end.y as i64) - (begin.y as i64);
    let adx: i64 = if dx >= 0 { dx } else { -dx };
    let ady: i64 = if dy >= 0 { dy } else { -dy };
    let (a, b) = if adx < ady {
        (pixel_of(begin.y), pixel_of(end.y))
    } else {
        (pixel_of(begin.x), pixel_of(end.x))
    };
    if a <= b {
        (b - a + 1) as usize
    } else {
        (a - b + 1) as usize
    }
}

/// Pixel `n` of the segment from `begin` to `end`.
pub fn line_pixel(begin: Vec3, end: Vec3, n: usize) -> (r: (usize, usize))
    requires
        n < line_length(begin, end),
    ensures
        r.0 == line_point(begin, end, n as int).0,
        r.1 == line_point(begin, end, n as int).1,
{
    let dx: i64 = (end.x as i64) - (begin.x as i64);
    let dy: i64 = (end.y as i64) - (begin.y as i64);
    let adx: i64 = if dx >= 0 { dx } else { -dx };
    let ady: i64 = if dy >= 0 { dy } else { -dy };
    let x0: i64 = pixel_of(begin.x);
    let y0: i64 = pixel_of(begin.y);
    let x1: i64 = pixel_of(end.x);
    let y1: i64 = pixel_of(end.y);
    if adx < ady {
        let y: i64 = (if y0 <= y1 { y0 } else { y1 }) + (n as i64);
        (walk(x0, y - y0, dx, dy), y as usize)
    } else {
        let x: i64 = (if x0 <= x1 { x0 } else { x1 }) + (n as i64);
        if dx == 0 {
            (x as usize, y0 as usize)
        } else {
            (x as usize, walk(y0, x - x0, dy, dx))
        }
    }
}

} // verus!

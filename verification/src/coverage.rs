//! Exact barycentric weights of a supersample point against a triangle.
//!
//! A framebuffer of supersample factor `s` places the centre of supersample
//! column `col` at `(2 col + 1) / (2 s)` pixels. Multiplying every coordinate by
//! `2 s` makes sample centres and vertices integers, so the weights below are
//! exact: each is a numerator over the common denominator `den`.

use vstd::prelude::*;
use crate::vector::Vec4;
use crate::fixed::{
    trunc_div, magnitude, div_toward_zero, lemma_mul_bounded, lemma_trunc_div_between,
    lemma_trunc_div_multiple,
};

verus! {

/// The edge function of the point `(px, py)` against the edge from `b` to `c`;
/// `k` is the factor by which the point's coordinates are scaled up.
pub open spec fn edge(px: int, py: int, k: int, b: Vec4, c: Vec4) -> int {
    px * (b.y - c.y) + (c.x - b.x) * py + k * (b.x * c.y - c.x * b.y)
}

/// Twice the signed area of the triangle `a`, `b`, `c` in the xy-plane.
pub open spec fn area2(a: Vec4, b: Vec4, c: Vec4) -> int {
    edge(a.x as int, a.y as int, 1, b, c)
}

/// The centre of supersample column (or row) `i`, scaled by `2 s`.
pub open spec fn sample_coord(i: int) -> int {
    (2 * i + 1) * 65536
}

/// `1` for a counter-clockwise triangle, `-1` otherwise.
pub open spec fn orientation(a: Vec4, b: Vec4, c: Vec4) -> int {
    if area2(a, b, c) > 0 {
        1
    } else {
        -1
    }
}

/// The mean of three values under the weights `w` (three numerators and their
/// denominator), rounded toward zero.
pub open spec fn mix(w: (int, int, int, int), a0: int, a1: int, a2: int) -> int {
    trunc_div(w.0 * a0 + w.1 * a1 + w.2 * a2, w.3)
}

/// The three barycentric weights of a point as numerators over `den`.
pub struct Barycentric {
    pub w0: i128,
    pub w1: i128,
    pub w2: i128,
    pub den: i128,
}

/// The largest denominator that `compute_barycentric_2d` produces.
pub open spec fn max_den() -> int {
    0x1000_0000_0000_0000_0000_0000
}

impl Barycentric {
    /// The weights of the point `(px, py)`, scaled by `k`, against `a`, `b`, `c`.
    pub open spec fn at(px: int, py: int, k: int, a: Vec4, b: Vec4, c: Vec4) -> (
        int,
        int,
        int,
        int,
    ) {
        let o = orientation(a, b, c);
        (
            o * edge(px, py, k, b, c),
            o * edge(px, py, k, c, a),
            o * edge(px, py, k, a, b),
            o * (k * area2(a, b, c)),
        )
    }

    /// The weights as a tuple of mathematical integers.
    pub open spec fn view(&self) -> (int, int, int, int) {
        (self.w0 as int, self.w1 as int, self.w2 as int, self.den as int)
    }

    /// The weights lie over a positive denominator and sum to it.
    pub open spec fn wf(&self) -> bool {
        &&& 0 < self.den <= max_den()
        &&& self.w0 + self.w1 + self.w2 == self.den
    }

    /// The point lies in the closed triangle: no weight is negative.
    pub open spec fn inside(&self) -> bool {
        self.w0 >= 0 && self.w1 >= 0 && self.w2 >= 0
    }

    /// The weighted mean of three values, rounded toward zero.
    pub open spec fn mix(&self, a0: int, a1: int, a2: int) -> int {
        mix(self@, a0, a1, a2)
    }

    /// Whether no weight is negative.
    pub fn is_inside(&self) -> (r: bool)
        ensures
            r == self.inside(),
    {
        self.w0 >= 0 && self.w1 >= 0 && self.w2 >= 0
    }

    /// Interpolates a per-vertex attribute at the point.
    pub fn interpolate(&self, a0: i32, a1: i32, a2: i32) -> (r: i32)
        requires
            self.wf(),
            self.inside(),
        ensures
            r == self.mix(a0 as int, a1 as int, a2 as int),
            a0 == a1 && a1 == a2 ==> r == a0,
    {
        proof {
            lemma_mul_bounded(self.w0 as int, a0 as int, max_den(), 0x8000_0000);
            lemma_mul_bounded(self.w1 as int, a1 as int, max_den(), 0x8000_0000);
            lemma_mul_bounded(self.w2 as int, a2 as int, max_den(), 0x8000_0000);
            lemma_mix_bounded(*self, a0 as int, a1 as int, a2 as int, i32::MIN as int, i32::MAX as int);
            if a0 == a1 && a1 == a2 {
                lemma_mix_equal(self@, a0 as int);
            }
        }
        let n: i128 = self.w0 * (a0 as i128) + self.w1 * (a1 as i128) + self.w2 * (a2 as i128);
        let q: i128 = div_toward_zero(n, self.den);
        q as i32
    }
}

/// A weighted mean lies between any bounds that hold of all three values.
pub proof fn lemma_mix_bounded(b: Barycentric, a0: int, a1: int, a2: int, lo: int, hi: int)
    requires
        b.wf(),
        b.inside(),
        lo <= 0 <= hi,
        lo <= a0 <= hi,
        lo <= a1 <= hi,
        lo <= a2 <= hi,
    ensures
        lo <= b.mix(a0, a1, a2) <= hi,
{
    let n = b.w0 * a0 + b.w1 * a1 + b.w2 * a2;
    let d = b.den as int;
    let w0 = b.w0 as int;
    let w1 = b.w1 as int;
    let w2 = b.w2 as int;
    assert(lo * d <= n <= hi * d) by (nonlinear_arith)
        requires
            n == w0 * a0 + w1 * a1 + w2 * a2,
            w0 + w1 + w2 == d,
            w0 >= 0,
            w1 >= 0,
            w2 >= 0,
            lo <= a0 <= hi,
            lo <= a1 <= hi,
            lo <= a2 <= hi,
    ;
    lemma_trunc_div_between(n, d, lo, hi);
}

/// The mean of three equal values is that value.
pub proof fn lemma_mix_equal(w: (int, int, int, int), a: int)
    requires
        w.3 > 0,
        w.0 + w.1 + w.2 == w.3,
    ensures
        mix(w, a, a, a) == a,
{
    let n = w.0 * a + w.1 * a + w.2 * a;
    let d = w.3;
    let (w0, w1, w2) = (w.0, w.1, w.2);
    assert(n == a * d) by (nonlinear_arith)
        requires
            n == w0 * a + w1 * a + w2 * a,
            w0 + w1 + w2 == d,
    ;
    lemma_trunc_div_multiple(a, d);
}

/// The three edge functions of any point sum to the scaled doubled area.
pub proof fn lemma_edges_sum(px: int, py: int, k: int, a: Vec4, b: Vec4, c: Vec4)
    ensures
        edge(px, py, k, b, c) + edge(px, py, k, c, a) + edge(px, py, k, a, b) == k * area2(
            a,
            b,
            c,
        ),
{
    let (ax, ay) = (a.x as int, a.y as int);
    let (bx, by) = (b.x as int, b.y as int);
    let (cx, cy) = (c.x as int, c.y as int);
    assert(px * (by - cy) + px * (cy - ay) + px * (ay - by) == 0) by (nonlinear_arith);
    assert((cx - bx) * py + (ax - cx) * py + (bx - ax) * py == 0) by (nonlinear_arith);
    let t0 = bx * cy - cx * by;
    let t1 = cx * ay - ax * cy;
    let t2 = ax * by - bx * ay;
    assert(k * t0 + k * t1 + k * t2 == k * (t0 + t1 + t2)) by (nonlinear_arith);
    assert(ax * (by - cy) == ax * by - ax * cy) by (nonlinear_arith);
    assert((cx - bx) * ay == cx * ay - bx * ay) by (nonlinear_arith);
    assert(1 * (bx * cy - cx * by) == t0);
    assert(area2(a, b, c) == t0 + t1 + t2);
}

/// Twice the area is the same from whichever vertex it is taken.
pub proof fn lemma_area_cyclic(a: Vec4, b: Vec4, c: Vec4)
    ensures
        area2(b, c, a) == area2(a, b, c),
{
    let (ax, ay) = (a.x as int, a.y as int);
    let (bx, by) = (b.x as int, b.y as int);
    let (cx, cy) = (c.x as int, c.y as int);
    assert(bx * (cy - ay) == bx * cy - bx * ay) by (nonlinear_arith);
    assert((ax - cx) * by == ax * by - cx * by) by (nonlinear_arith);
    assert(ax * (by - cy) == ax * by - ax * cy) by (nonlinear_arith);
    assert((cx - bx) * ay == cx * ay - bx * ay) by (nonlinear_arith);
}

/// The edge function vanishes at both ends of its edge.
pub proof fn lemma_edge_at_ends(b: Vec4, c: Vec4)
    ensures
        edge(b.x as int, b.y as int, 1, b, c) == 0,
        edge(c.x as int, c.y as int, 1, b, c) == 0,
{
    let (bx, by) = (b.x as int, b.y as int);
    let (cx, cy) = (c.x as int, c.y as int);
    assert(bx * (by - cy) + (cx - bx) * by + 1 * (bx * cy - cx * by) == 0) by (nonlinear_arith);
    assert(cx * (by - cy) + (cx - bx) * cy + 1 * (bx * cy - cx * by) == 0) by (nonlinear_arith);
}

/// At a point that is the mean of the vertices with weights `wa`, `wb`, `wc`
/// (summing to `m`), the edge function opposite `a` is `wa / m` of the area.
pub proof fn lemma_edge_of_mean(
    px: int,
    py: int,
    k: int,
    a: Vec4,
    b: Vec4,
    c: Vec4,
    m: int,
    wa: int,
    wb: int,
    wc: int,
)
    requires
        m == wa + wb + wc,
        m * px == k * (wa * a.x + wb * b.x + wc * c.x),
        m * py == k * (wa * a.y + wb * b.y + wc * c.y),
    ensures
        m * edge(px, py, k, b, c) == (k * wa) * area2(a, b, c),
{
    let u = b.y - c.y;
    let v = c.x - b.x;
    let t = b.x * c.y - c.x * b.y;
    let (ax, ay) = (a.x as int, a.y as int);
    let (bx, by) = (b.x as int, b.y as int);
    let (cx, cy) = (c.x as int, c.y as int);
    let sx = wa * ax + wb * bx + wc * cx;
    let sy = wa * ay + wb * by + wc * cy;
    let ea = ax * u + v * ay + t;
    let eb = bx * u + v * by + t;
    let ec = cx * u + v * cy + t;
    lemma_edge_at_ends(b, c);
    assert(eb == 0);
    assert(ec == 0);
    assert(ea == area2(a, b, c));
    // m * edge, with m moved onto the point
    lemma_dist3_left(m, px * u, v * py, k * t);
    lemma_assoc(m, px, u);
    lemma_swap(m, v, py);
    lemma_swap(m, k, t);
    assert(m * edge(px, py, k, b, c) == (m * px) * u + v * (m * py) + k * (m * t));
    // the point replaced by the mean
    lemma_assoc(k, sx, u);
    lemma_swap(v, k, sy);
    lemma_dist3_left(k, sx * u, v * sy, m * t);
    assert(m * edge(px, py, k, b, c) == k * (sx * u + v * sy + m * t));
    // regrouped by vertex
    lemma_dist3_right(wa * ax, wb * bx, wc * cx, u);
    lemma_assoc(wa, ax, u);
    lemma_assoc(wb, bx, u);
    lemma_assoc(wc, cx, u);
    lemma_dist3_left(v, wa * ay, wb * by, wc * cy);
    lemma_swap(v, wa, ay);
    lemma_swap(v, wb, by);
    lemma_swap(v, wc, cy);
    lemma_dist3_right(wa, wb, wc, t);
    lemma_dist3_left(wa, ax * u, v * ay, t);
    lemma_dist3_left(wb, bx * u, v * by, t);
    lemma_dist3_left(wc, cx * u, v * cy, t);
    assert(sx * u + v * sy + m * t == wa * ea + wb * eb + wc * ec);
    assert(wb * eb == 0) by (nonlinear_arith)
        requires
            eb == 0,
    ;
    assert(wc * ec == 0) by (nonlinear_arith)
        requires
            ec == 0,
    ;
    lemma_assoc(k, wa, ea);
}

proof fn lemma_dist3_left(x: int, p: int, q: int, r: int)
    ensures
        x * (p + q + r) == x * p + x * q + x * r,
{
    assert(x * (p + q + r) == x * p + x * q + x * r) by (nonlinear_arith);
}

proof fn lemma_dist3_right(p: int, q: int, r: int, x: int)
    ensures
        (p + q + r) * x == p * x + q * x + r * x,
{
    assert((p + q + r) * x == p * x + q * x + r * x) by (nonlinear_arith);
}

proof fn lemma_assoc(a: int, b: int, c: int)
    ensures
        (a * b) * c == a * (b * c),
{
    assert((a * b) * c == a * (b * c)) by (nonlinear_arith);
}

proof fn lemma_swap(a: int, b: int, c: int)
    ensures
        a * (b * c) == b * (a * c),
        (b * a) * c == a * (b * c),
{
    assert(a * (b * c) == b * (a * c)) by (nonlinear_arith);
    assert((b * a) * c == a * (b * c)) by (nonlinear_arith);
}

/// An edge function times `x`, with `x` moved onto the edge's coefficients.
proof fn lemma_lin3(px: int, py: int, k: int, u: int, v: int, t: int, x: int)
    ensures
        (px * u + v * py + k * t) * x == px * (u * x) + py * (v * x) + k * (t * x),
{
    lemma_dist3_right(px * u, v * py, k * t, x);
    lemma_assoc(px, u, x);
    lemma_swap(py, v, x);
    lemma_assoc(k, t, x);
}

/// For every non-degenerate triangle the weights of any point sum to the
/// denominator, which is positive; at a point strictly inside the triangle (a
/// mean of the three vertices in which each has a positive share) every
/// weight is positive.
pub proof fn lemma_interior_weights(
    px: int,
    py: int,
    k: int,
    a: Vec4,
    b: Vec4,
    c: Vec4,
    m: int,
    wa: int,
    wb: int,
    wc: int,
)
    requires
        k > 0,
        area2(a, b, c) != 0,
        wa > 0,
        wb > 0,
        wc > 0,
        m == wa + wb + wc,
        m * px == k * (wa * a.x + wb * b.x + wc * c.x),
        m * py == k * (wa * a.y + wb * b.y + wc * c.y),
    ensures
        Barycentric::at(px, py, k, a, b, c).0 > 0,
        Barycentric::at(px, py, k, a, b, c).1 > 0,
        Barycentric::at(px, py, k, a, b, c).2 > 0,
        Barycentric::at(px, py, k, a, b, c).3 > 0,
        Barycentric::at(px, py, k, a, b, c).0 + Barycentric::at(px, py, k, a, b, c).1
            + Barycentric::at(px, py, k, a, b, c).2 == Barycentric::at(px, py, k, a, b, c).3,
{
    lemma_weights_sum(px, py, k, a, b, c);
    lemma_edge_of_mean(px, py, k, a, b, c, m, wa, wb, wc);
    assert(m * px == k * (wb * b.x + wc * c.x + wa * a.x));
    assert(m * py == k * (wb * b.y + wc * c.y + wa * a.y));
    lemma_edge_of_mean(px, py, k, b, c, a, m, wb, wc, wa);
    assert(m * px == k * (wc * c.x + wa * a.x + wb * b.x));
    assert(m * py == k * (wc * c.y + wa * a.y + wb * b.y));
    lemma_edge_of_mean(px, py, k, c, a, b, m, wc, wa, wb);
    lemma_area_cyclic(a, b, c);
    lemma_area_cyclic(b, c, a);
    let o = orientation(a, b, c);
    let ar = area2(a, b, c);
    let e0 = edge(px, py, k, b, c);
    let e1 = edge(px, py, k, c, a);
    let e2 = edge(px, py, k, a, b);
    assert(o * ar > 0) by (nonlinear_arith)
        requires
            ar != 0,
            o == if ar > 0 { 1int } else { -1int },
    ;
    lemma_share_positive(m, e0, k, wa, o, ar);
    lemma_share_positive(m, e1, k, wb, o, ar);
    lemma_share_positive(m, e2, k, wc, o, ar);
}

proof fn lemma_share_positive(m: int, e: int, k: int, w: int, o: int, ar: int)
    requires
        m > 0,
        k > 0,
        w > 0,
        o * ar > 0,
        o == 1 || o == -1,
        m * e == (k * w) * ar,
    ensures
        o * e > 0,
{
    assert(m * (o * e) == (k * w) * (o * ar)) by (nonlinear_arith)
        requires
            m * e == (k * w) * ar,
    ;
    assert(k * w > 0) by (nonlinear_arith)
        requires
            k > 0,
            w > 0,
    ;
    let kw = k * w;
    let oa = o * ar;
    let oe = o * e;
    assert(oe > 0) by (nonlinear_arith)
        requires
            m * oe == kw * oa,
            kw > 0,
            oa > 0,
            m > 0,
    ;
}

/// The weights of any point against a non-degenerate triangle sum to the
/// denominator, and the denominator is positive.
pub proof fn lemma_weights_sum(px: int, py: int, k: int, a: Vec4, b: Vec4, c: Vec4)
    requires
        k > 0,
        area2(a, b, c) != 0,
    ensures
        Barycentric::at(px, py, k, a, b, c).3 > 0,
        Barycentric::at(px, py, k, a, b, c).0 + Barycentric::at(px, py, k, a, b, c).1
            + Barycentric::at(px, py, k, a, b, c).2 == Barycentric::at(px, py, k, a, b, c).3,
{
    lemma_edges_sum(px, py, k, a, b, c);
    let o = orientation(a, b, c);
    let ar = area2(a, b, c);
    let e0 = edge(px, py, k, b, c);
    let e1 = edge(px, py, k, c, a);
    let e2 = edge(px, py, k, a, b);
    assert(o * e0 + o * e1 + o * e2 == o * (k * ar)) by (nonlinear_arith)
        requires
            e0 + e1 + e2 == k * ar,
    ;
    assert(o * (k * ar) > 0) by (nonlinear_arith)
        requires
            k > 0,
            ar != 0,
            o == if ar > 0 { 1int } else { -1int },
    ;
}

/// The weights rebuild the point: weighting the vertices' x by the three edge
/// functions gives the point's x times the doubled area (and so for y).
pub proof fn lemma_weights_rebuild(px: int, py: int, k: int, a: Vec4, b: Vec4, c: Vec4)
    ensures
        edge(px, py, k, b, c) * a.x + edge(px, py, k, c, a) * b.x + edge(px, py, k, a, b) * c.x
            == area2(a, b, c) * px,
        edge(px, py, k, b, c) * a.y + edge(px, py, k, c, a) * b.y + edge(px, py, k, a, b) * c.y
            == area2(a, b, c) * py,
{
    let (ax, ay) = (a.x as int, a.y as int);
    let (bx, by) = (b.x as int, b.y as int);
    let (cx, cy) = (c.x as int, c.y as int);
    let t0 = bx * cy - cx * by;
    let t1 = cx * ay - ax * cy;
    let t2 = ax * by - bx * ay;
    lemma_area_cyclic(a, b, c);
    lemma_area_cyclic(b, c, a);
    let ar = area2(a, b, c);
    assert(ar == t0 + t1 + t2) by {
        assert(ax * (by - cy) == ax * by - ax * cy) by (nonlinear_arith);
        assert((cx - bx) * ay == cx * ay - bx * ay) by (nonlinear_arith);
    }
    let u0 = by - cy;
    let u1 = cy - ay;
    let u2 = ay - by;
    let v0 = cx - bx;
    let v1 = ax - cx;
    let v2 = bx - ax;
    // x
    assert(u0 * ax + u1 * bx + u2 * cx == ar) by (nonlinear_arith)
        requires
            ar == t0 + t1 + t2,
            t0 == bx * cy - cx * by,
            t1 == cx * ay - ax * cy,
            t2 == ax * by - bx * ay,
            u0 == by - cy,
            u1 == cy - ay,
            u2 == ay - by,
    ;
    assert(v0 * ax + v1 * bx + v2 * cx == 0) by (nonlinear_arith)
        requires
            v0 == cx - bx,
            v1 == ax - cx,
            v2 == bx - ax,
    ;
    assert(t0 * ax + t1 * bx + t2 * cx == 0) by (nonlinear_arith)
        requires
            t0 == bx * cy - cx * by,
            t1 == cx * ay - ax * cy,
            t2 == ax * by - bx * ay,
    ;
    lemma_lin3(px, py, k, u0, v0, t0, ax);
    lemma_lin3(px, py, k, u1, v1, t1, bx);
    lemma_lin3(px, py, k, u2, v2, t2, cx);
    lemma_dist3_left(px, u0 * ax, u1 * bx, u2 * cx);
    lemma_dist3_left(py, v0 * ax, v1 * bx, v2 * cx);
    lemma_dist3_left(k, t0 * ax, t1 * bx, t2 * cx);
    assert(py * (v0 * ax + v1 * bx + v2 * cx) == 0) by (nonlinear_arith)
        requires
            v0 * ax + v1 * bx + v2 * cx == 0,
    ;
    assert(k * (t0 * ax + t1 * bx + t2 * cx) == 0) by (nonlinear_arith)
        requires
            t0 * ax + t1 * bx + t2 * cx == 0,
    ;
    assert(px * ar == ar * px) by (nonlinear_arith);
    // y
    assert(u0 * ay + u1 * by + u2 * cy == 0) by (nonlinear_arith)
        requires
            u0 == by - cy,
            u1 == cy - ay,
            u2 == ay - by,
    ;
    assert(v0 * ay + v1 * by + v2 * cy == ar) by (nonlinear_arith)
        requires
            ar == t0 + t1 + t2,
            t0 == bx * cy - cx * by,
            t1 == cx * ay - ax * cy,
            t2 == ax * by - bx * ay,
            v0 == cx - bx,
            v1 == ax - cx,
            v2 == bx - ax,
    ;
    assert(t0 * ay + t1 * by + t2 * cy == 0) by (nonlinear_arith)
        requires
            t0 == bx * cy - cx * by,
            t1 == cx * ay - ax * cy,
            t2 == ax * by - bx * ay,
    ;
    lemma_lin3(px, py, k, u0, v0, t0, ay);
    lemma_lin3(px, py, k, u1, v1, t1, by);
    lemma_lin3(px, py, k, u2, v2, t2, cy);
    lemma_dist3_left(px, u0 * ay, u1 * by, u2 * cy);
    lemma_dist3_left(py, v0 * ay, v1 * by, v2 * cy);
    lemma_dist3_left(k, t0 * ay, t1 * by, t2 * cy);
    assert(px * (u0 * ay + u1 * by + u2 * cy) == 0) by (nonlinear_arith)
        requires
            u0 * ay + u1 * by + u2 * cy == 0,
    ;
    assert(k * (t0 * ay + t1 * by + t2 * cy) == 0) by (nonlinear_arith)
        requires
            t0 * ay + t1 * by + t2 * cy == 0,
    ;
    assert(py * ar == ar * py) by (nonlinear_arith);
}

/// A weight-scaled coordinate is bounded as the coordinate is.
proof fn lemma_weighted_bounds(w: int, k: int, x: int, lo: int, hi: int)
    requires
        w >= 0,
        k > 0,
        lo <= x <= hi,
    ensures
        w * (k * lo) <= w * (k * x) <= w * (k * hi),
{
    assert(k * lo <= k * x <= k * hi) by (nonlinear_arith)
        requires
            k > 0,
            lo <= x <= hi,
    ;
    let (l, m, h) = (k * lo, k * x, k * hi);
    assert(w * l <= w * m <= w * h) by (nonlinear_arith)
        requires
            w >= 0,
            l <= m <= h,
    ;
}

/// One coordinate of `lemma_inside_within_extent`.
proof fn lemma_mean_within(
    w0: int,
    w1: int,
    w2: int,
    den: int,
    k: int,
    x0: int,
    x1: int,
    x2: int,
    p: int,
    lo: int,
    hi: int,
)
    requires
        w0 >= 0,
        w1 >= 0,
        w2 >= 0,
        w0 + w1 + w2 == den,
        den > 0,
        k > 0,
        lo <= x0 <= hi,
        lo <= x1 <= hi,
        lo <= x2 <= hi,
        w0 * (k * x0) + w1 * (k * x1) + w2 * (k * x2) == den * p,
    ensures
        k * lo <= p <= k * hi,
{
    lemma_weighted_bounds(w0, k, x0, lo, hi);
    lemma_weighted_bounds(w1, k, x1, lo, hi);
    lemma_weighted_bounds(w2, k, x2, lo, hi);
    lemma_dist3_right(w0, w1, w2, k * lo);
    lemma_dist3_right(w0, w1, w2, k * hi);
    let (l, h) = (k * lo, k * hi);
    assert(l <= p <= h) by (nonlinear_arith)
        requires
            den * l <= den * p <= den * h,
            den > 0,
    ;
}

/// A point that no weight excludes lies within the extent of the triangle:
/// between the least and the greatest vertex coordinate on each axis.
pub proof fn lemma_inside_within_extent(
    px: int,
    py: int,
    k: int,
    a: Vec4,
    b: Vec4,
    c: Vec4,
    lo_x: int,
    hi_x: int,
    lo_y: int,
    hi_y: int,
)
    requires
        k > 0,
        area2(a, b, c) != 0,
        Barycentric::at(px, py, k, a, b, c).0 >= 0,
        Barycentric::at(px, py, k, a, b, c).1 >= 0,
        Barycentric::at(px, py, k, a, b, c).2 >= 0,
        lo_x <= a.x <= hi_x,
        lo_x <= b.x <= hi_x,
        lo_x <= c.x <= hi_x,
        lo_y <= a.y <= hi_y,
        lo_y <= b.y <= hi_y,
        lo_y <= c.y <= hi_y,
    ensures
        k * lo_x <= px <= k * hi_x,
        k * lo_y <= py <= k * hi_y,
{
    lemma_weights_sum(px, py, k, a, b, c);
    lemma_weights_rebuild(px, py, k, a, b, c);
    let o = orientation(a, b, c);
    let ar = area2(a, b, c);
    let e0 = edge(px, py, k, b, c);
    let e1 = edge(px, py, k, c, a);
    let e2 = edge(px, py, k, a, b);
    let den = o * (k * ar);
    let ok = o * k;
    lemma_assoc(o, k, ar);
    // x
    lemma_scaled_product(o, e0, k, a.x as int);
    lemma_scaled_product(o, e1, k, b.x as int);
    lemma_scaled_product(o, e2, k, c.x as int);
    lemma_dist3_left(ok, e0 * a.x, e1 * b.x, e2 * c.x);
    lemma_assoc(ok, ar, px);
    lemma_mean_within(
        o * e0,
        o * e1,
        o * e2,
        den,
        k,
        a.x as int,
        b.x as int,
        c.x as int,
        px,
        lo_x,
        hi_x,
    );
    // y
    lemma_scaled_product(o, e0, k, a.y as int);
    lemma_scaled_product(o, e1, k, b.y as int);
    lemma_scaled_product(o, e2, k, c.y as int);
    lemma_dist3_left(ok, e0 * a.y, e1 * b.y, e2 * c.y);
    lemma_assoc(ok, ar, py);
    lemma_mean_within(
        o * e0,
        o * e1,
        o * e2,
        den,
        k,
        a.y as int,
        b.y as int,
        c.y as int,
        py,
        lo_y,
        hi_y,
    );
}

proof fn lemma_scaled_product(o: int, e: int, k: int, x: int)
    ensures
        (o * e) * (k * x) == (o * k) * (e * x),
{
    assert((o * e) * (k * x) == (o * k) * (e * x)) by (nonlinear_arith);
}

/// Evaluates an edge function in wide arithmetic.
fn edge_value(px: i128, py: i128, k: i128, b: &Vec4, c: &Vec4) -> (e: i128)
    requires
        magnitude(px as int) <= 0x4_0000_0000_0000,
        magnitude(py as int) <= 0x4_0000_0000_0000,
        0 <= k <= 0x2_0000,
    ensures
        e == edge(px as int, py as int, k as int, *b, *c),
        magnitude(e as int) <= (magnitude(px as int) + magnitude(py as int)) * 0x1_0000_0000 + k
            * 0x8000_0000_0000_0000,
{
    let u: i128 = (b.y as i128) - (c.y as i128);
    let v: i128 = (c.x as i128) - (b.x as i128);
    proof {
        lemma_mul_bounded(px as int, u as int, magnitude(px as int), 0x1_0000_0000);
        lemma_mul_bounded(v as int, py as int, 0x1_0000_0000, magnitude(py as int));
        lemma_mul_bounded(b.x as int, c.y as int, 0x8000_0000, 0x8000_0000);
        lemma_mul_bounded(c.x as int, b.y as int, 0x8000_0000, 0x8000_0000);
    }
    let t: i128 = (b.x as i128) * (c.y as i128) - (c.x as i128) * (b.y as i128);
    proof {
        lemma_mul_bounded(k as int, t as int, k as int, 0x8000_0000_0000_0000);
    }
    px * u + v * py + k * t
}

/// The barycentric weights of the centre of supersample (`col`, `row`), in a
/// grid of `s` samples per pixel and axis, against the triangle `v`.
///
/// There are none where the triangle has no area or `s` is zero.
pub fn compute_barycentric_2d(col: u32, row: u32, s: u16, v: &[Vec4; 3]) -> (r: Option<
    Barycentric,
>)
    ensures
        r.is_some() <==> (s > 0 && area2(v[0], v[1], v[2]) != 0),
        r.is_some() ==> r.unwrap()@ == Barycentric::at(
            sample_coord(col as int),
            sample_coord(row as int),
            2 * s,
            v[0],
            v[1],
            v[2],
        ) && r.unwrap().wf(),
{
    if s == 0 {
        return None;
    }
    let a: Vec4 = v[0];
    let b: Vec4 = v[1];
    let c: Vec4 = v[2];
    let ar: i128 = edge_value(a.x as i128, a.y as i128, 1, &b, &c);
    if ar == 0 {
        return None;
    }
    let k: i128 = 2 * (s as i128);
    let px: i128 = (2 * (col as i128) + 1) * 65536;
    let py: i128 = (2 * (row as i128) + 1) * 65536;
    let e0: i128 = edge_value(px, py, k, &b, &c);
    let e1: i128 = edge_value(px, py, k, &c, &a);
    let e2: i128 = edge_value(px, py, k, &a, &b);
    proof {
        lemma_mul_bounded(k as int, ar as int, 0x2_0000, 0x2_0000_0000_0000_0000);
        lemma_weights_sum(px as int, py as int, k as int, a, b, c);
    }
    let kar: i128 = k * ar;
    if ar > 0 {
        Some(Barycentric { w0: e0, w1: e1, w2: e2, den: kar })
    } else {
        Some(Barycentric { w0: -e0, w1: -e1, w2: -e2, den: -kar })
    }
}

} // verus!

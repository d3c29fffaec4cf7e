//! Scan conversion of screen-space triangles into a color buffer and a depth
//! buffer, with a strict less-than depth test.
//!
//! Pixel `(px, py)` is sampled at its center `(px + 1/2, py + 1/2)`. The test
//! is carried out in doubled coordinates, where the center is `(2 px + 1, 2 py + 1)`
//! and a vertex `(x, y)` is `(2 x, 2 y)`, so every quantity is an exact integer.
//! Edge rule (top-left): a pixel center that lies exactly on an edge is inside
//! only when that edge is a top edge (horizontal, with the triangle below it)
//! or a left edge. Of two triangles that share an edge, exactly one owns it,
//! so adjacent triangles neither draw a shared pixel twice nor leave a gap.
use vstd::prelude::*;
use crate::fixed::ONE;

verus! {

/// The depth that stands for "nothing drawn yet": larger than every
/// normalized depth.
pub const DEPTH_FAR: u32 = 0xffff_ffff;

/// A vertex in screen space: pixel coordinates and normalized depth in
/// `[0, ONE]`.
#[derive(Clone, Copy, Debug, PartialEq, Eq, Structural)]
pub struct ScreenVertex {
    pub x: i32,
    pub y: i32,
    pub z: u32,
}

/// Three screen-space vertices.
#[derive(Clone, Copy, Debug, PartialEq, Eq, Structural)]
pub struct ScreenTriangle {
    pub a: ScreenVertex,
    pub b: ScreenVertex,
    pub c: ScreenVertex,
}

/// Twice the signed area of `(a, b, p)`: the edge function of `a -> b` at `p`.
pub open spec fn edge(ax: int, ay: int, bx: int, by: int, px: int, py: int) -> int {
    (bx - ax) * (py - ay) - (by - ay) * (px - ax)
}

/// Edge function of `u -> v` at the center of pixel `(px, py)`, in doubled coordinates.
pub open spec fn edge_at(u: ScreenVertex, v: ScreenVertex, px: int, py: int) -> int {
    edge(2 * u.x, 2 * u.y, 2 * v.x, 2 * v.y, 2 * px + 1, 2 * py + 1)
}

/// Signed area of the triangle in doubled coordinates (times two).
pub open spec fn area(t: ScreenTriangle) -> int {
    edge(2 * t.a.x, 2 * t.a.y, 2 * t.b.x, 2 * t.b.y, 2 * t.c.x, 2 * t.c.y)
}

/// Unnormalized barycentric weight of vertex `a` at pixel `(px, py)`.
pub open spec fn weight_a(t: ScreenTriangle, px: int, py: int) -> int {
    edge_at(t.b, t.c, px, py)
}

/// Unnormalized barycentric weight of vertex `b`.
pub open spec fn weight_b(t: ScreenTriangle, px: int, py: int) -> int {
    edge_at(t.c, t.a, px, py)
}

/// Unnormalized barycentric weight of vertex `c`.
pub open spec fn weight_c(t: ScreenTriangle, px: int, py: int) -> int {
    edge_at(t.a, t.b, px, py)
}

/// The edge `u -> v` of a triangle traversed with positive area (rows grow
/// downward) is a top or a left edge.
pub open spec fn top_left(u: ScreenVertex, v: ScreenVertex) -> bool {
    v.y < u.y || (v.y == u.y && v.x > u.x)
}

/// A weight admits the pixel: strictly inside the edge, or on an owned edge.
pub open spec fn admits(w: int, owned: bool) -> bool {
    w > 0 || (w == 0 && owned)
}

/// The center of pixel `(px, py)` lies in the triangle, under the top-left
/// rule on its edges; a triangle of zero area covers nothing. A triangle of
/// negative area is taken in the reverse order, which reverses its edges.
pub open spec fn covers(t: ScreenTriangle, px: int, py: int) -> bool {
    let s = area(t);
    let (wa, wb, wc) = (weight_a(t, px, py), weight_b(t, px, py), weight_c(t, px, py));
    ||| s > 0 && admits(wa, top_left(t.b, t.c)) && admits(wb, top_left(t.c, t.a)) && admits(wc, top_left(t.a, t.b))
    ||| s < 0 && admits(-wa, top_left(t.c, t.b)) && admits(-wb, top_left(t.a, t.c)) && admits(-wc, top_left(t.b, t.a))
}

fn top_left_exec(u: &ScreenVertex, v: &ScreenVertex) -> (r: bool)
    ensures
        r == top_left(*u, *v),
{
    v.y < u.y || (v.y == u.y && v.x > u.x)
}

fn admits_exec(w: i128, owned: bool) -> (r: bool)
    ensures
        r == admits(w as int, owned),
{
    w > 0 || (w == 0 && owned)
}

/// Depth interpolated linearly from the vertices' depths by the barycentric
/// weights, rounded down.
pub open spec fn depth_at(t: ScreenTriangle, px: int, py: int) -> int {
    let s = area(t);
    let num = weight_a(t, px, py) * t.a.z + weight_b(t, px, py) * t.b.z + weight_c(t, px, py) * t.c.z;
    if s > 0 {
        num / s
    } else {
        (-num) / (-s)
    }
}

pub open spec fn min3(a: int, b: int, c: int) -> int {
    if a <= b && a <= c {
        a
    } else if b <= c {
        b
    } else {
        c
    }
}

pub open spec fn max3(a: int, b: int, c: int) -> int {
    if a >= b && a >= c {
        a
    } else if b >= c {
        b
    } else {
        c
    }
}

/// Pixel `(px, py)` is in the buffer and in the triangle's integer bounding box.
pub open spec fn in_box(t: ScreenTriangle, width: int, height: int, px: int, py: int) -> bool {
    &&& 0 <= px < width
    &&& 0 <= py < height
    &&& min3(t.a.x as int, t.b.x as int, t.c.x as int) <= px <= max3(t.a.x as int, t.b.x as int, t.c.x as int)
    &&& min3(t.a.y as int, t.b.y as int, t.c.y as int) <= py <= max3(t.a.y as int, t.b.y as int, t.c.y as int)
}

/// Drawing `t` writes pixel `(px, py)`, whose stored depth is `stored`.
pub open spec fn writes(t: ScreenTriangle, width: int, height: int, px: int, py: int, stored: int) -> bool {
    &&& in_box(t, width, height, px, py)
    &&& covers(t, px, py)
    &&& depth_at(t, px, py) < stored
}

/// Index of pixel `(px, py)` in a row-major buffer of the given width.
pub open spec fn pixel_index(width: int, px: int, py: int) -> int {
    py * width + px
}

pub open spec fn triangle_ok(t: ScreenTriangle) -> bool {
    t.a.z <= ONE && t.b.z <= ONE && t.c.z <= ONE
}

pub open spec fn buffers_ok(color: Seq<u32>, depth: Seq<u32>, width: int, height: int) -> bool {
    &&& color.len() == width * height
    &&& depth.len() == width * height
    &&& width <= 0x7fff_ffff
    &&& height <= 0x7fff_ffff
}

/// Depth after drawing `t` at pixel `(px, py)` over a stored depth.
pub open spec fn depth_after(t: ScreenTriangle, width: int, height: int, px: int, py: int, stored: int) -> int {
    if writes(t, width, height, px, py, stored) {
        depth_at(t, px, py)
    } else {
        stored
    }
}

/// Indices of distinct pixels of a buffer are distinct.
pub proof fn lemma_pixel_index(width: int, height: int, px: int, py: int, qx: int, qy: int)
    requires
        0 <= px < width,
        0 <= qx < width,
        0 <= py < height,
        0 <= qy < height,
    ensures
        0 <= pixel_index(width, px, py) < width * height,
        pixel_index(width, px, py) == pixel_index(width, qx, qy) ==> px == qx && py == qy,
{
    assert(0 <= py * width + px < width * height) by (nonlinear_arith)
        requires
            0 <= px < width,
            0 <= py < height,
    ;
    if py < qy {
        assert(py * width + px < qy * width + qx) by (nonlinear_arith)
            requires
                0 <= px < width,
                0 <= qx,
                py < qy,
        ;
    } else if qy < py {
        assert(qy * width + qx < py * width + px) by (nonlinear_arith)
            requires
                0 <= qx < width,
                0 <= px,
                qy < py,
        ;
    }
}

/// The three weights sum to the area.
pub proof fn lemma_weights_sum(t: ScreenTriangle, px: int, py: int)
    ensures
        weight_a(t, px, py) + weight_b(t, px, py) + weight_c(t, px, py) == area(t),
{
    let (ax, ay, bx, by, cx, cy) = (2 * t.a.x, 2 * t.a.y, 2 * t.b.x, 2 * t.b.y, 2 * t.c.x, 2 * t.c.y);
    let (qx, qy) = (2 * px + 1, 2 * py + 1);
    lemma_edge_sum(ax, ay, bx, by, cx, cy, qx, qy);
}

proof fn lemma_edge_sum(ax: int, ay: int, bx: int, by: int, cx: int, cy: int, qx: int, qy: int)
    ensures
        edge(bx, by, cx, cy, qx, qy) + edge(cx, cy, ax, ay, qx, qy) + edge(ax, ay, bx, by, qx, qy)
            == edge(ax, ay, bx, by, cx, cy),
{
    lemma_expand(cx, bx, qy, by);
    lemma_expand(cy, by, qx, bx);
    lemma_expand(ax, cx, qy, cy);
    lemma_expand(ay, cy, qx, cx);
    lemma_expand(bx, ax, qy, ay);
    lemma_expand(by, ay, qx, ax);
    lemma_expand(bx, ax, cy, ay);
    lemma_expand(by, ay, cx, ax);
}

proof fn lemma_expand(a: int, b: int, c: int, d: int)
    ensures
        (a - b) * (c - d) == a * c - a * d - b * c + b * d,
{
    assert((a - b) * (c - d) == a * c - a * d - b * c + b * d) by (nonlinear_arith);
}

/// A covered pixel's interpolated depth lies in `[0, ONE]`.
pub proof fn lemma_depth_range(t: ScreenTriangle, px: int, py: int)
    requires
        triangle_ok(t),
        covers(t, px, py),
    ensures
        0 <= depth_at(t, px, py) <= ONE,
{
    lemma_weights_sum(t, px, py);
    let s = area(t);
    let (wa, wb, wc) = (weight_a(t, px, py), weight_b(t, px, py), weight_c(t, px, py));
    let (za, zb, zc) = (t.a.z as int, t.b.z as int, t.c.z as int);
    let one = ONE as int;
    if s > 0 {
        assert(0 <= wa * za + wb * zb + wc * zc <= s * one) by (nonlinear_arith)
            requires
                wa >= 0,
                wb >= 0,
                wc >= 0,
                wa + wb + wc == s,
                0 <= za <= one,
                0 <= zb <= one,
                0 <= zc <= one,
        ;
        assert((wa * za + wb * zb + wc * zc) / s <= one) by (nonlinear_arith)
            requires
                0 <= wa * za + wb * zb + wc * zc <= s * one,
                s > 0,
        ;
    } else {
        let (na, nb, nc) = (-wa, -wb, -wc);
        assert(0 <= na * za + nb * zb + nc * zc <= (-s) * one) by (nonlinear_arith)
            requires
                na >= 0,
                nb >= 0,
                nc >= 0,
                na + nb + nc == -s,
                0 <= za <= one,
                0 <= zb <= one,
                0 <= zc <= one,
        ;
        assert(-(wa * za + wb * zb + wc * zc) == na * za + nb * zb + nc * zc) by (nonlinear_arith)
            requires
                na == -wa,
                nb == -wb,
                nc == -wc,
        ;
        assert((na * za + nb * zb + nc * zc) / (-s) <= one) by (nonlinear_arith)
            requires
                0 <= na * za + nb * zb + nc * zc <= (-s) * one,
                -s > 0,
        ;
    }
}

/// Edge function in exact arithmetic; inputs are doubled screen coordinates.
fn edge_fn(ax: i128, ay: i128, bx: i128, by: i128, px: i128, py: i128) -> (r: i128)
    requires
        -0x1_0000_0000 <= ax <= 0x1_0000_0000,
        -0x1_0000_0000 <= ay <= 0x1_0000_0000,
        -0x1_0000_0000 <= bx <= 0x1_0000_0000,
        -0x1_0000_0000 <= by <= 0x1_0000_0000,
        -0x1_0000_0000 <= px <= 0x1_0000_0000,
        -0x1_0000_0000 <= py <= 0x1_0000_0000,
    ensures
        r == edge(ax as int, ay as int, bx as int, by as int, px as int, py as int),
        -0x10_0000_0000_0000_0000 <= r <= 0x10_0000_0000_0000_0000,
{
    let (dx1, dy1, dx2, dy2) = (bx - ax, py - ay, by - ay, px - ax);
    assert(-0x4_0000_0000_0000_0000 <= dx1 * dy1 <= 0x4_0000_0000_0000_0000) by (nonlinear_arith)
        requires
            -0x2_0000_0000 <= dx1 <= 0x2_0000_0000,
            -0x2_0000_0000 <= dy1 <= 0x2_0000_0000,
    ;
    assert(-0x4_0000_0000_0000_0000 <= dx2 * dy2 <= 0x4_0000_0000_0000_0000) by (nonlinear_arith)
        requires
            -0x2_0000_0000 <= dx2 <= 0x2_0000_0000,
            -0x2_0000_0000 <= dy2 <= 0x2_0000_0000,
    ;
    dx1 * dy1 - dy2 * dx2
}

fn min3_exec(a: i32, b: i32, c: i32) -> (r: i32)
    ensures
        r == min3(a as int, b as int, c as int),
{
    if a <= b && a <= c {
        a
    } else if b <= c {
        b
    } else {
        c
    }
}

fn max3_exec(a: i32, b: i32, c: i32) -> (r: i32)
    ensures
        r == max3(a as int, b as int, c as int),
{
    if a >= b && a >= c {
        a
    } else if b >= c {
        b
    } else {
        c
    }
}

/// Pixel `(px, py)` is in the bounding box and comes before `(cx, cy)` in scan order.
pub open spec fn visited(t: ScreenTriangle, width: int, height: int, px: int, py: int, cx: int, cy: int) -> bool {
    in_box(t, width, height, px, py) && (py < cy || (py == cy && px < cx))
}

/// The stored depth after a partial scan that has visited the pixels before `(cx, cy)`.
pub open spec fn scan_depth(t: ScreenTriangle, width: int, height: int, px: int, py: int, cx: int, cy: int, stored: int) -> int {
    if visited(t, width, height, px, py, cx, cy) {
        depth_after(t, width, height, px, py, stored)
    } else {
        stored
    }
}

/// The stored color after a partial scan.
pub open spec fn scan_color(
    t: ScreenTriangle,
    color: u32,
    width: int,
    height: int,
    px: int,
    py: int,
    cx: int,
    cy: int,
    stored_depth: int,
    stored_color: u32,
) -> u32 {
    if visited(t, width, height, px, py, cx, cy) && writes(t, width, height, px, py, stored_depth) {
        color
    } else {
        stored_color
    }
}

/// The barycentric weights at pixel `(px, py)`.
fn pixel_weights(t: &ScreenTriangle, px: i128, py: i128) -> (r: (i128, i128, i128))
    requires
        0 <= px < 0x7fff_ffff,
        0 <= py < 0x7fff_ffff,
    ensures
        r.0 == weight_a(*t, px as int, py as int),
        r.1 == weight_b(*t, px as int, py as int),
        r.2 == weight_c(*t, px as int, py as int),
        -0x10_0000_0000_0000_0000 <= r.0 <= 0x10_0000_0000_0000_0000,
        -0x10_0000_0000_0000_0000 <= r.1 <= 0x10_0000_0000_0000_0000,
        -0x10_0000_0000_0000_0000 <= r.2 <= 0x10_0000_0000_0000_0000,
{
    let (ax, ay) = (2 * (t.a.x as i128), 2 * (t.a.y as i128));
    let (bx, by) = (2 * (t.b.x as i128), 2 * (t.b.y as i128));
    let (cx, cy) = (2 * (t.c.x as i128), 2 * (t.c.y as i128));
    let (qx, qy) = (2 * px + 1, 2 * py + 1);
    (edge_fn(bx, by, cx, cy, qx, qy), edge_fn(cx, cy, ax, ay, qx, qy), edge_fn(ax, ay, bx, by, qx, qy))
}

/// Rasterizes `tri` with a flat `color`: each pixel of the buffer whose center
/// the triangle covers, within its bounding box, and whose stored depth is
/// greater than the triangle's interpolated depth there, takes the color and
/// that depth. Every other pixel keeps its color and depth.
pub fn fill_triangle(
    color: u32,
    color_buf: &mut Vec<u32>,
    depth_buf: &mut Vec<u32>,
    width: usize,
    height: usize,
    tri: ScreenTriangle,
)
    requires
        buffers_ok(old(color_buf)@, old(depth_buf)@, width as int, height as int),
        triangle_ok(tri),
    ensures
        final(color_buf)@.len() == old(color_buf)@.len(),
        final(depth_buf)@.len() == old(depth_buf)@.len(),
        forall|px: int, py: int|
            0 <= px < width && 0 <= py < height ==> #[trigger] final(depth_buf)@[pixel_index(width as int, px, py)]
                == depth_after(tri, width as int, height as int, px, py, old(depth_buf)@[pixel_index(width as int, px, py)] as int),
        forall|px: int, py: int|
            0 <= px < width && 0 <= py < height ==> #[trigger] final(color_buf)@[pixel_index(width as int, px, py)]
                == color_after(tri, color, width as int, height as int, px, py,
                    old(depth_buf)@[pixel_index(width as int, px, py)] as int, old(color_buf)@[pixel_index(width as int, px, py)]),
        width > 0 ==> final(depth_buf)@ == draw_depth(tri, width as int, height as int, old(depth_buf)@),
        width > 0 ==> final(color_buf)@ == draw_color(tri, color, width as int, height as int, old(depth_buf)@, old(color_buf)@),
{
    let ghost (w, h) = (width as int, height as int);
    let ghost (d0, c0) = (depth_buf@, color_buf@);
    fill_pixels(color, color_buf, depth_buf, width, height, tri);
    proof {
        if w > 0 {
            let dd = draw_depth(tri, w, h, d0);
            let dc = draw_color(tri, color, w, h, d0, c0);
            assert forall|i: int| #![trigger depth_buf@[i]] #![trigger color_buf@[i]] 0 <= i < d0.len() implies depth_buf@[i] == dd[i] && color_buf@[i] == dc[i] by {
                lemma_index_split(w, h, i);
                lemma_depth_after_range(tri, w, h, i % w, i / w, d0[i]);
                assert(depth_buf@[pixel_index(w, i % w, i / w)] == depth_after(tri, w, h, i % w, i / w, d0[pixel_index(w, i % w, i / w)] as int));
                assert(color_buf@[pixel_index(w, i % w, i / w)] == color_after(tri, color, w, h, i % w, i / w, d0[pixel_index(w, i % w, i / w)] as int, c0[pixel_index(w, i % w, i / w)]));
            }
            assert(depth_buf@ =~= dd);
            assert(color_buf@ =~= dc);
        }
    }
}

/// Rasterizes `tri` pixel by pixel; see `fill_triangle`.
fn fill_pixels(
    color: u32,
    color_buf: &mut Vec<u32>,
    depth_buf: &mut Vec<u32>,
    width: usize,
    height: usize,
    tri: ScreenTriangle,
)
    requires
        buffers_ok(old(color_buf)@, old(depth_buf)@, width as int, height as int),
        triangle_ok(tri),
    ensures
        final(color_buf)@.len() == old(color_buf)@.len(),
        final(depth_buf)@.len() == old(depth_buf)@.len(),
        forall|px: int, py: int|
            0 <= px < width && 0 <= py < height ==> #[trigger] final(depth_buf)@[pixel_index(width as int, px, py)]
                == depth_after(tri, width as int, height as int, px, py, old(depth_buf)@[pixel_index(width as int, px, py)] as int),
        forall|px: int, py: int|
            0 <= px < width && 0 <= py < height ==> #[trigger] final(color_buf)@[pixel_index(width as int, px, py)]
                == color_after(tri, color, width as int, height as int, px, py,
                    old(depth_buf)@[pixel_index(width as int, px, py)] as int, old(color_buf)@[pixel_index(width as int, px, py)]),
{
    let ghost w = width as int;
    let ghost h = height as int;
    let ghost d0 = depth_buf@;
    let ghost c0 = color_buf@;
    let x_min = min3_exec(tri.a.x, tri.b.x, tri.c.x) as i128;
    let x_max = max3_exec(tri.a.x, tri.b.x, tri.c.x) as i128;
    let y_min = min3_exec(tri.a.y, tri.b.y, tri.c.y) as i128;
    let y_max = max3_exec(tri.a.y, tri.b.y, tri.c.y) as i128;
    let x_lo: i128 = if x_min > 0 { x_min } else { 0 };
    let y_lo: i128 = if y_min > 0 { y_min } else { 0 };
    let x_hi: i128 = if x_max < width as i128 - 1 { x_max } else { width as i128 - 1 };
    let y_hi: i128 = if y_max < height as i128 - 1 { y_max } else { height as i128 - 1 };
    let s = edge_fn(
        2 * (tri.a.x as i128),
        2 * (tri.a.y as i128),
        2 * (tri.b.x as i128),
        2 * (tri.b.y as i128),
        2 * (tri.c.x as i128),
        2 * (tri.c.y as i128),
    );
    if s == 0 || x_lo > x_hi || y_lo > y_hi {
        assert forall|px: int, py: int| 0 <= px < w && 0 <= py < h implies !writes(tri, w, h, px, py, #[trigger] d0[pixel_index(w, px, py)] as int) by {}
        return;
    }
    let mut py: i128 = y_lo;
    while py <= y_hi
        invariant
            y_lo <= py <= y_hi + 1,
            0 <= x_lo <= x_hi < w,
            0 <= y_lo <= y_hi < h,
            x_lo == (if x_min > 0 { x_min as int } else { 0 }),
            y_lo == (if y_min > 0 { y_min as int } else { 0 }),
            x_hi == (if x_max < w - 1 { x_max as int } else { w - 1 }),
            y_hi == (if y_max < h - 1 { y_max as int } else { h - 1 }),
            x_min == min3(tri.a.x as int, tri.b.x as int, tri.c.x as int),
            x_max == max3(tri.a.x as int, tri.b.x as int, tri.c.x as int),
            y_min == min3(tri.a.y as int, tri.b.y as int, tri.c.y as int),
            y_max == max3(tri.a.y as int, tri.b.y as int, tri.c.y as int),
            s == area(tri),
            s != 0,
            -0x10_0000_0000_0000_0000 <= s <= 0x10_0000_0000_0000_0000,
            w == width,
            h == height,
            triangle_ok(tri),
            buffers_ok(c0, d0, w, h),
            color_buf@.len() == c0.len(),
            depth_buf@.len() == d0.len(),
            forall|qx: int, qy: int|
                0 <= qx < w && 0 <= qy < h ==> #[trigger] depth_buf@[pixel_index(w, qx, qy)]
                    == scan_depth(tri, w, h, qx, qy, x_lo as int, py as int, d0[pixel_index(w, qx, qy)] as int),
            forall|qx: int, qy: int|
                0 <= qx < w && 0 <= qy < h ==> #[trigger] color_buf@[pixel_index(w, qx, qy)]
                    == scan_color(tri, color, w, h, qx, qy, x_lo as int, py as int, d0[pixel_index(w, qx, qy)] as int, c0[pixel_index(w, qx, qy)]),
        decreases y_hi + 1 - py,
    {
        let mut px: i128 = x_lo;
        while px <= x_hi
            invariant
                x_lo <= px <= x_hi + 1,
                y_lo <= py <= y_hi,
                0 <= x_lo <= x_hi < w,
                0 <= y_lo <= y_hi < h,
                x_lo == (if x_min > 0 { x_min as int } else { 0 }),
                y_lo == (if y_min > 0 { y_min as int } else { 0 }),
                x_hi == (if x_max < w - 1 { x_max as int } else { w - 1 }),
                y_hi == (if y_max < h - 1 { y_max as int } else { h - 1 }),
                x_min == min3(tri.a.x as int, tri.b.x as int, tri.c.x as int),
                x_max == max3(tri.a.x as int, tri.b.x as int, tri.c.x as int),
                y_min == min3(tri.a.y as int, tri.b.y as int, tri.c.y as int),
                y_max == max3(tri.a.y as int, tri.b.y as int, tri.c.y as int),
                s == area(tri),
                s != 0,
                -0x10_0000_0000_0000_0000 <= s <= 0x10_0000_0000_0000_0000,
                w == width,
                h == height,
                triangle_ok(tri),
                buffers_ok(c0, d0, w, h),
                color_buf@.len() == c0.len(),
                depth_buf@.len() == d0.len(),
                forall|qx: int, qy: int|
                    0 <= qx < w && 0 <= qy < h ==> #[trigger] depth_buf@[pixel_index(w, qx, qy)]
                        == scan_depth(tri, w, h, qx, qy, px as int, py as int, d0[pixel_index(w, qx, qy)] as int),
                forall|qx: int, qy: int|
                    0 <= qx < w && 0 <= qy < h ==> #[trigger] color_buf@[pixel_index(w, qx, qy)]
                        == scan_color(tri, color, w, h, qx, qy, px as int, py as int, d0[pixel_index(w, qx, qy)] as int, c0[pixel_index(w, qx, qy)]),
            decreases x_hi + 1 - px,
        {
            let ghost (cx, cy) = (px as int, py as int);
            proof {
                lemma_pixel_index(w, h, cx, cy, cx, cy);
            }
            let n = depth_buf.len();
            let i = (py as usize) * width + (px as usize);
            assert(i == pixel_index(w, cx, cy));
            let ghost dpre = depth_buf@;
            let ghost cpre = color_buf@;
            assert(dpre[i as int] == d0[i as int]);
            assert(cpre[i as int] == c0[i as int]);
            let (wa, wb, wc) = pixel_weights(&tri, px, py);
            let inside = if s > 0 {
                admits_exec(wa, top_left_exec(&tri.b, &tri.c)) && admits_exec(wb, top_left_exec(&tri.c, &tri.a))
                    && admits_exec(wc, top_left_exec(&tri.a, &tri.b))
            } else {
                admits_exec(-wa, top_left_exec(&tri.c, &tri.b)) && admits_exec(-wb, top_left_exec(&tri.a, &tri.c))
                    && admits_exec(-wc, top_left_exec(&tri.b, &tri.a))
            };
            if inside {
                proof {
                    lemma_depth_range(tri, cx, cy);
                }
                let d = interpolate(&tri, s, wa, wb, wc);
                assert(d == depth_at(tri, cx, cy));
                if d < depth_buf[i] {
                    depth_buf[i] = d;
                    color_buf[i] = color;
                }
            }
            proof {
                assert(in_box(tri, w, h, cx, cy));
                assert(depth_buf@[pixel_index(w, cx, cy)]
                    == depth_after(tri, w, h, cx, cy, d0[pixel_index(w, cx, cy)] as int));
                assert(color_buf@[pixel_index(w, cx, cy)]
                    == scan_color(tri, color, w, h, cx, cy, cx + 1, cy, d0[pixel_index(w, cx, cy)] as int, c0[pixel_index(w, cx, cy)]));
                assert forall|qx: int, qy: int| 0 <= qx < w && 0 <= qy < h implies
                    #[trigger] depth_buf@[pixel_index(w, qx, qy)]
                        == scan_depth(tri, w, h, qx, qy, cx + 1, cy, d0[pixel_index(w, qx, qy)] as int) by {
                    lemma_pixel_index(w, h, qx, qy, cx, cy);
                    if qx != cx || qy != cy {
                        assert(depth_buf@[pixel_index(w, qx, qy)] == dpre[pixel_index(w, qx, qy)]);
                    }
                }
                assert forall|qx: int, qy: int| 0 <= qx < w && 0 <= qy < h implies
                    #[trigger] color_buf@[pixel_index(w, qx, qy)]
                        == scan_color(tri, color, w, h, qx, qy, cx + 1, cy, d0[pixel_index(w, qx, qy)] as int, c0[pixel_index(w, qx, qy)]) by {
                    lemma_pixel_index(w, h, qx, qy, cx, cy);
                    if qx != cx || qy != cy {
                        assert(color_buf@[pixel_index(w, qx, qy)] == cpre[pixel_index(w, qx, qy)]);
                    }
                }
            }
            px = px + 1;
        }
        py = py + 1;
    }
}

pub open spec fn interp_spec(t: ScreenTriangle, s: int, wa: int, wb: int, wc: int) -> int {
    let num = wa * t.a.z + wb * t.b.z + wc * t.c.z;
    if s > 0 {
        num / s
    } else {
        (-num) / (-s)
    }
}

/// The interpolated depth `(wa za + wb zb + wc zc) / s` of a covered pixel.
fn interpolate(t: &ScreenTriangle, s: i128, wa: i128, wb: i128, wc: i128) -> (r: u32)
    requires
        s == area(*t),
        triangle_ok(*t),
        -0x10_0000_0000_0000_0000 <= s <= 0x10_0000_0000_0000_0000,
        -0x10_0000_0000_0000_0000 <= wa <= 0x10_0000_0000_0000_0000,
        -0x10_0000_0000_0000_0000 <= wb <= 0x10_0000_0000_0000_0000,
        -0x10_0000_0000_0000_0000 <= wc <= 0x10_0000_0000_0000_0000,
        (s > 0 && wa >= 0 && wb >= 0 && wc >= 0) || (s < 0 && wa <= 0 && wb <= 0 && wc <= 0),
        0 <= interp_spec(*t, s as int, wa as int, wb as int, wc as int) <= ONE,
    ensures
        r == interp_spec(*t, s as int, wa as int, wb as int, wc as int),
{
    let (za, zb, zc) = (t.a.z as i128, t.b.z as i128, t.c.z as i128);
    proof {
        lemma_weighted_bound(wa as int, za as int);
        lemma_weighted_bound(wb as int, zb as int);
        lemma_weighted_bound(wc as int, zc as int);
    }
    let num = wa * za + wb * zb + wc * zc;
    proof {
        let (a, b, c) = (wa as int, wb as int, wc as int);
        let (x, y, z) = (za as int, zb as int, zc as int);
        if s > 0 {
            assert(a * x + b * y + c * z >= 0) by (nonlinear_arith)
                requires
                    a >= 0, b >= 0, c >= 0, x >= 0, y >= 0, z >= 0,
            ;
        } else {
            assert(a * x + b * y + c * z <= 0) by (nonlinear_arith)
                requires
                    a <= 0, b <= 0, c <= 0, x >= 0, y >= 0, z >= 0,
            ;
        }
    }
    if s > 0 {
        (num / s) as u32
    } else {
        ((-num) / (-s)) as u32
    }
}

proof fn lemma_weighted_bound(w: int, z: int)
    requires
        -0x10_0000_0000_0000_0000 <= w <= 0x10_0000_0000_0000_0000,
        0 <= z <= 0xffff_ffff,
    ensures
        -0x10_0000_0000_0000_0000_0000_0000 <= w * z <= 0x10_0000_0000_0000_0000_0000_0000,
{
    assert(-0x10_0000_0000_0000_0000_0000_0000 <= w * z <= 0x10_0000_0000_0000_0000_0000_0000) by (nonlinear_arith)
        requires
            -0x10_0000_0000_0000_0000 <= w <= 0x10_0000_0000_0000_0000,
            0 <= z <= 0xffff_ffff,
    ;
}

/// Color after drawing `t` with `color` at pixel `(px, py)` over a stored depth and color.
pub open spec fn color_after(
    t: ScreenTriangle,
    color: u32,
    width: int,
    height: int,
    px: int,
    py: int,
    stored_depth: int,
    stored_color: u32,
) -> u32 {
    if writes(t, width, height, px, py, stored_depth) {
        color
    } else {
        stored_color
    }
}

/// The triangle reaches pixel `(px, py)`: in its bounding box and covered.
pub open spec fn reaches(t: ScreenTriangle, width: int, height: int, px: int, py: int) -> bool {
    in_box(t, width, height, px, py) && covers(t, px, py)
}

/// Sets every entry of the depth buffer to `DEPTH_FAR`.
pub fn clear_depth(depth_buf: &mut Vec<u32>)
    ensures
        final(depth_buf)@.len() == old(depth_buf)@.len(),
        forall|i: int| 0 <= i < final(depth_buf)@.len() ==> #[trigger] final(depth_buf)@[i] == DEPTH_FAR,
{
    fill(depth_buf, DEPTH_FAR);
}

/// Sets every entry of the color buffer to `background`.
pub fn clear_color(color_buf: &mut Vec<u32>, background: u32)
    ensures
        final(color_buf)@.len() == old(color_buf)@.len(),
        forall|i: int| 0 <= i < final(color_buf)@.len() ==> #[trigger] final(color_buf)@[i] == background,
{
    fill(color_buf, background);
}

fn fill(buf: &mut Vec<u32>, value: u32)
    ensures
        final(buf)@.len() == old(buf)@.len(),
        forall|i: int| 0 <= i < final(buf)@.len() ==> #[trigger] final(buf)@[i] == value,
{
    let n = buf.len();
    let mut k: usize = 0;
    while k < n
        invariant
            0 <= k <= n,
            n == buf@.len(),
            buf@.len() == old(buf)@.len(),
            forall|i: int| 0 <= i < k ==> #[trigger] buf@[i] == value,
        decreases n - k,
    {
        buf[k] = value;
        k = k + 1;
    }
}

/// Drawing two triangles in either order leaves the same depth and the same
/// color at a pixel, unless both reach it at the same depth; the color left is
/// that of the nearer triangle wherever it is nearer than what was stored.
pub proof fn lemma_draw_order(
    ta: ScreenTriangle,
    ca: u32,
    tb: ScreenTriangle,
    cb: u32,
    width: int,
    height: int,
    px: int,
    py: int,
    d: int,
    c: u32,
)
    requires
        !(reaches(ta, width, height, px, py) && reaches(tb, width, height, px, py) && depth_at(ta, px, py)
            == depth_at(tb, px, py)),
    ensures
        depth_after(tb, width, height, px, py, depth_after(ta, width, height, px, py, d))
            == depth_after(ta, width, height, px, py, depth_after(tb, width, height, px, py, d)),
        color_after(tb, cb, width, height, px, py, depth_after(ta, width, height, px, py, d),
            color_after(ta, ca, width, height, px, py, d, c))
            == color_after(ta, ca, width, height, px, py, depth_after(tb, width, height, px, py, d),
            color_after(tb, cb, width, height, px, py, d, c)),
        reaches(ta, width, height, px, py) && depth_at(ta, px, py) < d && (!reaches(tb, width, height, px, py)
            || depth_at(ta, px, py) < depth_at(tb, px, py)) ==> color_after(tb, cb, width, height, px, py,
            depth_after(ta, width, height, px, py, d), color_after(ta, ca, width, height, px, py, d, c)) == ca,
{
}

/// Over a cleared depth buffer, a triangle that reaches a pixel stores its
/// interpolated depth there.
pub proof fn lemma_first_draw(t: ScreenTriangle, width: int, height: int, px: int, py: int)
    requires
        triangle_ok(t),
        reaches(t, width, height, px, py),
    ensures
        depth_after(t, width, height, px, py, DEPTH_FAR as int) == depth_at(t, px, py),
        depth_after(t, width, height, px, py, DEPTH_FAR as int) < DEPTH_FAR,
{
    lemma_depth_range(t, px, py);
}

/// The whole depth buffer after drawing `t` over `d` (row-major, `width` per row).
pub open spec fn draw_depth(t: ScreenTriangle, width: int, height: int, d: Seq<u32>) -> Seq<u32> {
    Seq::new(d.len(), |i: int| depth_after(t, width, height, i % width, i / width, d[i] as int) as u32)
}

/// The whole color buffer after drawing `t` with `color` over depths `d` and colors `c`.
pub open spec fn draw_color(t: ScreenTriangle, color: u32, width: int, height: int, d: Seq<u32>, c: Seq<u32>) -> Seq<u32> {
    Seq::new(c.len(), |i: int| color_after(t, color, width, height, i % width, i / width, d[i] as int, c[i]))
}

/// Entry `i` of a buffer is pixel `(i % width, i / width)`.
proof fn lemma_index_split(width: int, height: int, i: int)
    requires
        0 <= i < width * height,
        width > 0,
    ensures
        0 <= i % width < width,
        0 <= i / width < height,
        pixel_index(width, i % width, i / width) == i,
{
    vstd::arithmetic::div_mod::lemma_fundamental_div_mod(i, width);
    vstd::arithmetic::div_mod::lemma_div_pos_is_pos(i, width);
    vstd::arithmetic::div_mod::lemma_mod_pos_bound(i, width);
    let (q, r) = (i / width, i % width);
    if q >= height {
        assert(width * q + r >= width * height) by (nonlinear_arith)
            requires
                q >= height,
                width > 0,
                r >= 0,
        ;
    }
    assert(q * width == width * q) by (nonlinear_arith);
}

/// Depth after a draw is what was stored or an interpolated depth, so it
/// never leaves the range of `u32`.
proof fn lemma_depth_after_range(t: ScreenTriangle, width: int, height: int, px: int, py: int, stored: u32)
    requires
        triangle_ok(t),
    ensures
        0 <= depth_after(t, width, height, px, py, stored as int) <= u32::MAX,
        depth_after(t, width, height, px, py, stored as int) <= stored,
{
    if writes(t, width, height, px, py, stored as int) {
        lemma_depth_range(t, px, py);
    }
}

/// Drawing two triangles over the same buffers in either order gives the
/// same depth buffer and the same color buffer, provided that no pixel is
/// reached by both at the same depth.
pub proof fn lemma_draw_commutes(
    ta: ScreenTriangle,
    ca: u32,
    tb: ScreenTriangle,
    cb: u32,
    width: int,
    height: int,
    d: Seq<u32>,
    c: Seq<u32>,
)
    requires
        width > 0,
        d.len() == width * height,
        c.len() == width * height,
        triangle_ok(ta),
        triangle_ok(tb),
        forall|px: int, py: int|
            0 <= px < width && 0 <= py < height ==> !(#[trigger] reaches(ta, width, height, px, py) && reaches(
                tb,
                width,
                height,
                px,
                py,
            ) && depth_at(ta, px, py) == depth_at(tb, px, py)),
    ensures
        draw_depth(tb, width, height, draw_depth(ta, width, height, d)) == draw_depth(
            ta,
            width,
            height,
            draw_depth(tb, width, height, d),
        ),
        draw_color(tb, cb, width, height, draw_depth(ta, width, height, d), draw_color(ta, ca, width, height, d, c))
            == draw_color(ta, ca, width, height, draw_depth(tb, width, height, d), draw_color(tb, cb, width, height, d, c)),
{
    let (da, db) = (draw_depth(ta, width, height, d), draw_depth(tb, width, height, d));
    let (x1, x2) = (draw_depth(tb, width, height, da), draw_depth(ta, width, height, db));
    let (y1, y2) = (
        draw_color(tb, cb, width, height, da, draw_color(ta, ca, width, height, d, c)),
        draw_color(ta, ca, width, height, db, draw_color(tb, cb, width, height, d, c)),
    );
    assert forall|i: int| #![trigger x1[i]] #![trigger y1[i]] 0 <= i < d.len() implies x1[i] == x2[i] && y1[i] == y2[i] by {
        lemma_index_split(width, height, i);
        let (px, py) = (i % width, i / width);
        assert(reaches(ta, width, height, px, py) ==> !(reaches(tb, width, height, px, py) && depth_at(ta, px, py)
            == depth_at(tb, px, py)));
        lemma_depth_after_range(ta, width, height, px, py, d[i]);
        lemma_depth_after_range(tb, width, height, px, py, d[i]);
        let a1 = depth_after(ta, width, height, px, py, d[i] as int);
        let b1 = depth_after(tb, width, height, px, py, d[i] as int);
        lemma_depth_after_range(tb, width, height, px, py, a1 as u32);
        lemma_depth_after_range(ta, width, height, px, py, b1 as u32);
        lemma_draw_order(ta, ca, tb, cb, width, height, px, py, d[i] as int, c[i]);
    }
    assert(x1 =~= x2);
    assert(y1 =~= y2);
}

/// Over a cleared depth buffer, a triangle that reaches every pixel leaves
/// each entry at its interpolated depth there, and none at `DEPTH_FAR`.
pub proof fn lemma_cover_all(t: ScreenTriangle, width: int, height: int, d: Seq<u32>)
    requires
        width > 0,
        d.len() == width * height,
        triangle_ok(t),
        forall|i: int| 0 <= i < d.len() ==> #[trigger] d[i] == DEPTH_FAR,
        forall|px: int, py: int| 0 <= px < width && 0 <= py < height ==> #[trigger] reaches(t, width, height, px, py),
    ensures
        forall|i: int|
            0 <= i < d.len() ==> #[trigger] draw_depth(t, width, height, d)[i] == depth_at(t, i % width, i / width),
        forall|i: int| 0 <= i < d.len() ==> #[trigger] draw_depth(t, width, height, d)[i] != DEPTH_FAR,
{
    assert forall|i: int| 0 <= i < d.len() implies #[trigger] draw_depth(t, width, height, d)[i] == depth_at(
        t,
        i % width,
        i / width,
    ) && draw_depth(t, width, height, d)[i] != DEPTH_FAR by {
        lemma_index_split(width, height, i);
        assert(reaches(t, width, height, i % width, i / width));
        assert(d[i] == DEPTH_FAR);
        lemma_first_draw(t, width, height, i % width, i / width);
        lemma_depth_range(t, i % width, i / width);
    }
}

/// Under the top-left rule two triangles that share the edge `a b` from
/// opposite sides never both cover a pixel: the shared edge is drawn once.
pub proof fn lemma_shared_edge_exclusive(a: ScreenVertex, b: ScreenVertex, c: ScreenVertex, d: ScreenVertex, px: int, py: int)
    requires
        a.x != b.x || a.y != b.y,
        area(ScreenTriangle { a, b, c }) > 0,
        area(ScreenTriangle { a: b, b: a, c: d }) > 0,
    ensures
        !(covers(ScreenTriangle { a, b, c }, px, py) && covers(ScreenTriangle { a: b, b: a, c: d }, px, py)),
{
    let (ax, ay, bx, by) = (2 * a.x as int, 2 * a.y as int, 2 * b.x as int, 2 * b.y as int);
    let (qx, qy) = (2 * px + 1, 2 * py + 1);
    lemma_expand(bx, ax, qy, ay);
    lemma_expand(by, ay, qx, ax);
    lemma_expand(ax, bx, qy, by);
    lemma_expand(ay, by, qx, bx);
    assert(edge_at(b, a, px, py) == -edge_at(a, b, px, py));
}

} // verus!

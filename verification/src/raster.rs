//! Scan conversion of one screen-space triangle.
//!
//! A triangle covers, in every row of cells strictly below its topmost
//! vertex row and down to its bottommost one, the closed interval between
//! the leftmost and the rightmost edge crossing of that row. The luma of a
//! covered cell is interpolated at the cell's centre with barycentric
//! weights. A triangle of zero area covers nothing.

use vstd::prelude::*;
use crate::drawables::{ColorLuma, Triangle, Vec2};
use crate::fixed::{
    cell_center, cell_of, div_floor, lemma_product_bound, quotient, saturate, saturate_i128, to_cell,
};
use crate::palette::{code_of, palette_code};

verus! {

/// The edge function of the directed edge `a -> b` at `c`: twice the signed
/// area of the triangle `a`, `b`, `c`.
pub open spec fn spec_edge_function(a: (int, int), b: (int, int), c: (int, int)) -> int {
    (c.0 - a.0) * (b.1 - a.1) - (c.1 - a.1) * (b.0 - a.0)
}

/// Vertex `i` of a triangle, as a pair of mathematical integers.
pub open spec fn vertex(t: Triangle, i: int) -> (int, int) {
    (t.points[i].0 as int, t.points[i].1 as int)
}

/// Twice the signed area of a triangle.
pub open spec fn area(t: Triangle) -> int {
    spec_edge_function(vertex(t, 0), vertex(t, 1), vertex(t, 2))
}

/// The three vertex lumas, each weighted by the edge function of the
/// opposite edge at `p`. Divided by the area this is the interpolated luma.
pub open spec fn weighted_luma(t: Triangle, p: (int, int)) -> int {
    t.colors[0] * spec_edge_function(vertex(t, 1), vertex(t, 2), p)
        + t.colors[1] * spec_edge_function(vertex(t, 2), vertex(t, 0), p)
        + t.colors[2] * spec_edge_function(vertex(t, 0), vertex(t, 1), p)
}

/// The luma of a triangle at `p`, by barycentric interpolation of the
/// vertex lumas, rounded down and limited to the range of a scalar.
pub open spec fn luma_at(t: Triangle, p: (int, int)) -> int {
    saturate(quotient(weighted_luma(t, p), area(t)))
}

/// The cell that holds vertex `i` of a screen-space triangle.
pub open spec fn vertex_cell(t: Triangle, i: int) -> (int, int) {
    (cell_of(t.points[i].0 as int), cell_of(t.points[i].1 as int))
}

/// Whether the edge between the cells `a` and `b` crosses row `y`. An edge
/// crosses every row below its upper end down to its lower end: the upper
/// end's own row is left out, and a horizontal edge crosses no row.
pub open spec fn crosses(a: (int, int), b: (int, int), y: int) -> bool {
    (a.1 < y <= b.1) || (b.1 < y <= a.1)
}

/// The column in which the edge between the cells `a` and `b` crosses row
/// `y`: the linear interpolation between the two ends, rounded down.
pub open spec fn edge_x(a: (int, int), b: (int, int), y: int) -> int {
    if a.1 <= b.1 {
        a.0 + ((y - a.1) * (b.0 - a.0)) / (b.1 - a.1)
    } else {
        b.0 + ((y - b.1) * (a.0 - b.0)) / (a.1 - b.1)
    }
}

/// A span of columns, widened by the crossing of one more edge.
pub open spec fn widen(span: Option<(int, int)>, a: (int, int), b: (int, int), y: int) -> Option<
    (int, int),
> {
    if crosses(a, b, y) {
        let x = edge_x(a, b, y);
        match span {
            None => Some((x, x)),
            Some((lo, hi)) => Some((if x < lo { x } else { lo }, if x > hi { x } else { hi })),
        }
    } else {
        span
    }
}

/// The closed interval of columns between the leftmost and the rightmost
/// edge crossing of row `y`, or `None` where no edge crosses the row.
pub open spec fn row_span(t: Triangle, y: int) -> Option<(int, int)> {
    let c0 = vertex_cell(t, 0);
    let c1 = vertex_cell(t, 1);
    let c2 = vertex_cell(t, 2);
    widen(widen(widen(None, c0, c1, y), c1, c2, y), c2, c0, y)
}

/// Whether a screen-space triangle covers the cell in column `x` of row
/// `y`.
pub open spec fn covers(t: Triangle, x: int, y: int) -> bool {
    &&& area(t) != 0
    &&& row_span(t, y) matches Some((lo, hi))
    &&& lo <= x <= hi
}

/// The palette code that a screen-space triangle gives to the cell in
/// column `x` of row `y`.
pub open spec fn cell_code(t: Triangle, x: int, y: int) -> u8 {
    code_of(t.color_palette, luma_at(t, (cell_center(x), cell_center(y)))) as u8
}

/// A grid of cells, `w` to a row, after a screen-space triangle was filled
/// into it: covered cells get the triangle's code, the others keep theirs.
pub open spec fn paint(cells: Seq<u8>, w: int, t: Triangle) -> Seq<u8> {
    Seq::new(
        cells.len(),
        |i: int|
            if covers(t, i % w, i / w) {
                cell_code(t, i % w, i / w)
            } else {
                cells[i]
            },
    )
}

/// The mathematical value of an executable span.
pub open spec fn span_view(span: Option<(i32, i32)>) -> Option<(int, int)> {
    match span {
        None => None,
        Some((lo, hi)) => Some((lo as int, hi as int)),
    }
}

/// Cell coordinates stay well inside the range of `i32`.
pub open spec fn in_cell_range(c: (i32, i32)) -> bool {
    &&& -8388608 <= c.0 < 8388608
    &&& -8388608 <= c.1 < 8388608
}

/// An interpolated crossing lies between the columns of the edge's ends.
pub proof fn lemma_edge_x_between(a: (int, int), b: (int, int), y: int)
    requires
        crosses(a, b, y),
    ensures
        a.0 <= edge_x(a, b, y) <= b.0 || b.0 <= edge_x(a, b, y) <= a.0,
{
    let (t, u) = if a.1 <= b.1 { (a, b) } else { (b, a) };
    let k = y - t.1;
    let d = u.1 - t.1;
    let m = u.0 - t.0;
    assert(edge_x(a, b, y) == t.0 + (k * m) / d);
    if m >= 0 {
        assert(0 <= (k * m) / d <= m) by (nonlinear_arith)
            requires
                0 < k <= d,
                m >= 0,
        ;
    } else {
        assert(m <= (k * m) / d <= 0) by (nonlinear_arith)
            requires
                0 < k <= d,
                m < 0,
        ;
    }
}

/// The edge function of the directed edge `a -> b` at `c`.
pub fn edge_function(a: Vec2, b: Vec2, c: Vec2) -> (e: i128)
    ensures
        e == spec_edge_function(
            (a.0 as int, a.1 as int),
            (b.0 as int, b.1 as int),
            (c.0 as int, c.1 as int),
        ),
        -0x2_0000_0000_0000_0000 <= e <= 0x2_0000_0000_0000_0000,
{
    let cx: i128 = c.0 as i128 - a.0 as i128;
    let cy: i128 = c.1 as i128 - a.1 as i128;
    let bx: i128 = b.0 as i128 - a.0 as i128;
    let by: i128 = b.1 as i128 - a.1 as i128;
    proof {
        lemma_product_bound(cx as int, by as int, 0x1_0000_0000, 0x1_0000_0000);
        lemma_product_bound(cy as int, bx as int, 0x1_0000_0000, 0x1_0000_0000);
    }
    cx * by - cy * bx
}

/// Interpolates the vertex lumas of a triangle at `point` with barycentric
/// weights. A triangle of zero area has no weights, and gives `None`.
pub fn get_barycentric(point: Vec2, triangle: &Triangle) -> (luma: Option<ColorLuma>)
    ensures
        luma is None <==> area(*triangle) == 0,
        luma matches Some(l) ==> l == luma_at(*triangle, (point.0 as int, point.1 as int)),
{
    let total: i128 = edge_function(triangle.points[0], triangle.points[1], triangle.points[2]);
    if total == 0 {
        return None;
    }
    let e0: i128 = edge_function(triangle.points[1], triangle.points[2], point);
    let e1: i128 = edge_function(triangle.points[2], triangle.points[0], point);
    let e2: i128 = edge_function(triangle.points[0], triangle.points[1], point);
    let l0: i128 = triangle.colors[0] as i128;
    let l1: i128 = triangle.colors[1] as i128;
    let l2: i128 = triangle.colors[2] as i128;
    proof {
        lemma_product_bound(l0 as int, e0 as int, 0x8000_0000, 0x2_0000_0000_0000_0000);
        lemma_product_bound(l1 as int, e1 as int, 0x8000_0000, 0x2_0000_0000_0000_0000);
        lemma_product_bound(l2 as int, e2 as int, 0x8000_0000, 0x2_0000_0000_0000_0000);
    }
    let sum: i128 = l0 * e0 + l1 * e1 + l2 * e2;
    let luma: i128 = if total > 0 {
        div_floor(sum, total)
    } else {
        div_floor(-sum, -total)
    };
    Some(saturate_i128(luma))
}

/// Widens a span by the crossing of the edge between the cells `a` and
/// `b`, if that edge crosses row `y`.
fn widen_span(span: Option<(i32, i32)>, a: (i32, i32), b: (i32, i32), y: i32) -> (wider: Option<
    (i32, i32),
>)
    requires
        in_cell_range(a),
        in_cell_range(b),
        span matches Some(s) ==> in_cell_range(s),
    ensures
        span_view(wider) == widen(
            span_view(span),
            (a.0 as int, a.1 as int),
            (b.0 as int, b.1 as int),
            y as int,
        ),
        wider matches Some(s) ==> in_cell_range(s),
{
    let (top, bottom) = if a.1 <= b.1 { (a, b) } else { (b, a) };
    if top.1 < y && y <= bottom.1 {
        let rows: i128 = y as i128 - top.1 as i128;
        let run: i128 = bottom.0 as i128 - top.0 as i128;
        let rise: i128 = bottom.1 as i128 - top.1 as i128;
        proof {
            lemma_product_bound(rows as int, run as int, 0x100_0000, 0x100_0000);
            lemma_edge_x_between((a.0 as int, a.1 as int), (b.0 as int, b.1 as int), y as int);
        }
        let step: i128 = div_floor(rows * run, rise);
        let x: i32 = (top.0 as i128 + step) as i32;
        match span {
            None => Some((x, x)),
            Some((lo, hi)) => Some((if x < lo { x } else { lo }, if x > hi { x } else { hi })),
        }
    } else {
        span
    }
}

/// The span of columns that a screen-space triangle reaches in row `y`,
/// whatever its area.
pub fn scan_row(triangle: &Triangle, y: i32) -> (span: Option<(i32, i32)>)
    ensures
        span_view(span) == row_span(*triangle, y as int),
        span matches Some(s) ==> in_cell_range(s),
{
    let c0: (i32, i32) = (to_cell(triangle.points[0].0), to_cell(triangle.points[0].1));
    let c1: (i32, i32) = (to_cell(triangle.points[1].0), to_cell(triangle.points[1].1));
    let c2: (i32, i32) = (to_cell(triangle.points[2].0), to_cell(triangle.points[2].1));
    let first: Option<(i32, i32)> = widen_span(None, c0, c1, y);
    let second: Option<(i32, i32)> = widen_span(first, c1, c2, y);
    widen_span(second, c2, c0, y)
}

/// The palette code that a screen-space triangle gives to the cell in
/// column `x` of row `y`, or `None` for a triangle of zero area.
pub fn shade_cell(triangle: &Triangle, x: u16, y: u16) -> (code: Option<u8>)
    ensures
        code is None <==> area(*triangle) == 0,
        code matches Some(c) ==> c == cell_code(*triangle, x as int, y as int),
{
    let center: Vec2 = (x as i32 * 256 + 128, y as i32 * 256 + 128);
    match get_barycentric(center, triangle) {
        None => None,
        Some(luma) => Some(palette_code(triangle.color_palette, luma)),
    }
}

} // verus!

//! What holds of every triangle that is scan-converted: of the barycentric
//! weights and the lumas they interpolate, and of the cells that a triangle
//! covers.

use vstd::prelude::*;
use vstd::arithmetic::mul::{
    lemma_mul_is_associative, lemma_mul_is_commutative, lemma_mul_is_distributive_add_other_way,
    lemma_mul_is_distributive_sub,
};
use crate::drawables::Triangle;
use crate::fixed::{cell_center, lemma_quotient_between};
use crate::palette::code_of;
use crate::raster::{
    area, cell_code, covers, crosses, edge_x, lemma_edge_x_between, luma_at, paint,
    spec_edge_function, vertex, vertex_cell, weighted_luma,
};

verus! {

proof fn lemma_product_of_differences(x: int, u: int, v: int, w: int)
    by (nonlinear_arith)
    ensures
        (x - u) * (v - w) == x * v - x * w - u * v + u * w,
        x * v == v * x,
        x * w == w * x,
        u * v == v * u,
        u * w == w * u,
{
}

/// The three edge functions of a triangle add up to its area at every
/// point: the barycentric weights sum to one.
pub proof fn lemma_weights_sum_to_one(t: Triangle, p: (int, int))
    ensures
        spec_edge_function(vertex(t, 1), vertex(t, 2), p) + spec_edge_function(
            vertex(t, 2),
            vertex(t, 0),
            p,
        ) + spec_edge_function(vertex(t, 0), vertex(t, 1), p) == area(t),
{
    let a = vertex(t, 0);
    let b = vertex(t, 1);
    let c = vertex(t, 2);
    lemma_product_of_differences(p.0, b.0, c.1, b.1);
    lemma_product_of_differences(p.1, b.1, c.0, b.0);
    lemma_product_of_differences(p.0, c.0, a.1, c.1);
    lemma_product_of_differences(p.1, c.1, a.0, c.0);
    lemma_product_of_differences(p.0, a.0, b.1, a.1);
    lemma_product_of_differences(p.1, a.1, b.0, a.0);
    lemma_product_of_differences(c.0, a.0, b.1, a.1);
    lemma_product_of_differences(c.1, a.1, b.0, a.0);
}

/// Whether `p` is the combination of the three points `a`, `b`, `c` with
/// the weights `wa`, `wb`, `wc`, taken relative to their sum.
pub open spec fn is_combination(
    p: (int, int),
    a: (int, int),
    b: (int, int),
    c: (int, int),
    wa: int,
    wb: int,
    wc: int,
) -> bool {
    &&& (wa + wb + wc) * p.0 == wa * a.0 + wb * b.0 + wc * c.0
    &&& (wa + wb + wc) * p.1 == wa * a.1 + wb * b.1 + wc * c.1
}

proof fn lemma_cross_of_combination(
    s: int,
    dx: int,
    dy: int,
    ux: int,
    uy: int,
    wx: int,
    wy: int,
    a: int,
    b: int,
)
    requires
        s * dx == a * ux + b * wx,
        s * dy == a * uy + b * wy,
    ensures
        s * (dx * wy - dy * wx) == a * (ux * wy - uy * wx),
{
    lemma_mul_is_distributive_sub(s, dx * wy, dy * wx);
    lemma_mul_is_associative(s, dx, wy);
    lemma_mul_is_associative(s, dy, wx);
    lemma_mul_is_distributive_add_other_way(wy, a * ux, b * wx);
    lemma_mul_is_distributive_add_other_way(wx, a * uy, b * wy);
    lemma_mul_is_associative(a, ux, wy);
    lemma_mul_is_associative(b, wx, wy);
    lemma_mul_is_associative(a, uy, wx);
    lemma_mul_is_associative(b, wy, wx);
    lemma_mul_is_commutative(wx, wy);
    lemma_mul_is_distributive_sub(a, ux * wy, uy * wx);
}

/// The edge function is the same for the three rotations of its
/// arguments.
pub proof fn lemma_edge_function_is_cyclic(a: (int, int), b: (int, int), c: (int, int))
    ensures
        spec_edge_function(b, c, a) == spec_edge_function(a, b, c),
        spec_edge_function(c, a, b) == spec_edge_function(a, b, c),
{
    lemma_product_of_differences(c.0, a.0, b.1, a.1);
    lemma_product_of_differences(c.1, a.1, b.0, a.0);
    lemma_product_of_differences(a.0, b.0, c.1, b.1);
    lemma_product_of_differences(a.1, b.1, c.0, b.0);
    lemma_product_of_differences(b.0, c.0, a.1, c.1);
    lemma_product_of_differences(b.1, c.1, a.0, c.0);
}

proof fn lemma_shifted_combination(
    s: int,
    wa: int,
    wb: int,
    wc: int,
    p: int,
    a: int,
    b: int,
    c: int,
)
    requires
        s == wa + wb + wc,
        s * p == wa * a + wb * b + wc * c,
    ensures
        s * (p - b) == wa * (a - b) + wc * (c - b),
{
    lemma_mul_is_distributive_sub(s, p, b);
    lemma_mul_is_distributive_add_other_way(b, wa + wb, wc);
    lemma_mul_is_distributive_add_other_way(b, wa, wb);
    lemma_mul_is_distributive_sub(wa, a, b);
    lemma_mul_is_distributive_sub(wc, c, b);
}

/// The edge function opposite a vertex recovers the weight of that vertex:
/// at the combination of `a`, `b`, `c` with weights `wa`, `wb`, `wc`, the
/// edge function of `b -> c` is `wa` parts in `wa + wb + wc` of the area.
proof fn lemma_edge_function_of_combination(
    p: (int, int),
    a: (int, int),
    b: (int, int),
    c: (int, int),
    wa: int,
    wb: int,
    wc: int,
)
    requires
        is_combination(p, a, b, c, wa, wb, wc),
    ensures
        (wa + wb + wc) * spec_edge_function(b, c, p) == wa * spec_edge_function(a, b, c),
{
    let s = wa + wb + wc;
    lemma_shifted_combination(s, wa, wb, wc, p.0, a.0, b.0, c.0);
    lemma_shifted_combination(s, wa, wb, wc, p.1, a.1, b.1, c.1);
    lemma_cross_of_combination(
        s,
        p.0 - b.0,
        p.1 - b.1,
        a.0 - b.0,
        a.1 - b.1,
        c.0 - b.0,
        c.1 - b.1,
        wa,
        wc,
    );
    lemma_edge_function_is_cyclic(a, b, c);
}

proof fn lemma_share_is_proper(s: int, w: int, e: int, total: int)
    by (nonlinear_arith)
    requires
        0 < w < s,
        s * e == w * total,
        total != 0,
    ensures
        total > 0 ==> 0 < e < total,
        total < 0 ==> total < e < 0,
{
}

/// Barycentric partition: at a point strictly inside a triangle of
/// nonzero area, that is at a combination of the three vertices with
/// positive weights, each of the three edge functions is a proper share of
/// the area, with the area's sign. So each barycentric weight lies strictly
/// between zero and one, and by [`lemma_weights_sum_to_one`] they sum to
/// one.
pub proof fn lemma_barycentric_partition(t: Triangle, p: (int, int), w0: int, w1: int, w2: int)
    requires
        area(t) != 0,
        w0 > 0,
        w1 > 0,
        w2 > 0,
        is_combination(p, vertex(t, 0), vertex(t, 1), vertex(t, 2), w0, w1, w2),
    ensures
        ({
            let e0 = spec_edge_function(vertex(t, 1), vertex(t, 2), p);
            let e1 = spec_edge_function(vertex(t, 2), vertex(t, 0), p);
            let e2 = spec_edge_function(vertex(t, 0), vertex(t, 1), p);
            &&& e0 + e1 + e2 == area(t)
            &&& area(t) > 0 ==> 0 < e0 < area(t) && 0 < e1 < area(t) && 0 < e2 < area(t)
            &&& area(t) < 0 ==> area(t) < e0 < 0 && area(t) < e1 < 0 && area(t) < e2 < 0
        }),
{
    let a = vertex(t, 0);
    let b = vertex(t, 1);
    let c = vertex(t, 2);
    let s = w0 + w1 + w2;
    lemma_weights_sum_to_one(t, p);
    lemma_edge_function_of_combination(p, a, b, c, w0, w1, w2);
    lemma_edge_function_of_combination(p, b, c, a, w1, w2, w0);
    lemma_edge_function_of_combination(p, c, a, b, w2, w0, w1);
    lemma_edge_function_is_cyclic(a, b, c);
    lemma_share_is_proper(s, w0, spec_edge_function(b, c, p), area(t));
    lemma_share_is_proper(s, w1, spec_edge_function(c, a, p), area(t));
    lemma_share_is_proper(s, w2, spec_edge_function(a, b, p), area(t));
}

/// Where the three vertices carry one luma, every point of the plane gets
/// exactly that luma.
pub proof fn lemma_uniform_luma(t: Triangle, p: (int, int))
    requires
        area(t) != 0,
        t.colors[0] == t.colors[1],
        t.colors[1] == t.colors[2],
    ensures
        luma_at(t, p) == t.colors[0],
{
    lemma_weights_sum_to_one(t, p);
    let l = t.colors[0] as int;
    let e0 = spec_edge_function(vertex(t, 1), vertex(t, 2), p);
    let e1 = spec_edge_function(vertex(t, 2), vertex(t, 0), p);
    let e2 = spec_edge_function(vertex(t, 0), vertex(t, 1), p);
    let total = area(t);
    assert(weighted_luma(t, p) == l * total) by (nonlinear_arith)
        requires
            weighted_luma(t, p) == l * e0 + l * e1 + l * e2,
            e0 + e1 + e2 == total,
    ;
    if total > 0 {
        assert((l * total) / total == l) by (nonlinear_arith)
            requires
                total > 0,
        ;
    } else {
        assert((-(l * total)) / (-total) == l) by (nonlinear_arith)
            requires
                total < 0,
        ;
    }
}

/// A triangle whose vertices carry one luma gives one palette code to
/// every cell.
pub proof fn lemma_uniform_code(t: Triangle, x: int, y: int)
    requires
        area(t) != 0,
        t.colors[0] == t.colors[1],
        t.colors[1] == t.colors[2],
    ensures
        cell_code(t, x, y) == code_of(t.color_palette, t.colors[0] as int),
{
    lemma_uniform_luma(t, (cell_center(x), cell_center(y)));
}

proof fn lemma_weighted_mean_between(
    l0: int,
    l1: int,
    l2: int,
    e0: int,
    e1: int,
    e2: int,
    lo: int,
    hi: int,
)
    by (nonlinear_arith)
    requires
        e0 >= 0,
        e1 >= 0,
        e2 >= 0,
        lo <= l0 <= hi,
        lo <= l1 <= hi,
        lo <= l2 <= hi,
    ensures
        lo * (e0 + e1 + e2) <= l0 * e0 + l1 * e1 + l2 * e2 <= hi * (e0 + e1 + e2),
{
    assert(lo * e0 <= l0 * e0 <= hi * e0);
    assert(lo * e1 <= l1 * e1 <= hi * e1);
    assert(lo * e2 <= l2 * e2 <= hi * e2);
}

/// Inside a triangle the interpolated luma stays between the lumas of the
/// vertices: at a combination of the three vertices with positive weights
/// it is at least `lo` and at most `hi`, if the three vertex lumas are.
pub proof fn lemma_luma_between_vertices(
    t: Triangle,
    p: (int, int),
    w0: int,
    w1: int,
    w2: int,
    lo: int,
    hi: int,
)
    requires
        area(t) != 0,
        w0 > 0,
        w1 > 0,
        w2 > 0,
        is_combination(p, vertex(t, 0), vertex(t, 1), vertex(t, 2), w0, w1, w2),
        lo <= t.colors[0] <= hi,
        lo <= t.colors[1] <= hi,
        lo <= t.colors[2] <= hi,
    ensures
        lo <= luma_at(t, p) <= hi,
{
    lemma_barycentric_partition(t, p, w0, w1, w2);
    let e0 = spec_edge_function(vertex(t, 1), vertex(t, 2), p);
    let e1 = spec_edge_function(vertex(t, 2), vertex(t, 0), p);
    let e2 = spec_edge_function(vertex(t, 0), vertex(t, 1), p);
    let l0 = t.colors[0] as int;
    let l1 = t.colors[1] as int;
    let l2 = t.colors[2] as int;
    let total = area(t);
    let sum = weighted_luma(t, p);
    assert(sum == l0 * e0 + l1 * e1 + l2 * e2);
    if total > 0 {
        lemma_weighted_mean_between(l0, l1, l2, e0, e1, e2, lo, hi);
        lemma_quotient_between(sum, total, lo, hi);
    } else {
        lemma_weighted_mean_between(l0, l1, l2, -e0, -e1, -e2, lo, hi);
        assert(l0 * (-e0) + l1 * (-e1) + l2 * (-e2) == -sum) by (nonlinear_arith)
            requires
                sum == l0 * e0 + l1 * e1 + l2 * e2,
        ;
        lemma_quotient_between(-sum, -total, lo, hi);
    }
}

/// A triangle of zero area fills nothing.
pub proof fn lemma_zero_area_paints_nothing(cells: Seq<u8>, w: int, t: Triangle)
    requires
        area(t) == 0,
    ensures
        paint(cells, w, t) == cells,
{
    assert(paint(cells, w, t) =~= cells);
}

/// A triangle with a repeated vertex has zero area.
pub proof fn lemma_repeated_vertex_has_zero_area(t: Triangle)
    requires
        t.points[0] == t.points[1] || t.points[1] == t.points[2] || t.points[2] == t.points[0],
    ensures
        area(t) == 0,
{
    let a = vertex(t, 0);
    let b = vertex(t, 1);
    let c = vertex(t, 2);
    assert((c.0 - a.0) * (b.1 - a.1) - (c.1 - a.1) * (b.0 - a.0) == 0) by (nonlinear_arith)
        requires
            a == b || b == c || c == a,
    ;
}

/// A triangle fills only rows below its topmost vertex row, down to its
/// bottommost one, and only columns between its leftmost and its rightmost
/// vertex column.
pub proof fn lemma_covered_cell_in_bounding_box(t: Triangle, x: int, y: int)
    requires
        covers(t, x, y),
    ensures
        ({
            let c0 = vertex_cell(t, 0);
            let c1 = vertex_cell(t, 1);
            let c2 = vertex_cell(t, 2);
            &&& c0.1 < y || c1.1 < y || c2.1 < y
            &&& y <= c0.1 || y <= c1.1 || y <= c2.1
            &&& c0.0 <= x || c1.0 <= x || c2.0 <= x
            &&& x <= c0.0 || x <= c1.0 || x <= c2.0
        }),
{
    let c0 = vertex_cell(t, 0);
    let c1 = vertex_cell(t, 1);
    let c2 = vertex_cell(t, 2);
    if crosses(c0, c1, y) {
        lemma_edge_x_between(c0, c1, y);
    }
    if crosses(c1, c2, y) {
        lemma_edge_x_between(c1, c2, y);
    }
    if crosses(c2, c0, y) {
        lemma_edge_x_between(c2, c0, y);
    }
}

/// No seam along an edge: in every row that an edge of a triangle
/// crosses, the triangle covers the cell of the crossing. Two triangles
/// that share an edge both cover the cells of that edge, so no cell
/// between them is left out.
pub proof fn lemma_edge_cells_are_covered(t: Triangle, y: int)
    requires
        area(t) != 0,
    ensures
        crosses(vertex_cell(t, 0), vertex_cell(t, 1), y) ==> covers(
            t,
            edge_x(vertex_cell(t, 0), vertex_cell(t, 1), y),
            y,
        ),
        crosses(vertex_cell(t, 1), vertex_cell(t, 2), y) ==> covers(
            t,
            edge_x(vertex_cell(t, 1), vertex_cell(t, 2), y),
            y,
        ),
        crosses(vertex_cell(t, 2), vertex_cell(t, 0), y) ==> covers(
            t,
            edge_x(vertex_cell(t, 2), vertex_cell(t, 0), y),
            y,
        ),
{
}

/// An edge crosses the same rows in the same columns whichever of its ends
/// is named first: two triangles that share an edge agree on its cells.
pub proof fn lemma_edge_is_undirected(a: (int, int), b: (int, int), y: int)
    ensures
        crosses(a, b, y) == crosses(b, a, y),
        crosses(a, b, y) ==> edge_x(a, b, y) == edge_x(b, a, y),
{
}

proof fn lemma_edge_function_is_antisymmetric(a: (int, int), b: (int, int), p: (int, int))
    ensures
        spec_edge_function(b, a, p) == -spec_edge_function(a, b, p),
{
    lemma_product_of_differences(p.0, a.0, b.1, a.1);
    lemma_product_of_differences(p.1, a.1, b.0, a.0);
    lemma_product_of_differences(p.0, b.0, a.1, b.1);
    lemma_product_of_differences(p.1, b.1, a.0, b.0);
}

/// The side of a crossing edge on which a cell lies is told by the sign of
/// the edge function, taken from the upper end `a` to the lower end `b`:
/// where it is not negative the cell is at or right of the crossing, where
/// it is not positive the cell is at or left of it.
proof fn lemma_side_of_edge(a: (int, int), b: (int, int), p: (int, int))
    requires
        a.1 < p.1 <= b.1,
    ensures
        spec_edge_function(a, b, p) >= 0 ==> edge_x(a, b, p.1) <= p.0,
        spec_edge_function(a, b, p) <= 0 ==> p.0 <= edge_x(a, b, p.1),
{
    let d = b.1 - a.1;
    let n = (p.1 - a.1) * (b.0 - a.0);
    let r = p.0 - a.0;
    assert(spec_edge_function(a, b, p) == r * d - n);
    assert(edge_x(a, b, p.1) == a.0 + n / d);
    if r * d - n >= 0 {
        assert(n / d <= r) by (nonlinear_arith)
            requires
                d > 0,
                n <= r * d,
        ;
    }
    if r * d - n <= 0 {
        assert(r <= n / d) by (nonlinear_arith)
            requires
                d > 0,
                r * d <= n,
        ;
    }
}

/// A weighted mean of three numbers with positive weights lies between
/// them: unless the three are equal, one of them is below it and one above.
proof fn lemma_mean_is_inside(w0: int, w1: int, w2: int, v0: int, v1: int, v2: int, m: int)
    by (nonlinear_arith)
    requires
        w0 > 0,
        w1 > 0,
        w2 > 0,
        (w0 + w1 + w2) * m == w0 * v0 + w1 * v1 + w2 * v2,
    ensures
        (v0 < m || v1 < m || v2 < m) || (v0 == m && v1 == m && v2 == m),
        (v0 > m || v1 > m || v2 > m) || (v0 == m && v1 == m && v2 == m),
{
    assert(w0 * (v0 - m) + w1 * (v1 - m) + w2 * (v2 - m) == 0);
    if v0 >= m && v1 >= m && v2 >= m {
        assert(w0 * (v0 - m) >= 0 && w1 * (v1 - m) >= 0 && w2 * (v2 - m) >= 0);
        assert(w0 * (v0 - m) == 0 && w1 * (v1 - m) == 0 && w2 * (v2 - m) == 0);
    }
    if v0 <= m && v1 <= m && v2 <= m {
        assert(w0 * (v0 - m) <= 0 && w1 * (v1 - m) <= 0 && w2 * (v2 - m) <= 0);
        assert(w0 * (v0 - m) == 0 && w1 * (v1 - m) == 0 && w2 * (v2 - m) == 0);
    }
}

/// What one edge of a triangle tells of a cell inside it, where the edge
/// crosses the cell's row: the edge function from `a` to `b` has the sign
/// of the area, and the crossing lies on the matching side.
proof fn lemma_crossing_bounds_cell(a: (int, int), b: (int, int), p: (int, int))
    requires
        crosses(a, b, p.1),
    ensures
        a.1 < b.1 && spec_edge_function(a, b, p) > 0 ==> edge_x(a, b, p.1) <= p.0,
        a.1 < b.1 && spec_edge_function(a, b, p) < 0 ==> p.0 <= edge_x(a, b, p.1),
        b.1 < a.1 && spec_edge_function(a, b, p) > 0 ==> p.0 <= edge_x(a, b, p.1),
        b.1 < a.1 && spec_edge_function(a, b, p) < 0 ==> edge_x(a, b, p.1) <= p.0,
{
    if a.1 < b.1 {
        lemma_side_of_edge(a, b, p);
    } else {
        lemma_side_of_edge(b, a, p);
        lemma_edge_function_is_antisymmetric(a, b, p);
        lemma_edge_is_undirected(a, b, p.1);
    }
}

/// No cell inside a triangle is left out: a cell that is a combination,
/// with positive weights, of the three cells that hold the vertices is
/// covered, unless those three cells lie on one line.
pub proof fn lemma_inner_cells_are_covered(
    t: Triangle,
    x: int,
    y: int,
    w0: int,
    w1: int,
    w2: int,
)
    requires
        area(t) != 0,
        spec_edge_function(vertex_cell(t, 0), vertex_cell(t, 1), vertex_cell(t, 2)) != 0,
        w0 > 0,
        w1 > 0,
        w2 > 0,
        is_combination((x, y), vertex_cell(t, 0), vertex_cell(t, 1), vertex_cell(t, 2), w0, w1, w2),
    ensures
        covers(t, x, y),
{
    let a = vertex_cell(t, 0);
    let b = vertex_cell(t, 1);
    let c = vertex_cell(t, 2);
    let p = (x, y);
    let s = w0 + w1 + w2;
    let total = spec_edge_function(a, b, c);
    // Each edge function at the cell is a proper share of the area.
    lemma_edge_function_of_combination(p, a, b, c, w0, w1, w2);
    lemma_edge_function_of_combination(p, b, c, a, w1, w2, w0);
    lemma_edge_function_of_combination(p, c, a, b, w2, w0, w1);
    lemma_edge_function_is_cyclic(a, b, c);
    lemma_share_is_proper(s, w0, spec_edge_function(b, c, p), total);
    lemma_share_is_proper(s, w1, spec_edge_function(c, a, p), total);
    lemma_share_is_proper(s, w2, spec_edge_function(a, b, p), total);
    // The row of the cell lies between the rows of the vertices.
    lemma_mean_is_inside(w0, w1, w2, a.1, b.1, c.1, y);
    if a.1 == y && b.1 == y && c.1 == y {
        assert((c.0 - a.0) * (b.1 - a.1) == 0 && (c.1 - a.1) * (b.0 - a.0) == 0)
            by (nonlinear_arith)
            requires
                b.1 - a.1 == 0,
                c.1 - a.1 == 0,
        ;
    }
    // Every crossing lies on the side that the sign of the area tells.
    if crosses(a, b, y) {
        lemma_crossing_bounds_cell(a, b, p);
    }
    if crosses(b, c, y) {
        lemma_crossing_bounds_cell(b, c, p);
    }
    if crosses(c, a, y) {
        lemma_crossing_bounds_cell(c, a, p);
    }
}

} // verus!

//! The frame: a grid of palette codes, the projection that places world
//! coordinates on it, and the passes that fill submitted triangles and
//! points into it.

use vstd::prelude::*;
use vstd::arithmetic::div_mod::{
    lemma_fundamental_div_mod, lemma_fundamental_div_mod_converse, lemma_mod_pos_bound,
};
use crate::drawables::{Camera, Point, TextEntry, Triangle, Vec2};
use crate::drawingcontext::{blank_grid, DrawingContext};
use crate::fixed::{
    cell_of, div_nearest, lemma_nearest_bounds, lemma_product_bound, nearest, saturate,
    saturate_i128, to_cell,
};
use crate::palette::{code_of, palette_code};
use crate::present::render;
use crate::raster::{area, cell_code, covers, edge_function, paint, scan_row, shade_cell};
use crate::raster_laws::{lemma_repeated_vertex_has_zero_area, lemma_zero_area_paints_nothing};

verus! {

/// The screen coordinate of a world `x`: scaled by the reference height of
/// the viewport (a sixty-third of its rows), by the zoom and by the
/// width-to-height ratio of a character cell (17 to 8), as the nearest
/// scalar, then moved so that the origin falls on the middle column. The
/// divisor is 63 * 8 * 256.
pub open spec fn project_x(x: int, camera: Camera) -> int {
    saturate(nearest(x * camera.size.1 * camera.zoom * 17, 129024) + camera.size.0 * 128)
}

/// The screen coordinate of a world `y`: scaled by the reference height of
/// the viewport and by the zoom, as the nearest scalar, then moved so that
/// the origin falls on the middle row. The divisor is 63 * 256.
pub open spec fn project_y(y: int, camera: Camera) -> int {
    saturate(nearest(y * camera.size.1 * camera.zoom, 16128) + camera.size.1 * 128)
}

/// The screen-space image of a world-space point.
pub open spec fn project(v: Vec2, camera: Camera) -> Vec2 {
    (project_x(v.0 as int, camera) as i32, project_y(v.1 as int, camera) as i32)
}

/// The screen-space image of a world-space triangle.
pub open spec fn project_triangle(t: Triangle, camera: Camera) -> Triangle {
    Triangle {
        points: [
            project(t.points[0], camera),
            project(t.points[1], camera),
            project(t.points[2], camera),
        ],
        colors: t.colors,
        color_palette: t.color_palette,
    }
}

/// The origin of the world is shown in the exact middle of the viewport,
/// whatever the zoom.
pub proof fn lemma_origin_projects_to_center(camera: Camera)
    ensures
        project((0i32, 0i32), camera) == ((camera.size.0 * 128) as i32, (camera.size.1 * 128) as i32),
{
    assert(0 * camera.size.1 * camera.zoom * 17 == 0) by (nonlinear_arith);
    assert(0 * camera.size.1 * camera.zoom == 0) by (nonlinear_arith);
    assert(nearest(0, 129024) == 129024int / 258048 && nearest(0, 16128) == 16128int / 32256);
}

/// The step that the two round trips share. A bound `q` is the nearest
/// integer to `n / (2 * k)`, where `n` is `2 * c * m`; its image `p` is the
/// nearest integer to `q * k / m`. Then `p` misses `c` by no more than half
/// of `k / m` and half a unit; and the image of `-q` misses `-c` as little.
proof fn lemma_there_and_back(n: int, k: int, m: int, c: int, q: int, p: int, p_neg: int)
    by (nonlinear_arith)
    requires
        k > 0,
        m > 0,
        n == 2 * c * m,
        (2 * q - 1) * (2 * k) <= 2 * n < (2 * q + 1) * (2 * k),
        (2 * p - 1) * m <= 2 * (q * k) < (2 * p + 1) * m,
        (2 * p_neg - 1) * m <= 2 * (-q * k) < (2 * p_neg + 1) * m,
    ensures
        -(k + m) <= 2 * m * (p - c) <= k + m,
        -(k + m) <= 2 * m * (p_neg + c) <= k + m,
{
    assert((2 * q - 1) * (2 * k) == 4 * (q * k) - 2 * k);
    assert((2 * q + 1) * (2 * k) == 4 * (q * k) + 2 * k);
    assert((2 * p - 1) * m == 2 * (p * m) - m && (2 * p + 1) * m == 2 * (p * m) + m);
    assert((2 * p_neg - 1) * m == 2 * (p_neg * m) - m && (2 * p_neg + 1) * m == 2 * (p_neg * m)
        + m);
    assert(2 * (-q * k) == -(2 * (q * k)));
    assert(2 * m * (p - c) == 2 * (p * m) - 2 * c * m);
    assert(2 * m * (p_neg + c) == 2 * (p_neg * m) + 2 * c * m);
}

/// How far a coordinate that stops at the ends of a scalar's range is from
/// a target inside the range: no farther than before it stopped.
proof fn lemma_saturate_is_closer(v: int, target: int, m: int, bound: int)
    by (nonlinear_arith)
    requires
        m > 0,
        i32::MIN <= target <= i32::MAX,
        -bound <= 2 * m * (v - target) <= bound,
    ensures
        -bound <= 2 * m * (saturate(v) - target) <= bound,
{
}

/// An error whose multiple stays within a reach is a small share of a size,
/// where the reach is a small share of the size's multiple.
proof fn lemma_small_share(error: int, m: int, reach: int, size: int)
    by (nonlinear_arith)
    requires
        m > 0,
        -reach <= 2 * m * error <= reach,
        10000 * reach <= 2 * m * size,
    ensures
        -size <= 10000 * error <= size,
{
    assert(2 * m * (10000 * error) <= 2 * m * size);
    assert(2 * m * (10000 * error) >= -(2 * m * size));
}

/// The bounds are the inverse of the projection. The point at the bounds
/// is shown at the far corner of the viewport, `(size.0, size.1)` cells
/// from its origin, and the point at the negated bounds at the origin of
/// the viewport. Each coordinate misses its mark by no more than half a
/// scalar step and half the image of one: by half of `1 + scale`, where
/// `scale` is the number of screen steps to a step of the world,
/// `size.1 * zoom * 17 / 129024` in `x` and `size.1 * zoom / 16128` in `y`.
/// This holds of every camera whose horizontal bound fits a scalar.
pub proof fn lemma_bounds_round_trip(camera: Camera)
    requires
        camera.wf(),
        nearest(camera.size.0 * 63 * 8 * 256 * 256, camera.size.1 * camera.zoom * 17 * 2)
            <= i32::MAX,
    ensures
        ({
            let reach = camera.size.1 * camera.zoom * 17 + 129024;
            let far = project_x(camera.bound_x(), camera) - camera.size.0 * 256;
            let near = project_x(-camera.bound_x(), camera);
            &&& -reach <= 2 * 129024 * far <= reach
            &&& -reach <= 2 * 129024 * near <= reach
        }),
        ({
            let reach = camera.size.1 * camera.zoom + 16128;
            let far = project_y(camera.bound_y(), camera) - camera.size.1 * 256;
            let near = project_y(-camera.bound_y(), camera);
            &&& -reach <= 2 * 16128 * far <= reach
            &&& -reach <= 2 * 16128 * near <= reach
        }),
{
    let w = camera.size.0 as int;
    let h = camera.size.1 as int;
    let z = camera.zoom as int;
    let hz = h * z;
    assert(hz > 0) by (nonlinear_arith)
        requires
            hz == h * z,
            h > 0,
            z > 0,
    ;
    assert(h * z * 17 * 2 == 2 * (hz * 17) && h * z * 17 == hz * 17 && h * z * 2 == 2 * hz);
    // The horizontal bound, its image and the image of its negative.
    let qx = nearest(w * 33030144, 2 * (hz * 17));
    lemma_nearest_bounds(w * 33030144, 2 * (hz * 17));
    assert(qx >= 0) by (nonlinear_arith)
        requires
            2 * (w * 33030144) < (2 * qx + 1) * (2 * (hz * 17)),
            w >= 0,
            hz > 0,
    ;
    assert(camera.bound_x() == qx);
    let px = nearest(qx * h * z * 17, 129024);
    let nx = nearest((-qx) * h * z * 17, 129024);
    assert(qx * h * z * 17 == qx * (hz * 17) && (-qx) * h * z * 17 == -qx * (hz * 17))
        by (nonlinear_arith)
        requires
            hz == h * z,
    ;
    lemma_nearest_bounds(qx * (hz * 17), 129024);
    lemma_nearest_bounds(-qx * (hz * 17), 129024);
    lemma_there_and_back(w * 33030144, hz * 17, 129024, 128 * w, qx, px, nx);
    lemma_saturate_is_closer(px + 128 * w, 256 * w, 129024, hz * 17 + 129024);
    lemma_saturate_is_closer(nx + 128 * w, 0, 129024, hz * 17 + 129024);
    // The vertical bound, its image and the image of its negative.
    let qy = nearest(h * 4128768, 2 * hz);
    lemma_nearest_bounds(h * 4128768, 2 * hz);
    assert(0 <= qy <= 2064385) by (nonlinear_arith)
        requires
            (2 * qy - 1) * (2 * hz) <= 2 * (h * 4128768) < (2 * qy + 1) * (2 * hz),
            hz == h * z,
            h > 0,
            z >= 1,
    ;
    assert(camera.bound_y() == qy);
    let py = nearest(qy * h * z, 16128);
    let ny = nearest((-qy) * h * z, 16128);
    assert(qy * h * z == qy * hz && (-qy) * h * z == -qy * hz) by (nonlinear_arith)
        requires
            hz == h * z,
    ;
    lemma_nearest_bounds(qy * hz, 16128);
    lemma_nearest_bounds(-qy * hz, 16128);
    lemma_there_and_back(h * 4128768, hz, 16128, 128 * h, qy, py, ny);
    lemma_saturate_is_closer(py + 128 * h, 256 * h, 16128, hz + 16128);
    lemma_saturate_is_closer(ny + 128 * h, 0, 16128, hz + 16128);
}

/// The round trip is close where the viewport is wide and high enough for
/// the scale: the point at the bounds is then shown within one part in ten
/// thousand of the viewport's size from the far corner, and the point at
/// the negated bounds as near to the origin of the viewport.
pub proof fn lemma_bounds_round_trip_is_close(camera: Camera)
    requires
        camera.wf(),
        nearest(camera.size.0 * 63 * 8 * 256 * 256, camera.size.1 * camera.zoom * 17 * 2)
            <= i32::MAX,
        10000 * (camera.size.1 * camera.zoom * 17 + 129024) <= 66060288 * camera.size.0,
        10000 * (camera.size.1 * camera.zoom + 16128) <= 8257536 * camera.size.1,
    ensures
        ({
            let far = project_x(camera.bound_x(), camera) - camera.size.0 * 256;
            let near = project_x(-camera.bound_x(), camera);
            &&& -(256 * camera.size.0) <= 10000 * far <= 256 * camera.size.0
            &&& -(256 * camera.size.0) <= 10000 * near <= 256 * camera.size.0
        }),
        ({
            let far = project_y(camera.bound_y(), camera) - camera.size.1 * 256;
            let near = project_y(-camera.bound_y(), camera);
            &&& -(256 * camera.size.1) <= 10000 * far <= 256 * camera.size.1
            &&& -(256 * camera.size.1) <= 10000 * near <= 256 * camera.size.1
        }),
{
    lemma_bounds_round_trip(camera);
    let w = camera.size.0 as int;
    let h = camera.size.1 as int;
    let reach_x = camera.size.1 * camera.zoom * 17 + 129024;
    let reach_y = camera.size.1 * camera.zoom + 16128;
    lemma_small_share(project_x(camera.bound_x(), camera) - w * 256, 129024, reach_x, 256 * w);
    lemma_small_share(project_x(-camera.bound_x(), camera), 129024, reach_x, 256 * w);
    lemma_small_share(project_y(camera.bound_y(), camera) - h * 256, 16128, reach_y, 256 * h);
    lemma_small_share(project_y(-camera.bound_y(), camera), 16128, reach_y, 256 * h);
}

/// The point at the bounds is shown in the last column and the last row of
/// the viewport or just beyond them, within half a cell of the far corner.
/// This holds of every camera whose horizontal bound fits a scalar and
/// that shows a step of the world narrower than a cell.
pub proof fn lemma_bounds_project_to_edge(camera: Camera)
    requires
        camera.wf(),
        camera.size.1 * camera.zoom * 17 <= 255 * 129024,
        nearest(camera.size.0 * 63 * 8 * 256 * 256, camera.size.1 * camera.zoom * 17 * 2)
            <= i32::MAX,
    ensures
        camera.size.0 * 256 - 128 <= project_x(camera.bound_x(), camera) <= camera.size.0 * 256
            + 128,
        camera.size.1 * 256 - 128 <= project_y(camera.bound_y(), camera) <= camera.size.1 * 256
            + 128,
        cell_of(project_x(camera.bound_x(), camera)) == camera.size.0 - 1 || cell_of(
            project_x(camera.bound_x(), camera),
        ) == camera.size.0,
        cell_of(project_y(camera.bound_y(), camera)) == camera.size.1 - 1 || cell_of(
            project_y(camera.bound_y(), camera),
        ) == camera.size.1,
{
    lemma_bounds_round_trip(camera);
    assert(camera.size.1 * camera.zoom <= camera.size.1 * camera.zoom * 17) by (nonlinear_arith)
        requires
            camera.size.1 > 0,
            camera.zoom > 0,
    ;
}

/// Projects a world-space point into screen space, in units of a character
/// cell. Coordinates that leave the range of a scalar stop at its ends.
pub fn vertex_shader(input: &Vec2, camera: &Camera) -> (output: Vec2)
    ensures
        output == project(*input, *camera),
        input.0 == 0 ==> output.0 == camera.size.0 * 128,
        input.1 == 0 ==> output.1 == camera.size.1 * 128,
{
    let h: i128 = camera.size.1 as i128;
    let z: i128 = camera.zoom as i128;
    let x: i128 = input.0 as i128;
    let y: i128 = input.1 as i128;
    proof {
        lemma_product_bound(x as int, h as int, 0x8000_0000, 0xffff);
        lemma_product_bound(y as int, h as int, 0x8000_0000, 0xffff);
        lemma_product_bound((x * h) as int, z as int, 0x7fff_8000_0000, 0x8000_0000);
        lemma_product_bound((y * h) as int, z as int, 0x7fff_8000_0000, 0x8000_0000);
        assert(x == 0 ==> x * h * z * 17 == 0) by (nonlinear_arith);
        assert(y == 0 ==> y * h * z == 0) by (nonlinear_arith);
    }
    let sx: i128 = div_nearest(x * h * z * 17, 129024) + camera.size.0 as i128 * 128;
    let sy: i128 = div_nearest(y * h * z, 16128) + camera.size.1 as i128 * 128;
    (saturate_i128(sx), saturate_i128(sy))
}

/// Projects the three vertices of a triangle; lumas and colour family stay.
pub fn shade_triangle(triangle: &Triangle, camera: &Camera) -> (shaded: Triangle)
    ensures
        shaded == project_triangle(*triangle, *camera),
{
    Triangle {
        points: [
            vertex_shader(&triangle.points[0], camera),
            vertex_shader(&triangle.points[1], camera),
            vertex_shader(&triangle.points[2], camera),
        ],
        colors: triangle.colors,
        color_palette: triangle.color_palette,
    }
}

/// A grid after the cell in column `x` of row `y` was given the code `v`.
/// A position outside the grid changes nothing.
pub open spec fn plot(cells: Seq<u8>, size: (u16, u16), x: int, y: int, v: u8) -> Seq<u8> {
    if 0 <= x < size.0 && 0 <= y < size.1 {
        cells.update(y * size.0 + x, v)
    } else {
        cells
    }
}

/// A grid after a world-space point was drawn into it: the cell that holds
/// the point's projection gets the point's palette code.
pub open spec fn plot_point(cells: Seq<u8>, size: (u16, u16), p: Point, camera: Camera) -> Seq<u8> {
    let s = project(p.position, camera);
    plot(
        cells,
        size,
        cell_of(s.0 as int),
        cell_of(s.1 as int),
        code_of(p.color_palette, p.color as int) as u8,
    )
}

/// A grid after world-space points were drawn into it, in their order.
pub open spec fn plot_points(cells: Seq<u8>, size: (u16, u16), points: Seq<Point>, camera: Camera) -> Seq<u8>
    decreases points.len(),
{
    if points.len() == 0 {
        cells
    } else {
        plot_point(plot_points(cells, size, points.drop_last(), camera), size, points.last(), camera)
    }
}

/// A grid of `w` cells to a row after world-space triangles were projected
/// and filled into it, in their order: a later triangle paints over an
/// earlier one.
pub open spec fn paint_triangles(cells: Seq<u8>, w: int, triangles: Seq<Triangle>, camera: Camera) -> Seq<u8>
    decreases triangles.len(),
{
    if triangles.len() == 0 {
        cells
    } else {
        paint(
            paint_triangles(cells, w, triangles.drop_last(), camera),
            w,
            project_triangle(triangles.last(), camera),
        )
    }
}

/// Triangles that all have zero area on the screen leave the grid as it
/// is.
pub proof fn lemma_flat_triangles_paint_nothing(
    cells: Seq<u8>,
    w: int,
    triangles: Seq<Triangle>,
    camera: Camera,
)
    requires
        forall|i: int|
            0 <= i < triangles.len() ==> area(#[trigger] project_triangle(triangles[i], camera))
                == 0,
    ensures
        paint_triangles(cells, w, triangles, camera) == cells,
    decreases triangles.len(),
{
    if triangles.len() > 0 {
        lemma_flat_triangles_paint_nothing(cells, w, triangles.drop_last(), camera);
        lemma_zero_area_paints_nothing(cells, w, project_triangle(triangles.last(), camera));
    }
}

/// A triangle with a repeated vertex has zero area on the screen, under
/// every camera.
pub proof fn lemma_repeated_vertex_stays_flat(t: Triangle, camera: Camera)
    requires
        t.points[0] == t.points[1] || t.points[1] == t.points[2] || t.points[2] == t.points[0],
    ensures
        area(project_triangle(t, camera)) == 0,
{
    lemma_repeated_vertex_has_zero_area(project_triangle(t, camera));
}

/// A grid in which a triangle has been filled into the rows above `y` and
/// into the columns left of `x` in row `y`.
spec fn paint_partial(cells: Seq<u8>, w: int, t: Triangle, y: int, x: int) -> Seq<u8> {
    Seq::new(
        cells.len(),
        |i: int|
            if (i / w < y || (i / w == y && i % w < x)) && covers(t, i % w, i / w) {
                cell_code(t, i % w, i / w)
            } else {
                cells[i]
            },
    )
}

proof fn lemma_cell_position(i: int, w: int, h: int)
    requires
        0 <= i < w * h,
        w > 0,
    ensures
        0 <= i % w < w,
        0 <= i / w < h,
        i == (i / w) * w + i % w,
{
    lemma_fundamental_div_mod(i, w);
    lemma_mod_pos_bound(i, w);
    let q = i / w;
    let r = i % w;
    assert(i == w * q + r);
    assert(0 <= q < h) by (nonlinear_arith)
        requires
            0 <= w * q + r < w * h,
            0 <= r < w,
            w > 0,
    ;
    assert(w * q == q * w) by (nonlinear_arith);
}

proof fn lemma_cell_index(x: int, y: int, w: int, h: int)
    requires
        0 <= x < w,
        0 <= y < h,
    ensures
        0 <= y * w + x < w * h,
        (y * w + x) / w == y,
        (y * w + x) % w == x,
{
    assert(0 <= y * w + x < w * h) by (nonlinear_arith)
        requires
            0 <= x < w,
            0 <= y < h,
    ;
    lemma_fundamental_div_mod_converse(y * w + x, w, y, x);
}

/// The frame: the grid and what was submitted for drawing.
pub struct AsciiContext {
    bitmap: Vec<u8>,
    size: (u16, u16),
    triangles: Vec<Triangle>,
    points: Vec<Point>,
    text_entries: Vec<TextEntry>,
}

/// A vector of `size.0 * size.1` background codes.
fn blank_bitmap(size: (u16, u16)) -> (bitmap: Vec<u8>)
    ensures
        bitmap@ == blank_grid(size),
{
    assert(size.0 * size.1 <= 65535 * 65535) by (nonlinear_arith)
        requires
            size.0 <= 65535,
            size.1 <= 65535,
    ;
    let n: usize = size.0 as usize * size.1 as usize;
    let bitmap: Vec<u8> = vec![0u8; n];
    assert(bitmap@ =~= blank_grid(size));
    bitmap
}

impl AsciiContext {
    /// A frame of the given size, blank and without submissions.
    pub fn new(size: (u16, u16)) -> (ctx: AsciiContext)
        ensures
            ctx.wf(),
            ctx.size() == size,
            ctx.cells() == blank_grid(size),
            ctx.triangles() == Seq::<Triangle>::empty(),
            ctx.points() == Seq::<Point>::empty(),
            ctx.text_entries() == Seq::<TextEntry>::empty(),
    {
        AsciiContext {
            bitmap: blank_bitmap(size),
            size,
            triangles: Vec::with_capacity(100),
            points: Vec::with_capacity(100),
            text_entries: Vec::with_capacity(10),
        }
    }

    /// The place in the grid of the cell at `pos`, a (column, row) pair.
    fn index_of(&self, pos: (u16, u16)) -> (i: usize)
        requires
            self.wf(),
            pos.0 < self.size.0,
            pos.1 < self.size.1,
        ensures
            i == pos.1 * self.size.0 + pos.0,
            i < self.bitmap@.len(),
    {
        proof {
            lemma_cell_index(pos.0 as int, pos.1 as int, self.size.0 as int, self.size.1 as int);
            lemma_product_bound(pos.1 as int, self.size.0 as int, 65535, 65535);
        }
        pos.1 as usize * self.size.0 as usize + pos.0 as usize
    }

    /// The number of columns and of rows.
    pub fn get_size(&self) -> (size: (u16, u16))
        ensures
            size == self.size(),
    {
        self.size
    }

    /// The code of the cell at `pos`, a (column, row) pair, or `None` for
    /// a position outside the grid.
    pub fn get(&self, pos: (u16, u16)) -> (code: Option<u8>)
        requires
            self.wf(),
        ensures
            code is Some <==> pos.0 < self.size().0 && pos.1 < self.size().1,
            code matches Some(v) ==> v == self.cells()[pos.1 * self.size().0 + pos.0],
    {
        if pos.0 < self.size.0 && pos.1 < self.size.1 {
            let i: usize = self.index_of(pos);
            Some(self.bitmap[i])
        } else {
            None
        }
    }

    /// Gives the cell at `pos`, a (column, row) pair, the code `v`. A
    /// position outside the grid is skipped.
    pub fn set(&mut self, pos: (u16, u16), v: u8)
        requires
            old(self).wf(),
        ensures
            final(self).wf(),
            final(self).size() == old(self).size(),
            final(self).cells() == plot(
                old(self).cells(),
                old(self).size(),
                pos.0 as int,
                pos.1 as int,
                v,
            ),
            final(self).triangles() == old(self).triangles(),
            final(self).points() == old(self).points(),
            final(self).text_entries() == old(self).text_entries(),
    {
        if pos.0 < self.size.0 && pos.1 < self.size.1 {
            let i: usize = self.index_of(pos);
            self.bitmap.set(i, v);
        }
    }

    /// Fills one screen-space triangle into the grid: every cell that the
    /// triangle covers gets the palette code of the luma interpolated at
    /// the cell's centre. Cells outside the grid are skipped, and a
    /// triangle of zero area fills nothing.
    pub fn fill_triangle(&mut self, t: &Triangle)
        requires
            old(self).wf(),
        ensures
            final(self).wf(),
            final(self).size() == old(self).size(),
            final(self).cells() == paint(old(self).cells(), old(self).size().0 as int, *t),
            final(self).triangles() == old(self).triangles(),
            final(self).points() == old(self).points(),
            final(self).text_entries() == old(self).text_entries(),
    {
        let ghost before = self.bitmap@;
        let w: u16 = self.size.0;
        let h: u16 = self.size.1;
        let ghost wi = w as int;
        let ghost hi = h as int;
        if w == 0 || h == 0 {
            assert(before.len() == 0) by (nonlinear_arith)
                requires
                    before.len() == w * h,
                    w == 0 || h == 0,
            ;
            assert(self.bitmap@ =~= paint(before, wi, *t));
            return ;
        }
        if edge_function(t.points[0], t.points[1], t.points[2]) == 0 {
            assert(self.bitmap@ =~= paint(before, wi, *t));
            return ;
        }
        let y0: i32 = to_cell(t.points[0].1);
        let y1: i32 = to_cell(t.points[1].1);
        let y2: i32 = to_cell(t.points[2].1);
        let top: i32 = if y0 <= y1 && y0 <= y2 {
            y0
        } else if y1 <= y2 {
            y1
        } else {
            y2
        };
        let bottom: i32 = if y0 >= y1 && y0 >= y2 {
            y0
        } else if y1 >= y2 {
            y1
        } else {
            y2
        };
        let first: i32 = if top + 1 > 0 {
            top + 1
        } else {
            0
        };
        let last: i32 = if bottom < h as i32 - 1 {
            bottom
        } else {
            h as i32 - 1
        };
        assert forall|i: int| 0 <= i < before.len() implies before[i] == #[trigger] paint_partial(
            before,
            wi,
            *t,
            first as int,
            0,
        )[i] by {
            lemma_cell_position(i, wi, hi);
        }
        assert(self.bitmap@ =~= paint_partial(before, wi, *t, first as int, 0));
        let mut y: i32 = first;
        while y <= last
            invariant
                0 <= first <= y,
                last < h,
                w == self.size.0,
                h == self.size.1,
                wi == w,
                hi == h,
                w > 0,
                area(*t) != 0,
                top == if y0 <= y1 && y0 <= y2 {
                    y0
                } else if y1 <= y2 {
                    y1
                } else {
                    y2
                },
                bottom == if y0 >= y1 && y0 >= y2 {
                    y0
                } else if y1 >= y2 {
                    y1
                } else {
                    y2
                },
                y0 == cell_of(t.points[0].1 as int),
                y1 == cell_of(t.points[1].1 as int),
                y2 == cell_of(t.points[2].1 as int),
                last == if bottom < h - 1 {
                    bottom as int
                } else {
                    h - 1
                },
                before.len() == w * h,
                self.bitmap@ == paint_partial(before, wi, *t, y as int, 0),
                self.triangles@ == old(self).triangles@,
                self.points@ == old(self).points@,
                self.text_entries@ == old(self).text_entries@,
            decreases last - y + 1,
        {
            let ghost row_before = self.bitmap@;
            match scan_row(t, y) {
                None => {
                    assert(self.bitmap@ =~= paint_partial(before, wi, *t, y as int + 1, 0));
                },
                Some((lo, hi_x)) => {
                    let start: i32 = if lo > 0 {
                        lo
                    } else {
                        0
                    };
                    let end: i32 = if hi_x < w as i32 - 1 {
                        hi_x
                    } else {
                        w as i32 - 1
                    };
                    assert forall|i: int| 0 <= i < before.len() implies row_before[i]
                        == #[trigger] paint_partial(before, wi, *t, y as int, start as int)[i] by {
                        lemma_cell_position(i, wi, hi);
                    }
                    assert(self.bitmap@ =~= paint_partial(before, wi, *t, y as int, start as int));
                    let mut x: i32 = start;
                    while x <= end
                        invariant
                            0 <= start <= x,
                            end < w,
                            0 <= y < h,
                            w == self.size.0,
                            h == self.size.1,
                            wi == w,
                            hi == h,
                            area(*t) != 0,
                            crate::raster::row_span(*t, y as int) == Some((lo as int, hi_x as int)),
                            start == if lo > 0 {
                                lo as int
                            } else {
                                0
                            },
                            end <= hi_x,
                            before.len() == w * h,
                            self.bitmap@ == paint_partial(before, wi, *t, y as int, x as int),
                            self.triangles@ == old(self).triangles@,
                            self.points@ == old(self).points@,
                            self.text_entries@ == old(self).text_entries@,
                        decreases end - x + 1,
                    {
                        let ghost cell_before = self.bitmap@;
                        let code: Option<u8> = shade_cell(t, x as u16, y as u16);
                        proof {
                            lemma_cell_index(x as int, y as int, wi, hi);
                        }
                        match code {
                            Some(c) => {
                                self.set((x as u16, y as u16), c);
                            },
                            None => {},
                        }
                        assert forall|i: int| 0 <= i < before.len() implies self.bitmap@[i]
                            == #[trigger] paint_partial(before, wi, *t, y as int, x as int + 1)[i] by {
                            lemma_cell_position(i, wi, hi);
                        }
                        assert(self.bitmap@ =~= paint_partial(before, wi, *t, y as int, x as int + 1));
                        x = x + 1;
                    }
                    assert forall|i: int| 0 <= i < before.len() implies self.bitmap@[i]
                        == #[trigger] paint_partial(before, wi, *t, y as int + 1, 0)[i] by {
                        lemma_cell_position(i, wi, hi);
                    }
                    assert(self.bitmap@ =~= paint_partial(before, wi, *t, y as int + 1, 0));
                },
            }
            y = y + 1;
        }
        assert forall|i: int| 0 <= i < before.len() implies self.bitmap@[i] == #[trigger] paint(
            before,
            wi,
            *t,
        )[i] by {
            lemma_cell_position(i, wi, hi);
        }
        assert(self.bitmap@ =~= paint(before, wi, *t));
    }

    /// Projects every submitted triangle with the camera and fills it into
    /// the grid, in the order of submission. A cell outside the grid is
    /// skipped; a triangle of zero area on the screen fills nothing.
    pub fn draw_triangles(&mut self, camera: &Camera)
        requires
            old(self).wf(),
        ensures
            final(self).wf(),
            final(self).size() == old(self).size(),
            final(self).cells() == paint_triangles(
                old(self).cells(),
                old(self).size().0 as int,
                old(self).triangles(),
                *camera,
            ),
            final(self).triangles() == old(self).triangles(),
            final(self).points() == old(self).points(),
            final(self).text_entries() == old(self).text_entries(),
    {
        let n: usize = self.triangles.len();
        let mut i: usize = 0;
        while i < n
            invariant
                i <= n,
                n == self.triangles.len(),
                self.wf(),
                self.size == old(self).size,
                self.triangles@ == old(self).triangles@,
                self.points@ == old(self).points@,
                self.text_entries@ == old(self).text_entries@,
                self.bitmap@ == paint_triangles(
                    old(self).bitmap@,
                    self.size.0 as int,
                    self.triangles@.take(i as int),
                    *camera,
                ),
            decreases n - i,
        {
            let triangle: Triangle = self.triangles[i];
            let shaded: Triangle = shade_triangle(&triangle, camera);
            self.fill_triangle(&shaded);
            assert(self.triangles@.take(i as int + 1).drop_last() =~= self.triangles@.take(i as int));
            i = i + 1;
        }
        assert(self.triangles@.take(n as int) =~= self.triangles@);
    }

    /// Projects every submitted point with the camera and gives the cell
    /// that holds it the point's palette code, in the order of submission.
    /// A point outside the grid is skipped.
    pub fn draw_points(&mut self, camera: &Camera)
        requires
            old(self).wf(),
        ensures
            final(self).wf(),
            final(self).size() == old(self).size(),
            final(self).cells() == plot_points(
                old(self).cells(),
                old(self).size(),
                old(self).points(),
                *camera,
            ),
            final(self).triangles() == old(self).triangles(),
            final(self).points() == old(self).points(),
            final(self).text_entries() == old(self).text_entries(),
    {
        let n: usize = self.points.len();
        let mut i: usize = 0;
        while i < n
            invariant
                i <= n,
                n == self.points.len(),
                self.wf(),
                self.size == old(self).size,
                self.triangles@ == old(self).triangles@,
                self.points@ == old(self).points@,
                self.text_entries@ == old(self).text_entries@,
                self.bitmap@ == plot_points(
                    old(self).bitmap@,
                    self.size,
                    self.points@.take(i as int),
                    *camera,
                ),
            decreases n - i,
        {
            let point: Point = self.points[i];
            let position: Vec2 = vertex_shader(&point.position, camera);
            let x: i32 = to_cell(position.0);
            let y: i32 = to_cell(position.1);
            let code: u8 = palette_code(point.color_palette, point.color);
            if 0 <= x && x < self.size.0 as i32 && 0 <= y && y < self.size.1 as i32 {
                self.set((x as u16, y as u16), code);
            }
            assert(self.points@.take(i as int + 1).drop_last() =~= self.points@.take(i as int));
            i = i + 1;
        }
        assert(self.points@.take(n as int) =~= self.points@);
    }
}

impl DrawingContext for AsciiContext {
    closed spec fn wf(&self) -> bool {
        self.bitmap@.len() == self.size.0 * self.size.1
    }

    closed spec fn size(&self) -> (u16, u16) {
        self.size
    }

    closed spec fn cells(&self) -> Seq<u8> {
        self.bitmap@
    }

    closed spec fn triangles(&self) -> Seq<Triangle> {
        self.triangles@
    }

    closed spec fn points(&self) -> Seq<Point> {
        self.points@
    }

    closed spec fn text_entries(&self) -> Seq<TextEntry> {
        self.text_entries@
    }

    proof fn lemma_grid_is_full(&self) {
    }

    fn resize(&mut self, size: (u16, u16)) {
        self.bitmap = blank_bitmap(size);
        self.size = size;
    }

    fn clear(&mut self) {
        self.bitmap = blank_bitmap(self.size);
    }

    fn flush_text_entries(&mut self) {
        self.text_entries.clear();
    }

    fn flush_triangles(&mut self) {
        self.triangles.clear();
    }

    fn flush_points(&mut self) {
        self.points.clear();
    }

    fn add_text_entry(&mut self, text_entry: &TextEntry) {
        self.text_entries.push(text_entry.clone());
    }

    fn add_triangle(&mut self, triangle: &Triangle) {
        self.triangles.push(*triangle);
    }

    fn add_triangles(&mut self, triangles: &Vec<Triangle>) {
        let n: usize = triangles.len();
        let mut i: usize = 0;
        while i < n
            invariant
                i <= n,
                n == triangles.len(),
                self.wf(),
                self.size == old(self).size,
                self.bitmap@ == old(self).bitmap@,
                self.points@ == old(self).points@,
                self.text_entries@ == old(self).text_entries@,
                self.triangles@ == old(self).triangles@ + triangles@.take(i as int),
            decreases n - i,
        {
            self.triangles.push(triangles[i]);
            assert(self.triangles@ =~= old(self).triangles@ + triangles@.take(i as int + 1));
            i = i + 1;
        }
        assert(triangles@.take(n as int) =~= triangles@);
    }

    fn add_point(&mut self, point: &Point) {
        self.points.push(*point);
    }

    fn add_points(&mut self, points: &Vec<Point>) {
        let n: usize = points.len();
        let mut i: usize = 0;
        while i < n
            invariant
                i <= n,
                n == points.len(),
                self.wf(),
                self.size == old(self).size,
                self.bitmap@ == old(self).bitmap@,
                self.triangles@ == old(self).triangles@,
                self.text_entries@ == old(self).text_entries@,
                self.points@ == old(self).points@ + points@.take(i as int),
            decreases n - i,
        {
            self.points.push(points[i]);
            assert(self.points@ =~= old(self).points@ + points@.take(i as int + 1));
            i = i + 1;
        }
        assert(points@.take(n as int) =~= points@);
    }

    fn display(&mut self) -> (frame: String) {
        let frame: String = render(&self.bitmap, self.size, &self.text_entries);
        self.triangles.clear();
        self.points.clear();
        self.text_entries.clear();
        frame
    }
}

} // verus!

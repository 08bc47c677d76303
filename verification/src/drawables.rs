//! The value types that callers submit for drawing, and the camera that
//! places them on the screen.

use vstd::prelude::*;
use crate::fixed::{
    div_nearest, is_sqrt, isqrt, lemma_nearest_bounds, lemma_product_bound, nearest, saturate,
    saturate_i128,
};

verus! {

/// A point of the plane, in world or in screen space, as a pair of
/// fixed-point coordinates.
pub type Vec2 = (i32, i32);

/// A brightness sample in fixed point: `0` is black and `256` is full
/// brightness. Samples outside that range are clamped when quantized.
pub type ColorLuma = i32;

/// The square of the distance between two points.
pub open spec fn squared_distance(a: Vec2, b: Vec2) -> int {
    (a.0 - b.0) * (a.0 - b.0) + (a.1 - b.1) * (a.1 - b.1)
}

/// The distance between two points, rounded down: the integer square root
/// of the squared distance. A distance is below a radius `r > 0` exactly
/// when the squared distance is below `r * r`.
pub fn distance(a: Vec2, b: Vec2) -> (d: i64)
    ensures
        is_sqrt(d as int, squared_distance(a, b)),
{
    let dx: i128 = a.0 as i128 - b.0 as i128;
    let dy: i128 = a.1 as i128 - b.1 as i128;
    proof {
        lemma_product_bound(dx as int, dx as int, 0x1_0000_0000, 0x1_0000_0000);
        lemma_product_bound(dy as int, dy as int, 0x1_0000_0000, 0x1_0000_0000);
        assert(dx * dx >= 0 && dy * dy >= 0) by (nonlinear_arith);
    }
    let squared: i128 = dx * dx + dy * dy;
    let root: u64 = isqrt(squared as u128);
    assert(root < 0x1_0000_0000_0000) by (nonlinear_arith)
        requires
            root * root <= 0x2_0000_0000_0000_0000,
            root >= 0,
    ;
    root as i64
}

/// The distance of a point from the origin, rounded down.
pub fn length(a: Vec2) -> (d: i64)
    ensures
        is_sqrt(d as int, squared_distance(a, (0i32, 0i32))),
{
    distance(a, (0, 0))
}

/// A distance is below a positive radius exactly when the squared
/// distance is below the square of the radius: rounding the distance down
/// does not change which points a circle holds.
pub proof fn lemma_distance_below_radius(d: int, squared: int, r: int)
    by (nonlinear_arith)
    requires
        is_sqrt(d, squared),
        r > 0,
    ensures
        d < r <==> squared < r * r,
{
    if d < r {
        assert((d + 1) * (d + 1) <= r * r);
    } else {
        assert(r * r <= d * d);
    }
}

/// A colour family with its own brightness ramp. `Custom` has no ramp: the
/// integer part of the luma is used as the palette code itself.
#[derive(Clone, Copy, Debug, PartialEq, Eq, Structural)]
pub enum ColorPalette {
    Red,
    Green,
    Blue,
    Yellow,
    Magenta,
    Cyan,
    Gray,
    Custom,
}

/// The colour scheme of a text overlay.
#[derive(Clone, Copy, Debug, PartialEq, Eq, Structural)]
pub enum TextColorPalette {
    Text,
    Menu,
    Warning,
}

/// A triangle with one luma per vertex, interpolated across its surface.
#[derive(Clone, Copy, Debug)]
pub struct Triangle {
    pub points: [Vec2; 3],
    pub colors: [ColorLuma; 3],
    pub color_palette: ColorPalette,
}

/// A single cell-sized dot.
#[derive(Clone, Copy, Debug)]
pub struct Point {
    pub position: Vec2,
    pub color: ColorLuma,
    pub color_palette: ColorPalette,
}

impl Point {
    /// A black point at the origin, to start from.
    pub fn empty() -> (point: Point)
        ensures
            point.position == (0i32, 0i32),
            point.color == 0,
            point.color_palette == ColorPalette::Red,
    {
        Point { position: (0, 0), color: 0, color_palette: ColorPalette::Red }
    }
}

impl Triangle {
    /// A black triangle with all its vertices at the origin, to start
    /// from.
    pub fn empty() -> (triangle: Triangle)
        ensures
            forall|i: int| 0 <= i < 3 ==> #[trigger] triangle.points[i] == (0i32, 0i32),
            forall|i: int| 0 <= i < 3 ==> #[trigger] triangle.colors[i] == 0,
            triangle.color_palette == ColorPalette::Red,
    {
        Triangle {
            points: [(0, 0), (0, 0), (0, 0)],
            colors: [0, 0, 0],
            color_palette: ColorPalette::Red,
        }
    }
}

/// A line of text drawn over the grid; `position` is the zero-based
/// `(column, row)` of its first character.
#[derive(Debug)]
pub struct TextEntry {
    pub position: (u16, u16),
    pub string: String,
    pub color_palette: TextColorPalette,
}

impl Clone for TextEntry {
    fn clone(&self) -> (copy: Self)
        ensures
            copy == *self,
    {
        TextEntry {
            position: self.position,
            string: self.string.clone(),
            color_palette: self.color_palette,
        }
    }
}

/// The column at which a text of `length` cells starts when it is centred
/// in a row of `width` cells. A text that is too long starts at the first
/// column.
pub fn center(width: u16, length: usize) -> (column: u16)
    ensures
        column == if length >= width {
            0
        } else {
            (width - length) / 2
        },
{
    if length >= width as usize {
        0
    } else {
        (width - length as u16) / 2
    }
}

/// The viewer: the size of the viewport in cells and a fixed-point zoom.
#[derive(Clone, Copy, Debug)]
pub struct Camera {
    pub position: Vec2,
    pub size: (u16, u16),
    pub zoom: i32,
}

impl Camera {
    /// A camera is usable when its viewport is not empty and its zoom is
    /// positive.
    pub open spec fn wf(&self) -> bool {
        &&& self.size.0 > 0
        &&& self.size.1 > 0
        &&& self.zoom > 0
    }

    /// The horizontal half-extent of the visible world, the inverse of the
    /// scale that the projection applies to `x`: the width of the viewport,
    /// divided by the reference height, by the zoom, by the width-to-height
    /// ratio of a cell and by two, as the nearest scalar.
    pub open spec fn bound_x(&self) -> int {
        saturate(
            nearest(self.size.0 * 63 * 8 * 256 * 256, self.size.1 * self.zoom * 17 * 2),
        )
    }

    /// The vertical half-extent of the visible world: the height of the
    /// viewport, divided by the reference height, by the zoom and by two,
    /// as the nearest scalar.
    pub open spec fn bound_y(&self) -> int {
        saturate(nearest(self.size.1 * 63 * 256 * 256, self.size.1 * self.zoom * 2))
    }

    /// The half-extents of the part of the world that the camera shows,
    /// symmetric around the origin.
    pub fn get_bounds(&self) -> (bounds: (i32, i32))
        requires
            self.wf(),
        ensures
            bounds.0 == self.bound_x(),
            bounds.1 == self.bound_y(),
            bounds.0 >= 0,
            bounds.1 >= 0,
    {
        let w: i128 = self.size.0 as i128;
        let h: i128 = self.size.1 as i128;
        let z: i128 = self.zoom as i128;
        assert(0 < h * z <= 65535 * 2147483647) by (nonlinear_arith)
            requires
                0 < h <= 65535,
                0 < z <= 2147483647,
        ;
        let hz: i128 = h * z;
        let x: i128 = div_nearest(w * 33030144, hz * 34);
        let y: i128 = div_nearest(h * 4128768, hz * 2);
        proof {
            lemma_nearest_bounds(w * 33030144, hz * 34);
            lemma_nearest_bounds(h * 4128768, hz * 2);
            assert(x >= 0) by (nonlinear_arith)
                requires
                    2 * (w * 33030144) < (2 * x + 1) * (hz * 34),
                    w >= 0,
                    hz > 0,
            ;
            assert(y >= 0) by (nonlinear_arith)
                requires
                    2 * (h * 4128768) < (2 * y + 1) * (hz * 2),
                    h >= 0,
                    hz > 0,
            ;
        }
        (saturate_i128(x), saturate_i128(y))
    }
}

} // verus!

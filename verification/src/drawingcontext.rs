//! What a surface offers to the objects that draw on it.

use vstd::prelude::*;
use crate::drawables::{Point, TextEntry, Triangle};
use crate::present::frame_text;

verus! {

/// A grid of `size.0` columns and `size.1` rows in which every cell is the
/// background.
pub open spec fn blank_grid(size: (u16, u16)) -> Seq<u8> {
    Seq::new((size.0 * size.1) as nat, |i: int| 0u8)
}

/// A drawing surface: a grid of palette codes, and the lists of what was
/// submitted for the current frame. Submitting draws nothing; the lists are
/// kept until they are flushed or the frame is displayed.
pub trait DrawingContext {
    /// The grid has as many cells as its size says.
    spec fn wf(&self) -> bool;

    /// The number of columns and of rows.
    spec fn size(&self) -> (u16, u16);

    /// The palette codes of the grid, row after row.
    spec fn cells(&self) -> Seq<u8>;

    /// The triangles submitted and not yet flushed, oldest first.
    spec fn triangles(&self) -> Seq<Triangle>;

    /// The points submitted and not yet flushed, oldest first.
    spec fn points(&self) -> Seq<Point>;

    /// The text overlays submitted and not yet flushed, oldest first.
    spec fn text_entries(&self) -> Seq<TextEntry>;

    /// A surface that is well formed has one cell for every column of
    /// every row.
    proof fn lemma_grid_is_full(&self)
        requires
            self.wf(),
        ensures
            self.cells().len() == self.size().0 * self.size().1,
    ;

    /// Gives the grid a new size and makes every cell the background.
    fn resize(&mut self, size: (u16, u16))
        requires
            old(self).wf(),
        ensures
            final(self).wf(),
            final(self).size() == size,
            final(self).cells() == blank_grid(size),
            final(self).triangles() == old(self).triangles(),
            final(self).points() == old(self).points(),
            final(self).text_entries() == old(self).text_entries(),
    ;

    /// Makes every cell the background. The submissions stay.
    fn clear(&mut self)
        requires
            old(self).wf(),
        ensures
            final(self).wf(),
            final(self).size() == old(self).size(),
            final(self).cells() == blank_grid(old(self).size()),
            final(self).triangles() == old(self).triangles(),
            final(self).points() == old(self).points(),
            final(self).text_entries() == old(self).text_entries(),
    ;

    /// Forgets the submitted text overlays.
    fn flush_text_entries(&mut self)
        requires
            old(self).wf(),
        ensures
            final(self).wf(),
            final(self).size() == old(self).size(),
            final(self).cells() == old(self).cells(),
            final(self).triangles() == old(self).triangles(),
            final(self).points() == old(self).points(),
            final(self).text_entries() == Seq::<TextEntry>::empty(),
    ;

    /// Forgets the submitted triangles.
    fn flush_triangles(&mut self)
        requires
            old(self).wf(),
        ensures
            final(self).wf(),
            final(self).size() == old(self).size(),
            final(self).cells() == old(self).cells(),
            final(self).triangles() == Seq::<Triangle>::empty(),
            final(self).points() == old(self).points(),
            final(self).text_entries() == old(self).text_entries(),
    ;

    /// Forgets the submitted points.
    fn flush_points(&mut self)
        requires
            old(self).wf(),
        ensures
            final(self).wf(),
            final(self).size() == old(self).size(),
            final(self).cells() == old(self).cells(),
            final(self).triangles() == old(self).triangles(),
            final(self).points() == Seq::<Point>::empty(),
            final(self).text_entries() == old(self).text_entries(),
    ;

    /// Submits a text overlay.
    fn add_text_entry(&mut self, text_entry: &TextEntry)
        requires
            old(self).wf(),
        ensures
            final(self).wf(),
            final(self).size() == old(self).size(),
            final(self).cells() == old(self).cells(),
            final(self).triangles() == old(self).triangles(),
            final(self).points() == old(self).points(),
            final(self).text_entries() == old(self).text_entries().push(*text_entry),
    ;

    /// Submits a triangle.
    fn add_triangle(&mut self, triangle: &Triangle)
        requires
            old(self).wf(),
        ensures
            final(self).wf(),
            final(self).size() == old(self).size(),
            final(self).cells() == old(self).cells(),
            final(self).triangles() == old(self).triangles().push(*triangle),
            final(self).points() == old(self).points(),
            final(self).text_entries() == old(self).text_entries(),
    ;

    /// Submits triangles, in their order.
    fn add_triangles(&mut self, triangles: &Vec<Triangle>)
        requires
            old(self).wf(),
        ensures
            final(self).wf(),
            final(self).size() == old(self).size(),
            final(self).cells() == old(self).cells(),
            final(self).triangles() == old(self).triangles() + triangles@,
            final(self).points() == old(self).points(),
            final(self).text_entries() == old(self).text_entries(),
    ;

    /// Submits a point.
    fn add_point(&mut self, point: &Point)
        requires
            old(self).wf(),
        ensures
            final(self).wf(),
            final(self).size() == old(self).size(),
            final(self).cells() == old(self).cells(),
            final(self).triangles() == old(self).triangles(),
            final(self).points() == old(self).points().push(*point),
            final(self).text_entries() == old(self).text_entries(),
    ;

    /// Submits points, in their order.
    fn add_points(&mut self, points: &Vec<Point>)
        requires
            old(self).wf(),
        ensures
            final(self).wf(),
            final(self).size() == old(self).size(),
            final(self).cells() == old(self).cells(),
            final(self).triangles() == old(self).triangles(),
            final(self).points() == old(self).points() + points@,
            final(self).text_entries() == old(self).text_entries(),
    ;

    /// Returns the text that shows the frame on a terminal: the grid as it
    /// stands and the submitted overlays. This ends the frame: all
    /// submissions are forgotten, and the grid is left as it is.
    fn display(&mut self) -> (frame: String)
        requires
            old(self).wf(),
        ensures
            frame@ == frame_text(old(self).cells(), old(self).size(), old(self).text_entries()),
            final(self).wf(),
            final(self).size() == old(self).size(),
            final(self).cells() == old(self).cells(),
            final(self).triangles() == Seq::<Triangle>::empty(),
            final(self).points() == Seq::<Point>::empty(),
            final(self).text_entries() == Seq::<TextEntry>::empty(),
    ;
}

} // verus!

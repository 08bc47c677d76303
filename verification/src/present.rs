//! The text of a frame: what is written to the terminal to show a grid of
//! palette codes and the text overlays above it.
//!
//! The grid is written row by row. Every row starts by placing the cursor
//! and selecting the default colours. A cell is written as its glyph,
//! preceded by the sequences that select its colours unless the cell before
//! it in the row has made them current. The overlays follow the grid, each
//! placed by its own cursor movement.

use vstd::prelude::*;
use vstd::string::StringExecFns;
use crate::drawables::{TextColorPalette, TextEntry};
use crate::palette::{
    decode, paint_of, shade, shade_of, Paint, CHAR_BALL, CHAR_PIERCING0, CHAR_PIERCING1,
    DEFAULT_COLOR,
};
use crate::terminal::{
    background_black, background_blue, background_light_red, bg_black, bg_blue, bg_light_red,
    fg_black, fg_light_cyan, fg_light_white, fg_white, foreground_black, foreground_light_cyan,
    foreground_light_white, foreground_white, goto, goto_sequence,
};

verus! {

/// The sequences that select the colours of an untouched cell.
pub open spec fn default_colors() -> Seq<char> {
    bg_black() + fg_white()
}

/// The (background, foreground) pair and the glyph of a code that is
/// neither the background nor a sprite.
pub open spec fn look_of(code: u8) -> ((&'static str, &'static str), char) {
    match paint_of(code) {
        Paint::Shade { palette, level } => shade_of(palette, level),
        _ => (DEFAULT_COLOR, ' '),
    }
}

/// The glyph that shows a palette code.
pub open spec fn cell_glyph(code: u8) -> char {
    match paint_of(code) {
        Paint::Background => ' ',
        Paint::Ball => CHAR_BALL,
        Paint::Piercing { frame } => if frame == 0 {
            CHAR_PIERCING0
        } else {
            CHAR_PIERCING1
        },
        _ => look_of(code).1,
    }
}

/// The sequences that select the colours of a palette code.
pub open spec fn cell_colors(code: u8) -> Seq<char> {
    match paint_of(code) {
        Paint::Background => default_colors(),
        Paint::Ball => fg_light_white(),
        Paint::Piercing { .. } => bg_light_red() + fg_black(),
        _ => look_of(code).0.1@ + look_of(code).0.0@,
    }
}

/// Whether the colours of `code` are current after a cell of code
/// `previous`. At the start of a row `previous` is the background.
pub open spec fn colors_current(code: u8, previous: u8) -> bool {
    match paint_of(code) {
        Paint::Background => previous == 0,
        Paint::Ball => false,
        Paint::Piercing { .. } => false,
        _ => previous == code,
    }
}

/// The text of one cell that follows a cell of code `previous`.
pub open spec fn cell_text(code: u8, previous: u8) -> Seq<char> {
    if colors_current(code, previous) {
        seq![cell_glyph(code)]
    } else {
        cell_colors(code).push(cell_glyph(code))
    }
}

/// The code of the cell before position `start + n` in a row that begins
/// at `start`.
pub open spec fn previous_code(cells: Seq<u8>, start: int, n: int) -> u8 {
    if n > 0 {
        cells[start + n - 1]
    } else {
        0
    }
}

/// The text of the first `n` cells of the row that begins at `start`.
pub open spec fn row_text(cells: Seq<u8>, start: int, n: int) -> Seq<char>
    decreases n,
{
    if n <= 0 {
        Seq::empty()
    } else {
        row_text(cells, start, n - 1) + cell_text(
            cells[start + n - 1],
            previous_code(cells, start, n - 1),
        )
    }
}

/// The text that starts row `row`: a line feed after the first row, the
/// cursor movement to the row's first column, and the default colours.
pub open spec fn row_start(row: int) -> Seq<char> {
    (if row > 0 {
        seq!['\n']
    } else {
        Seq::empty()
    }) + goto_sequence(1, (row + 1) as u16) + default_colors()
}

/// The text that ends a row of `n` cells: the default colours, if the last
/// cell left others current, and a carriage return.
pub open spec fn row_end(cells: Seq<u8>, start: int, n: int) -> Seq<char> {
    (if previous_code(cells, start, n) != 0 {
        default_colors()
    } else {
        Seq::empty()
    }).push('\r')
}

/// The text of the first `n` rows of a grid of `w` cells to a row.
pub open spec fn rows_text(cells: Seq<u8>, w: int, n: int) -> Seq<char>
    decreases n,
{
    if n <= 0 {
        Seq::empty()
    } else {
        rows_text(cells, w, n - 1) + row_start(n - 1) + row_text(cells, (n - 1) * w, w) + row_end(
            cells,
            (n - 1) * w,
            w,
        )
    }
}

/// The sequences that select the colours of a text overlay.
pub open spec fn text_colors(palette: TextColorPalette) -> Seq<char> {
    match palette {
        TextColorPalette::Text => bg_black() + fg_white(),
        TextColorPalette::Menu => bg_blue() + fg_light_cyan(),
        TextColorPalette::Warning => bg_light_red() + fg_black(),
    }
}

/// The text of one overlay on a grid of the given size. An overlay that
/// starts outside the grid is not drawn.
pub open spec fn entry_text(entry: TextEntry, size: (u16, u16)) -> Seq<char> {
    if entry.position.0 < size.0 && entry.position.1 < size.1 {
        goto_sequence((entry.position.0 + 1) as u16, (entry.position.1 + 1) as u16) + text_colors(
            entry.color_palette,
        ) + entry.string@
    } else {
        Seq::empty()
    }
}

/// The text of the first `n` overlays, in the order of submission.
pub open spec fn overlay_text(entries: Seq<TextEntry>, size: (u16, u16), n: int) -> Seq<char>
    decreases n,
{
    if n <= 0 {
        Seq::empty()
    } else {
        overlay_text(entries, size, n - 1) + entry_text(entries[n - 1], size)
    }
}

/// The text of a whole frame: the rows of the grid, the overlays, and the
/// default colours to leave the terminal with.
pub open spec fn frame_text(cells: Seq<u8>, size: (u16, u16), entries: Seq<TextEntry>) -> Seq<
    char,
> {
    rows_text(cells, size.0 as int, size.1 as int) + overlay_text(
        entries,
        size,
        entries.len() as int,
    ) + default_colors()
}

/// A line of `w` blanks.
pub open spec fn blank_line(w: int) -> Seq<char> {
    Seq::new(w as nat, |j: int| ' ')
}

/// The text of the first `n` rows of a grid of `w` columns in which every
/// cell is the background: each row is its start, `w` blanks and a
/// carriage return.
pub open spec fn blank_rows(w: int, n: int) -> Seq<char>
    decreases n,
{
    if n <= 0 {
        Seq::empty()
    } else {
        blank_rows(w, n - 1) + row_start(n - 1) + blank_line(w) + seq!['\r']
    }
}

/// The background is shown as a blank in the default colours, and needs
/// no colour sequence after another background cell or at the start of a
/// row.
pub proof fn lemma_background_cell()
    ensures
        cell_glyph(0) == ' ',
        cell_colors(0) == default_colors(),
        cell_text(0, 0) == seq![' '],
{
}

/// A run of background cells is written as blanks, and leaves the default
/// colours current.
pub proof fn lemma_blank_row(cells: Seq<u8>, start: int, n: int)
    requires
        0 <= start,
        0 <= n,
        start + n <= cells.len(),
        forall|i: int| start <= i < start + n ==> cells[i] == 0,
    ensures
        row_text(cells, start, n) == blank_line(n),
        row_end(cells, start, n) == seq!['\r'],
    decreases n,
{
    if n > 0 {
        lemma_blank_row(cells, start, n - 1);
        assert(row_text(cells, start, n) =~= blank_line(n));
    } else {
        assert(row_text(cells, start, n) =~= blank_line(n));
    }
    assert(row_end(cells, start, n) =~= seq!['\r']);
}

/// The first `n` rows of a grid in which every cell is the background are
/// written as rows of blanks in the default colours.
pub proof fn lemma_blank_rows(cells: Seq<u8>, size: (u16, u16), n: int)
    requires
        0 <= n <= size.1,
        cells.len() == size.0 * size.1,
        forall|i: int| 0 <= i < cells.len() ==> cells[i] == 0,
    ensures
        rows_text(cells, size.0 as int, n) == blank_rows(size.0 as int, n),
    decreases n,
{
    if n > 0 {
        let w = size.0 as int;
        lemma_blank_rows(cells, size, n - 1);
        assert(0 <= (n - 1) * w && (n - 1) * w + w <= size.0 * size.1) by (nonlinear_arith)
            requires
                0 < n <= size.1,
                w == size.0,
                w >= 0,
        ;
        lemma_blank_row(cells, (n - 1) * w, w);
    }
}

/// A frame in which every cell is the background and nothing was
/// submitted is written as rows of blanks in the default colours.
pub proof fn lemma_blank_frame(cells: Seq<u8>, size: (u16, u16))
    requires
        cells.len() == size.0 * size.1,
        forall|i: int| 0 <= i < cells.len() ==> cells[i] == 0,
    ensures
        frame_text(cells, size, Seq::<TextEntry>::empty()) == blank_rows(
            size.0 as int,
            size.1 as int,
        ) + default_colors(),
{
    lemma_blank_rows(cells, size, size.1 as int);
    assert(overlay_text(Seq::<TextEntry>::empty(), size, 0) =~= Seq::<char>::empty());
    assert(frame_text(cells, size, Seq::<TextEntry>::empty()) =~= blank_rows(
        size.0 as int,
        size.1 as int,
    ) + default_colors());
}

/// The background sequence among the colour sequences of a palette code,
/// if there is one. The ball keeps the background it finds.
pub open spec fn cell_background(code: u8) -> Option<Seq<char>> {
    match paint_of(code) {
        Paint::Background => Some(bg_black()),
        Paint::Ball => None,
        Paint::Piercing { .. } => Some(bg_light_red()),
        _ => Some(look_of(code).0.0@),
    }
}

/// The foreground sequence among the colour sequences of a palette code.
pub open spec fn cell_foreground(code: u8) -> Seq<char> {
    match paint_of(code) {
        Paint::Background => fg_white(),
        Paint::Ball => fg_light_white(),
        Paint::Piercing { .. } => fg_black(),
        _ => look_of(code).0.1@,
    }
}

/// The colours in effect on the terminal: the background sequence and the
/// foreground sequence that were written last.
pub type Pen = (Seq<char>, Seq<char>);

/// The colours in effect at the start of a row.
pub open spec fn default_pen() -> Pen {
    (bg_black(), fg_white())
}

/// The colours in effect after the colour sequences of a code were
/// written.
pub open spec fn dip(pen: Pen, code: u8) -> Pen {
    (
        match cell_background(code) {
            Some(bg) => bg,
            None => pen.0,
        },
        cell_foreground(code),
    )
}

/// The colours in which the last of the first `n` cells of a row is shown,
/// where colour sequences are left out as [`row_text`] leaves them out.
pub open spec fn pen_after(cells: Seq<u8>, start: int, n: int) -> Pen
    decreases n,
{
    if n <= 0 {
        default_pen()
    } else if colors_current(cells[start + n - 1], previous_code(cells, start, n - 1)) {
        pen_after(cells, start, n - 1)
    } else {
        dip(pen_after(cells, start, n - 1), cells[start + n - 1])
    }
}

/// The colours in which the last of the first `n` cells of a row is shown,
/// where every cell is written with its colour sequences.
pub open spec fn plain_pen_after(cells: Seq<u8>, start: int, n: int) -> Pen
    decreases n,
{
    if n <= 0 {
        default_pen()
    } else {
        dip(plain_pen_after(cells, start, n - 1), cells[start + n - 1])
    }
}

/// The colour sequences of a code are its background sequence, if it has
/// one, and its foreground sequence, in one order or the other.
pub proof fn lemma_colors_of_a_cell(code: u8)
    ensures
        cell_background(code) matches Some(bg) ==> cell_colors(code) == bg + cell_foreground(code)
            || cell_colors(code) == cell_foreground(code) + bg,
        cell_background(code) is None ==> cell_colors(code) == cell_foreground(code),
{
}

/// Leaving out colour sequences changes no colour: every cell of a row is
/// shown in the colours in which it would be shown if each cell were
/// written with its colour sequences.
pub proof fn lemma_same_colours_without_repeats(cells: Seq<u8>, start: int, n: int)
    ensures
        pen_after(cells, start, n) == plain_pen_after(cells, start, n),
    decreases n,
{
    if n > 0 {
        lemma_same_colours_without_repeats(cells, start, n - 1);
        if n > 1 {
            lemma_same_colours_without_repeats(cells, start, n - 2);
        }
    }
}

/// Appends the sequences that select the default colours.
fn push_default_colors(out: &mut String)
    ensures
        final(out)@ == old(out)@ + default_colors(),
{
    let bg: String = background_black();
    let fg: String = foreground_white();
    out.append(bg.as_str());
    out.append(fg.as_str());
    assert(out@ =~= old(out)@ + default_colors());
}

/// Appends the sequences that select the colours of a palette code.
fn push_cell_colors(out: &mut String, code: u8)
    ensures
        final(out)@ == old(out)@ + cell_colors(code),
{
    match decode(code) {
        Paint::Background => {
            push_default_colors(out);
        },
        Paint::Ball => {
            let fg: String = foreground_light_white();
            out.append(fg.as_str());
        },
        Paint::Piercing { .. } => {
            let bg: String = background_light_red();
            let fg: String = foreground_black();
            out.append(bg.as_str());
            out.append(fg.as_str());
            assert(out@ =~= old(out)@ + cell_colors(code));
        },
        Paint::Shade { palette, level } => {
            let (pair, _) = shade(palette, level);
            out.append(pair.1);
            out.append(pair.0);
            assert(out@ =~= old(out)@ + cell_colors(code));
        },
        Paint::Unmapped => {
            out.append(DEFAULT_COLOR.1);
            out.append(DEFAULT_COLOR.0);
            assert(out@ =~= old(out)@ + cell_colors(code));
        },
    }
}

/// The glyph that shows a palette code.
pub fn glyph(code: u8) -> (c: char)
    ensures
        c == cell_glyph(code),
{
    match decode(code) {
        Paint::Background => ' ',
        Paint::Ball => CHAR_BALL,
        Paint::Piercing { frame } => if frame == 0 {
            CHAR_PIERCING0
        } else {
            CHAR_PIERCING1
        },
        Paint::Shade { palette, level } => shade(palette, level).1,
        Paint::Unmapped => ' ',
    }
}

/// Appends the text of one cell that follows a cell of code `previous`.
/// Where the previous cell has left the colours of this one current, only
/// the glyph is written.
pub fn fill_color(out: &mut String, code: u8, previous: u8)
    ensures
        final(out)@ == old(out)@ + cell_text(code, previous),
{
    let current: bool = match decode(code) {
        Paint::Background => previous == 0,
        Paint::Ball => false,
        Paint::Piercing { .. } => false,
        _ => previous == code,
    };
    if !current {
        push_cell_colors(out, code);
    }
    out.push(glyph(code));
    assert(out@ =~= old(out)@ + cell_text(code, previous));
}

/// Appends the text of the row of `width` cells that begins at `start`,
/// and the text that ends the row.
pub fn push_row(out: &mut String, cells: &Vec<u8>, start: usize, width: usize)
    requires
        start + width <= cells.len(),
    ensures
        final(out)@ == old(out)@ + row_text(cells@, start as int, width as int) + row_end(
            cells@,
            start as int,
            width as int,
        ),
{
    let mut previous: u8 = 0;
    let mut n: usize = 0;
    while n < width
        invariant
            n <= width,
            start + width <= cells.len(),
            previous == previous_code(cells@, start as int, n as int),
            out@ == old(out)@ + row_text(cells@, start as int, n as int),
        decreases width - n,
    {
        let code: u8 = cells[start + n];
        fill_color(out, code, previous);
        assert(out@ =~= old(out)@ + row_text(cells@, start as int, n as int + 1));
        previous = code;
        n = n + 1;
    }
    let ghost body = out@;
    if previous != 0 {
        push_default_colors(out);
    }
    out.push('\r');
    assert(out@ =~= body + row_end(cells@, start as int, width as int));
}

/// Appends the text of one overlay on a grid of the given size.
pub fn push_entry(out: &mut String, entry: &TextEntry, size: (u16, u16))
    ensures
        final(out)@ == old(out)@ + entry_text(*entry, size),
{
    if entry.position.0 < size.0 && entry.position.1 < size.1 {
        let place: String = goto(entry.position.0 + 1, entry.position.1 + 1);
        out.append(place.as_str());
        match entry.color_palette {
            TextColorPalette::Text => {
                let bg: String = background_black();
                let fg: String = foreground_white();
                out.append(bg.as_str());
                out.append(fg.as_str());
            },
            TextColorPalette::Menu => {
                let bg: String = background_blue();
                let fg: String = foreground_light_cyan();
                out.append(bg.as_str());
                out.append(fg.as_str());
            },
            TextColorPalette::Warning => {
                let bg: String = background_light_red();
                let fg: String = foreground_black();
                out.append(bg.as_str());
                out.append(fg.as_str());
            },
        }
        out.append(entry.string.as_str());
        assert(out@ =~= old(out)@ + entry_text(*entry, size));
    } else {
        assert(out@ =~= old(out)@ + entry_text(*entry, size));
    }
}

/// Writes the text of a frame: a grid of `size.0` columns and `size.1`
/// rows of palette codes, and the overlays above it.
pub fn render(cells: &Vec<u8>, size: (u16, u16), entries: &Vec<TextEntry>) -> (text: String)
    requires
        cells.len() == size.0 * size.1,
    ensures
        text@ == frame_text(cells@, size, entries@),
{
    let width: usize = size.0 as usize;
    let mut out: String = String::new();
    let mut row: u16 = 0;
    let mut start: usize = 0;
    while row < size.1
        invariant
            row <= size.1,
            width == size.0,
            start == row * width,
            cells.len() == size.0 * size.1,
            out@ == rows_text(cells@, width as int, row as int),
        decreases size.1 - row,
    {
        assert(start + width <= cells.len()) by (nonlinear_arith)
            requires
                start == row * width,
                row < size.1,
                cells.len() == size.0 * size.1,
                width == size.0,
        ;
        let ghost before = out@;
        if row > 0 {
            out.push('\n');
        }
        let place: String = goto(1, row + 1);
        out.append(place.as_str());
        push_default_colors(&mut out);
        assert(out@ =~= before + row_start(row as int));
        push_row(&mut out, cells, start, width);
        assert(out@ =~= rows_text(cells@, width as int, row as int + 1));
        assert((row + 1) * width == start + width) by (nonlinear_arith)
            requires
                start == row * width,
        ;
        start = start + width;
        row = row + 1;
    }
    let ghost grid = out@;
    let mut n: usize = 0;
    while n < entries.len()
        invariant
            n <= entries.len(),
            out@ == grid + overlay_text(entries@, size, n as int),
        decreases entries.len() - n,
    {
        push_entry(&mut out, &entries[n], size);
        assert(out@ =~= grid + overlay_text(entries@, size, n as int + 1));
        n = n + 1;
    }
    push_default_colors(&mut out);
    out
}

} // verus!

//! The control sequences of the terminal, as `termion` writes them.
//!
//! Every function here hands a value to `termion` and returns the text it
//! formats. Their contracts are stated, not proved: they say what
//! `termion`'s source shows.

use vstd::prelude::*;

verus! {

/// The decimal digit `d`, for `0 <= d <= 9`.
pub open spec fn digit(d: int) -> char {
    if d == 0 {
        '0'
    } else if d == 1 {
        '1'
    } else if d == 2 {
        '2'
    } else if d == 3 {
        '3'
    } else if d == 4 {
        '4'
    } else if d == 5 {
        '5'
    } else if d == 6 {
        '6'
    } else if d == 7 {
        '7'
    } else if d == 8 {
        '8'
    } else {
        '9'
    }
}

/// The decimal numeral of a natural number, without leading zeros.
pub open spec fn decimal(n: int) -> Seq<char>
    decreases n,
{
    if n < 10 {
        seq![digit(n)]
    } else {
        decimal(n / 10).push(digit(n % 10))
    }
}

/// The sequence that moves the cursor to the one-based `column` of the
/// one-based `row`.
pub open spec fn goto_sequence(column: u16, row: u16) -> Seq<char> {
    "\u{1b}["@ + decimal(row as int) + ";"@ + decimal(column as int) + "H"@
}

/// The sequence that selects black as background.
pub open spec fn bg_black() -> Seq<char> {
    "\u{1b}[48;5;0m"@
}

/// The sequence that selects blue as background.
pub open spec fn bg_blue() -> Seq<char> {
    "\u{1b}[48;5;4m"@
}

/// The sequence that selects light red as background.
pub open spec fn bg_light_red() -> Seq<char> {
    "\u{1b}[48;5;9m"@
}

/// The sequence that selects black as foreground.
pub open spec fn fg_black() -> Seq<char> {
    "\u{1b}[38;5;0m"@
}

/// The sequence that selects white as foreground.
pub open spec fn fg_white() -> Seq<char> {
    "\u{1b}[38;5;7m"@
}

/// The sequence that selects light cyan as foreground.
pub open spec fn fg_light_cyan() -> Seq<char> {
    "\u{1b}[38;5;14m"@
}

/// The sequence that selects light white as foreground.
pub open spec fn fg_light_white() -> Seq<char> {
    "\u{1b}[38;5;15m"@
}

/// Formats `termion::cursor::Goto(column, row)`. `termion` writes the
/// escape character, `[`, the row in decimal, `;`, the column in decimal and
/// `H`. It refuses the position `(0, 0)` in debug builds.
#[verifier::external_body]
pub(crate) fn goto(column: u16, row: u16) -> (text: String)
    requires
        column != 0 || row != 0,
    ensures
        text@ == goto_sequence(column, row),
{
    format!("{}", termion::cursor::Goto(column, row))
}

/// Formats `termion::color::Bg(termion::color::Black)`: the 256-colour
/// background sequence of colour 0.
#[verifier::external_body]
pub(crate) fn background_black() -> (text: String)
    ensures
        text@ == bg_black(),
{
    format!("{}", termion::color::Bg(termion::color::Black))
}

/// Formats `termion::color::Bg(termion::color::Blue)`: the 256-colour
/// background sequence of colour 4.
#[verifier::external_body]
pub(crate) fn background_blue() -> (text: String)
    ensures
        text@ == bg_blue(),
{
    format!("{}", termion::color::Bg(termion::color::Blue))
}

/// Formats `termion::color::Bg(termion::color::LightRed)`: the 256-colour
/// background sequence of colour 9.
#[verifier::external_body]
pub(crate) fn background_light_red() -> (text: String)
    ensures
        text@ == bg_light_red(),
{
    format!("{}", termion::color::Bg(termion::color::LightRed))
}

/// Formats `termion::color::Fg(termion::color::Black)`: the 256-colour
/// foreground sequence of colour 0.
#[verifier::external_body]
pub(crate) fn foreground_black() -> (text: String)
    ensures
        text@ == fg_black(),
{
    format!("{}", termion::color::Fg(termion::color::Black))
}

/// Formats `termion::color::Fg(termion::color::White)`: the 256-colour
/// foreground sequence of colour 7.
#[verifier::external_body]
pub(crate) fn foreground_white() -> (text: String)
    ensures
        text@ == fg_white(),
{
    format!("{}", termion::color::Fg(termion::color::White))
}

/// Formats `termion::color::Fg(termion::color::LightCyan)`: the 256-colour
/// foreground sequence of colour 14.
#[verifier::external_body]
pub(crate) fn foreground_light_cyan() -> (text: String)
    ensures
        text@ == fg_light_cyan(),
{
    format!("{}", termion::color::Fg(termion::color::LightCyan))
}

/// Formats `termion::color::Fg(termion::color::LightWhite)`: the
/// 256-colour foreground sequence of colour 15.
#[verifier::external_body]
pub(crate) fn foreground_light_white() -> (text: String)
    ensures
        text@ == fg_light_white(),
{
    format!("{}", termion::color::Fg(termion::color::LightWhite))
}

/// `String::push` appends one character.
pub assume_specification[ String::push ](text: &mut String, c: char)
    ensures
        final(text)@ == old(text)@.push(c),
;

} // verus!

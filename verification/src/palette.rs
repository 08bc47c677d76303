//! Luma quantization: from a brightness sample and a colour family to a
//! palette code, and from a palette code to the escape sequences and the
//! glyph that show it.
//!
//! A palette code is one byte of the frame buffer. Code `0` is the
//! background. Each colour family owns sixteen consecutive codes, one per
//! brightness level; a level selects an entry of the family's ramp and,
//! within that entry, a glyph of the shared gradient. A few codes above the
//! ramps are sprites with a glyph of their own.

use vstd::prelude::*;
use crate::drawables::{ColorLuma, ColorPalette};
use crate::fixed::{clamp, div_floor};

verus! {

/// The number of brightness levels of a ramp.
pub const PALETTE_RANGE: u8 = 16;

/// The code of an untouched cell.
pub const BACKGROUND: u8 = 0;

/// The sprite code of a plain bullet.
pub const BALL: u8 = 128;

/// The sprite codes of the two frames of a piercing bullet.
pub const PIERCING0: u8 = 129;

pub const PIERCING1: u8 = 130;

pub const CHAR_BALL: char = '\u{25CF}';

pub const CHAR_PIERCING0: char = '\u{25C6}';

pub const CHAR_PIERCING1: char = '\u{25C7}';

/// Glyphs of increasing density, shared by all ramps.
pub const CHARS_GRADIENT: [char; 5] = [' ', '\u{2591}', '\u{2592}', '\u{2593}', '\u{2593}'];

/// The (background, foreground) pair of an untouched cell.
pub const DEFAULT_COLOR: (&'static str, &'static str) = ("\u{1b}[48;5;0m", "\u{1b}[38;5;7m");

pub const RED_PALETTE: [(&'static str, &'static str); 3] = [
    ("\u{1b}[48;5;0m", "\u{1b}[38;5;1m"),
    ("\u{1b}[48;5;1m", "\u{1b}[38;5;9m"),
    ("\u{1b}[48;5;9m", "\u{1b}[38;5;11m"),
];

pub const GREEN_PALETTE: [(&'static str, &'static str); 3] = [
    ("\u{1b}[48;5;0m", "\u{1b}[38;5;2m"),
    ("\u{1b}[48;5;2m", "\u{1b}[38;5;10m"),
    ("\u{1b}[48;5;10m", "\u{1b}[38;5;11m"),
];

pub const BLUE_PALETTE: [(&'static str, &'static str); 3] = [
    ("\u{1b}[48;5;0m", "\u{1b}[38;5;4m"),
    ("\u{1b}[48;5;4m", "\u{1b}[38;5;12m"),
    ("\u{1b}[48;5;12m", "\u{1b}[38;5;14m"),
];

pub const YELLOW_PALETTE: [(&'static str, &'static str); 3] = [
    ("\u{1b}[48;5;8m", "\u{1b}[38;5;3m"),
    ("\u{1b}[48;5;3m", "\u{1b}[38;5;11m"),
    ("\u{1b}[48;5;11m", "\u{1b}[38;5;15m"),
];

pub const MAGENTA_PALETTE: [(&'static str, &'static str); 2] = [
    ("\u{1b}[48;5;0m", "\u{1b}[38;5;5m"),
    ("\u{1b}[48;5;5m", "\u{1b}[38;5;13m"),
];

pub const CYAN_PALETTE: [(&'static str, &'static str); 3] = [
    ("\u{1b}[48;5;0m", "\u{1b}[38;5;6m"),
    ("\u{1b}[48;5;6m", "\u{1b}[38;5;14m"),
    ("\u{1b}[48;5;14m", "\u{1b}[38;5;15m"),
];

pub const GRAY_PALETTE: [(&'static str, &'static str); 3] = [
    ("\u{1b}[48;5;0m", "\u{1b}[38;5;8m"),
    ("\u{1b}[48;5;8m", "\u{1b}[38;5;7m"),
    ("\u{1b}[48;5;7m", "\u{1b}[38;5;15m"),
];

/// What a palette code stands for.
#[derive(Clone, Copy, Debug, PartialEq, Eq, Structural)]
pub enum Paint {
    /// An untouched cell.
    Background,
    /// Brightness `level` (below [`PALETTE_RANGE`]) of a colour family.
    Shade { palette: ColorPalette, level: u8 },
    /// The plain bullet.
    Ball,
    /// A frame (`0` or `1`) of the piercing bullet.
    Piercing { frame: u8 },
    /// A code that no ramp and no sprite owns.
    Unmapped,
}

impl ColorPalette {
    /// The number of entries of the family's ramp.
    pub open spec fn ramp_len(self) -> int {
        match self {
            ColorPalette::Magenta => 2,
            ColorPalette::Custom => 0,
            _ => 3,
        }
    }

    /// Entry `i` of the family's ramp, a (background, foreground) pair.
    pub open spec fn ramp_entry(self, i: int) -> (&'static str, &'static str) {
        match self {
            ColorPalette::Red => RED_PALETTE[i],
            ColorPalette::Green => GREEN_PALETTE[i],
            ColorPalette::Blue => BLUE_PALETTE[i],
            ColorPalette::Yellow => YELLOW_PALETTE[i],
            ColorPalette::Magenta => MAGENTA_PALETTE[i],
            ColorPalette::Cyan => CYAN_PALETTE[i],
            ColorPalette::Gray => GRAY_PALETTE[i],
            ColorPalette::Custom => DEFAULT_COLOR,
        }
    }

    /// The code of the family's darkest level. `Custom` codes are not
    /// shifted.
    pub open spec fn offset(self) -> int {
        match self {
            ColorPalette::Red => 1,
            ColorPalette::Green => 17,
            ColorPalette::Blue => 33,
            ColorPalette::Yellow => 49,
            ColorPalette::Magenta => 65,
            ColorPalette::Cyan => 81,
            ColorPalette::Gray => 97,
            ColorPalette::Custom => 0,
        }
    }

    /// The family whose codes start at `1 + 16 * i`.
    pub open spec fn nth(i: int) -> ColorPalette {
        if i == 0 {
            ColorPalette::Red
        } else if i == 1 {
            ColorPalette::Green
        } else if i == 2 {
            ColorPalette::Blue
        } else if i == 3 {
            ColorPalette::Yellow
        } else if i == 4 {
            ColorPalette::Magenta
        } else if i == 5 {
            ColorPalette::Cyan
        } else {
            ColorPalette::Gray
        }
    }

    /// The number of entries of the family's ramp.
    pub fn ramp_length(self) -> (len: u8)
        ensures
            len == self.ramp_len(),
    {
        match self {
            ColorPalette::Magenta => 2,
            ColorPalette::Custom => 0,
            _ => 3,
        }
    }

    /// The code of the family's darkest level.
    pub fn color_offset(self) -> (offset: u8)
        ensures
            offset == self.offset(),
    {
        match self {
            ColorPalette::Red => 1,
            ColorPalette::Green => 17,
            ColorPalette::Blue => 33,
            ColorPalette::Yellow => 49,
            ColorPalette::Magenta => 65,
            ColorPalette::Cyan => 81,
            ColorPalette::Gray => 97,
            ColorPalette::Custom => 0,
        }
    }
}

/// The brightness level of a luma: the luma scaled to the palette range
/// and clamped to it.
pub open spec fn luma_level(luma: int) -> int {
    clamp(luma * 16 / 256, 0, 15)
}

/// The integer part of a luma, clamped to a byte.
pub open spec fn luma_integer(luma: int) -> int {
    clamp(luma / 256, 0, 255)
}

/// The palette code of a luma in a colour family.
pub open spec fn code_of(palette: ColorPalette, luma: int) -> int {
    if palette == ColorPalette::Custom {
        luma_integer(luma)
    } else {
        palette.offset() + luma_level(luma)
    }
}

/// The ramp entry that a level selects in a ramp of `ramp_len` entries.
pub open spec fn ramp_index(level: int, ramp_len: int) -> int {
    level * ramp_len / 16
}

/// The gradient glyph that a level selects within its ramp entry.
pub open spec fn glyph_index(level: int, ramp_len: int) -> int {
    ((level * ramp_len) % 16) * 5 / 16
}

/// What a palette code stands for.
pub open spec fn paint_of(code: u8) -> Paint {
    if code == 0 {
        Paint::Background
    } else if code == 128 {
        Paint::Ball
    } else if code == 129 {
        Paint::Piercing { frame: 0 }
    } else if code == 130 {
        Paint::Piercing { frame: 1 }
    } else if code <= 112 {
        Paint::Shade { palette: ColorPalette::nth((code - 1) / 16), level: ((code - 1) % 16) as u8 }
    } else {
        Paint::Unmapped
    }
}

/// The (background, foreground) pair and the glyph of a brightness level of
/// a colour family. A level outside the palette range, and any level of
/// `Custom`, gives the default pair and a blank.
pub open spec fn shade_of(palette: ColorPalette, level: u8) -> ((&'static str, &'static str), char) {
    if level < 16 && palette != ColorPalette::Custom {
        (
            palette.ramp_entry(ramp_index(level as int, palette.ramp_len())),
            CHARS_GRADIENT[glyph_index(level as int, palette.ramp_len())],
        )
    } else {
        (DEFAULT_COLOR, ' ')
    }
}

/// Scales a luma to the palette range and clamps it.
pub fn quantize(luma: ColorLuma) -> (level: u8)
    ensures
        level == luma_level(luma as int),
        level < PALETTE_RANGE,
{
    let scaled: i128 = div_floor(luma as i128 * 16, 256);
    if scaled < 0 {
        0
    } else if scaled > 15 {
        15
    } else {
        scaled as u8
    }
}

/// The palette code that stands for a luma in a colour family.
pub fn palette_code(palette: ColorPalette, luma: ColorLuma) -> (code: u8)
    ensures
        code == code_of(palette, luma as int),
        palette != ColorPalette::Custom ==> paint_of(code) == (Paint::Shade {
            palette,
            level: luma_level(luma as int) as u8,
        }),
{
    match palette {
        ColorPalette::Custom => {
            let whole: i128 = div_floor(luma as i128, 256);
            if whole < 0 {
                0
            } else if whole > 255 {
                255
            } else {
                whole as u8
            }
        },
        _ => quantize(luma) + palette.color_offset(),
    }
}

/// Splits a brightness level into the index of a ramp entry and the index
/// of a gradient glyph.
pub fn get_indexes(level: u8, color_len: u8) -> (indexes: (usize, usize))
    ensures
        indexes.0 == ramp_index(level as int, color_len as int),
        indexes.1 == glyph_index(level as int, color_len as int),
        level < PALETTE_RANGE ==> indexes.0 < color_len || color_len == 0,
        indexes.1 < 5,
{
    assert(level * color_len <= 255 * 255) by (nonlinear_arith)
        requires
            level <= 255,
            color_len <= 255,
    ;
    assert(level < 16 ==> level * color_len <= 15 * color_len) by (nonlinear_arith);
    let scaled: usize = level as usize * color_len as usize;
    let v_col: usize = scaled / 16;
    let v_char: usize = (scaled % 16) * 5 / 16;
    (v_col, v_char)
}

/// Entry `index` of the ramp of a colour family.
fn ramp_entry(palette: ColorPalette, index: usize) -> (entry: (&'static str, &'static str))
    requires
        index < palette.ramp_len(),
    ensures
        entry == palette.ramp_entry(index as int),
{
    match palette {
        ColorPalette::Red => RED_PALETTE[index],
        ColorPalette::Green => GREEN_PALETTE[index],
        ColorPalette::Blue => BLUE_PALETTE[index],
        ColorPalette::Yellow => YELLOW_PALETTE[index],
        ColorPalette::Magenta => MAGENTA_PALETTE[index],
        ColorPalette::Cyan => CYAN_PALETTE[index],
        ColorPalette::Gray => GRAY_PALETTE[index],
        ColorPalette::Custom => DEFAULT_COLOR,
    }
}

/// Looks up the (background, foreground) pair and the glyph of a
/// brightness level of a colour family.
pub fn shade(palette: ColorPalette, level: u8) -> (look: ((&'static str, &'static str), char))
    ensures
        look == shade_of(palette, level),
{
    let len: u8 = palette.ramp_length();
    if level < PALETTE_RANGE && len > 0 {
        let (v_col, v_char) = get_indexes(level, len);
        (ramp_entry(palette, v_col), CHARS_GRADIENT[v_char])
    } else {
        (DEFAULT_COLOR, ' ')
    }
}

/// Tells what a palette code stands for.
pub fn decode(code: u8) -> (paint: Paint)
    ensures
        paint == paint_of(code),
        paint matches Paint::Shade { level, .. } ==> level < PALETTE_RANGE,
{
    if code == BACKGROUND {
        Paint::Background
    } else if code == BALL {
        Paint::Ball
    } else if code == PIERCING0 {
        Paint::Piercing { frame: 0 }
    } else if code == PIERCING1 {
        Paint::Piercing { frame: 1 }
    } else if code <= 112 {
        let shade: u8 = code - 1;
        let level: u8 = shade % 16;
        let palette: ColorPalette = match shade / 16 {
            0 => ColorPalette::Red,
            1 => ColorPalette::Green,
            2 => ColorPalette::Blue,
            3 => ColorPalette::Yellow,
            4 => ColorPalette::Magenta,
            5 => ColorPalette::Cyan,
            _ => ColorPalette::Gray,
        };
        Paint::Shade { palette, level }
    } else {
        Paint::Unmapped
    }
}

/// A brighter luma never gets a lower level.
pub proof fn lemma_luma_level_monotonic(darker: int, brighter: int)
    requires
        darker <= brighter,
    ensures
        luma_level(darker) <= luma_level(brighter),
{
}

/// Quantization is monotonic: within one colour family a brighter luma
/// never selects an earlier ramp entry, nor a lower palette code.
pub proof fn lemma_quantization_monotonic(palette: ColorPalette, darker: int, brighter: int)
    requires
        darker <= brighter,
    ensures
        ramp_index(luma_level(darker), palette.ramp_len()) <= ramp_index(
            luma_level(brighter),
            palette.ramp_len(),
        ),
        code_of(palette, darker) <= code_of(palette, brighter),
{
    let a = luma_level(darker);
    let b = luma_level(brighter);
    let len = palette.ramp_len();
    assert(a * len <= b * len) by (nonlinear_arith)
        requires
            a <= b,
            len >= 0,
    ;
}

/// Every level of the palette range selects an entry inside the ramp and a
/// glyph inside the gradient.
pub proof fn lemma_indexes_in_range(palette: ColorPalette, level: int)
    requires
        0 <= level < 16,
        palette != ColorPalette::Custom,
    ensures
        0 <= ramp_index(level, palette.ramp_len()) < palette.ramp_len(),
        0 <= glyph_index(level, palette.ramp_len()) < 5,
{
    let len = palette.ramp_len();
    assert(0 <= level * len <= 15 * len) by (nonlinear_arith)
        requires
            0 <= level <= 15,
            len >= 0,
    ;
}

/// A palette code made from a colour family with a ramp stands for that
/// family and for the level of the luma: the families' code ranges do not
/// overlap, and none holds the background or a sprite.
pub proof fn lemma_code_round_trip(palette: ColorPalette, luma: int)
    requires
        palette != ColorPalette::Custom,
    ensures
        0 < code_of(palette, luma) <= 112,
        paint_of(code_of(palette, luma) as u8) == (Paint::Shade {
            palette,
            level: luma_level(luma) as u8,
        }),
{
}

} // verus!

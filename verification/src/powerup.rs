//! The rules of powerups: which kind appears, how it looks, and how long
//! its effect lasts.

use vstd::prelude::*;
use crate::chance::roll;
use crate::drawables::ColorPalette;

verus! {

#[derive(Clone, Copy, Debug, PartialEq, Eq, Structural)]
pub enum PowerupSize {
    SplitFire,
    PiercingBullets,
    Shield,
    RapidFire,
}

impl PowerupSize {
    /// The kind that a roll of a fifteen-sided die selects: two faces
    /// give piercing bullets, three rapid fire, four split fire and the
    /// other six the shield.
    pub open spec fn of_roll(n: u32) -> PowerupSize {
        if n <= 1 {
            PowerupSize::PiercingBullets
        } else if n <= 4 {
            PowerupSize::RapidFire
        } else if n <= 8 {
            PowerupSize::SplitFire
        } else {
            PowerupSize::Shield
        }
    }

    /// The kind that a roll selects.
    pub fn for_roll(n: u32) -> (kind: PowerupSize)
        ensures
            kind == PowerupSize::of_roll(n),
    {
        match n {
            0..=1 => PowerupSize::PiercingBullets,
            2..=4 => PowerupSize::RapidFire,
            5..=8 => PowerupSize::SplitFire,
            _ => PowerupSize::Shield,
        }
    }

    /// A kind chosen by the roll of a fifteen-sided die.
    pub fn spawn() -> (kind: PowerupSize)
        ensures
            exists|n: u32| n < 15 && kind == #[trigger] PowerupSize::of_roll(n),
    {
        PowerupSize::for_roll(roll(15))
    }

    /// The colour family that shows a powerup.
    pub fn color_palette(&self) -> (palette: ColorPalette)
        ensures
            palette == (match *self {
                PowerupSize::Shield => ColorPalette::Blue,
                PowerupSize::SplitFire => ColorPalette::Green,
                PowerupSize::PiercingBullets => ColorPalette::Red,
                PowerupSize::RapidFire => ColorPalette::Gray,
            }),
    {
        match self {
            PowerupSize::Shield => ColorPalette::Blue,
            PowerupSize::SplitFire => ColorPalette::Green,
            PowerupSize::PiercingBullets => ColorPalette::Red,
            PowerupSize::RapidFire => ColorPalette::Gray,
        }
    }

    /// How long the effect of a collected powerup lasts, in fixed point.
    pub fn duration(&self) -> (time: i32)
        ensures
            time == (match *self {
                PowerupSize::Shield => 2560int,
                PowerupSize::PiercingBullets => 1280int,
                PowerupSize::SplitFire => 1792int,
                PowerupSize::RapidFire => 1280int,
            }),
    {
        match self {
            PowerupSize::Shield => 2560,
            PowerupSize::PiercingBullets => 1280,
            PowerupSize::SplitFire => 1792,
            PowerupSize::RapidFire => 1280,
        }
    }
}

} // verus!

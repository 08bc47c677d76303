//! The rules of asteroids that do not depend on where an asteroid is: its
//! shape, what it breaks into, what it is worth, and its colour.

use vstd::prelude::*;
use crate::chance::roll;
use crate::drawables::ColorPalette;

verus! {

#[derive(Clone, Copy, Debug, PartialEq, Eq, Structural)]
pub enum AsteroidSize {
    Tiny,
    Small,
    Medium,
    Big,
    Huge,
}

impl AsteroidSize {
    /// The place of a size in the order from `Tiny` (0) to `Huge` (4).
    pub open spec fn rank(self) -> int {
        match self {
            AsteroidSize::Tiny => 0,
            AsteroidSize::Small => 1,
            AsteroidSize::Medium => 2,
            AsteroidSize::Big => 3,
            AsteroidSize::Huge => 4,
        }
    }

    /// The number of sides of the polygon that shows an asteroid.
    pub open spec fn sides(self) -> int {
        self.rank() + 3
    }

    /// The radius of an asteroid, in fixed point.
    pub open spec fn radius(self) -> int {
        match self {
            AsteroidSize::Tiny => 486,
            AsteroidSize::Small => 537,
            AsteroidSize::Medium => 665,
            AsteroidSize::Big => 844,
            AsteroidSize::Huge => 1024,
        }
    }

    /// The points scored for destroying an asteroid.
    pub open spec fn points(self) -> int {
        match self {
            AsteroidSize::Tiny => 50,
            AsteroidSize::Small => 75,
            AsteroidSize::Medium => 100,
            AsteroidSize::Big => 150,
            AsteroidSize::Huge => 200,
        }
    }

    /// The number of sides and the radius of the polygon that shows an
    /// asteroid.
    pub fn get_description(&self) -> (description: (usize, i32))
        ensures
            description.0 == self.sides(),
            description.1 == self.radius(),
    {
        match self {
            AsteroidSize::Tiny => (3, 486),
            AsteroidSize::Small => (4, 537),
            AsteroidSize::Medium => (5, 665),
            AsteroidSize::Big => (6, 844),
            AsteroidSize::Huge => (7, 1024),
        }
    }

    /// The size of the two pieces that a hit asteroid breaks into: the
    /// next smaller size. A tiny asteroid leaves no pieces.
    pub fn split(&self) -> (piece: Option<AsteroidSize>)
        ensures
            piece is None <==> *self == AsteroidSize::Tiny,
            piece matches Some(smaller) ==> smaller.rank() == self.rank() - 1,
    {
        match self {
            AsteroidSize::Tiny => None,
            AsteroidSize::Small => Some(AsteroidSize::Tiny),
            AsteroidSize::Medium => Some(AsteroidSize::Small),
            AsteroidSize::Big => Some(AsteroidSize::Medium),
            AsteroidSize::Huge => Some(AsteroidSize::Big),
        }
    }

    /// The points scored for destroying an asteroid.
    pub fn score(&self) -> (points: u32)
        ensures
            points == self.points(),
    {
        match self {
            AsteroidSize::Tiny => 50,
            AsteroidSize::Small => 75,
            AsteroidSize::Medium => 100,
            AsteroidSize::Big => 150,
            AsteroidSize::Huge => 200,
        }
    }

    /// Whether an asteroid counts toward the number of large objects that
    /// holds back new arrivals: the three largest sizes do.
    pub fn is_large(&self) -> (large: bool)
        ensures
            large <==> self.rank() >= 2,
    {
        match self {
            AsteroidSize::Huge | AsteroidSize::Big | AsteroidSize::Medium => true,
            _ => false,
        }
    }
}

/// A larger asteroid has more sides, a longer radius and a higher score.
pub proof fn lemma_larger_asteroid(small: AsteroidSize, large: AsteroidSize)
    requires
        small.rank() < large.rank(),
    ensures
        small.sides() < large.sides(),
        small.radius() < large.radius(),
        small.points() < large.points(),
{
}

/// The colour that a roll of a six-sided die selects.
pub open spec fn color_of_roll(n: u32) -> ColorPalette {
    if n == 0 {
        ColorPalette::Red
    } else if n == 1 {
        ColorPalette::Green
    } else if n == 2 {
        ColorPalette::Blue
    } else if n == 3 {
        ColorPalette::Yellow
    } else if n == 4 {
        ColorPalette::Magenta
    } else if n == 5 {
        ColorPalette::Cyan
    } else {
        ColorPalette::Gray
    }
}

/// The colour that a roll selects: one of the six hues for a roll below
/// six, gray for any other.
pub fn color_for_roll(n: u32) -> (color: ColorPalette)
    ensures
        color == color_of_roll(n),
        color != ColorPalette::Custom,
{
    match n {
        0 => ColorPalette::Red,
        1 => ColorPalette::Green,
        2 => ColorPalette::Blue,
        3 => ColorPalette::Yellow,
        4 => ColorPalette::Magenta,
        5 => ColorPalette::Cyan,
        _ => ColorPalette::Gray,
    }
}

/// A colour chosen by the roll of a six-sided die: one of the six hues.
pub fn get_random_color() -> (color: ColorPalette)
    ensures
        exists|n: u32| n < 6 && color == #[trigger] color_of_roll(n),
        color != ColorPalette::Custom,
        color != ColorPalette::Gray,
{
    color_for_roll(roll(6))
}

/// Whether a roll wins: only a zero does.
pub fn wins(n: u32) -> (won: bool)
    ensures
        won <==> n == 0,
{
    n == 0
}

/// Decides by chance, one time in twenty, whether a destroyed tiny
/// asteroid leaves a powerup. Larger asteroids never do.
pub fn drops_powerup(size: AsteroidSize) -> (drops: bool)
    ensures
        drops ==> size == AsteroidSize::Tiny,
{
    match size {
        AsteroidSize::Tiny => wins(roll(20)),
        _ => false,
    }
}

} // verus!

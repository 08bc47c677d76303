//! The rules of bullets: how fast they fly, how long they live, and the
//! sprite that shows them.

use vstd::prelude::*;
use crate::drawables::{ColorPalette, Point, Vec2};
use crate::fixed::div_floor;
use crate::palette::{code_of, paint_of, Paint, BALL, PIERCING0};

verus! {

#[derive(Clone, Copy, Debug, PartialEq, Eq, Structural)]
pub enum BulletType {
    Normal,
    Piercing,
}

/// The frame of the piercing bullet's animation at a remaining life: the
/// frames alternate thirty times in a unit of life.
pub open spec fn piercing_frame(life: int) -> int {
    ((life * 30) % 512) / 256
}

impl BulletType {
    /// The palette code that shows a bullet with the given remaining
    /// life.
    pub open spec fn sprite(self, life: int) -> int {
        match self {
            BulletType::Normal => 128,
            BulletType::Piercing => 129 + piercing_frame(life),
        }
    }

    /// The speed of a bullet along its direction, in fixed point.
    pub fn linear_speed(&self) -> (speed: i32)
        ensures
            speed == (match *self {
                BulletType::Normal => 3840int,
                BulletType::Piercing => 5120int,
            }),
    {
        match self {
            BulletType::Normal => 3840,
            BulletType::Piercing => 5120,
        }
    }

    /// The life that a bullet starts with, in fixed point.
    pub fn lifetime(&self) -> (life: i32)
        ensures
            life == (match *self {
                BulletType::Normal => 512int,
                BulletType::Piercing => 768int,
            }),
    {
        match self {
            BulletType::Normal => 512,
            BulletType::Piercing => 768,
        }
    }

    /// The life that is left to a bullet after it hit something: a normal
    /// bullet is spent, a piercing one loses four tenths of a unit.
    pub fn destroy(&self, life: i32) -> (left: i32)
        ensures
            *self == BulletType::Normal ==> left == 0,
            *self == BulletType::Piercing ==> left == if life - 102 < i32::MIN {
                i32::MIN as int
            } else {
                life - 102
            },
    {
        match self {
            BulletType::Normal => 0,
            BulletType::Piercing => if life < i32::MIN + 102 {
                i32::MIN
            } else {
                life - 102
            },
        }
    }

    /// The point that shows a bullet at `position` with the given
    /// remaining life: a sprite, whose code is carried as the integer part
    /// of the luma.
    pub fn get_drawable_point(&self, position: Vec2, life: i32) -> (point: Point)
        ensures
            point.position == position,
            point.color_palette == ColorPalette::Custom,
            point.color == self.sprite(life as int) * 256,
            code_of(point.color_palette, point.color as int) == self.sprite(life as int),
            *self == BulletType::Normal ==> paint_of(self.sprite(life as int) as u8) == Paint::Ball,
            *self == BulletType::Piercing ==> paint_of(self.sprite(life as int) as u8)
                == (Paint::Piercing { frame: piercing_frame(life as int) as u8 }),
    {
        let code: u8 = match self {
            BulletType::Normal => BALL,
            BulletType::Piercing => {
                let phase: i128 = life as i128 * 30;
                let turns: i128 = div_floor(phase, 512);
                let within: i128 = phase - turns * 512;
                assert(within == (life * 30) % 512) by {
                    vstd::arithmetic::div_mod::lemma_fundamental_div_mod(life * 30, 512);
                }
                if within < 256 {
                    PIERCING0
                } else {
                    PIERCING0 + 1
                }
            },
        };
        Point { position, color: code as i32 * 256, color_palette: ColorPalette::Custom }
    }
}

} // verus!

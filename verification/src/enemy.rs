//! The rules by which new enemies arrive.
//!
//! Each arrival is an asteroid or a star ship, chosen by the roll of a die.
//! The die loses a side every time more asteroids have arrived than it has
//! sides, down to two sides: star ships become more likely as the game goes
//! on.

use vstd::prelude::*;
use crate::chance::roll;

verus! {

/// The most large objects that may be around when another one arrives.
pub const CROWD: usize = 8;

/// What arrives.
#[derive(Clone, Copy, Debug, PartialEq, Eq, Structural)]
pub enum Arrival {
    Asteroid,
    StarShip,
}

/// The count of asteroids that arrived since the die last lost a side, and
/// the number of sides of the die.
pub struct Waves {
    level: u8,
    level_interval: u8,
}

impl Waves {
    #[verifier::type_invariant]
    spec fn inv(self) -> bool {
        &&& 2 <= self.level_interval <= 8
        &&& self.level <= self.level_interval
    }

    /// The number of asteroids that arrived since the die last lost a
    /// side.
    pub closed spec fn level(&self) -> int {
        self.level as int
    }

    /// The number of sides of the die.
    pub closed spec fn sides(&self) -> int {
        self.level_interval as int
    }

    /// The start of a game: a die of eight sides.
    pub fn new() -> (waves: Waves)
        ensures
            waves.level() == 0,
            waves.sides() == 8,
    {
        Waves { level: 0, level_interval: 8 }
    }

    /// The number of sides of the die.
    pub fn get_sides(&self) -> (sides: u8)
        ensures
            sides == self.sides(),
            2 <= sides <= 8,
    {
        proof {
            use_type_invariant(self);
        }
        self.level_interval
    }

    /// Whether something may arrive: an arrival is due when the time for
    /// it has come or no large object is left, and there is room for it
    /// while fewer than [`CROWD`] large objects are around.
    pub fn has_room(large: usize, overdue: bool) -> (room: bool)
        ensures
            room <==> (overdue || large == 0) && large < CROWD,
    {
        (overdue || large == 0) && large < CROWD
    }

    /// What arrives for a roll of the die: a star ship for a zero, an
    /// asteroid for every other face.
    pub open spec fn arrival_of_roll(n: u32) -> Arrival {
        if n == 0 {
            Arrival::StarShip
        } else {
            Arrival::Asteroid
        }
    }

    /// What arrives for a roll of the die.
    pub fn arrival_for_roll(n: u32) -> (arrival: Arrival)
        ensures
            arrival == Waves::arrival_of_roll(n),
    {
        if n > 0 {
            Arrival::Asteroid
        } else {
            Arrival::StarShip
        }
    }

    /// Rolls the die and tells what arrives.
    pub fn next_arrival(&self) -> (arrival: Arrival)
        ensures
            exists|n: u32| n < self.sides() && arrival == #[trigger] Waves::arrival_of_roll(n),
    {
        proof {
            use_type_invariant(self);
        }
        Waves::arrival_for_roll(roll(self.level_interval as u32))
    }

    /// Counts an asteroid that arrived. When more have arrived than the
    /// die has sides, the count starts again and the die loses a side,
    /// unless it has only two.
    pub fn asteroid_arrived(&mut self)
        ensures
            old(self).level() < old(self).sides() ==> final(self).level() == old(self).level() + 1
                && final(self).sides() == old(self).sides(),
            old(self).level() == old(self).sides() ==> final(self).level() == 0
                && final(self).sides() == if old(self).sides() > 2 {
                old(self).sides() - 1
            } else {
                2
            },
            2 <= final(self).sides() <= old(self).sides(),
    {
        proof {
            use_type_invariant(&*self);
        }
        if self.level < self.level_interval {
            *self = Waves { level: self.level + 1, level_interval: self.level_interval };
        } else if self.level_interval > 2 {
            *self = Waves { level: 0, level_interval: self.level_interval - 1 };
        } else {
            *self = Waves { level: 0, level_interval: 2 };
        }
    }
}

} // verus!

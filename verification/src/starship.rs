//! The rules of star ships: their shape, what a cluster releases when it
//! is hit, and what they are worth.

use vstd::prelude::*;
use crate::asteroid::wins;
use crate::chance::roll;

verus! {

#[derive(Clone, Copy, Debug, PartialEq, Eq, Structural)]
pub enum StarShipSize {
    Flying,
    SmallCluster,
    MediumCluster,
    BigCluster,
}

impl StarShipSize {
    /// The place of a size in the order from `Flying` (0) to `BigCluster`
    /// (3).
    pub open spec fn rank(self) -> int {
        match self {
            StarShipSize::Flying => 0,
            StarShipSize::SmallCluster => 1,
            StarShipSize::MediumCluster => 2,
            StarShipSize::BigCluster => 3,
        }
    }

    /// The number of flying ships that a hit releases.
    pub open spec fn released(self) -> int {
        match self {
            StarShipSize::Flying => 0,
            StarShipSize::SmallCluster => 4,
            StarShipSize::MediumCluster => 2,
            StarShipSize::BigCluster => 2,
        }
    }

    /// The points scored for destroying a star ship.
    pub open spec fn points(self) -> int {
        100 + 50 * self.rank()
    }

    /// The number of triangles and the radius, in fixed point, of the
    /// shape that shows a star ship.
    pub fn get_description(&self) -> (description: (usize, i32))
        ensures
            description == (match *self {
                StarShipSize::Flying => (2usize, 512i32),
                StarShipSize::SmallCluster => (8usize, 844i32),
                StarShipSize::MediumCluster => (16usize, 1152i32),
                StarShipSize::BigCluster => (18usize, 1331i32),
            }),
    {
        match self {
            StarShipSize::Flying => (2, 512),
            StarShipSize::SmallCluster => (8, 844),
            StarShipSize::MediumCluster => (16, 1152),
            StarShipSize::BigCluster => (18, 1331),
        }
    }

    /// What a hit star ship leaves behind: the cluster it shrinks to, if
    /// any, and the number of flying ships it releases. The two larger
    /// clusters shrink by one size; the small cluster dissolves into four
    /// ships; a flying ship leaves nothing.
    pub fn split(&self) -> (parts: (Option<StarShipSize>, u8))
        ensures
            parts.0 is Some <==> self.rank() >= 2,
            parts.0 matches Some(smaller) ==> smaller.rank() == self.rank() - 1,
            parts.1 == self.released(),
    {
        match self {
            StarShipSize::BigCluster => (Some(StarShipSize::MediumCluster), 2),
            StarShipSize::MediumCluster => (Some(StarShipSize::SmallCluster), 2),
            StarShipSize::SmallCluster => (None, 4),
            StarShipSize::Flying => (None, 0),
        }
    }

    /// The points scored for destroying a star ship.
    pub fn score(&self) -> (points: u32)
        ensures
            points == self.points(),
    {
        match self {
            StarShipSize::Flying => 100,
            StarShipSize::SmallCluster => 150,
            StarShipSize::MediumCluster => 200,
            StarShipSize::BigCluster => 250,
        }
    }

    /// Whether a star ship counts toward the number of large objects
    /// that holds back new arrivals: every cluster does.
    pub fn is_large(&self) -> (large: bool)
        ensures
            large <==> self.rank() >= 1,
    {
        match self {
            StarShipSize::Flying => false,
            _ => true,
        }
    }
}

/// Decides by chance, one time in twenty-five, whether a destroyed flying
/// ship leaves a powerup. Clusters never do.
pub fn drops_powerup(size: StarShipSize) -> (drops: bool)
    ensures
        drops ==> size == StarShipSize::Flying,
{
    match size {
        StarShipSize::Flying => wins(roll(25)),
        _ => false,
    }
}

} // verus!

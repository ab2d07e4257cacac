use vstd::prelude::*;

use crate::chance::random_below;

verus! {

/// One of the two players, with the paddle and the goal that belong to them.
#[derive(Clone, Copy, Debug, PartialEq, Eq, Structural)]
pub enum PlayerSide {
    Left,
    Right,
}

impl PlayerSide {
    pub open spec fn next_spec(&self) -> PlayerSide {
        match self {
            PlayerSide::Left => PlayerSide::Right,
            PlayerSide::Right => PlayerSide::Left,
        }
    }

    /// Horizontal direction that points towards this side of the field.
    pub open spec fn multiplier_spec(&self) -> i8 {
        match self {
            PlayerSide::Left => -1i8,
            PlayerSide::Right => 1i8,
        }
    }

    /// The side with the given index: 0 is the left, any other the right.
    pub open spec fn from_index_spec(i: usize) -> PlayerSide {
        if i == 0 {
            PlayerSide::Left
        } else {
            PlayerSide::Right
        }
    }

    /// The other side.
    #[verifier::when_used_as_spec(next_spec)]
    pub fn next(&self) -> (r: PlayerSide)
        ensures
            r == self.next_spec(),
    {
        match self {
            PlayerSide::Left => PlayerSide::Right,
            PlayerSide::Right => PlayerSide::Left,
        }
    }

    #[verifier::when_used_as_spec(multiplier_spec)]
    pub fn multiplier(&self) -> (r: i8)
        ensures
            r == self.multiplier_spec(),
    {
        match self {
            PlayerSide::Left => -1,
            PlayerSide::Right => 1,
        }
    }

    pub fn from_index(i: usize) -> (r: PlayerSide)
        ensures
            r == PlayerSide::from_index_spec(i),
    {
        if i == 0 {
            PlayerSide::Left
        } else {
            PlayerSide::Right
        }
    }

    /// A side picked at random, each with the same chance.
    pub fn random() -> (r: PlayerSide) {
        let i = random_below(2);
        PlayerSide::from_index(i)
    }
}

} // verus!

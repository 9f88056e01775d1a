//! A player and its position.

use vstd::prelude::*;

verus! {

/// A player in one of its lifecycle states. An active player holds the bit
/// patterns of its `x` and `y` coordinates.
#[derive(Clone, Copy, Debug, PartialEq, Eq, Structural)]
pub enum Player {
    Active(u32, u32),
}

/// Whether `bits` is the pattern of a finite single-precision number: its
/// exponent field is not all ones.
pub open spec fn is_finite_bits(bits: u32) -> bool {
    (bits >> 23) & 0xff != 0xff
}

/// Tests the exponent field of a single-precision bit pattern.
pub fn finite_bits(bits: u32) -> (finite: bool)
    ensures
        finite == is_finite_bits(bits),
{
    (bits >> 23) & 0xff != 0xff
}

/// The origin is a finite position.
pub proof fn lemma_origin_is_finite()
    ensures
        is_finite_bits(0),
        Player::origin().is_finite(),
{
    assert((0u32 >> 23) & 0xff != 0xff) by (bit_vector);
}

impl Player {
    /// A player at the origin.
    pub open spec fn origin() -> Player {
        Player::Active(0, 0)
    }

    /// The coordinates of the player, as bit patterns.
    pub open spec fn spec_position(self) -> (u32, u32) {
        match self {
            Player::Active(x, y) => (x, y),
        }
    }

    /// Both coordinates are finite numbers.
    pub open spec fn is_finite(self) -> bool {
        is_finite_bits(self.spec_position().0) && is_finite_bits(self.spec_position().1)
    }

    /// The coordinates of the player, as bit patterns.
    pub fn position(&self) -> (p: (u32, u32))
        ensures
            p == self.spec_position(),
    {
        match self {
            Player::Active(x, y) => (*x, *y),
        }
    }

    /// Moves `player` to `(x, y)`. An active player can always move.
    pub fn move_player(player: &mut Player, x: u32, y: u32) -> (result: Result<(), String>)
        ensures
            result.is_ok(),
            *final(player) == Player::Active(x, y),
    {
        match player {
            Player::Active(_, _) => {
                *player = Player::Active(x, y);
                Ok(())
            },
        }
    }
}

} // verus!

//! How a game stands: still open, drawn, or won.

use vstd::prelude::*;
use crate::tile::Tile;
use crate::grid::{full, winner};

verus! {

/// The resolution of a board.
#[derive(Clone, Copy, Debug, PartialEq, Eq, Structural)]
pub enum Outcome {
    /// No line is complete and a cell is still empty.
    Unresolved,
    /// The grid is full and no line is complete.
    Draw,
    /// The team that completed a line.
    WonBy(Tile),
}

/// The outcome that a grid calls for: won by the winner of its first
/// complete line; else drawn if it is full; else open.
pub open spec fn outcome_of(cells: Seq<Seq<Tile>>) -> Outcome {
    match winner(cells) {
        Some(t) => Outcome::WonBy(t),
        None => if full(cells) {
            Outcome::Draw
        } else {
            Outcome::Unresolved
        },
    }
}

impl Outcome {
    /// The game is over: drawn or won.
    pub open spec fn resolved(self) -> bool {
        self != Outcome::Unresolved
    }

    /// Whether the game is over.
    pub fn is_resolved(self) -> (b: bool)
        ensures
            b == self.resolved(),
    {
        match self {
            Outcome::Unresolved => false,
            _ => true,
        }
    }
}

} // verus!

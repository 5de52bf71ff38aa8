//! The value of one cell of the board.

use vstd::prelude::*;

verus! {

/// What a cell holds: nothing, or a piece of one of the two teams.
#[derive(Clone, Copy, Debug, PartialEq, Eq, Structural)]
pub enum Tile {
    Empty,
    Cookie,
    Milk,
}

impl Tile {
    /// The character that stands for this value in a rendered board.
    pub open spec fn glyph_spec(self) -> char {
        match self {
            Tile::Empty => '⬛',
            Tile::Cookie => '🍪',
            Tile::Milk => '🥛',
        }
    }

    /// The team that a drawn boolean stands for.
    pub open spec fn of_bit_spec(bit: bool) -> Tile {
        if bit {
            Tile::Cookie
        } else {
            Tile::Milk
        }
    }

    /// The text that stands for this value in a rendered board: one character.
    pub fn glyph(self) -> (s: &'static str)
        ensures
            s@ == seq![self.glyph_spec()],
    {
        match self {
            Tile::Empty => {
                proof {
                    reveal_strlit("⬛");
                }
                assert("⬛"@ =~= seq!['⬛']);
                "⬛"
            },
            Tile::Cookie => {
                proof {
                    reveal_strlit("🍪");
                }
                assert("🍪"@ =~= seq!['🍪']);
                "🍪"
            },
            Tile::Milk => {
                proof {
                    reveal_strlit("🥛");
                }
                assert("🥛"@ =~= seq!['🥛']);
                "🥛"
            },
        }
    }

    /// The value that a token names: `empty`, `cookie` or `milk`. No other
    /// token names a value.
    pub open spec fn of_token(token: Seq<char>) -> Option<Tile> {
        if token == seq!['e', 'm', 'p', 't', 'y'] {
            Some(Tile::Empty)
        } else if token == seq!['c', 'o', 'o', 'k', 'i', 'e'] {
            Some(Tile::Cookie)
        } else if token == seq!['m', 'i', 'l', 'k'] {
            Some(Tile::Milk)
        } else {
            None
        }
    }

    /// The team that a token names: `cookie` the first, `milk` the second.
    /// No other token names a team.
    pub open spec fn team_of_token(token: Seq<char>) -> Option<Tile> {
        match Tile::of_token(token) {
            Some(Tile::Empty) => None,
            named => named,
        }
    }

    /// Reads a value from its token.
    pub fn from_token(token: &str) -> (t: Option<Tile>)
        ensures
            t == Tile::of_token(token@),
    {
        proof {
            reveal_strlit("empty");
            reveal_strlit("cookie");
            reveal_strlit("milk");
        }
        assert("empty"@ =~= seq!['e', 'm', 'p', 't', 'y']);
        assert("cookie"@ =~= seq!['c', 'o', 'o', 'k', 'i', 'e']);
        assert("milk"@ =~= seq!['m', 'i', 'l', 'k']);
        let owned = token.to_owned();
        if owned == "empty".to_owned() {
            Some(Tile::Empty)
        } else if owned == "cookie".to_owned() {
            Some(Tile::Cookie)
        } else if owned == "milk".to_owned() {
            Some(Tile::Milk)
        } else {
            None
        }
    }

    /// Reads the team that places a piece from its token.
    pub fn team_from_token(token: &str) -> (t: Option<Tile>)
        ensures
            t == Tile::team_of_token(token@),
            t != Some(Tile::Empty),
    {
        match Tile::from_token(token) {
            Some(Tile::Empty) => None,
            named => named,
        }
    }

    /// Whether this value is one of the two teams.
    pub fn is_team(self) -> (b: bool)
        ensures
            b == (self != Tile::Empty),
    {
        match self {
            Tile::Empty => false,
            _ => true,
        }
    }

    /// `true` gives the first team, `false` the second; never `Empty`.
    pub fn of_bit(bit: bool) -> (t: Tile)
        ensures
            t == Tile::of_bit_spec(bit),
            t != Tile::Empty,
    {
        if bit {
            Tile::Cookie
        } else {
            Tile::Milk
        }
    }
}

impl Default for Tile {
    fn default() -> (t: Tile)
        ensures
            t == Tile::Empty,
    {
        Tile::Empty
    }
}

} // verus!

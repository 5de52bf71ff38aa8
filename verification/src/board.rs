//! The board of a game in play: a grid, its outcome, and the placement rule.

use vstd::prelude::*;
use crate::tile::Tile;
use crate::grid::{
    cells_of_bits, empty_cells, full, landing_row, lemma_landing_row, lemma_winner,
    lemma_with_cell, line_cell, line_team, line_tile, shaped, winner, winner_from, with_cell, Grid,
};
use crate::outcome::{outcome_of, Outcome};
use crate::render::{render, render_board};

verus! {

/// Why a placement was turned down.
#[derive(Clone, Copy, Debug, PartialEq, Eq, Structural)]
pub enum Refusal {
    /// The column is not one of 1, 2, 3, 4.
    InvalidColumn,
    /// The game is over: it was won or drawn.
    GameAlreadyResolved,
    /// The column has no empty cell.
    ColumnFull,
}

/// A placement that was turned down. The two refusals that come from the
/// state of the game carry the text of the board as it stands.
#[derive(Debug)]
pub enum PlaceError {
    InvalidColumn,
    GameAlreadyResolved(String),
    ColumnFull(String),
}

impl PlaceError {
    /// Which refusal the error stands for.
    pub open spec fn refusal_spec(self) -> Refusal {
        match self {
            PlaceError::InvalidColumn => Refusal::InvalidColumn,
            PlaceError::GameAlreadyResolved(_) => Refusal::GameAlreadyResolved,
            PlaceError::ColumnFull(_) => Refusal::ColumnFull,
        }
    }

    /// The text that the error carries; none for an invalid column.
    pub open spec fn text_spec(self) -> Option<Seq<char>> {
        match self {
            PlaceError::InvalidColumn => None,
            PlaceError::GameAlreadyResolved(text) => Some(text@),
            PlaceError::ColumnFull(text) => Some(text@),
        }
    }

    /// Which refusal this is.
    pub fn refusal(&self) -> (r: Refusal)
        ensures
            r == self.refusal_spec(),
    {
        match self {
            PlaceError::InvalidColumn => Refusal::InvalidColumn,
            PlaceError::GameAlreadyResolved(_) => Refusal::GameAlreadyResolved,
            PlaceError::ColumnFull(_) => Refusal::ColumnFull,
        }
    }

    /// Whether the request itself was malformed, as against a well-formed
    /// request that the state of the game does not allow.
    pub fn is_malformed(&self) -> (b: bool)
        ensures
            b == (self.refusal_spec() == Refusal::InvalidColumn),
    {
        match self {
            PlaceError::InvalidColumn => true,
            _ => false,
        }
    }
}

/// The mathematical model of a board.
pub ghost struct BoardView {
    pub cells: Seq<Seq<Tile>>,
    pub outcome: Outcome,
}

/// In every column the pieces rest on the floor or on another piece: no
/// cell below a piece is empty.
pub open spec fn settled(cells: Seq<Seq<Tile>>) -> bool {
    forall|r: int, below: int, c: int|
        0 <= r < below < 4 && 0 <= c < 4 && #[trigger] cells[r][c] != Tile::Empty
            ==> #[trigger] cells[below][c] != Tile::Empty
}

impl BoardView {
    /// The board at the start of a game.
    pub open spec fn fresh() -> BoardView {
        BoardView { cells: empty_cells(), outcome: Outcome::Unresolved }
    }

    /// The board that shows `cells`, resolved as they call for.
    pub open spec fn showing(cells: Seq<Seq<Tile>>) -> BoardView {
        BoardView { cells, outcome: outcome_of(cells) }
    }

    /// What holds of every board: it is four by four, no piece floats, and
    /// the outcome is the one that its grid calls for.
    pub open spec fn wf(self) -> bool {
        &&& shaped(self.cells)
        &&& settled(self.cells)
        &&& self.outcome == outcome_of(self.cells)
    }

    /// The reason for which a placement into `column` (counted from 1) is
    /// turned down, if it is. The column is judged first, then the outcome,
    /// then the room in the column.
    pub open spec fn refusal(self, column: int) -> Option<Refusal> {
        if !(1 <= column <= 4) {
            Some(Refusal::InvalidColumn)
        } else if self.outcome.resolved() {
            Some(Refusal::GameAlreadyResolved)
        } else if landing_row(self.cells, column - 1) is None {
            Some(Refusal::ColumnFull)
        } else {
            None
        }
    }

    /// The board after `team` asked for `column`: unchanged where the
    /// placement is turned down; else with the piece in the lowest empty
    /// cell of the column, and resolved as the new grid calls for.
    pub open spec fn place(self, team: Tile, column: int) -> BoardView {
        if self.refusal(column) is Some {
            self
        } else {
            BoardView::showing(
                with_cell(self.cells, landing_row(self.cells, column - 1)->0, column - 1, team),
            )
        }
    }

    /// The text that comes with a refusal: the board as it stands, and
    /// nothing for an invalid column or where the piece is placed.
    pub open spec fn refusal_text(self, column: int) -> Option<Seq<char>> {
        match self.refusal(column) {
            Some(Refusal::GameAlreadyResolved) | Some(Refusal::ColumnFull) => Some(self.render()),
            _ => None,
        }
    }

    /// The text of the board.
    pub open spec fn render(self) -> Seq<char> {
        render_board(self.cells, self.outcome)
    }
}

/// The board at the start of a game is well formed.
pub proof fn lemma_fresh_wf()
    ensures
        BoardView::fresh().wf(),
{
    let cells = empty_cells();
    reveal_with_fuel(winner_from, 11);
    assert(cells[0][0] == Tile::Empty);
    assert(!full(cells));
}

/// After one cell was written with a team, a complete line either holds
/// that team or was complete before, with the same team.
pub proof fn lemma_line_after(cells: Seq<Seq<Tile>>, r: int, c: int, t: Tile, k: int)
    requires
        shaped(cells),
        0 <= r < 4,
        0 <= c < 4,
        0 <= k < 10,
    ensures
        line_team(with_cell(cells, r, c, t), k) is Some ==> line_team(
            with_cell(cells, r, c, t),
            k,
        ) == Some(t) || line_team(with_cell(cells, r, c, t), k) == line_team(cells, k),
{
    let next = with_cell(cells, r, c, t);
    lemma_with_cell(cells, r, c, t);
    assert forall|i: int| 0 <= i < 4 implies #[trigger] line_tile(next, k, i) == t || line_tile(
        next,
        k,
        i,
    ) == line_tile(cells, k, i) by {
        let p = line_cell(k, i);
        assert(0 <= p.0 < 4 && 0 <= p.1 < 4);
        assert(next[p.0][p.1] == (if p.0 == r && p.1 == c {
            t
        } else {
            cells[p.0][p.1]
        }));
    }
    assert(line_tile(next, k, 0) == t || line_tile(next, k, 0) == line_tile(cells, k, 0));
    assert(line_tile(next, k, 1) == t || line_tile(next, k, 1) == line_tile(cells, k, 1));
    assert(line_tile(next, k, 2) == t || line_tile(next, k, 2) == line_tile(cells, k, 2));
    assert(line_tile(next, k, 3) == t || line_tile(next, k, 3) == line_tile(cells, k, 3));
}

/// A piece dropped into a column leaves the grid settled.
pub proof fn lemma_drop_settled(cells: Seq<Seq<Tile>>, c: int, team: Tile)
    requires
        shaped(cells),
        settled(cells),
        0 <= c < 4,
        team != Tile::Empty,
        landing_row(cells, c) is Some,
    ensures
        shaped(with_cell(cells, landing_row(cells, c)->0, c, team)),
        settled(with_cell(cells, landing_row(cells, c)->0, c, team)),
{
    let r = landing_row(cells, c)->0;
    let next = with_cell(cells, r, c, team);
    lemma_landing_row(cells, c);
    lemma_with_cell(cells, r, c, team);
    assert forall|i: int, below: int, j: int|
        0 <= i < below < 4 && 0 <= j < 4 && #[trigger] next[i][j] != Tile::Empty implies
        #[trigger] next[below][j] != Tile::Empty by {
        if below == r && j == c {
        } else if i == r && j == c {
            assert(cells[below][j] != Tile::Empty);
        } else {
            assert(cells[i][j] != Tile::Empty);
            assert(cells[below][j] != Tile::Empty);
        }
    }
}

/// A piece of a team, written into a grid without a complete line,
/// completes lines of that team only: the new grid has no winner, or that
/// team is the winner.
pub proof fn lemma_one_team_at_a_time(cells: Seq<Seq<Tile>>, r: int, c: int, team: Tile)
    requires
        shaped(cells),
        0 <= r < 4,
        0 <= c < 4,
        winner(cells) is None,
    ensures
        winner(with_cell(cells, r, c, team)) is None || winner(with_cell(cells, r, c, team))
            == Some(team),
{
    let next = with_cell(cells, r, c, team);
    if winner(next) is Some {
        lemma_winner(cells);
        lemma_winner(next);
        let k = choose|k: int| 0 <= k < 10 && line_team(next, k) == winner(next);
        lemma_line_after(cells, r, c, team, k);
        assert(line_team(cells, k) is None);
    }
}

/// A board: the grid and the outcome of the game on it.
#[derive(Clone, Copy, Debug)]
pub struct Board {
    grid: Grid,
    outcome: Outcome,
}

impl View for Board {
    type V = BoardView;

    closed spec fn view(&self) -> BoardView {
        BoardView { cells: self.grid@, outcome: self.outcome }
    }
}

impl Board {
    #[verifier::type_invariant]
    spec fn inv(self) -> bool {
        self@.wf()
    }

    /// The empty board of a game that has not begun.
    pub fn new() -> (b: Board)
        ensures
            b@ == BoardView::fresh(),
            b@.wf(),
    {
        proof {
            lemma_fresh_wf();
        }
        Board { grid: Grid::new(), outcome: Outcome::Unresolved }
    }

    /// The value at row `r`, column `c`, both counted from 0 and from the
    /// top left.
    pub fn tile(&self, r: usize, c: usize) -> (t: Tile)
        requires
            r < 4,
            c < 4,
        ensures
            t == self@.cells[r as int][c as int],
            self@.wf(),
    {
        proof {
            use_type_invariant(self);
        }
        self.grid.get(r, c)
    }

    /// How the game stands.
    pub fn outcome(&self) -> (o: Outcome)
        ensures
            o == self@.outcome,
            self@.wf(),
    {
        proof {
            use_type_invariant(self);
        }
        self.outcome
    }

    /// The text of the board: the grid between its walls, and the line of
    /// the outcome once the game is over.
    pub fn render(&self) -> (text: String)
        ensures
            text@ == self@.render(),
    {
        render(&self.grid, self.outcome)
    }

    /// The outcome of a grid on which only `team` can have won.
    fn outcome_after(grid: &Grid, team: Tile) -> (o: Outcome)
        requires
            winner(grid@) is None || winner(grid@) == Some(team),
        ensures
            o == outcome_of(grid@),
    {
        if grid.evaluate().is_some() {
            Outcome::WonBy(team)
        } else if grid.is_full() {
            Outcome::Draw
        } else {
            Outcome::Unresolved
        }
    }

    /// The board that sixteen booleans fill, row by row from the top left:
    /// won by the team of its first complete line, or drawn.
    pub fn filled(bits: &[bool; 16]) -> (b: Board)
        ensures
            b@ == BoardView::showing(cells_of_bits(bits@)),
            b@.outcome.resolved(),
            b@.wf(),
    {
        let grid = Grid::filled(bits);
        let outcome = match grid.evaluate() {
            Some(team) => Outcome::WonBy(team),
            None => Outcome::Draw,
        };
        Board { grid, outcome }
    }

    /// Empties the board and opens the game again.
    pub fn reset(&mut self)
        ensures
            final(self)@ == BoardView::fresh(),
    {
        *self = Board::new();
    }

    /// Drops a piece of `team` into `column`, counted from 1. The piece
    /// comes to rest in the lowest empty cell of the column; the game is
    /// then won by `team` if a line is complete, drawn if the grid is full,
    /// and open otherwise. A placement that is turned down changes nothing.
    pub fn place(&mut self, team: Tile, column: usize) -> (res: Result<String, PlaceError>)
        requires
            team != Tile::Empty,
        ensures
            final(self)@ == old(self)@.place(team, column as int),
            final(self)@.wf(),
            match res {
                Ok(text) => old(self)@.refusal(column as int) is None
                    && text@ == final(self)@.render(),
                Err(e) => old(self)@.refusal(column as int) == Some(e.refusal_spec())
                    && e.text_spec() == old(self)@.refusal_text(column as int),
            },
            old(self)@.outcome.resolved() ==> final(self)@.outcome == old(self)@.outcome,
            final(self)@.outcome is WonBy ==> final(self)@.outcome == old(self)@.outcome
                || final(self)@.outcome == Outcome::WonBy(team),
    {
        proof {
            use_type_invariant(&*self);
        }
        if column < 1 || column > 4 {
            return Err(PlaceError::InvalidColumn);
        }
        let c: usize = column - 1;
        if self.outcome.is_resolved() {
            return Err(PlaceError::GameAlreadyResolved(self.render()));
        }
        let row = match self.grid.landing(c) {
            Some(row) => row,
            None => {
                return Err(PlaceError::ColumnFull(self.render()));
            },
        };
        let ghost before = self@;
        let mut grid = self.grid;
        grid.set(row, c, team);
        proof {
            lemma_landing_row(before.cells, c as int);
            lemma_drop_settled(before.cells, c as int, team);
            lemma_one_team_at_a_time(before.cells, row as int, c as int, team);
        }
        let outcome = Board::outcome_after(&grid, team);
        *self = Board { grid, outcome };
        assert(self@ == before.place(team, column as int));
        Ok(self.render())
    }
}

} // verus!

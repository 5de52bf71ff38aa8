//! What holds of the board in play over one placement and over many, and
//! of a board that was just made.

use vstd::prelude::*;
use crate::tile::Tile;
use crate::grid::{
    empty_cells, full, landing_row, lemma_landing_row, lemma_winner, lemma_with_cell, line_team,
    lowest_empty_upto, shaped, with_cell,
};
use crate::outcome::Outcome;
use crate::service::GameServiceView;
use crate::render::{render_cells, render_floor, render_outcome, wall};
use crate::board::{
    lemma_drop_settled, lemma_fresh_wf, lemma_line_after, lemma_one_team_at_a_time, BoardView,
    Refusal,
};

verus! {

/// The board after a sequence of placements, each a team and a column, the
/// first of the sequence made first.
pub open spec fn place_all(b: BoardView, moves: Seq<(Tile, int)>) -> BoardView
    decreases moves.len(),
{
    if moves.len() == 0 {
        b
    } else {
        place_all(b, moves.drop_last()).place(moves.last().0, moves.last().1)
    }
}

/// A placement keeps a well-formed board well formed.
pub proof fn lemma_place_wf(b: BoardView, team: Tile, column: int)
    requires
        b.wf(),
        team != Tile::Empty,
    ensures
        b.place(team, column).wf(),
{
    if b.refusal(column) is None {
        lemma_drop_settled(b.cells, column - 1, team);
    }
}

/// A well-formed board that is won is won by a team, and that team holds
/// a whole line; one that is drawn or open has no complete line.
pub proof fn lemma_outcome_meaning(b: BoardView)
    requires
        b.wf(),
    ensures
        b.outcome != Outcome::WonBy(Tile::Empty),
        b.outcome is WonBy ==> exists|k: int|
            0 <= k < 10 && line_team(b.cells, k) == Some(b.outcome->WonBy_0),
        !(b.outcome is WonBy) ==> forall|k: int| 0 <= k < 10 ==> line_team(b.cells, k) is None,
        b.outcome == Outcome::Draw ==> full(b.cells),
        b.outcome == Outcome::Unresolved ==> !full(b.cells),
{
    lemma_winner(b.cells);
}

/// A placement on a resolved board changes nothing, whatever the team and
/// the column; into a column of the grid it is turned down as already
/// resolved, with the text of the board as it stands.
pub proof fn lemma_rejection_changes_nothing(b: BoardView, team: Tile, column: int)
    requires
        b.outcome.resolved(),
    ensures
        b.place(team, column) == b,
        1 <= column <= 4 ==> b.refusal(column) == Some(Refusal::GameAlreadyResolved)
            && b.refusal_text(column) == Some(b.render()),
{
}

/// A resolved board stays as it is through any sequence of placements.
pub proof fn lemma_resolution_is_final(b: BoardView, moves: Seq<(Tile, int)>)
    requires
        b.outcome.resolved(),
    ensures
        place_all(b, moves) == b,
    decreases moves.len(),
{
    if moves.len() > 0 {
        lemma_resolution_is_final(b, moves.drop_last());
    }
}

/// Once a sequence of placements has resolved the board, the rest of the
/// sequence leaves board and outcome as they then stood.
pub proof fn lemma_monotonic_resolution(b: BoardView, moves: Seq<(Tile, int)>, i: int, j: int)
    requires
        0 <= i <= j <= moves.len(),
        place_all(b, moves.take(i)).outcome.resolved(),
    ensures
        place_all(b, moves.take(j)) == place_all(b, moves.take(i)),
    decreases j - i,
{
    if i < j {
        lemma_monotonic_resolution(b, moves, i, j - 1);
        assert(moves.take(j).drop_last() =~= moves.take(j - 1));
    }
}

/// The outcome of a board in play changes only from unresolved, and then
/// to a draw or to a win of the team that placed.
pub proof fn lemma_outcome_step(b: BoardView, team: Tile, column: int)
    requires
        b.wf(),
        team != Tile::Empty,
    ensures
        b.place(team, column).outcome == b.outcome || (b.outcome == Outcome::Unresolved && (
            b.place(team, column).outcome == Outcome::Draw || b.place(team, column).outcome
                == Outcome::WonBy(team))),
{
    if b.refusal(column) is None {
        lemma_landing_row(b.cells, column - 1);
        lemma_one_team_at_a_time(b.cells, landing_row(b.cells, column - 1)->0, column - 1, team);
    }
}

/// After a placement that was accepted, every complete line holds the team
/// that placed: no two teams ever hold a complete line each.
pub proof fn lemma_lines_of_one_team(b: BoardView, team: Tile, column: int, k: int)
    requires
        b.wf(),
        b.refusal(column) is None,
        0 <= k < 10,
    ensures
        line_team(b.place(team, column).cells, k) is Some ==> line_team(
            b.place(team, column).cells,
            k,
        ) == Some(team),
{
    lemma_landing_row(b.cells, column - 1);
    lemma_winner(b.cells);
    lemma_line_after(b.cells, landing_row(b.cells, column - 1)->0, column - 1, team, k);
}

/// Two pieces dropped into one column, one after the other: the second
/// comes to rest directly above the first.
pub proof fn lemma_stacking(b: BoardView, first: Tile, second: Tile, column: int)
    requires
        b.wf(),
        first != Tile::Empty,
        second != Tile::Empty,
        b.refusal(column) is None,
        b.place(first, column).refusal(column) is None,
    ensures
        landing_row(b.cells, column - 1)->0 >= 1,
        landing_row(b.place(first, column).cells, column - 1) == Some(
            landing_row(b.cells, column - 1)->0 - 1,
        ),
        b.place(first, column).place(second, column).cells[landing_row(
            b.cells,
            column - 1,
        )->0][column - 1] == first,
        b.place(first, column).place(second, column).cells[landing_row(b.cells, column - 1)->0
            - 1][column - 1] == second,
{
    let c = column - 1;
    let y = landing_row(b.cells, c)->0;
    let mid = b.place(first, column);
    lemma_landing_row(b.cells, c);
    lemma_with_cell(b.cells, y, c, first);
    lemma_drop_settled(b.cells, c, first);
    lemma_landing_row(mid.cells, c);
    let z = landing_row(mid.cells, c)->0;
    assert(mid.cells[y][c] == first);
    assert(z < y) by {
        if z > y {
            assert(mid.cells[z][c] == b.cells[z][c]);
        }
    }
    assert(z == y - 1) by {
        if z < y - 1 {
            assert(mid.cells[y - 1][c] != Tile::Empty);
            assert(b.cells[y - 1][c] != Tile::Empty);
            assert(b.cells[y][c] != Tile::Empty);
        }
    }
    lemma_with_cell(mid.cells, z, c, second);
}

/// A piece written into one column does not move the landing row of
/// another.
pub proof fn lemma_other_column_untouched(
    cells: Seq<Seq<Tile>>,
    r: int,
    c: int,
    t: Tile,
    other: int,
)
    requires
        shaped(cells),
        0 <= r < 4,
        0 <= c < 4,
        0 <= other < 4,
        other != c,
    ensures
        landing_row(with_cell(cells, r, c, t), other) == landing_row(cells, other),
{
    lemma_with_cell(cells, r, c, t);
    reveal_with_fuel(lowest_empty_upto, 5);
}

/// Two placements into different columns, neither of which ends the game,
/// leave the same board in either order, with both pieces on it: whichever
/// of two callers comes first, no piece is lost.
pub proof fn lemma_different_columns_commute(
    b: BoardView,
    first: Tile,
    column: int,
    second: Tile,
    other: int,
)
    requires
        b.wf(),
        first != Tile::Empty,
        second != Tile::Empty,
        column != other,
        b.refusal(column) is None,
        b.refusal(other) is None,
        !b.place(first, column).outcome.resolved(),
        !b.place(second, other).outcome.resolved(),
    ensures
        b.place(first, column).place(second, other) == b.place(second, other).place(first, column),
        b.place(first, column).place(second, other).cells[landing_row(
            b.cells,
            column - 1,
        )->0][column - 1] == first,
        b.place(first, column).place(second, other).cells[landing_row(
            b.cells,
            other - 1,
        )->0][other - 1] == second,
{
    let c1 = column - 1;
    let c2 = other - 1;
    let r1 = landing_row(b.cells, c1)->0;
    let r2 = landing_row(b.cells, c2)->0;
    lemma_landing_row(b.cells, c1);
    lemma_landing_row(b.cells, c2);
    lemma_with_cell(b.cells, r1, c1, first);
    lemma_with_cell(b.cells, r2, c2, second);
    lemma_other_column_untouched(b.cells, r1, c1, first, c2);
    lemma_other_column_untouched(b.cells, r2, c2, second, c1);
    let one = with_cell(b.cells, r1, c1, first);
    let two = with_cell(b.cells, r2, c2, second);
    lemma_with_cell(one, r2, c2, second);
    lemma_with_cell(two, r1, c1, first);
    assert(with_cell(one, r2, c2, second) =~~= with_cell(two, r1, c1, first));
}

/// The row of an empty board.
pub open spec fn empty_row() -> Seq<char> {
    seq![wall(), '⬛', '⬛', '⬛', '⬛', wall(), '\n']
}

/// The board at the start of a game, and so the board in play of a service
/// that was just made or reset, reads as four empty rows and the closing
/// row, with no line of an outcome behind them.
pub proof fn lemma_fresh_render()
    ensures
        BoardView::fresh().wf(),
        BoardView::fresh().render() == empty_row() + empty_row() + empty_row() + empty_row()
            + render_floor(),
        GameServiceView::fresh().board.render() == empty_row() + empty_row() + empty_row()
            + empty_row() + render_floor(),
{
    lemma_fresh_wf();
    let cells = empty_cells();
    assert(cells[0] =~= Seq::new(4, |c: int| Tile::Empty));
    assert(cells[1] =~= Seq::new(4, |c: int| Tile::Empty));
    assert(cells[2] =~= Seq::new(4, |c: int| Tile::Empty));
    assert(cells[3] =~= Seq::new(4, |c: int| Tile::Empty));
    assert(render_cells(cells) =~= empty_row() + empty_row() + empty_row() + empty_row()
        + render_floor());
    assert(render_outcome(Outcome::Unresolved) =~= Seq::<char>::empty());
    assert(BoardView::fresh().render() =~= render_cells(cells));
}

} // verus!

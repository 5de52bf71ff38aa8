//! The text form of a board.

use vstd::prelude::*;
use vstd::string::StringExecFns;
use crate::tile::Tile;
use crate::grid::Grid;
use crate::outcome::Outcome;

verus! {

/// The character of the border.
pub open spec fn wall() -> char {
    '⬜'
}

/// One row: a wall, the four cells, a wall, a line break.
pub open spec fn render_row(row: Seq<Tile>) -> Seq<char> {
    seq![
        wall(),
        row[0].glyph_spec(),
        row[1].glyph_spec(),
        row[2].glyph_spec(),
        row[3].glyph_spec(),
        wall(),
        '\n',
    ]
}

/// The closing row: six walls and a line break.
pub open spec fn render_floor() -> Seq<char> {
    seq![wall(), wall(), wall(), wall(), wall(), wall(), '\n']
}

/// The four rows from the top, then the closing row.
pub open spec fn render_cells(cells: Seq<Seq<Tile>>) -> Seq<char> {
    render_row(cells[0]) + render_row(cells[1]) + render_row(cells[2]) + render_row(cells[3])
        + render_floor()
}

/// The line that follows a resolved board; nothing for an open one.
pub open spec fn render_outcome(outcome: Outcome) -> Seq<char> {
    match outcome {
        Outcome::Unresolved => Seq::empty(),
        Outcome::Draw => seq!['N', 'o', ' ', 'w', 'i', 'n', 'n', 'e', 'r', '.', '\n'],
        Outcome::WonBy(t) => seq![t.glyph_spec(), ' ', 'w', 'i', 'n', 's', '!', '\n'],
    }
}

/// The whole text: the grid, then the line of the outcome.
pub open spec fn render_board(cells: Seq<Seq<Tile>>, outcome: Outcome) -> Seq<char> {
    render_cells(cells) + render_outcome(outcome)
}

/// Appends the text of row `r` of `grid` to `out`.
fn push_row(out: &mut String, grid: &Grid, r: usize)
    requires
        r < 4,
    ensures
        final(out)@ == old(out)@ + render_row(grid@[r as int]),
{
    proof {
        reveal_strlit("⬜");
        reveal_strlit("⬜\n");
    }
    out.append("⬜");
    out.append(grid.get(r, 0).glyph());
    out.append(grid.get(r, 1).glyph());
    out.append(grid.get(r, 2).glyph());
    out.append(grid.get(r, 3).glyph());
    out.append("⬜\n");
    assert(out@ =~= old(out)@ + render_row(grid@[r as int]));
}

/// Appends the line of `outcome` to `out`.
fn push_outcome(out: &mut String, outcome: Outcome)
    ensures
        final(out)@ == old(out)@ + render_outcome(outcome),
{
    match outcome {
        Outcome::Unresolved => {
            assert(out@ =~= old(out)@ + render_outcome(outcome));
        },
        Outcome::Draw => {
            proof {
                reveal_strlit("No winner.\n");
            }
            out.append("No winner.\n");
            assert(out@ =~= old(out)@ + render_outcome(outcome));
        },
        Outcome::WonBy(t) => {
            proof {
                reveal_strlit(" wins!\n");
            }
            out.append(t.glyph());
            out.append(" wins!\n");
            assert(out@ =~= old(out)@ + render_outcome(outcome));
        },
    }
}

/// The text of a grid with its outcome.
pub fn render(grid: &Grid, outcome: Outcome) -> (text: String)
    ensures
        text@ == render_board(grid@, outcome),
{
    let mut out = String::new();
    push_row(&mut out, grid, 0);
    push_row(&mut out, grid, 1);
    push_row(&mut out, grid, 2);
    push_row(&mut out, grid, 3);
    proof {
        reveal_strlit("⬜⬜⬜⬜⬜⬜\n");
    }
    out.append("⬜⬜⬜⬜⬜⬜\n");
    assert(out@ =~= render_cells(grid@)) by {
        assert("⬜⬜⬜⬜⬜⬜\n"@ =~= render_floor());
    }
    push_outcome(&mut out, outcome);
    out
}

} // verus!

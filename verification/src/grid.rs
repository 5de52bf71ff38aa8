//! The four-by-four grid, its mathematical model, and line detection.

use vstd::prelude::*;
use crate::tile::Tile;

verus! {

/// A model grid has four rows of four cells.
pub open spec fn shaped(cells: Seq<Seq<Tile>>) -> bool {
    &&& cells.len() == 4
    &&& forall|r: int| 0 <= r < 4 ==> (#[trigger] cells[r]).len() == 4
}

/// The grid with `t` written at row `r`, column `c`.
pub open spec fn with_cell(cells: Seq<Seq<Tile>>, r: int, c: int, t: Tile) -> Seq<Seq<Tile>> {
    cells.update(r, cells[r].update(c, t))
}

/// The grid of which every cell is empty.
pub open spec fn empty_cells() -> Seq<Seq<Tile>> {
    Seq::new(4, |r: int| Seq::new(4, |c: int| Tile::Empty))
}

/// The grid that sixteen booleans fill, row by row from the top left: the
/// first team where the boolean is `true`, the second where it is `false`.
pub open spec fn cells_of_bits(bits: Seq<bool>) -> Seq<Seq<Tile>> {
    Seq::new(4, |r: int| Seq::new(4, |c: int| Tile::of_bit_spec(bits[4 * r + c])))
}

/// Row and column of the `i`-th cell of line `k`. Lines 0 to 3 are the rows
/// from the top, 4 to 7 the columns from the left, 8 the diagonal from the top
/// left, 9 the diagonal from the bottom left.
pub open spec fn line_cell(k: int, i: int) -> (int, int) {
    if k < 4 {
        (k, i)
    } else if k < 8 {
        (i, k - 4)
    } else if k == 8 {
        (i, i)
    } else {
        (3 - i, i)
    }
}

/// The value in the `i`-th cell of line `k`.
pub open spec fn line_tile(cells: Seq<Seq<Tile>>, k: int, i: int) -> Tile {
    cells[line_cell(k, i).0][line_cell(k, i).1]
}

/// The team that holds all four cells of line `k`, if one does.
pub open spec fn line_team(cells: Seq<Seq<Tile>>, k: int) -> Option<Tile> {
    let t = line_tile(cells, k, 0);
    if t != Tile::Empty && line_tile(cells, k, 1) == t && line_tile(cells, k, 2) == t
        && line_tile(cells, k, 3) == t {
        Some(t)
    } else {
        None
    }
}

/// The team of the first complete line among lines `k`, `k + 1`, ..., 9.
pub open spec fn winner_from(cells: Seq<Seq<Tile>>, k: int) -> Option<Tile>
    decreases 10 - k,
{
    if k < 0 || k >= 10 {
        None
    } else if line_team(cells, k) is Some {
        line_team(cells, k)
    } else {
        winner_from(cells, k + 1)
    }
}

/// The winner of a grid: the team of its first complete line, rows before
/// columns before the two diagonals.
pub open spec fn winner(cells: Seq<Seq<Tile>>) -> Option<Tile> {
    winner_from(cells, 0)
}

/// No cell is empty.
pub open spec fn full(cells: Seq<Seq<Tile>>) -> bool {
    forall|r: int, c: int| 0 <= r < 4 && 0 <= c < 4 ==> #[trigger] cells[r][c] != Tile::Empty
}

/// The lowest empty row of column `c` among rows 0 to `r`.
pub open spec fn lowest_empty_upto(cells: Seq<Seq<Tile>>, c: int, r: int) -> Option<int>
    decreases r + 1,
{
    if r < 0 {
        None
    } else if cells[r][c] == Tile::Empty {
        Some(r)
    } else {
        lowest_empty_upto(cells, c, r - 1)
    }
}

/// The row in which a piece dropped into column `c` comes to rest: the
/// empty cell with the highest row index, if the column has one.
pub open spec fn landing_row(cells: Seq<Seq<Tile>>, c: int) -> Option<int> {
    lowest_empty_upto(cells, c, 3)
}

/// Four rows of four cells, row 0 at the top.
#[derive(Clone, Copy, Debug)]
pub struct Grid {
    pub cells: [[Tile; 4]; 4],
}

impl View for Grid {
    type V = Seq<Seq<Tile>>;

    open spec fn view(&self) -> Seq<Seq<Tile>> {
        Seq::new(4, |r: int| self.cells[r]@)
    }
}

impl Grid {
    /// The grid with nothing on it.
    pub fn new() -> (g: Grid)
        ensures
            g@ == empty_cells(),
    {
        let g = Grid { cells: [[Tile::Empty; 4]; 4] };
        assert(g@ =~~= empty_cells());
        g
    }

    /// The grid that sixteen booleans fill, row by row from the top left.
    pub fn filled(bits: &[bool; 16]) -> (g: Grid)
        ensures
            g@ == cells_of_bits(bits@),
            full(g@),
    {
        let mut g = Grid { cells: [[Tile::Empty; 4]; 4] };
        let mut r: usize = 0;
        while r < 4
            invariant
                r <= 4,
                forall|i: int, j: int|
                    0 <= i < r && 0 <= j < 4 ==> #[trigger] g.cells[i][j] == Tile::of_bit_spec(
                        bits[4 * i + j],
                    ),
            decreases 4 - r,
        {
            let mut c: usize = 0;
            while c < 4
                invariant
                    r < 4,
                    c <= 4,
                    forall|i: int, j: int|
                        0 <= i < r && 0 <= j < 4 ==> #[trigger] g.cells[i][j]
                            == Tile::of_bit_spec(bits[4 * i + j]),
                    forall|j: int|
                        0 <= j < c ==> #[trigger] g.cells[r as int][j] == Tile::of_bit_spec(
                            bits[4 * r + j],
                        ),
                decreases 4 - c,
            {
                g.cells[r][c] = Tile::of_bit(bits[4 * r + c]);
                c += 1;
            }
            r += 1;
        }
        assert(g@ =~~= cells_of_bits(bits@));
        assert forall|i: int, j: int| 0 <= i < 4 && 0 <= j < 4 implies #[trigger] g@[i][j]
            != Tile::Empty by {
            assert(g@[i][j] == g.cells[i][j]);
        }
        g
    }

    /// The value at row `r`, column `c`.
    pub fn get(&self, r: usize, c: usize) -> (t: Tile)
        requires
            r < 4,
            c < 4,
        ensures
            t == self@[r as int][c as int],
    {
        self.cells[r][c]
    }

    /// Writes `t` at row `r`, column `c`, and leaves the other cells alone.
    pub fn set(&mut self, r: usize, c: usize, t: Tile)
        requires
            r < 4,
            c < 4,
        ensures
            final(self)@ == with_cell(old(self)@, r as int, c as int, t),
    {
        self.cells[r][c] = t;
        assert(self@ =~~= with_cell(old(self)@, r as int, c as int, t));
    }

    /// Row and column of the `i`-th cell of line `k`.
    fn line_position(k: usize, i: usize) -> (p: (usize, usize))
        requires
            k < 10,
            i < 4,
        ensures
            p.0 < 4,
            p.1 < 4,
            (p.0 as int, p.1 as int) == line_cell(k as int, i as int),
    {
        if k < 4 {
            (k, i)
        } else if k < 8 {
            (i, k - 4)
        } else if k == 8 {
            (i, i)
        } else {
            (3 - i, i)
        }
    }

    /// The value in the `i`-th cell of line `k`.
    fn line_value(&self, k: usize, i: usize) -> (t: Tile)
        requires
            k < 10,
            i < 4,
        ensures
            t == line_tile(self@, k as int, i as int),
    {
        let (r, c) = Grid::line_position(k, i);
        self.get(r, c)
    }

    /// The team that holds all of line `k`, if one does.
    pub fn line_owner(&self, k: usize) -> (w: Option<Tile>)
        requires
            k < 10,
        ensures
            w == line_team(self@, k as int),
    {
        let t = self.line_value(k, 0);
        if t.is_team() && self.line_value(k, 1) == t && self.line_value(k, 2) == t
            && self.line_value(k, 3) == t {
            Some(t)
        } else {
            None
        }
    }

    /// Looks for a complete line: the rows from the top, then the columns
    /// from the left, then the diagonal from the top left, then the one from
    /// the bottom left. The first complete line gives the winner.
    pub fn evaluate(&self) -> (w: Option<Tile>)
        ensures
            w == winner(self@),
            w != Some(Tile::Empty),
            w is None <==> forall|k: int| 0 <= k < 10 ==> line_team(self@, k) is None,
    {
        let mut k: usize = 0;
        while k < 10
            invariant
                k <= 10,
                winner(self@) == winner_from(self@, k as int),
                forall|j: int| 0 <= j < k ==> line_team(self@, j) is None,
            decreases 10 - k,
        {
            let w = self.line_owner(k);
            if w.is_some() {
                return w;
            }
            k += 1;
        }
        None
    }

    /// Whether no cell is empty.
    pub fn is_full(&self) -> (b: bool)
        ensures
            b == full(self@),
    {
        let mut r: usize = 0;
        while r < 4
            invariant
                r <= 4,
                forall|i: int, j: int|
                    0 <= i < r && 0 <= j < 4 ==> #[trigger] self@[i][j] != Tile::Empty,
            decreases 4 - r,
        {
            let mut c: usize = 0;
            while c < 4
                invariant
                    r < 4,
                    c <= 4,
                    forall|i: int, j: int|
                        0 <= i < r && 0 <= j < 4 ==> #[trigger] self@[i][j] != Tile::Empty,
                    forall|j: int| 0 <= j < c ==> #[trigger] self@[r as int][j] != Tile::Empty,
                decreases 4 - c,
            {
                if !self.get(r, c).is_team() {
                    return false;
                }
                c += 1;
            }
            r += 1;
        }
        true
    }

    /// The row in which a piece dropped into column `c` comes to rest.
    pub fn landing(&self, c: usize) -> (row: Option<usize>)
        requires
            c < 4,
        ensures
            match row {
                Some(r) => r < 4 && landing_row(self@, c as int) == Some(r as int),
                None => landing_row(self@, c as int) is None,
            },
    {
        let mut r: usize = 4;
        while r > 0
            invariant
                r <= 4,
                c < 4,
                landing_row(self@, c as int) == lowest_empty_upto(self@, c as int, r - 1),
            decreases r,
        {
            r -= 1;
            if !self.get(r, c).is_team() {
                return Some(r);
            }
        }
        None
    }
}

/// Writing one cell of a four-by-four grid changes that cell and no other.
pub proof fn lemma_with_cell(cells: Seq<Seq<Tile>>, r: int, c: int, t: Tile)
    requires
        shaped(cells),
        0 <= r < 4,
        0 <= c < 4,
    ensures
        shaped(with_cell(cells, r, c, t)),
        forall|i: int, j: int|
            0 <= i < 4 && 0 <= j < 4 ==> #[trigger] with_cell(cells, r, c, t)[i][j] == (if i == r
                && j == c {
                t
            } else {
                cells[i][j]
            }),
{
}

/// What `landing_row` finds is an empty cell with no empty cell below it, and
/// it finds nothing only in a column without an empty cell.
pub proof fn lemma_landing_row(cells: Seq<Seq<Tile>>, c: int)
    ensures
        match landing_row(cells, c) {
            Some(r) => 0 <= r < 4 && cells[r][c] == Tile::Empty && forall|j: int|
                r < j < 4 ==> #[trigger] cells[j][c] != Tile::Empty,
            None => forall|j: int| 0 <= j < 4 ==> #[trigger] cells[j][c] != Tile::Empty,
        },
{
    reveal_with_fuel(lowest_empty_upto, 5);
}

/// A grid has a winner exactly when one of its ten lines is complete; the
/// winner is a team, and it holds a whole line.
pub proof fn lemma_winner(cells: Seq<Seq<Tile>>)
    ensures
        winner(cells) is None <==> forall|k: int| 0 <= k < 10 ==> line_team(cells, k) is None,
        winner(cells) is Some ==> winner(cells) != Some(Tile::Empty) && exists|k: int|
            0 <= k < 10 && line_team(cells, k) == winner(cells),
{
    reveal_with_fuel(winner_from, 11);
    if winner(cells) is Some {
        let k = if line_team(cells, 0) is Some { 0int }
            else if line_team(cells, 1) is Some { 1 }
            else if line_team(cells, 2) is Some { 2 }
            else if line_team(cells, 3) is Some { 3 }
            else if line_team(cells, 4) is Some { 4 }
            else if line_team(cells, 5) is Some { 5 }
            else if line_team(cells, 6) is Some { 6 }
            else if line_team(cells, 7) is Some { 7 }
            else if line_team(cells, 8) is Some { 8 }
            else { 9 };
        assert(0 <= k < 10 && line_team(cells, k) == winner(cells));
    }
}

} // verus!

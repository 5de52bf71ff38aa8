use board_engine::board::Board;
use board_engine::grid::Grid;
use board_engine::outcome::Outcome;
use board_engine::render::render;
use board_engine::tile::Tile;

const E: Tile = Tile::Empty;
const C: Tile = Tile::Cookie;
const M: Tile = Tile::Milk;

#[test]
fn glyphs_are_the_three_fixed_characters() {
    assert_eq!(Tile::Empty.glyph(), "⬛");
    assert_eq!(Tile::Cookie.glyph(), "🍪");
    assert_eq!(Tile::Milk.glyph(), "🥛");
}

#[test]
fn drawn_booleans_map_to_the_two_teams() {
    assert_eq!(Tile::of_bit(true), Tile::Cookie);
    assert_eq!(Tile::of_bit(false), Tile::Milk);
    assert!(Tile::Cookie.is_team());
    assert!(Tile::Milk.is_team());
    assert!(!Tile::Empty.is_team());
    assert_eq!(Tile::default(), Tile::Empty);
}

#[test]
fn empty_grid_has_no_winner_and_is_not_full() {
    let g = Grid::new();
    assert_eq!(g.evaluate(), None);
    assert!(!g.is_full());
    for c in 0..4 {
        assert_eq!(g.landing(c), Some(3));
    }
}

#[test]
fn set_changes_one_cell() {
    let mut g = Grid::new();
    g.set(2, 1, M);
    for r in 0..4 {
        for c in 0..4 {
            let expected = if r == 2 && c == 1 { M } else { E };
            assert_eq!(g.get(r, c), expected);
        }
    }
}

#[test]
fn landing_is_the_lowest_empty_cell() {
    let g = Grid { cells: [[E, C, E, M], [E, M, E, C], [E, C, M, M], [C, M, E, C]] };
    assert_eq!(g.landing(0), Some(2));
    assert_eq!(g.landing(1), None);
    assert_eq!(g.landing(2), Some(3));
    assert_eq!(g.landing(3), None);
}

#[test]
fn each_line_is_found() {
    for r in 0..4 {
        let mut g = Grid::new();
        for c in 0..4 {
            g.set(r, c, C);
        }
        assert_eq!(g.evaluate(), Some(C));
        assert_eq!(g.line_owner(r), Some(C));
    }
    for c in 0..4 {
        let mut g = Grid::new();
        for r in 0..4 {
            g.set(r, c, M);
        }
        assert_eq!(g.evaluate(), Some(M));
        assert_eq!(g.line_owner(4 + c), Some(M));
    }
    let mut g = Grid::new();
    for i in 0..4 {
        g.set(i, i, C);
    }
    assert_eq!(g.evaluate(), Some(C));
    assert_eq!(g.line_owner(8), Some(C));
    let mut g = Grid::new();
    for i in 0..4 {
        g.set(3 - i, i, M);
    }
    assert_eq!(g.evaluate(), Some(M));
    assert_eq!(g.line_owner(9), Some(M));
}

#[test]
fn three_of_a_kind_is_no_line() {
    let g = Grid { cells: [[C, C, C, M], [E, E, E, E], [E, E, E, E], [M, M, M, E]] };
    assert_eq!(g.evaluate(), None);
}

#[test]
fn rows_come_before_columns_and_columns_before_diagonals() {
    // row 1 is all milk, column 0 would be all cookie but for row 1
    let g = Grid { cells: [[C, C, M, C], [M, M, M, M], [C, M, C, C], [C, C, C, C]] };
    assert_eq!(g.evaluate(), Some(M));
    // column 3 is all milk, the diagonal from the top left all cookie but for it
    let g = Grid { cells: [[C, M, C, M], [M, C, M, M], [M, C, C, M], [C, M, C, M]] };
    assert_eq!(g.evaluate(), Some(M));
    // both diagonals cannot be held by two teams; the first diagonal alone
    let g = Grid { cells: [[C, M, M, M], [M, C, M, C], [M, C, C, M], [C, M, M, C]] };
    assert_eq!(g.evaluate(), Some(C));
}

#[test]
fn upper_row_comes_first() {
    let g = Grid { cells: [[M, C, M, C], [M, M, M, M], [C, C, C, C], [C, M, C, M]] };
    assert_eq!(g.evaluate(), Some(M));
    let g = Grid { cells: [[M, C, M, C], [C, C, C, C], [M, M, M, M], [C, M, C, M]] };
    assert_eq!(g.evaluate(), Some(C));
}

#[test]
fn full_is_told_from_nearly_full() {
    let mut g = Grid { cells: [[C, M, C, M], [M, C, M, C], [M, C, M, C], [C, M, C, E]] };
    assert!(!g.is_full());
    g.set(3, 3, M);
    assert!(g.is_full());
}

#[test]
fn render_draws_walls_rows_and_outcome() {
    let g = Grid { cells: [[E, E, E, E], [E, M, E, E], [E, C, E, E], [C, C, M, M]] };
    assert_eq!(
        render(&g, Outcome::Unresolved),
        "⬜⬛⬛⬛⬛⬜\n⬜⬛🥛⬛⬛⬜\n⬜⬛🍪⬛⬛⬜\n⬜🍪🍪🥛🥛⬜\n⬜⬜⬜⬜⬜⬜\n"
    );
    assert_eq!(
        render(&g, Outcome::Draw),
        "⬜⬛⬛⬛⬛⬜\n⬜⬛🥛⬛⬛⬜\n⬜⬛🍪⬛⬛⬜\n⬜🍪🍪🥛🥛⬜\n⬜⬜⬜⬜⬜⬜\nNo winner.\n"
    );
    assert_eq!(
        render(&g, Outcome::WonBy(M)),
        "⬜⬛⬛⬛⬛⬜\n⬜⬛🥛⬛⬛⬜\n⬜⬛🍪⬛⬛⬜\n⬜🍪🍪🥛🥛⬜\n⬜⬜⬜⬜⬜⬜\n🥛 wins!\n"
    );
    assert!(Outcome::Draw.is_resolved());
    assert!(Outcome::WonBy(C).is_resolved());
    assert!(!Outcome::Unresolved.is_resolved());
}

#[test]
fn tokens_name_the_three_values_and_nothing_else() {
    assert_eq!(Tile::from_token("empty"), Some(Tile::Empty));
    assert_eq!(Tile::from_token("cookie"), Some(Tile::Cookie));
    assert_eq!(Tile::from_token("milk"), Some(Tile::Milk));
    for token in ["Empty", "COOKIE", "Milk", "", "none", "cookie\n", "3", "milk!"] {
        assert_eq!(Tile::from_token(token), None, "token {:?}", token);
    }
}

#[test]
fn tokens_name_the_two_teams_and_nothing_else() {
    assert_eq!(Tile::team_from_token("cookie"), Some(Tile::Cookie));
    assert_eq!(Tile::team_from_token("milk"), Some(Tile::Milk));
    for token in ["empty", "Cookie", "MILK", "", "cookies", "mil", " milk", "cookie ", "🍪"] {
        assert_eq!(Tile::team_from_token(token), None, "token {:?}", token);
    }
}

#[test]
fn booleans_fill_the_grid_row_by_row() {
    let mut bits = [false; 16];
    bits[1] = true;
    bits[4] = true;
    bits[15] = true;
    let g = Grid::filled(&bits);
    for r in 0..4 {
        for c in 0..4 {
            let cookie = (r, c) == (0, 1) || (r, c) == (1, 0) || (r, c) == (3, 3);
            let expected = if cookie { C } else { M };
            assert_eq!(g.get(r, c), expected, "row {} column {}", r, c);
        }
    }
    assert!(g.is_full());
}

#[test]
fn filled_board_is_won_by_its_first_complete_line() {
    let b = Board::filled(&[true; 16]);
    assert_eq!(b.outcome(), Outcome::WonBy(C));
    assert_eq!(
        b.render(),
        "⬜🍪🍪🍪🍪⬜\n⬜🍪🍪🍪🍪⬜\n⬜🍪🍪🍪🍪⬜\n⬜🍪🍪🍪🍪⬜\n⬜⬜⬜⬜⬜⬜\n🍪 wins!\n"
    );
    let b = Board::filled(&[false; 16]);
    assert_eq!(b.outcome(), Outcome::WonBy(M));
    // row 1 is milk, row 2 is cookie: the upper row decides
    let t = true;
    let f = false;
    let b = Board::filled(&[t, f, t, f, f, f, f, f, t, t, t, t, f, t, f, t]);
    assert_eq!(b.outcome(), Outcome::WonBy(M));
    assert_eq!(
        b.render(),
        "⬜🍪🥛🍪🥛⬜\n⬜🥛🥛🥛🥛⬜\n⬜🍪🍪🍪🍪⬜\n⬜🥛🍪🥛🍪⬜\n⬜⬜⬜⬜⬜⬜\n🥛 wins!\n"
    );
}

#[test]
fn filled_board_without_a_line_has_no_winner() {
    let t = true;
    let f = false;
    let b = Board::filled(&[t, t, f, f, f, f, t, t, t, t, f, f, f, f, t, t]);
    assert_eq!(b.outcome(), Outcome::Draw);
    assert_eq!(
        b.render(),
        "⬜🍪🍪🥛🥛⬜\n⬜🥛🥛🍪🍪⬜\n⬜🍪🍪🥛🥛⬜\n⬜🥛🥛🍪🍪⬜\n⬜⬜⬜⬜⬜⬜\nNo winner.\n"
    );
}

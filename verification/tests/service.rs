use board_engine::board::{Board, PlaceError};
use board_engine::grid::Grid;
use board_engine::outcome::Outcome;
use board_engine::random::{RandomBoard, SEED};
use board_engine::render::render;
use board_engine::service::GameService;
use board_engine::tile::Tile;
use rand::rngs::StdRng;
use rand::{Rng, SeedableRng};

const EMPTY_BOARD: &str = "⬜⬛⬛⬛⬛⬜\n⬜⬛⬛⬛⬛⬜\n⬜⬛⬛⬛⬛⬜\n⬜⬛⬛⬛⬛⬜\n⬜⬜⬜⬜⬜⬜\n";

/// The texts of the first `n` fills, from the generator itself.
fn expected_fills(n: usize) -> Vec<String> {
    let mut rng = StdRng::seed_from_u64(2024);
    let mut texts = Vec::new();
    for _ in 0..n {
        let mut grid = Grid::new();
        for r in 0..4 {
            for c in 0..4 {
                let tile = if rng.gen::<bool>() { Tile::Cookie } else { Tile::Milk };
                grid.set(r, c, tile);
            }
        }
        let outcome = match grid.evaluate() {
            Some(team) => Outcome::WonBy(team),
            None => Outcome::Draw,
        };
        texts.push(render(&grid, outcome));
    }
    texts
}

#[test]
fn seed_is_the_fixed_constant() {
    assert_eq!(SEED, 2024);
}

#[test]
fn reset_then_get_board_is_the_empty_board() {
    let mut s = GameService::new();
    assert_eq!(s.get_board(), EMPTY_BOARD);
    let _ = s.place(Tile::Cookie, 1);
    let _ = s.place(Tile::Milk, 1);
    assert_ne!(s.get_board(), EMPTY_BOARD);
    assert_eq!(s.reset(), EMPTY_BOARD);
    assert_eq!(s.get_board(), EMPTY_BOARD);
    assert!(!s.get_board().contains("wins"));
    assert!(!s.get_board().contains("No winner"));
}

#[test]
fn reset_reopens_a_resolved_game() {
    let mut s = GameService::new();
    for _ in 0..4 {
        let _ = s.place(Tile::Cookie, 3);
    }
    assert!(s.get_board().ends_with("🍪 wins!\n"));
    assert!(matches!(s.place(Tile::Milk, 1), Err(PlaceError::GameAlreadyResolved(_))));
    assert_eq!(s.reset(), EMPTY_BOARD);
    match s.place(Tile::Milk, 1) {
        Ok(text) => assert_eq!(
            text,
            "⬜⬛⬛⬛⬛⬜\n⬜⬛⬛⬛⬛⬜\n⬜⬛⬛⬛⬛⬜\n⬜🥛⬛⬛⬛⬜\n⬜⬜⬜⬜⬜⬜\n"
        ),
        Err(e) => panic!("placement after reset was turned down: {:?}", e),
    }
}

#[test]
fn placements_into_different_columns_are_both_kept() {
    let mut s = GameService::new();
    assert!(s.place(Tile::Cookie, 1).is_ok());
    assert!(s.place(Tile::Milk, 4).is_ok());
    assert_eq!(
        s.get_board(),
        "⬜⬛⬛⬛⬛⬜\n⬜⬛⬛⬛⬛⬜\n⬜⬛⬛⬛⬛⬜\n⬜🍪⬛⬛🥛⬜\n⬜⬜⬜⬜⬜⬜\n"
    );
}

#[test]
fn random_boards_follow_the_generator() {
    let expected = expected_fills(8);
    let mut s = GameService::new();
    for text in expected.iter() {
        assert_eq!(&s.random_board(), text);
    }
}

#[test]
fn random_boards_are_the_same_on_every_run() {
    let mut first = GameService::new();
    let mut second = GameService::new();
    let a: Vec<String> = (0..6).map(|_| first.random_board()).collect();
    let b: Vec<String> = (0..6).map(|_| second.random_board()).collect();
    assert_eq!(a, b);
    // the generator moves on from call to call
    assert!(a.iter().any(|text| text != &a[0]));
}

#[test]
fn reset_starts_the_random_sequence_again() {
    let mut s = GameService::new();
    let a: Vec<String> = (0..5).map(|_| s.random_board()).collect();
    s.reset();
    let b: Vec<String> = (0..5).map(|_| s.random_board()).collect();
    assert_eq!(a, b);
    assert_eq!(a, expected_fills(5));
}

#[test]
fn random_board_is_full_and_resolved() {
    let mut rb = RandomBoard::new();
    assert_eq!(rb.render(), EMPTY_BOARD);
    assert_eq!(rb.board().outcome(), Outcome::Unresolved);
    for _ in 0..20 {
        rb.gen();
        let board: &Board = rb.board();
        for r in 0..4 {
            for c in 0..4 {
                assert_ne!(board.tile(r, c), Tile::Empty);
            }
        }
        assert_ne!(board.outcome(), Outcome::Unresolved);
        let text = rb.render();
        assert!(text.ends_with(" wins!\n") || text.ends_with("No winner.\n"));
        assert!(!text.contains('⬛'));
    }
}

#[test]
fn the_two_boards_do_not_touch_each_other() {
    let mut s = GameService::new();
    let _ = s.place(Tile::Milk, 2);
    let before = s.get_board();
    let first = s.random_board();
    assert_eq!(s.get_board(), before);
    let _ = s.place(Tile::Cookie, 2);
    let second = s.random_board();
    let expected = expected_fills(2);
    assert_eq!(first, expected[0]);
    assert_eq!(second, expected[1]);
    assert_eq!(
        s.get_board(),
        "⬜⬛⬛⬛⬛⬜\n⬜⬛⬛⬛⬛⬜\n⬜⬛🍪⬛⬛⬜\n⬜⬛🥛⬛⬛⬜\n⬜⬜⬜⬜⬜⬜\n"
    );
}

#[test]
fn first_random_board_reads_as_recorded() {
    let mut s = GameService::new();
    assert_eq!(
        s.random_board(),
        "⬜🍪🍪🍪🍪⬜\n⬜🥛🍪🍪🥛⬜\n⬜🥛🥛🥛🥛⬜\n⬜🍪🥛🍪🥛⬜\n⬜⬜⬜⬜⬜⬜\n🍪 wins!\n"
    );
}

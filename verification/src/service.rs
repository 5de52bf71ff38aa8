//! The service: one board in play and one random board, and the four
//! operations on them. Each operation is one step on one of the two; what
//! keeps two callers apart is for the program that holds the service.

use vstd::prelude::*;
use crate::tile::Tile;
use crate::board::{Board, BoardView, PlaceError};
use crate::random::{RandomBoard, RandomBoardView};

verus! {

/// The mathematical model of the service.
pub ghost struct GameServiceView {
    pub board: BoardView,
    pub random: RandomBoardView,
}

impl GameServiceView {
    /// The service as it is made, and as a reset leaves it.
    pub open spec fn fresh() -> GameServiceView {
        GameServiceView { board: BoardView::fresh(), random: RandomBoardView::fresh() }
    }
}

/// The board in play and the random board.
pub struct GameService {
    board: Board,
    random_board: RandomBoard,
}

impl View for GameService {
    type V = GameServiceView;

    closed spec fn view(&self) -> GameServiceView {
        GameServiceView { board: self.board@, random: self.random_board@ }
    }
}

impl GameService {
    /// An empty board in play, and a random board with its generator
    /// freshly seeded.
    pub fn new() -> (s: GameService)
        ensures
            s@ == GameServiceView::fresh(),
    {
        GameService { board: Board::new(), random_board: RandomBoard::new() }
    }

    /// The text of the board in play.
    pub fn get_board(&self) -> (text: String)
        ensures
            text@ == self@.board.render(),
    {
        self.board.render()
    }

    /// Puts both boards back as they were made, the generator with them, and
    /// gives the text of the empty board in play.
    pub fn reset(&mut self) -> (text: String)
        ensures
            final(self)@ == GameServiceView::fresh(),
            text@ == BoardView::fresh().render(),
    {
        self.board = Board::new();
        self.random_board = RandomBoard::new();
        self.board.render()
    }

    /// Drops a piece of `team` into `column` of the board in play, counted
    /// from 1. The random board is left alone.
    pub fn place(&mut self, team: Tile, column: usize) -> (res: Result<String, PlaceError>)
        requires
            team != Tile::Empty,
        ensures
            final(self)@.board == old(self)@.board.place(team, column as int),
            final(self)@.random == old(self)@.random,
            match res {
                Ok(text) => old(self)@.board.refusal(column as int) is None
                    && text@ == final(self)@.board.render(),
                Err(e) => old(self)@.board.refusal(column as int) == Some(e.refusal_spec())
                    && e.text_spec() == old(self)@.board.refusal_text(column as int),
            },
    {
        self.board.place(team, column)
    }

    /// Fills the random board anew and gives its text. The board in play is
    /// left alone.
    pub fn random_board(&mut self) -> (text: String)
        ensures
            final(self)@.random == old(self)@.random.generate(),
            final(self)@.board == old(self)@.board,
            text@ == final(self)@.random.board.render(),
    {
        self.random_board.gen();
        self.random_board.render()
    }
}

} // verus!

//! The board that is filled at random, from a generator with a fixed seed.

use vstd::prelude::*;
use rand::rngs::StdRng;
use rand::{Rng, SeedableRng};
use crate::grid::cells_of_bits;
use crate::board::{Board, BoardView};

verus! {

/// The seed of the generator.
pub const SEED: u64 = 2024;

/// `rand::rngs::StdRng`, the generator. Nothing is known of its inside.
#[verifier::external_type_specification]
#[verifier::external_body]
pub struct ExStdRng(rand::rngs::StdRng);

/// The booleans that `StdRng::seed_from_u64(seed)` will give, by position
/// from 0, where one boolean is drawn after the other.
pub uninterp spec fn seeded_bits(seed: u64) -> Map<nat, bool>;

/// The booleans that a generator will give from the state it is in, by
/// position from 0, where one boolean is drawn after the other.
pub uninterp spec fn upcoming_bits(rng: StdRng) -> Map<nat, bool>;

/// `StdRng::seed_from_u64`: the generator that a seed gives. The seed alone
/// decides what it will give.
#[verifier::external_body]
fn seeded_rng(seed: u64) -> (rng: StdRng)
    ensures
        upcoming_bits(rng) == seeded_bits(seed),
{
    StdRng::seed_from_u64(seed)
}

/// The booleans of `bits` from position `n` on, each `n` places further up.
pub open spec fn shift(bits: Map<nat, bool>, n: nat) -> Map<nat, bool> {
    Map::new(|k: nat| true, |k: nat| bits[(k + n) as nat])
}

/// `Rng::gen::<bool>` on a `StdRng`: draws the next boolean. It is the one
/// that stood first; those that stood behind it each move up by one.
#[verifier::external_body]
fn next_bool(rng: &mut StdRng) -> (bit: bool)
    ensures
        bit == upcoming_bits(*old(rng))[0],
        forall|k: nat| #[trigger]
            upcoming_bits(*final(rng))[k] == upcoming_bits(*old(rng))[(k + 1) as nat],
{
    rng.gen::<bool>()
}

/// The first `n` booleans of `bits`.
pub open spec fn first_bits(bits: Map<nat, bool>, n: nat) -> Seq<bool> {
    Seq::new(n, |i: int| bits[i as nat])
}

/// The board that the fill of number `n` shows, the first after seeding
/// being number 0: filled from the sixteen booleans that the seed gives from
/// position `16 * n`, and resolved as that grid calls for.
pub open spec fn nth_fill(n: nat) -> BoardView {
    BoardView::showing(cells_of_bits(first_bits(shift(seeded_bits(SEED), 16 * n), 16)))
}

/// Moving up twice is moving up once by the sum.
pub proof fn lemma_shift_twice(bits: Map<nat, bool>, a: nat, b: nat)
    ensures
        shift(shift(bits, a), b) == shift(bits, a + b),
{
    assert(shift(shift(bits, a), b) =~= shift(bits, a + b));
}

/// The mathematical model of the random board: the board that it shows, and
/// the booleans that its generator will give.
pub ghost struct RandomBoardView {
    pub board: BoardView,
    pub ahead: Map<nat, bool>,
}

impl RandomBoardView {
    /// Before the first fill: the empty board, and the generator as the
    /// seed made it.
    pub open spec fn fresh() -> RandomBoardView {
        RandomBoardView { board: BoardView::fresh(), ahead: shift(seeded_bits(SEED), 0) }
    }

    /// After one more fill: the board is filled from the next sixteen
    /// booleans, which are then used up.
    pub open spec fn generate(self) -> RandomBoardView {
        RandomBoardView {
            board: BoardView::showing(cells_of_bits(first_bits(self.ahead, 16))),
            ahead: shift(self.ahead, 16),
        }
    }

    /// After `n` more fills.
    pub open spec fn generate_times(self, n: nat) -> RandomBoardView
        decreases n,
    {
        if n == 0 {
            self
        } else {
            self.generate_times((n - 1) as nat).generate()
        }
    }
}

/// A board of its own and the generator that fills it.
pub struct RandomBoard {
    board: Board,
    rng: StdRng,
}

impl View for RandomBoard {
    type V = RandomBoardView;

    closed spec fn view(&self) -> RandomBoardView {
        RandomBoardView { board: self.board@, ahead: shift(upcoming_bits(self.rng), 0) }
    }
}

impl RandomBoard {
    /// An empty board and a generator with the fixed seed.
    pub fn new() -> (b: RandomBoard)
        ensures
            b@ == RandomBoardView::fresh(),
    {
        RandomBoard { board: Board::new(), rng: seeded_rng(SEED) }
    }

    /// The text of the board as the last fill left it.
    pub fn render(&self) -> (text: String)
        ensures
            text@ == self@.board.render(),
    {
        self.board.render()
    }

    /// The board as the last fill left it.
    pub fn board(&self) -> (b: &Board)
        ensures
            b@ == self@.board,
    {
        &self.board
    }

    /// Draws sixteen booleans, in the order in which the generator gives
    /// them.
    fn draw_sixteen(&mut self) -> (bits: [bool; 16])
        ensures
            bits@ == first_bits(old(self)@.ahead, 16),
            final(self)@.ahead == shift(old(self)@.ahead, 16),
            final(self)@.board == old(self)@.board,
    {
        let ghost ahead = self@.ahead;
        let mut bits = [false; 16];
        let mut i: usize = 0;
        proof {
            lemma_shift_twice(upcoming_bits(self.rng), 0, 0);
        }
        while i < 16
            invariant
                i <= 16,
                self.board == old(self).board,
                forall|j: int| 0 <= j < i ==> #[trigger] bits[j] == ahead[j as nat],
                shift(upcoming_bits(self.rng), 0) == shift(ahead, i as nat),
            decreases 16 - i,
        {
            let ghost drawn_from = upcoming_bits(self.rng);
            let bit = next_bool(&mut self.rng);
            bits[i] = bit;
            proof {
                assert(bit == shift(drawn_from, 0)[0]);
                assert(shift(upcoming_bits(self.rng), 0) =~= shift(shift(drawn_from, 0), 1));
                lemma_shift_twice(ahead, i as nat, 1);
            }
            i += 1;
        }
        assert(bits@ =~= first_bits(ahead, 16));
        bits
    }

    /// Fills every cell anew, row by row from the top left, with one drawn
    /// boolean each: the first team for `true`, the second for `false`. The
    /// board is then won by the team of its first complete line, or drawn.
    pub fn gen(&mut self)
        ensures
            final(self)@ == old(self)@.generate(),
            final(self)@.board.outcome.resolved(),
            final(self)@.board.wf(),
    {
        let bits = self.draw_sixteen();
        self.board = Board::filled(&bits);
    }
}

/// From a fresh random board, the fills show a fixed sequence of boards:
/// fill number `n` (the first being number 0) shows the grid that the
/// seed's booleans from position `16 * n` fill, and leaves the generator
/// at position `16 * (n + 1)`.
pub proof fn lemma_fill_sequence(n: nat)
    ensures
        RandomBoardView::fresh().generate_times(n).ahead == shift(seeded_bits(SEED), 16 * n),
        RandomBoardView::fresh().generate_times(n + 1).board == nth_fill(n),
    decreases n,
{
    let bits = seeded_bits(SEED);
    if n == 0 {
        assert(shift(bits, 0) =~= shift(bits, 16 * n));
    } else {
        lemma_fill_sequence((n - 1) as nat);
        lemma_shift_twice(bits, (16 * (n - 1)) as nat, 16);
    }
    let fresh = RandomBoardView::fresh();
    assert(fresh.generate_times(n + 1) == fresh.generate_times(n).generate());
}

} // verus!

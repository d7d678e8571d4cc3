//! The board state: an 8-by-8 grid of optional pieces, stored
//! column-major as a flat vector of 64 squares, together with whose
//! turn it is.

use vstd::prelude::*;

use crate::coord::BoardIndex;

verus! {

/// The two players.
#[derive(Clone, Copy, Debug, PartialEq, Eq, Structural)]
pub enum Color {
    White,
    Black,
}

/// A piece's rank: a plain man, or a crowned (double) piece.
#[derive(Clone, Copy, Debug, PartialEq, Eq, Structural)]
pub enum Rank {
    Single,
    Double,
}

/// One piece standing on a square.
#[derive(Clone, Copy, Debug, PartialEq, Eq, Structural)]
pub struct Piece {
    pub color: Color,
    pub rank: Rank,
}

/// The color that plays against `c`.
pub open spec fn opposite(c: Color) -> Color {
    match c {
        Color::White => Color::Black,
        Color::Black => Color::White,
    }
}

impl Color {
    /// The other player's color.
    pub fn other(self) -> (r: Color)
        ensures
            r == opposite(self),
    {
        match self {
            Color::White => Color::Black,
            Color::Black => Color::White,
        }
    }
}

/// The flat storage position of the square in column `i.col`, row `i.row`.
pub open spec fn idx_of(i: BoardIndex) -> int {
    i.col * 8 + i.row
}

/// The square at a validated position of a 64-square board.
pub open spec fn at_index(sq: Seq<Option<Piece>>, i: BoardIndex) -> Option<Piece> {
    sq[idx_of(i)]
}

/// The standard starting contents of the square at column `c`, row `r`:
/// White fills the first three columns and Black the last three, each
/// on the squares whose row parity differs from the column parity; all
/// starting pieces are Single.
pub open spec fn initial_square(c: int, r: int) -> Option<Piece> {
    if r % 2 != c % 2 {
        if c < 3 {
            Some(Piece { color: Color::White, rank: Rank::Single })
        } else if c >= 5 {
            Some(Piece { color: Color::Black, rank: Rank::Single })
        } else {
            None
        }
    } else {
        None
    }
}

/// The full game state: 64 squares and the color allowed to move next.
pub struct Board {
    pub squares: Vec<Option<Piece>>,
    pub current_turn: Color,
}

impl Board {
    /// The board's contents, one entry per square.
    pub open spec fn sq(self) -> Seq<Option<Piece>> {
        self.squares@
    }

    /// The color allowed to initiate the next move.
    pub open spec fn turn(self) -> Color {
        self.current_turn
    }

    /// The storage holds exactly the 64 squares of the grid.
    pub open spec fn wf(self) -> bool {
        self.squares@.len() == 64
    }

    /// Reads the square at `i`.
    pub fn get(&self, i: BoardIndex) -> (r: Option<Piece>)
        requires
            self.wf(),
            i.wf(),
        ensures
            r == at_index(self.sq(), i),
    {
        self.squares[(i.col as usize) * 8 + (i.row as usize)]
    }

    /// Writes the square at `i`, leaving every other square and the
    /// turn alone.
    pub fn set(&mut self, i: BoardIndex, v: Option<Piece>)
        requires
            old(self).wf(),
            i.wf(),
        ensures
            final(self).wf(),
            final(self).sq() == old(self).sq().update(idx_of(i), v),
            final(self).turn() == old(self).turn(),
    {
        let k = (i.col as usize) * 8 + (i.row as usize);
        self.squares.set(k, v);
    }

    /// Hands the turn to the other player; the squares stay as they are.
    pub fn end_turn(&mut self)
        ensures
            final(self).sq() == old(self).sq(),
            final(self).turn() == opposite(old(self).turn()),
            old(self).wf() ==> final(self).wf(),
    {
        self.current_turn = self.current_turn.other();
    }

    /// The deterministic starting position: the layout of
    /// `initial_square` with White to move.
    pub fn initial() -> (b: Board)
        ensures
            b.wf(),
            b.turn() == Color::White,
            forall|i: BoardIndex|
                i.wf() ==> #[trigger] at_index(b.sq(), i) == initial_square(
                    i.col as int,
                    i.row as int,
                ),
    {
        let mut squares: Vec<Option<Piece>> = Vec::new();
        let mut c: usize = 0;
        while c < 8
            invariant
                c <= 8,
                squares@.len() == c * 8,
                forall|k: int|
                    0 <= k < c * 8 ==> #[trigger] squares@[k] == initial_square(k / 8, k % 8),
            decreases 8 - c,
        {
            let mut r: usize = 0;
            while r < 8
                invariant
                    c < 8,
                    r <= 8,
                    squares@.len() == c * 8 + r,
                    forall|k: int|
                        0 <= k < c * 8 + r ==> #[trigger] squares@[k] == initial_square(
                            k / 8,
                            k % 8,
                        ),
                decreases 8 - r,
            {
                let cell: Option<Piece> = if r % 2 != c % 2 {
                    if c < 3 {
                        Some(Piece { color: Color::White, rank: Rank::Single })
                    } else if c >= 5 {
                        Some(Piece { color: Color::Black, rank: Rank::Single })
                    } else {
                        None
                    }
                } else {
                    None
                };
                squares.push(cell);
                proof {
                    let k0 = c * 8 + r;
                    assert(k0 / 8 == c && k0 % 8 == r) by (nonlinear_arith)
                        requires
                            c < 8,
                            r < 8,
                            k0 == c * 8 + r,
                    ;
                    assert(cell == initial_square(k0 / 8, k0 % 8));
                }
                r += 1;
            }
            c += 1;
        }
        let b = Board { squares, current_turn: Color::White };
        proof {
            assert forall|i: BoardIndex| i.wf() implies #[trigger] at_index(b.sq(), i)
                == initial_square(i.col as int, i.row as int) by {
                let k = idx_of(i);
                assert(0 <= k < 64);
                assert(k / 8 == i.col as int && k % 8 == i.row as int) by (nonlinear_arith)
                    requires
                        i.col < 8,
                        i.row < 8,
                        k == i.col * 8 + i.row,
                ;
            }
        }
        b
    }
}

impl Default for Board {
    /// The starting position, as `initial` builds it.
    fn default() -> (b: Board)
        ensures
            b.wf(),
            b.turn() == Color::White,
            forall|i: BoardIndex|
                i.wf() ==> #[trigger] at_index(b.sq(), i) == initial_square(
                    i.col as int,
                    i.row as int,
                ),
    {
        Board::initial()
    }
}

} // verus!

//! The move engine: executable validation and application of steps,
//! hops, hop chains, and promotion, proved against the specification
//! functions of `rules`.

use vstd::prelude::*;

use crate::board::{opposite, Board, Color, Piece, Rank};
use crate::coord::BoardIndex;
use crate::rules::{
    chain_run, delta_col, delta_row, hop_check, hop_next, mid_index, origin_check, promote_check,
    promote_next, single_check, single_next, step_check, step_next, MoveError,
};

verus! {

/// The displacement of a requested move, columns then rows.
fn displacement(from: BoardIndex, to: BoardIndex) -> (r: (i8, i8))
    requires
        from.wf(),
        to.wf(),
    ensures
        r.0 as int == delta_col(from, to),
        r.1 as int == delta_row(from, to),
{
    ((to.col as i8) - (from.col as i8), (to.row as i8) - (from.row as i8))
}

impl Board {
    /// Selects the piece a move starts from: the square must hold a
    /// piece of the color whose turn it is.
    pub fn try_select_initial_square(&self, from: BoardIndex) -> (r: Result<Piece, MoveError>)
        requires
            self.wf(),
            from.wf(),
        ensures
            origin_check(self.sq(), self.turn(), from) matches Some(e) ==> r == Err::<
                Piece,
                MoveError,
            >(e),
            origin_check(self.sq(), self.turn(), from) is None ==> r == Ok::<Piece, MoveError>(
                at_sq(self, from)->Some_0,
            ),
    {
        match self.get(from) {
            None => Err(MoveError::EmptySquare),
            Some(p) => {
                if p.color != self.current_turn {
                    Err(MoveError::WrongOwner)
                } else {
                    Ok(p)
                }
            },
        }
    }

    /// Accepts a destination square only if it is empty.
    pub fn try_select_final_square(&self, to: BoardIndex) -> (r: Result<(), MoveError>)
        requires
            self.wf(),
            to.wf(),
        ensures
            r == if at_sq(self, to) is Some {
                Err::<(), MoveError>(MoveError::OccupiedDestination)
            } else {
                Ok::<(), MoveError>(())
            },
    {
        if self.get(to).is_some() {
            Err(MoveError::OccupiedDestination)
        } else {
            Ok(())
        }
    }

    /// Attempts a plain diagonal step. On success the mover relocates;
    /// on failure the board is unchanged. The turn is not touched.
    pub fn try_perform_step(&mut self, from: BoardIndex, to: BoardIndex) -> (r: Result<
        (),
        MoveError,
    >)
        requires
            old(self).wf(),
            from.wf(),
            to.wf(),
        ensures
            final(self).wf(),
            final(self).turn() == old(self).turn(),
            step_check(old(self).sq(), old(self).turn(), from, to) matches Some(e) ==> r == Err::<
                (),
                MoveError,
            >(e) && final(self).sq() == old(self).sq(),
            step_check(old(self).sq(), old(self).turn(), from, to) is None ==> r == Ok::<
                (),
                MoveError,
            >(()) && final(self).sq() == step_next(old(self).sq(), from, to),
    {
        let p = match self.try_select_initial_square(from) {
            Ok(p) => p,
            Err(e) => {
                return Err(e);
            },
        };
        let (dc, dr) = displacement(from, to);
        let forward = (p.color == Color::Black) != (dc > 0);
        if p.rank == Rank::Single && !forward {
            return Err(MoveError::IllegalBackwardMove);
        }
        if !((dc == 1 || dc == -1) && (dr == 1 || dr == -1)) {
            return Err(MoveError::IllegalShape);
        }
        if let Err(e) = self.try_select_final_square(to) {
            return Err(e);
        }
        self.set(to, Some(p));
        self.set(from, None);
        Ok(())
    }

    /// Attempts a capturing hop. On success the mover relocates and the
    /// opposing piece it passed over is removed; on failure the board
    /// is unchanged. The turn is not touched.
    pub fn try_perform_hop(&mut self, from: BoardIndex, to: BoardIndex) -> (r: Result<
        (),
        MoveError,
    >)
        requires
            old(self).wf(),
            from.wf(),
            to.wf(),
        ensures
            final(self).wf(),
            final(self).turn() == old(self).turn(),
            hop_check(old(self).sq(), old(self).turn(), from, to) matches Some(e) ==> r == Err::<
                (),
                MoveError,
            >(e) && final(self).sq() == old(self).sq(),
            hop_check(old(self).sq(), old(self).turn(), from, to) is None ==> r == Ok::<
                (),
                MoveError,
            >(()) && final(self).sq() == hop_next(old(self).sq(), from, to),
    {
        let p = match self.try_select_initial_square(from) {
            Ok(p) => p,
            Err(e) => {
                return Err(e);
            },
        };
        let (dc, dr) = displacement(from, to);
        let forward = (p.color == Color::Black) != (dc > 0);
        if p.rank == Rank::Single && !forward {
            return Err(MoveError::IllegalBackwardMove);
        }
        if !((dc == 2 || dc == -2) && (dr == 2 || dr == -2)) {
            return Err(MoveError::IllegalShape);
        }
        let mid = BoardIndex { col: (from.col + to.col) / 2, row: (from.row + to.row) / 2 };
        proof {
            assert(mid == mid_index(from, to));
        }
        match self.get(mid) {
            None => {
                return Err(MoveError::NoCaptureTarget);
            },
            Some(q) => {
                if q.color == self.current_turn {
                    return Err(MoveError::CannotCaptureOwnPiece);
                }
            },
        }
        if let Err(e) = self.try_select_final_square(to) {
            return Err(e);
        }
        self.set(to, Some(p));
        self.set(mid, None);
        self.set(from, None);
        Ok(())
    }

    /// Attempts one move: a step when the displacement has the step
    /// shape, a hop otherwise. Exactly on success the turn passes to
    /// the other player; a failed attempt leaves the board unchanged.
    pub fn try_move_single(&mut self, from: BoardIndex, to: BoardIndex) -> (r: Result<
        (),
        MoveError,
    >)
        requires
            old(self).wf(),
            from.wf(),
            to.wf(),
        ensures
            final(self).wf(),
            single_check(old(self).sq(), old(self).turn(), from, to) matches Some(e) ==> r
                == Err::<(), MoveError>(e) && final(self).sq() == old(self).sq()
                && final(self).turn() == old(self).turn(),
            single_check(old(self).sq(), old(self).turn(), from, to) is None ==> r == Ok::<
                (),
                MoveError,
            >(()) && final(self).sq() == single_next(old(self).sq(), from, to)
                && final(self).turn() == opposite(old(self).turn()),
    {
        let (dc, dr) = displacement(from, to);
        let outcome = if (dc == 1 || dc == -1) && (dr == 1 || dr == -1) {
            self.try_perform_step(from, to)
        } else {
            self.try_perform_hop(from, to)
        };
        match outcome {
            Err(e) => Err(e),
            Ok(()) => {
                self.end_turn();
                Ok(())
            },
        }
    }

    /// Attempts a chain of capturing hops, each destination becoming
    /// the next origin. Each hop is applied as it succeeds, so a chain
    /// that fails part-way leaves the earlier hops on the board; the
    /// turn passes to the other player exactly when the whole chain
    /// succeeds.
    pub fn try_move_multiple(&mut self, from: BoardIndex, to_indexes: Vec<BoardIndex>) -> (r:
        Result<(), MoveError>)
        requires
            old(self).wf(),
            from.wf(),
            to_indexes@.len() >= 1,
            forall|j: int| 0 <= j < to_indexes@.len() ==> (#[trigger] to_indexes@[j]).wf(),
        ensures
            final(self).wf(),
            final(self).sq() == chain_run(old(self).sq(), old(self).turn(), from, to_indexes@).0,
            chain_run(old(self).sq(), old(self).turn(), from, to_indexes@).1 matches Some(e) ==> r
                == Err::<(), MoveError>(e) && final(self).turn() == old(self).turn(),
            chain_run(old(self).sq(), old(self).turn(), from, to_indexes@).1 is None ==> r == Ok::<
                (),
                MoveError,
            >(()) && final(self).turn() == opposite(old(self).turn()),
    {
        let ghost sq0 = self.sq();
        let ghost turn0 = self.turn();
        let ghost tos = to_indexes@;
        let n = to_indexes.len();
        let mut cur = from;
        let mut k: usize = 0;
        proof {
            assert(tos.subrange(0, n as int) =~= tos);
        }
        while k < n
            invariant
                sq0 == old(self).sq(),
                turn0 == old(self).turn(),
                n == tos.len(),
                tos == to_indexes@,
                k <= n,
                self.wf(),
                cur.wf(),
                forall|j: int| 0 <= j < tos.len() ==> (#[trigger] tos[j]).wf(),
                self.turn() == turn0,
                chain_run(sq0, turn0, from, tos) == chain_run(
                    self.sq(),
                    turn0,
                    cur,
                    tos.subrange(k as int, n as int),
                ),
            decreases n - k,
        {
            let to = to_indexes[k];
            let ghost rest = tos.subrange(k as int, n as int);
            let ghost pre = self.sq();
            proof {
                assert(rest[0] == tos[k as int]);
                assert(rest.drop_first() =~= tos.subrange(k as int + 1, n as int));
            }
            match self.try_perform_hop(cur, to) {
                Err(e) => {
                    proof {
                        assert(chain_run(pre, turn0, cur, rest) == (pre, Some(e)));
                    }
                    return Err(e);
                },
                Ok(()) => {
                    proof {
                        assert(chain_run(pre, turn0, cur, rest) == chain_run(
                            hop_next(pre, cur, to),
                            turn0,
                            to,
                            rest.drop_first(),
                        ));
                    }
                    cur = to;
                    k += 1;
                },
            }
        }
        proof {
            assert(tos.subrange(n as int, n as int) =~= Seq::<BoardIndex>::empty());
        }
        self.end_turn();
        Ok(())
    }

    /// Attempts to promote the piece at `i` to Double rank. The turn is
    /// never touched; on failure the board is unchanged.
    pub fn promote(&mut self, i: BoardIndex) -> (r: Result<(), MoveError>)
        requires
            old(self).wf(),
            i.wf(),
        ensures
            final(self).wf(),
            final(self).turn() == old(self).turn(),
            promote_check(old(self).sq(), old(self).turn(), i) matches Some(e) ==> r == Err::<
                (),
                MoveError,
            >(e) && final(self).sq() == old(self).sq(),
            promote_check(old(self).sq(), old(self).turn(), i) is None ==> r == Ok::<
                (),
                MoveError,
            >(()) && final(self).sq() == promote_next(old(self).sq(), old(self).turn(), i),
    {
        let p = match self.try_select_initial_square(i) {
            Ok(p) => p,
            Err(e) => {
                return Err(e);
            },
        };
        if p.rank == Rank::Double {
            return Err(MoveError::AlreadyDouble);
        }
        if !((i.col == 0 && self.current_turn == Color::Black) || (i.col == 7
            && self.current_turn == Color::White)) {
            return Err(MoveError::NotOnPromotionRow);
        }
        let t = self.current_turn;
        self.set(i, Some(Piece { color: t, rank: Rank::Double }));
        Ok(())
    }
}

/// The square of `b` at `i`; a reading shorthand for the contracts above.
pub open spec fn at_sq(b: &Board, i: BoardIndex) -> Option<Piece> {
    crate::board::at_index(b.sq(), i)
}

} // verus!

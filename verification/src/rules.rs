//! The rules of play, stated as specification functions over the
//! board's contents. Each validation yields the first failure, if any;
//! each `..._next` function gives the board that a legal action leaves
//! behind. The executable engine is proved against these.

use vstd::prelude::*;

use crate::board::{at_index, idx_of, opposite, Color, Piece, Rank};
use crate::coord::BoardIndex;

verus! {

/// Every way a move or promotion request can be rejected.
#[derive(Clone, Copy, Debug, PartialEq, Eq, Structural)]
pub enum MoveError {
    /// The origin square holds no piece.
    EmptySquare,
    /// The origin piece does not belong to the player whose turn it is.
    WrongOwner,
    /// The destination square already holds a piece.
    OccupiedDestination,
    /// A Single piece tried to move against its forward direction.
    IllegalBackwardMove,
    /// The displacement is neither a one-square nor a two-square diagonal.
    IllegalShape,
    /// The square a hop passes over is empty.
    NoCaptureTarget,
    /// The square a hop passes over holds the mover's own color.
    CannotCaptureOwnPiece,
    /// The piece to promote is already Double.
    AlreadyDouble,
    /// The piece to promote is not on the far row for its color.
    NotOnPromotionRow,
}

/// Column displacement of a move.
pub open spec fn delta_col(from: BoardIndex, to: BoardIndex) -> int {
    to.col - from.col
}

/// Row displacement of a move.
pub open spec fn delta_row(from: BoardIndex, to: BoardIndex) -> int {
    to.row - from.row
}

/// Whether a column displacement of `dc` advances a piece of color `c`:
/// White advances toward higher columns, Black toward lower ones.
pub open spec fn is_forward(c: Color, dc: int) -> bool {
    (c == Color::Black) != (dc > 0)
}

/// A Single piece may not move against its forward direction.
pub open spec fn backward_blocked(p: Piece, dc: int) -> bool {
    p.rank == Rank::Single && !is_forward(p.color, dc)
}

/// A step displaces by exactly one square diagonally.
pub open spec fn is_step_shape(dc: int, dr: int) -> bool {
    (dc == 1 || dc == -1) && (dr == 1 || dr == -1)
}

/// A hop displaces by exactly two squares diagonally.
pub open spec fn is_hop_shape(dc: int, dr: int) -> bool {
    (dc == 2 || dc == -2) && (dr == 2 || dr == -2)
}

/// The square a hop passes over: componentwise midway between origin
/// and destination.
pub open spec fn mid_index(from: BoardIndex, to: BoardIndex) -> BoardIndex {
    BoardIndex { col: (((from.col + to.col) / 2) as u8), row: (((from.row + to.row) / 2) as u8) }
}

/// The first origin-selection failure, if any: the origin must hold a
/// piece of the color whose turn it is.
pub open spec fn origin_check(sq: Seq<Option<Piece>>, turn: Color, from: BoardIndex) -> Option<
    MoveError,
> {
    match at_index(sq, from) {
        None => Some(MoveError::EmptySquare),
        Some(p) => if p.color != turn {
            Some(MoveError::WrongOwner)
        } else {
            None
        },
    }
}

/// The first failed validation of a plain diagonal step, if any.
pub open spec fn step_check(
    sq: Seq<Option<Piece>>,
    turn: Color,
    from: BoardIndex,
    to: BoardIndex,
) -> Option<MoveError> {
    let dc = delta_col(from, to);
    let dr = delta_row(from, to);
    if origin_check(sq, turn, from) is Some {
        origin_check(sq, turn, from)
    } else if backward_blocked(at_index(sq, from)->Some_0, dc) {
        Some(MoveError::IllegalBackwardMove)
    } else if !is_step_shape(dc, dr) {
        Some(MoveError::IllegalShape)
    } else if at_index(sq, to) is Some {
        Some(MoveError::OccupiedDestination)
    } else {
        None
    }
}

/// The board a legal step leaves: the mover moves from origin to
/// destination.
pub open spec fn step_next(sq: Seq<Option<Piece>>, from: BoardIndex, to: BoardIndex) -> Seq<
    Option<Piece>,
> {
    sq.update(idx_of(to), at_index(sq, from)).update(idx_of(from), None)
}

/// The first failed validation of a capturing hop, if any. The square
/// hopped over must hold the opposing color; the midpoint checks come
/// before the destination check.
pub open spec fn hop_check(
    sq: Seq<Option<Piece>>,
    turn: Color,
    from: BoardIndex,
    to: BoardIndex,
) -> Option<MoveError> {
    let dc = delta_col(from, to);
    let dr = delta_row(from, to);
    if origin_check(sq, turn, from) is Some {
        origin_check(sq, turn, from)
    } else if backward_blocked(at_index(sq, from)->Some_0, dc) {
        Some(MoveError::IllegalBackwardMove)
    } else if !is_hop_shape(dc, dr) {
        Some(MoveError::IllegalShape)
    } else {
        match at_index(sq, mid_index(from, to)) {
            None => Some(MoveError::NoCaptureTarget),
            Some(q) => if q.color == turn {
                Some(MoveError::CannotCaptureOwnPiece)
            } else if at_index(sq, to) is Some {
                Some(MoveError::OccupiedDestination)
            } else {
                None
            },
        }
    }
}

/// The board a legal hop leaves: the mover relocates and the piece it
/// passed over is removed.
pub open spec fn hop_next(sq: Seq<Option<Piece>>, from: BoardIndex, to: BoardIndex) -> Seq<
    Option<Piece>,
> {
    sq.update(idx_of(to), at_index(sq, from)).update(idx_of(mid_index(from, to)), None).update(
        idx_of(from),
        None,
    )
}

/// A single move is validated as a step when its displacement has the
/// step shape, and under the hop rules otherwise.
pub open spec fn single_check(
    sq: Seq<Option<Piece>>,
    turn: Color,
    from: BoardIndex,
    to: BoardIndex,
) -> Option<MoveError> {
    if is_step_shape(delta_col(from, to), delta_row(from, to)) {
        step_check(sq, turn, from, to)
    } else {
        hop_check(sq, turn, from, to)
    }
}

/// The board a legal single move leaves.
pub open spec fn single_next(sq: Seq<Option<Piece>>, from: BoardIndex, to: BoardIndex) -> Seq<
    Option<Piece>,
> {
    if is_step_shape(delta_col(from, to), delta_row(from, to)) {
        step_next(sq, from, to)
    } else {
        hop_next(sq, from, to)
    }
}

/// Runs a chain of hops, each destination becoming the next origin.
/// Every hop is applied to the board as it succeeds, so the resulting
/// board reflects the hops before the first failure, if any.
pub open spec fn chain_run(
    sq: Seq<Option<Piece>>,
    turn: Color,
    from: BoardIndex,
    tos: Seq<BoardIndex>,
) -> (Seq<Option<Piece>>, Option<MoveError>)
    decreases tos.len(),
{
    if tos.len() == 0 {
        (sq, None)
    } else {
        match hop_check(sq, turn, from, tos[0]) {
            Some(e) => (sq, Some(e)),
            None => chain_run(hop_next(sq, from, tos[0]), turn, tos[0], tos.drop_first()),
        }
    }
}

/// The first failed promotion validation, if any: the piece must be the
/// mover's own, still Single, and on the far row for its color (column
/// 0 for Black, column 7 for White).
pub open spec fn promote_check(sq: Seq<Option<Piece>>, turn: Color, i: BoardIndex) -> Option<
    MoveError,
> {
    if origin_check(sq, turn, i) is Some {
        origin_check(sq, turn, i)
    } else if at_index(sq, i)->Some_0.rank == Rank::Double {
        Some(MoveError::AlreadyDouble)
    } else if (i.col == 0 && turn == Color::Black) || (i.col == 7 && turn == Color::White) {
        None
    } else {
        Some(MoveError::NotOnPromotionRow)
    }
}

/// The board a successful promotion leaves: the piece at `i` becomes a
/// Double of the mover's color.
pub open spec fn promote_next(sq: Seq<Option<Piece>>, turn: Color, i: BoardIndex) -> Seq<
    Option<Piece>,
> {
    sq.update(idx_of(i), Some(Piece { color: turn, rank: Rank::Double }))
}

/// Origin selection rejects every empty square, and every piece whose
/// color is not the one whose turn it is.
pub proof fn lemma_origin_rejection(sq: Seq<Option<Piece>>, turn: Color, from: BoardIndex)
    ensures
        at_index(sq, from) is None ==> origin_check(sq, turn, from) == Some(
            MoveError::EmptySquare,
        ),
        (at_index(sq, from) matches Some(p) && p.color != turn) ==> origin_check(sq, turn, from)
            == Some(MoveError::WrongOwner),
{
}

/// A Single piece never moves against its color's direction: with its
/// owner to play, a White Single may not move with negative column
/// displacement, nor a Black Single with positive — for steps, hops,
/// and whole single moves alike.
pub proof fn lemma_single_rank_no_backward(
    sq: Seq<Option<Piece>>,
    turn: Color,
    from: BoardIndex,
    to: BoardIndex,
)
    requires
        at_index(sq, from) matches Some(p) && p.rank == Rank::Single && p.color == turn,
        (turn == Color::White && delta_col(from, to) < 0) || (turn == Color::Black && delta_col(
            from,
            to,
        ) > 0),
    ensures
        step_check(sq, turn, from, to) == Some(MoveError::IllegalBackwardMove),
        hop_check(sq, turn, from, to) == Some(MoveError::IllegalBackwardMove),
        single_check(sq, turn, from, to) == Some(MoveError::IllegalBackwardMove),
{
}

/// A hop is legal only over an opposing piece, and afterwards the
/// origin and the hopped square are empty while the destination holds
/// the mover.
pub proof fn lemma_hop_capture(
    sq: Seq<Option<Piece>>,
    turn: Color,
    from: BoardIndex,
    to: BoardIndex,
)
    requires
        sq.len() == 64,
        from.wf(),
        to.wf(),
        hop_check(sq, turn, from, to) is None,
    ensures
        at_index(sq, mid_index(from, to)) matches Some(q) && q.color == opposite(turn),
        at_index(hop_next(sq, from, to), mid_index(from, to)) is None,
        at_index(hop_next(sq, from, to), from) is None,
        at_index(hop_next(sq, from, to), to) == at_index(sq, from),
{
    let mid = mid_index(from, to);
    assert(idx_of(from) != idx_of(to) && idx_of(from) != idx_of(mid) && idx_of(mid) != idx_of(
        to,
    ));
}

/// A promotion is accepted only on the far row for the mover's color.
pub proof fn lemma_promote_far_row_only(sq: Seq<Option<Piece>>, turn: Color, i: BoardIndex)
    ensures
        promote_check(sq, turn, i) is None ==> ((turn == Color::Black && i.col == 0) || (turn
            == Color::White && i.col == 7)),
{
}

/// A promotion succeeds at most once: the square it changed is rejected
/// as already Double the next time.
pub proof fn lemma_promote_only_once(sq: Seq<Option<Piece>>, turn: Color, i: BoardIndex)
    requires
        sq.len() == 64,
        i.wf(),
        promote_check(sq, turn, i) is None,
    ensures
        promote_check(promote_next(sq, turn, i), turn, i) == Some(MoveError::AlreadyDouble),
{
}

} // verus!

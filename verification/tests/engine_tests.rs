use checkers::board::{Board, Color, Piece, Rank};
use checkers::command::execute_command;
use checkers::command::{CommandError, CommandOutcome};
use checkers::coord::BoardIndex;
use checkers::rules::MoveError;

fn empty_board() -> Board {
    let mut b = Board::initial();
    for c in 0..8u8 {
        for r in 0..8u8 {
            b.set(BoardIndex::new(c, r), None);
        }
    }
    b
}

fn white_single() -> Piece {
    Piece { color: Color::White, rank: Rank::Single }
}

fn black_single() -> Piece {
    Piece { color: Color::Black, rank: Rank::Single }
}

#[test]
fn test_case_1() {
    let mut board = Board::default();
    let commands = [
        "move c2 to d1",
        "move f1 to e2",
        "move b1 to c2",
        "move f3 to e4",
        "move d1 to f3 then d5",
        "move f5 to e4",
        "move d5 to f3",
        "move g2 to f1",
        "move c8 to D7",
        "move h1 to g2",
        "move f3 to h1",
        "move f1 to e2",
        "double h1",
    ];
    for cmd in commands {
        execute_command(cmd, &mut board);
    }
}

#[test]
fn initial_layout_and_turn() {
    let b = Board::initial();
    assert_eq!(b.current_turn, Color::White);
    // A1 shares the parity of its column and is empty; A2 holds White.
    assert_eq!(b.get(BoardIndex::new(0, 0)), None);
    assert_eq!(b.get(BoardIndex::new(0, 1)), Some(white_single()));
    // B1 holds White; the middle columns D and E are empty.
    assert_eq!(b.get(BoardIndex::new(1, 0)), Some(white_single()));
    assert_eq!(b.get(BoardIndex::new(3, 3)), None);
    assert_eq!(b.get(BoardIndex::new(4, 4)), None);
    // F1 and H1 hold Black.
    assert_eq!(b.get(BoardIndex::new(5, 0)), Some(black_single()));
    assert_eq!(b.get(BoardIndex::new(7, 0)), Some(black_single()));
    // every starting piece is Single
    for c in 0..8u8 {
        for r in 0..8u8 {
            if let Some(p) = b.get(BoardIndex::new(c, r)) {
                assert_eq!(p.rank, Rank::Single);
            }
        }
    }
}

#[test]
fn step_moves_piece_and_flips_turn() {
    // the opening scenario: C2 to D3 is a forward diagonal step for White
    let mut b = Board::initial();
    let outcome = execute_command("move c2 to d3", &mut b);
    assert_eq!(outcome, CommandOutcome::Applied);
    assert_eq!(b.get(BoardIndex::new(2, 1)), None);
    assert_eq!(b.get(BoardIndex::new(3, 2)), Some(white_single()));
    assert_eq!(b.current_turn, Color::Black);

    // moving the same piece again is rejected: it is Black's turn now
    let outcome = execute_command("move d3 to c2", &mut b);
    assert_eq!(
        outcome,
        CommandOutcome::Rejected(CommandError::Move(MoveError::WrongOwner))
    );
    assert_eq!(b.get(BoardIndex::new(3, 2)), Some(white_single()));
    assert_eq!(b.current_turn, Color::Black);
}

#[test]
fn select_origin_rejections() {
    let mut b = Board::initial();
    // D4 is empty in the starting position
    let outcome = execute_command("move d4 to e5", &mut b);
    assert_eq!(
        outcome,
        CommandOutcome::Rejected(CommandError::Move(MoveError::EmptySquare))
    );
    // F1 belongs to Black while White is to move
    let outcome = execute_command("move f1 to e2", &mut b);
    assert_eq!(
        outcome,
        CommandOutcome::Rejected(CommandError::Move(MoveError::WrongOwner))
    );
    assert_eq!(b.current_turn, Color::White);
}

#[test]
fn occupied_destination_rejected() {
    let mut b = Board::initial();
    // B1 and C2 both hold White pieces
    let outcome = execute_command("move b1 to c2", &mut b);
    assert_eq!(
        outcome,
        CommandOutcome::Rejected(CommandError::Move(MoveError::OccupiedDestination))
    );
}

#[test]
fn illegal_shape_rejected() {
    let mut b = Board::initial();
    // three squares along the diagonal is neither a step nor a hop
    let outcome = execute_command("move b1 to e4", &mut b);
    assert_eq!(
        outcome,
        CommandOutcome::Rejected(CommandError::Move(MoveError::IllegalShape))
    );
}

#[test]
fn single_rank_cannot_move_backward() {
    // a White Single may not decrease its column, by step or by hop
    let mut b = Board::initial();
    let outcome = execute_command("move c2 to b1", &mut b);
    assert_eq!(
        outcome,
        CommandOutcome::Rejected(CommandError::Move(MoveError::IllegalBackwardMove))
    );
    let outcome = execute_command("move c2 to a4", &mut b);
    assert_eq!(
        outcome,
        CommandOutcome::Rejected(CommandError::Move(MoveError::IllegalBackwardMove))
    );

    // a Black Single may not increase its column
    let mut b = Board::initial();
    execute_command("move c2 to d3", &mut b);
    let outcome = execute_command("move f1 to g2", &mut b);
    assert_eq!(
        outcome,
        CommandOutcome::Rejected(CommandError::Move(MoveError::IllegalBackwardMove))
    );
}

#[test]
fn double_rank_may_move_backward() {
    let mut b = empty_board();
    b.set(
        BoardIndex::new(3, 3),
        Some(Piece { color: Color::White, rank: Rank::Double }),
    );
    let outcome = execute_command("move d4 to c3", &mut b);
    assert_eq!(outcome, CommandOutcome::Applied);
    assert_eq!(
        b.get(BoardIndex::new(2, 2)),
        Some(Piece { color: Color::White, rank: Rank::Double })
    );
}

#[test]
fn hop_captures_the_piece_passed_over() {
    let mut b = empty_board();
    b.set(BoardIndex::new(0, 0), Some(white_single()));
    b.set(BoardIndex::new(1, 1), Some(black_single()));
    let outcome = execute_command("move a1 to c3", &mut b);
    assert_eq!(outcome, CommandOutcome::Applied);
    assert_eq!(b.get(BoardIndex::new(0, 0)), None);
    assert_eq!(b.get(BoardIndex::new(1, 1)), None);
    assert_eq!(b.get(BoardIndex::new(2, 2)), Some(white_single()));
    assert_eq!(b.current_turn, Color::Black);
}

#[test]
fn hop_requires_a_capture_target() {
    let mut b = empty_board();
    b.set(BoardIndex::new(0, 0), Some(white_single()));
    let outcome = execute_command("move a1 to c3", &mut b);
    assert_eq!(
        outcome,
        CommandOutcome::Rejected(CommandError::Move(MoveError::NoCaptureTarget))
    );
    assert_eq!(b.get(BoardIndex::new(0, 0)), Some(white_single()));
    assert_eq!(b.current_turn, Color::White);
}

#[test]
fn hop_cannot_capture_own_piece() {
    let mut b = empty_board();
    b.set(BoardIndex::new(0, 0), Some(white_single()));
    b.set(BoardIndex::new(1, 1), Some(white_single()));
    let outcome = execute_command("move a1 to c3", &mut b);
    assert_eq!(
        outcome,
        CommandOutcome::Rejected(CommandError::Move(MoveError::CannotCaptureOwnPiece))
    );
    assert_eq!(b.get(BoardIndex::new(1, 1)), Some(white_single()));
}

#[test]
fn chained_hops_capture_along_the_diagonal() {
    // three Black pieces staggered on the long diagonal; a two-hop
    // chain removes the two that are passed over and flips the turn once
    let mut b = empty_board();
    b.set(BoardIndex::new(0, 0), Some(white_single()));
    b.set(BoardIndex::new(1, 1), Some(black_single()));
    b.set(BoardIndex::new(3, 3), Some(black_single()));
    b.set(BoardIndex::new(5, 5), Some(black_single()));
    let outcome = execute_command("move a1 to c3 then e5", &mut b);
    assert_eq!(outcome, CommandOutcome::Applied);
    assert_eq!(b.get(BoardIndex::new(0, 0)), None);
    assert_eq!(b.get(BoardIndex::new(1, 1)), None);
    assert_eq!(b.get(BoardIndex::new(3, 3)), None);
    assert_eq!(b.get(BoardIndex::new(4, 4)), Some(white_single()));
    assert_eq!(b.get(BoardIndex::new(5, 5)), Some(black_single()));
    assert_eq!(b.current_turn, Color::Black);
}

#[test]
fn three_hops_clear_the_whole_diagonal() {
    let mut b = empty_board();
    b.set(BoardIndex::new(0, 0), Some(white_single()));
    b.set(BoardIndex::new(1, 1), Some(black_single()));
    b.set(BoardIndex::new(3, 3), Some(black_single()));
    b.set(BoardIndex::new(5, 5), Some(black_single()));
    let outcome = execute_command("move a1 to c3 then e5 then g7", &mut b);
    assert_eq!(outcome, CommandOutcome::Applied);
    for (c, r) in [(0, 0), (1, 1), (3, 3), (5, 5)] {
        assert_eq!(b.get(BoardIndex::new(c, r)), None);
    }
    assert_eq!(b.get(BoardIndex::new(6, 6)), Some(white_single()));
    assert_eq!(b.current_turn, Color::Black);
}

#[test]
fn failed_chain_keeps_earlier_hops_and_turn() {
    // the second hop finds no capture target: the first hop stays
    // applied and the turn does not flip
    let mut b = empty_board();
    b.set(BoardIndex::new(0, 0), Some(white_single()));
    b.set(BoardIndex::new(1, 1), Some(black_single()));
    let outcome = execute_command("move a1 to c3 then e5", &mut b);
    assert_eq!(
        outcome,
        CommandOutcome::Rejected(CommandError::Move(MoveError::NoCaptureTarget))
    );
    assert_eq!(b.get(BoardIndex::new(1, 1)), None);
    assert_eq!(b.get(BoardIndex::new(2, 2)), Some(white_single()));
    assert_eq!(b.current_turn, Color::White);
}

#[test]
fn promotion_succeeds_once_on_the_far_column() {
    let mut b = empty_board();
    b.set(BoardIndex::new(7, 0), Some(white_single()));
    let outcome = execute_command("double h1", &mut b);
    assert_eq!(outcome, CommandOutcome::Applied);
    assert_eq!(
        b.get(BoardIndex::new(7, 0)),
        Some(Piece { color: Color::White, rank: Rank::Double })
    );
    // promotion consumes no turn
    assert_eq!(b.current_turn, Color::White);

    let outcome = execute_command("double h1", &mut b);
    assert_eq!(
        outcome,
        CommandOutcome::Rejected(CommandError::Move(MoveError::AlreadyDouble))
    );
}

#[test]
fn promotion_needs_the_far_column() {
    // B1 holds a White Single, but column B is not White's far edge
    let mut b = Board::initial();
    let outcome = execute_command("double b1", &mut b);
    assert_eq!(
        outcome,
        CommandOutcome::Rejected(CommandError::Move(MoveError::NotOnPromotionRow))
    );
    assert_eq!(b.get(BoardIndex::new(1, 0)), Some(white_single()));
}

#[test]
fn promotion_of_black_on_first_column() {
    let mut b = empty_board();
    b.set(BoardIndex::new(0, 3), Some(black_single()));
    b.end_turn();
    let outcome = execute_command("double a4", &mut b);
    assert_eq!(outcome, CommandOutcome::Applied);
    assert_eq!(
        b.get(BoardIndex::new(0, 3)),
        Some(Piece { color: Color::Black, rank: Rank::Double })
    );
    assert_eq!(b.current_turn, Color::Black);
}

#[test]
fn direct_engine_calls_match_the_commands() {
    let mut b = empty_board();
    b.set(BoardIndex::new(0, 0), Some(white_single()));
    b.set(BoardIndex::new(1, 1), Some(black_single()));
    let r = b.try_perform_hop(BoardIndex::new(0, 0), BoardIndex::new(2, 2));
    assert_eq!(r, Ok(()));
    assert_eq!(b.get(BoardIndex::new(1, 1)), None);
    assert_eq!(b.get(BoardIndex::new(2, 2)), Some(white_single()));
    // a lone hop does not flip the turn; composition does that
    assert_eq!(b.current_turn, Color::White);

    let r = b.try_move_single(BoardIndex::new(2, 2), BoardIndex::new(3, 3));
    assert_eq!(r, Ok(()));
    assert_eq!(b.current_turn, Color::Black);
}

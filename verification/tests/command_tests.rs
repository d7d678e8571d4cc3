use checkers::board::{Board, Color};
use checkers::command::{execute_command, CommandError, CommandOutcome};
use checkers::coord::{BoardIndex, CoordError};

#[test]
fn quit_command_ends_the_session() {
    let mut b = Board::initial();
    assert_eq!(execute_command("q", &mut b), CommandOutcome::Quit);
    // the board is untouched
    assert_eq!(b.current_turn, Color::White);
    assert_eq!(b.get(BoardIndex::new(1, 0)).is_some(), true);
}

#[test]
fn unknown_commands_are_unsupported() {
    let mut b = Board::initial();
    assert_eq!(
        execute_command("hello", &mut b),
        CommandOutcome::Rejected(CommandError::Unsupported)
    );
    assert_eq!(
        execute_command("", &mut b),
        CommandOutcome::Rejected(CommandError::Unsupported)
    );
    // a quit command with trailing text is not the quit command
    assert_eq!(
        execute_command("qq", &mut b),
        CommandOutcome::Rejected(CommandError::Unsupported)
    );
}

#[test]
fn move_command_without_to_is_rejected() {
    let mut b = Board::initial();
    assert_eq!(
        execute_command("move c2", &mut b),
        CommandOutcome::Rejected(CommandError::MissingTo)
    );
}

#[test]
fn move_command_with_bad_coordinates_is_rejected() {
    let mut b = Board::initial();
    assert_eq!(
        execute_command("move zz to d3", &mut b),
        CommandOutcome::Rejected(CommandError::Coord(CoordError::InvalidColumn))
    );
    assert_eq!(
        execute_command("move c2 to d9", &mut b),
        CommandOutcome::Rejected(CommandError::Coord(CoordError::InvalidRow))
    );
    assert_eq!(
        execute_command("move c2 to", &mut b),
        CommandOutcome::Rejected(CommandError::Coord(CoordError::InvalidFormat))
    );
    // the board is untouched by rejected commands
    assert_eq!(b.get(BoardIndex::new(2, 1)).is_some(), true);
    assert_eq!(b.current_turn, Color::White);
}

#[test]
fn double_command_with_bad_coordinate_is_rejected() {
    let mut b = Board::initial();
    assert_eq!(
        execute_command("double x9", &mut b),
        CommandOutcome::Rejected(CommandError::Coord(CoordError::InvalidColumn))
    );
}

#[test]
fn move_command_tokens_are_case_insensitive() {
    let mut b = Board::initial();
    assert_eq!(execute_command("move C2 to D3", &mut b), CommandOutcome::Applied);
    assert_eq!(b.current_turn, Color::Black);
}

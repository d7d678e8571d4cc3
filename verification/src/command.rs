//! The command layer: parsing the line-oriented `move` and `double`
//! commands and dispatching one input line against the board. The
//! whole effect of a line — the board it leaves, whose turn it is, and
//! the answer — is pinned down by `command_spec`.

use vstd::prelude::*;

use crate::board::{opposite, Board, Color, Piece};
use crate::coord::{parse_coord_spec, parse_index, BoardIndex, CoordError};
use crate::rules::{chain_run, promote_check, promote_next, single_check, single_next, MoveError};

verus! {

/// Every way one input line can be rejected.
#[derive(Clone, Copy, Debug, PartialEq, Eq, Structural)]
pub enum CommandError {
    /// A coordinate token of the command failed to parse.
    Coord(CoordError),
    /// The requested move or promotion broke a rule of play.
    Move(MoveError),
    /// A move command with no `to` separator after the origin token.
    MissingTo,
    /// The line starts with no known command word.
    Unsupported,
}

/// What one input line did to the game.
#[derive(Clone, Copy, Debug, PartialEq, Eq, Structural)]
pub enum CommandOutcome {
    /// The quit command: the session is over.
    Quit,
    /// A move or promotion was applied; the board is worth reprinting.
    Applied,
    /// The line was rejected; a failed hop chain may still have
    /// advanced the board partway.
    Rejected(CommandError),
}

/// The separator between the origin and the destinations.
pub open spec fn to_word() -> Seq<char> {
    seq!['t', 'o']
}

/// The separator between chained destinations.
pub open spec fn then_word() -> Seq<char> {
    seq!['t', 'h', 'e', 'n']
}

/// The command word that requests a move.
pub open spec fn move_word() -> Seq<char> {
    seq!['m', 'o', 'v', 'e']
}

/// The command word that requests a promotion.
pub open spec fn double_word() -> Seq<char> {
    seq!['d', 'o', 'u', 'b', 'l', 'e']
}

/// The command that ends the session.
pub open spec fn quit_word() -> Seq<char> {
    seq!['q']
}

/// True exactly when `sep` occurs in `s` at position `i`.
pub open spec fn match_at(s: Seq<char>, sep: Seq<char>, i: int) -> bool {
    0 <= i && i + sep.len() <= s.len() && s.subrange(i, i + sep.len()) == sep
}

/// The first position at or after `i` where `sep` occurs in `s`.
pub open spec fn find_from(s: Seq<char>, sep: Seq<char>, i: nat) -> Option<int>
    decreases s.len() - i + 1,
{
    if i + sep.len() > s.len() {
        None
    } else if match_at(s, sep, i as int) {
        Some(i as int)
    } else {
        find_from(s, sep, i + 1)
    }
}

/// The first occurrence of `sep` in `s`.
pub open spec fn find_sub(s: Seq<char>, sep: Seq<char>) -> Option<int> {
    find_from(s, sep, 0)
}

/// Where `find_from` points, `sep` indeed occurs.
pub proof fn lemma_find_from_bounds(s: Seq<char>, sep: Seq<char>, i: nat)
    ensures
        find_from(s, sep, i) matches Some(j) ==> i <= j && match_at(s, sep, j),
    decreases s.len() - i + 1,
{
    if i + sep.len() > s.len() {
    } else if match_at(s, sep, i as int) {
    } else {
        lemma_find_from_bounds(s, sep, i + 1);
    }
}

/// The pieces of `s` between occurrences of `sep`, in order; text with
/// no occurrence is one piece. Meaningful only for a non-empty `sep`.
pub open spec fn split_on(s: Seq<char>, sep: Seq<char>) -> Seq<Seq<char>>
    decreases s.len(),
        when sep.len() > 0
        via split_on_decreases
{
    match find_sub(s, sep) {
        None => seq![s],
        Some(i) => seq![s.subrange(0, i)] + split_on(
            s.subrange(i + sep.len(), s.len() as int),
            sep,
        ),
    }
}

#[via_fn]
proof fn split_on_decreases(s: Seq<char>, sep: Seq<char>) {
    lemma_find_from_bounds(s, sep, 0);
}

/// Parses every piece as a coordinate token; the first failure wins.
pub open spec fn parse_coords(pieces: Seq<Seq<char>>) -> Result<Seq<BoardIndex>, CoordError>
    decreases pieces.len(),
{
    if pieces.len() == 0 {
        Ok(Seq::empty())
    } else {
        match parse_coord_spec(pieces[0]) {
            Err(e) => Err(e),
            Ok(i) => match parse_coords(pieces.drop_first()) {
                Err(e) => Err(e),
                Ok(rest) => Ok(seq![i] + rest),
            },
        }
    }
}

/// A successful coordinate-list parse has one position per piece.
pub proof fn lemma_parse_coords_len(pieces: Seq<Seq<char>>)
    ensures
        parse_coords(pieces) matches Ok(l) ==> l.len() == pieces.len(),
    decreases pieces.len(),
{
    if pieces.len() > 0 {
        lemma_parse_coords_len(pieces.drop_first());
    }
}

/// What the text after the `move` command word parses to: the origin
/// token stands before the first `to`; the text after it, cut at every
/// `then`, gives the destinations.
pub open spec fn parse_move_args(s: Seq<char>) -> Result<
    (BoardIndex, Seq<BoardIndex>),
    CommandError,
> {
    let ft = find_sub(s, to_word());
    let from_text = if ft is Some {
        s.subrange(0, ft->Some_0)
    } else {
        s
    };
    match parse_coord_spec(from_text) {
        Err(e) => Err(CommandError::Coord(e)),
        Ok(from) => {
            if ft is None {
                Err(CommandError::MissingTo)
            } else {
                match parse_coords(
                    split_on(s.subrange(ft->Some_0 + 2, s.len() as int), then_word()),
                ) {
                    Err(e) => Err(CommandError::Coord(e)),
                    Ok(tos) => Ok((from, tos)),
                }
            }
        },
    }
}

/// The board, the turn, and the answer that a move command leaves: one
/// destination is a single move, several are a hop chain.
pub open spec fn move_command_spec(sq: Seq<Option<Piece>>, turn: Color, s: Seq<char>) -> (
    Seq<Option<Piece>>,
    Color,
    Option<CommandError>,
) {
    match parse_move_args(s) {
        Err(e) => (sq, turn, Some(e)),
        Ok((from, tos)) => if tos.len() == 1 {
            match single_check(sq, turn, from, tos[0]) {
                Some(e) => (sq, turn, Some(CommandError::Move(e))),
                None => (single_next(sq, from, tos[0]), opposite(turn), None),
            }
        } else {
            let cr = chain_run(sq, turn, from, tos);
            match cr.1 {
                Some(e) => (cr.0, turn, Some(CommandError::Move(e))),
                None => (cr.0, opposite(turn), None),
            }
        },
    }
}

/// The board, the turn, and the answer that a promotion command leaves.
pub open spec fn double_command_spec(sq: Seq<Option<Piece>>, turn: Color, s: Seq<char>) -> (
    Seq<Option<Piece>>,
    Color,
    Option<CommandError>,
) {
    match parse_coord_spec(s) {
        Err(e) => (sq, turn, Some(CommandError::Coord(e))),
        Ok(i) => match promote_check(sq, turn, i) {
            Some(e) => (sq, turn, Some(CommandError::Move(e))),
            None => (promote_next(sq, turn, i), turn, None),
        },
    }
}

/// How one input line is dispatched: `q` alone quits; a line starting
/// with `move` or `double` hands the text after the command word and
/// one further character on; anything else is unsupported.
pub open spec fn command_spec(sq: Seq<Option<Piece>>, turn: Color, line: Seq<char>) -> (
    Seq<Option<Piece>>,
    Color,
    CommandOutcome,
) {
    if line == quit_word() {
        (sq, turn, CommandOutcome::Quit)
    } else if match_at(line, move_word(), 0) {
        let args = if line.len() >= 5 {
            line.subrange(5, line.len() as int)
        } else {
            Seq::empty()
        };
        let m = move_command_spec(sq, turn, args);
        (
            m.0,
            m.1,
            match m.2 {
                None => CommandOutcome::Applied,
                Some(e) => CommandOutcome::Rejected(e),
            },
        )
    } else if match_at(line, double_word(), 0) {
        let args = if line.len() >= 7 {
            line.subrange(7, line.len() as int)
        } else {
            Seq::empty()
        };
        let m = double_command_spec(sq, turn, args);
        (
            m.0,
            m.1,
            match m.2 {
                None => CommandOutcome::Applied,
                Some(e) => CommandOutcome::Rejected(e),
            },
        )
    } else {
        (sq, turn, CommandOutcome::Rejected(CommandError::Unsupported))
    }
}

/// Whether `sep` occurs in `s` at position `i`.
fn matches_at(s: &str, sep: &str, i: usize) -> (r: bool)
    requires
        i + sep@.len() <= s@.len(),
    ensures
        r == match_at(s@, sep@, i as int),
{
    let n = s.unicode_len();
    let m = sep.unicode_len();
    let mut j: usize = 0;
    while j < m
        invariant
            j <= m,
            n == s@.len(),
            m == sep@.len(),
            i + m <= s@.len(),
            forall|t: int| 0 <= t < j ==> s@[i + t] == sep@[t],
        decreases m - j,
    {
        if s.get_char(i + j) != sep.get_char(j) {
            proof {
                assert(s@.subrange(i as int, i + m)[j as int] == s@[i + j]);
            }
            return false;
        }
        j += 1;
    }
    proof {
        assert(s@.subrange(i as int, i + m) =~= sep@);
    }
    true
}

/// The first occurrence of `sep` in `s`, if any.
fn find_sub_str(s: &str, sep: &str) -> (r: Option<usize>)
    requires
        sep@.len() >= 1,
    ensures
        r matches Some(u) ==> find_sub(s@, sep@) == Some(u as int) && u + sep@.len() <= s@.len(),
        r is None ==> find_sub(s@, sep@) is None,
{
    let n = s.unicode_len();
    let m = sep.unicode_len();
    if m > n {
        return None;
    }
    let mut i: usize = 0;
    while i <= n - m
        invariant
            n == s@.len(),
            m == sep@.len(),
            m >= 1,
            m <= n,
            i <= n - m + 1,
            find_from(s@, sep@, 0) == find_from(s@, sep@, i as nat),
        decreases n - i,
    {
        if matches_at(s, sep, i) {
            return Some(i);
        }
        proof {
            assert(find_from(s@, sep@, i as nat) == find_from(s@, sep@, (i + 1) as nat));
        }
        i += 1;
    }
    None
}

impl Board {
    /// Executes the text after the `move` command word: parses the
    /// origin and the destinations and performs the single move or the
    /// hop chain.
    #[verifier::loop_isolation(false)]
    pub fn try_execute_move_command(&mut self, cmd: &str) -> (r: Result<(), CommandError>)
        requires
            old(self).wf(),
        ensures
            final(self).wf(),
            final(self).sq() == move_command_spec(old(self).sq(), old(self).turn(), cmd@).0,
            final(self).turn() == move_command_spec(old(self).sq(), old(self).turn(), cmd@).1,
            r == (match move_command_spec(old(self).sq(), old(self).turn(), cmd@).2 {
                Some(e) => Err::<(), CommandError>(e),
                None => Ok::<(), CommandError>(()),
            }),
    {
        proof {
            reveal_strlit("to");
            reveal_strlit("then");
            assert("to"@ =~= to_word());
            assert("then"@ =~= then_word());
        }
        let ft = find_sub_str(cmd, "to");
        let from_text: &str = match ft {
            Some(i) => cmd.substring_char(0, i),
            None => cmd,
        };
        let from = match parse_index(from_text) {
            Err(e) => {
                return Err(CommandError::Coord(e));
            },
            Ok(f) => f,
        };
        let sep_pos = match ft {
            None => {
                return Err(CommandError::MissingTo);
            },
            Some(i) => i,
        };
        let cmd_len = cmd.unicode_len();
        let rest: &str = cmd.substring_char(sep_pos + 2, cmd_len);
        let ghost pieces0 = split_on(rest@, then_word());
        let mut tos: Vec<BoardIndex> = Vec::new();
        let mut remaining: &str = rest;
        let mut next = find_sub_str(remaining, "then");
        while next.is_some()
            invariant
                self.wf(),
                self.sq() == old(self).sq(),
                self.turn() == old(self).turn(),
                forall|j: int| 0 <= j < tos@.len() ==> (#[trigger] tos@[j]).wf(),
                (match parse_coords(split_on(remaining@, then_word())) {
                    Ok(l) => parse_coords(pieces0) == Ok::<Seq<BoardIndex>, CoordError>(tos@ + l),
                    Err(e) => parse_coords(pieces0) == Err::<Seq<BoardIndex>, CoordError>(e),
                }),
                (match next {
                    Some(j) => find_sub(remaining@, then_word()) == Some(j as int) && j + 4
                        <= remaining@.len(),
                    None => find_sub(remaining@, then_word()) is None,
                }),
            decreases remaining@.len(),
        {
            let j = next.unwrap();
            let rem_len = remaining.unicode_len();
            let piece: &str = remaining.substring_char(0, j);
            let ghost after = remaining@.subrange(j + 4, remaining@.len() as int);
            proof {
                assert(split_on(remaining@, then_word()) == seq![piece@] + split_on(
                    after,
                    then_word(),
                ));
                assert((seq![piece@] + split_on(after, then_word()))[0] == piece@);
                assert((seq![piece@] + split_on(after, then_word())).drop_first() =~= split_on(
                    after,
                    then_word(),
                ));
            }
            match parse_index(piece) {
                Err(e) => {
                    return Err(CommandError::Coord(e));
                },
                Ok(x) => {
                    let ghost tos_old = tos@;
                    tos.push(x);
                    proof {
                        let pc = parse_coords(split_on(after, then_word()));
                        if pc is Ok {
                            let l = pc->Ok_0;
                            assert(tos_old + (seq![x] + l) =~= tos@ + l);
                        }
                    }
                },
            }
            remaining = remaining.substring_char(j + 4, rem_len);
            next = find_sub_str(remaining, "then");
        }
        proof {
            assert(split_on(remaining@, then_word()) == seq![remaining@]);
            assert(seq![remaining@][0] == remaining@);
            assert(seq![remaining@].drop_first() =~= Seq::<Seq<char>>::empty());
        }
        match parse_index(remaining) {
            Err(e) => {
                return Err(CommandError::Coord(e));
            },
            Ok(x) => {
                let ghost tos_old = tos@;
                tos.push(x);
                proof {
                    assert(parse_coords(Seq::<Seq<char>>::empty()) == Ok::<
                        Seq<BoardIndex>,
                        CoordError,
                    >(Seq::empty()));
                    assert(parse_coords(seq![remaining@]) == Ok::<Seq<BoardIndex>, CoordError>(
                        seq![x] + Seq::empty(),
                    ));
                    assert(tos_old + (seq![x] + Seq::<BoardIndex>::empty()) =~= tos@);
                    assert(parse_coords(pieces0) == Ok::<Seq<BoardIndex>, CoordError>(tos@));
                }
            },
        }
        proof {
            assert(parse_move_args(cmd@) == Ok::<(BoardIndex, Seq<BoardIndex>), CommandError>(
                (from, tos@),
            ));
        }
        if tos.len() == 1 {
            let to0 = tos[0];
            match self.try_move_single(from, to0) {
                Err(e) => Err(CommandError::Move(e)),
                Ok(()) => Ok(()),
            }
        } else {
            match self.try_move_multiple(from, tos) {
                Err(e) => Err(CommandError::Move(e)),
                Ok(()) => Ok(()),
            }
        }
    }

    /// Executes the text after the `double` command word: parses the
    /// position and promotes the piece standing there.
    pub fn try_execute_double_command(&mut self, cmd: &str) -> (r: Result<(), CommandError>)
        requires
            old(self).wf(),
        ensures
            final(self).wf(),
            final(self).sq() == double_command_spec(old(self).sq(), old(self).turn(), cmd@).0,
            final(self).turn() == double_command_spec(old(self).sq(), old(self).turn(), cmd@).1,
            r == (match double_command_spec(old(self).sq(), old(self).turn(), cmd@).2 {
                Some(e) => Err::<(), CommandError>(e),
                None => Ok::<(), CommandError>(()),
            }),
    {
        let i = match parse_index(cmd) {
            Err(e) => {
                return Err(CommandError::Coord(e));
            },
            Ok(i) => i,
        };
        match self.promote(i) {
            Err(e) => Err(CommandError::Move(e)),
            Ok(()) => Ok(()),
        }
    }
}

/// Dispatches one input line against the board and reports what it did.
pub fn execute_command(cmd: &str, board: &mut Board) -> (r: CommandOutcome)
    requires
        old(board).wf(),
    ensures
        final(board).wf(),
        final(board).sq() == command_spec(old(board).sq(), old(board).turn(), cmd@).0,
        final(board).turn() == command_spec(old(board).sq(), old(board).turn(), cmd@).1,
        r == command_spec(old(board).sq(), old(board).turn(), cmd@).2,
{
    let len = cmd.unicode_len();
    let is_quit = len == 1 && cmd.get_char(0) == 'q';
    proof {
        if is_quit {
            assert(cmd@ =~= quit_word());
        } else {
            assert(cmd@ != quit_word());
        }
        reveal_strlit("move");
        reveal_strlit("double");
        reveal_strlit("");
        assert("move"@ =~= move_word());
        assert("double"@ =~= double_word());
        assert(""@ =~= Seq::<char>::empty());
    }
    if is_quit {
        return CommandOutcome::Quit;
    }
    if len >= 4 && matches_at(cmd, "move", 0) {
        let args: &str = if len >= 5 {
            cmd.substring_char(5, len)
        } else {
            ""
        };
        return match board.try_execute_move_command(args) {
            Ok(()) => CommandOutcome::Applied,
            Err(e) => CommandOutcome::Rejected(e),
        };
    }
    proof {
        assert(!match_at(cmd@, move_word(), 0));
    }
    if len >= 6 && matches_at(cmd, "double", 0) {
        let args: &str = if len >= 7 {
            cmd.substring_char(7, len)
        } else {
            ""
        };
        return match board.try_execute_double_command(args) {
            Ok(()) => CommandOutcome::Applied,
            Err(e) => CommandOutcome::Rejected(e),
        };
    }
    proof {
        assert(!match_at(cmd@, double_word(), 0));
    }
    CommandOutcome::Rejected(CommandError::Unsupported)
}

} // verus!

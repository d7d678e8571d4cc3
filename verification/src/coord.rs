//! The coordinate codec: two-character tokens such as `C2` name board
//! squares. The column letter `A`-`H` (either case) maps to column
//! `0`-`7`, the row digit `1`-`8` to row `0`-`7`; surrounding
//! whitespace is ignored.

use vstd::prelude::*;

verus! {

/// The ways a coordinate token can fail to parse.
#[derive(Clone, Copy, Debug, PartialEq, Eq, Structural)]
pub enum CoordError {
    /// After discarding whitespace the token is not exactly two characters.
    InvalidFormat,
    /// The first character is not a column letter `A`-`H` (either case).
    InvalidColumn,
    /// The second character is not a row digit `1`-`8`.
    InvalidRow,
}

/// A validated board position: a column and a row, each in `0..8`.
#[derive(Clone, Copy, Debug, PartialEq, Eq, Structural)]
pub struct BoardIndex {
    pub col: u8,
    pub row: u8,
}

impl BoardIndex {
    /// Both components lie on the board.
    pub open spec fn wf(self) -> bool {
        self.col < 8 && self.row < 8
    }

    pub fn new(col: u8, row: u8) -> (r: BoardIndex)
        requires
            col < 8,
            row < 8,
        ensures
            r == (BoardIndex { col, row }),
    {
        BoardIndex { col, row }
    }
}

/// The whitespace characters a coordinate token may carry around itself.
pub open spec fn is_space_char(c: char) -> bool {
    c == ' ' || c == '\t' || c == '\n' || c == '\r'
}

/// Raises the letters of the coordinate alphabet to upper case; every
/// other character is left alone.
pub open spec fn upper_char(c: char) -> char {
    if c == 'a' {
        'A'
    } else if c == 'b' {
        'B'
    } else if c == 'c' {
        'C'
    } else if c == 'd' {
        'D'
    } else if c == 'e' {
        'E'
    } else if c == 'f' {
        'F'
    } else if c == 'g' {
        'G'
    } else if c == 'h' {
        'H'
    } else {
        c
    }
}

/// The column named by an upper-case column letter, if any.
pub open spec fn col_of_char(c: char) -> Option<u8> {
    if c == 'A' {
        Some(0u8)
    } else if c == 'B' {
        Some(1u8)
    } else if c == 'C' {
        Some(2u8)
    } else if c == 'D' {
        Some(3u8)
    } else if c == 'E' {
        Some(4u8)
    } else if c == 'F' {
        Some(5u8)
    } else if c == 'G' {
        Some(6u8)
    } else if c == 'H' {
        Some(7u8)
    } else {
        None
    }
}

/// The row named by a row digit, if any.
pub open spec fn row_of_char(c: char) -> Option<u8> {
    if c == '1' {
        Some(0u8)
    } else if c == '2' {
        Some(1u8)
    } else if c == '3' {
        Some(2u8)
    } else if c == '4' {
        Some(3u8)
    } else if c == '5' {
        Some(4u8)
    } else if c == '6' {
        Some(5u8)
    } else if c == '7' {
        Some(6u8)
    } else if c == '8' {
        Some(7u8)
    } else {
        None
    }
}

/// The letter that names a column.
pub open spec fn char_of_col(c: u8) -> char {
    if c == 0 {
        'A'
    } else if c == 1 {
        'B'
    } else if c == 2 {
        'C'
    } else if c == 3 {
        'D'
    } else if c == 4 {
        'E'
    } else if c == 5 {
        'F'
    } else if c == 6 {
        'G'
    } else {
        'H'
    }
}

/// The digit that names a row.
pub open spec fn char_of_row(r: u8) -> char {
    if r == 0 {
        '1'
    } else if r == 1 {
        '2'
    } else if r == 2 {
        '3'
    } else if r == 3 {
        '4'
    } else if r == 4 {
        '5'
    } else if r == 5 {
        '6'
    } else if r == 6 {
        '7'
    } else {
        '8'
    }
}

/// Case- and whitespace-normalization of a coordinate token: whitespace
/// is discarded and the coordinate letters are raised to upper case.
pub open spec fn normalize_coord(s: Seq<char>) -> Seq<char>
    decreases s.len(),
{
    if s.len() == 0 {
        Seq::empty()
    } else if is_space_char(s[0]) {
        normalize_coord(s.drop_first())
    } else {
        seq![upper_char(s[0])] + normalize_coord(s.drop_first())
    }
}

/// What parsing a coordinate token yields, defined over the text alone.
pub open spec fn parse_coord_spec(s: Seq<char>) -> Result<BoardIndex, CoordError> {
    let n = normalize_coord(s);
    if n.len() != 2 {
        Err(CoordError::InvalidFormat)
    } else if col_of_char(n[0]) is None {
        Err(CoordError::InvalidColumn)
    } else if row_of_char(n[1]) is None {
        Err(CoordError::InvalidRow)
    } else {
        Ok(BoardIndex { col: col_of_char(n[0])->Some_0, row: row_of_char(n[1])->Some_0 })
    }
}

/// The two-character text form of a board position.
pub open spec fn format_coord_spec(i: BoardIndex) -> Seq<char> {
    seq![char_of_col(i.col), char_of_row(i.row)]
}

fn is_space(c: char) -> (r: bool)
    ensures
        r == is_space_char(c),
{
    c == ' ' || c == '\t' || c == '\n' || c == '\r'
}

fn to_upper(c: char) -> (r: char)
    ensures
        r == upper_char(c),
{
    if c == 'a' {
        'A'
    } else if c == 'b' {
        'B'
    } else if c == 'c' {
        'C'
    } else if c == 'd' {
        'D'
    } else if c == 'e' {
        'E'
    } else if c == 'f' {
        'F'
    } else if c == 'g' {
        'G'
    } else if c == 'h' {
        'H'
    } else {
        c
    }
}

fn col_from_char(c: char) -> (r: Option<u8>)
    ensures
        r == col_of_char(c),
{
    if c == 'A' {
        Some(0u8)
    } else if c == 'B' {
        Some(1u8)
    } else if c == 'C' {
        Some(2u8)
    } else if c == 'D' {
        Some(3u8)
    } else if c == 'E' {
        Some(4u8)
    } else if c == 'F' {
        Some(5u8)
    } else if c == 'G' {
        Some(6u8)
    } else if c == 'H' {
        Some(7u8)
    } else {
        None
    }
}

fn row_from_char(c: char) -> (r: Option<u8>)
    ensures
        r == row_of_char(c),
{
    if c == '1' {
        Some(0u8)
    } else if c == '2' {
        Some(1u8)
    } else if c == '3' {
        Some(2u8)
    } else if c == '4' {
        Some(3u8)
    } else if c == '5' {
        Some(4u8)
    } else if c == '6' {
        Some(5u8)
    } else if c == '7' {
        Some(6u8)
    } else if c == '8' {
        Some(7u8)
    } else {
        None
    }
}

/// Discards whitespace and upper-cases the coordinate letters of `s`.
fn normalize_text(s: &str) -> (out: Vec<char>)
    ensures
        out@ == normalize_coord(s@),
{
    let len = s.unicode_len();
    let mut out: Vec<char> = Vec::new();
    let mut i: usize = 0;
    proof {
        assert(s@.subrange(0, len as int) =~= s@);
        assert(out@ + normalize_coord(s@) =~= normalize_coord(s@));
    }
    while i < len
        invariant
            i <= len,
            len == s@.len(),
            out@ + normalize_coord(s@.subrange(i as int, len as int)) == normalize_coord(s@),
        decreases len - i,
    {
        let c = s.get_char(i);
        proof {
            let tail = s@.subrange(i as int, len as int);
            assert(tail.drop_first() =~= s@.subrange(i + 1, len as int));
            assert(tail[0] == s@[i as int]);
        }
        if !is_space(c) {
            out.push(to_upper(c));
        }
        proof {
            assert(out@ + normalize_coord(s@.subrange(i + 1, len as int)) =~= normalize_coord(
                s@,
            ));
        }
        i += 1;
    }
    proof {
        assert(s@.subrange(len as int, len as int) =~= Seq::<char>::empty());
        assert(out@ + Seq::<char>::empty() =~= out@);
    }
    out
}

/// Parses a coordinate token into a validated board position.
pub fn parse_index(s: &str) -> (r: Result<BoardIndex, CoordError>)
    ensures
        r == parse_coord_spec(s@),
        r matches Ok(i) ==> i.wf(),
{
    let n = normalize_text(s);
    if n.len() != 2 {
        return Err(CoordError::InvalidFormat);
    }
    let col = match col_from_char(n[0]) {
        Some(v) => v,
        None => {
            return Err(CoordError::InvalidColumn);
        },
    };
    let row = match row_from_char(n[1]) {
        Some(v) => v,
        None => {
            return Err(CoordError::InvalidRow);
        },
    };
    Ok(BoardIndex { col, row })
}

pub(crate) fn col_text(c: u8) -> (r: &'static str)
    requires
        c < 8,
    ensures
        r@ == seq![char_of_col(c)],
{
    if c == 0 {
        let r = "A";
        proof {
            reveal_strlit("A");
            assert(r@ =~= seq![char_of_col(c)]);
        }
        r
    } else if c == 1 {
        let r = "B";
        proof {
            reveal_strlit("B");
            assert(r@ =~= seq![char_of_col(c)]);
        }
        r
    } else if c == 2 {
        let r = "C";
        proof {
            reveal_strlit("C");
            assert(r@ =~= seq![char_of_col(c)]);
        }
        r
    } else if c == 3 {
        let r = "D";
        proof {
            reveal_strlit("D");
            assert(r@ =~= seq![char_of_col(c)]);
        }
        r
    } else if c == 4 {
        let r = "E";
        proof {
            reveal_strlit("E");
            assert(r@ =~= seq![char_of_col(c)]);
        }
        r
    } else if c == 5 {
        let r = "F";
        proof {
            reveal_strlit("F");
            assert(r@ =~= seq![char_of_col(c)]);
        }
        r
    } else if c == 6 {
        let r = "G";
        proof {
            reveal_strlit("G");
            assert(r@ =~= seq![char_of_col(c)]);
        }
        r
    } else {
        let r = "H";
        proof {
            reveal_strlit("H");
            assert(r@ =~= seq![char_of_col(c)]);
        }
        r
    }
}

fn row_text(r0: u8) -> (r: &'static str)
    requires
        r0 < 8,
    ensures
        r@ == seq![char_of_row(r0)],
{
    if r0 == 0 {
        let r = "1";
        proof {
            reveal_strlit("1");
            assert(r@ =~= seq![char_of_row(r0)]);
        }
        r
    } else if r0 == 1 {
        let r = "2";
        proof {
            reveal_strlit("2");
            assert(r@ =~= seq![char_of_row(r0)]);
        }
        r
    } else if r0 == 2 {
        let r = "3";
        proof {
            reveal_strlit("3");
            assert(r@ =~= seq![char_of_row(r0)]);
        }
        r
    } else if r0 == 3 {
        let r = "4";
        proof {
            reveal_strlit("4");
            assert(r@ =~= seq![char_of_row(r0)]);
        }
        r
    } else if r0 == 4 {
        let r = "5";
        proof {
            reveal_strlit("5");
            assert(r@ =~= seq![char_of_row(r0)]);
        }
        r
    } else if r0 == 5 {
        let r = "6";
        proof {
            reveal_strlit("6");
            assert(r@ =~= seq![char_of_row(r0)]);
        }
        r
    } else if r0 == 6 {
        let r = "7";
        proof {
            reveal_strlit("7");
            assert(r@ =~= seq![char_of_row(r0)]);
        }
        r
    } else {
        let r = "8";
        proof {
            reveal_strlit("8");
            assert(r@ =~= seq![char_of_row(r0)]);
        }
        r
    }
}

/// Formats a validated board position as its two-character token.
pub fn format_index(i: BoardIndex) -> (r: String)
    requires
        i.wf(),
    ensures
        r@ == format_coord_spec(i),
{
    let s = String::from_str(col_text(i.col));
    let r = s.concat(row_text(i.row));
    proof {
        assert(r@ =~= format_coord_spec(i));
    }
    r
}

/// Parsing undoes formatting: every valid board position survives a
/// round trip through its text form.
pub proof fn lemma_parse_format_round_trip(i: BoardIndex)
    requires
        i.wf(),
    ensures
        parse_coord_spec(format_coord_spec(i)) == Ok::<BoardIndex, CoordError>(i),
{
    reveal_with_fuel(normalize_coord, 3);
    let t = format_coord_spec(i);
    assert(t.drop_first() =~= seq![char_of_row(i.row)]);
    assert(seq![char_of_row(i.row)].drop_first() =~= Seq::<char>::empty());
    assert(normalize_coord(t) =~= t);
    assert(col_of_char(char_of_col(i.col)) == Some(i.col));
    assert(row_of_char(char_of_row(i.row)) == Some(i.row));
}

/// Formatting what a valid token parses to yields the token's case- and
/// whitespace-normalized form.
pub proof fn lemma_format_parse_normalize(t: Seq<char>)
    requires
        parse_coord_spec(t) is Ok,
    ensures
        format_coord_spec(parse_coord_spec(t)->Ok_0) == normalize_coord(t),
{
    let n = normalize_coord(t);
    let i = parse_coord_spec(t)->Ok_0;
    assert(char_of_col(i.col) == n[0]);
    assert(char_of_row(i.row) == n[1]);
    assert(format_coord_spec(i) =~= n);
}

} // verus!

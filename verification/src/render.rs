//! The renderer: draws the board as a bordered text grid. Each square
//! shows a three-character glyph chosen by occupant and shading, rows
//! are labelled with the column letters, and the bottom edge carries
//! the digits. `render_spec` pins the produced text down exactly.

use vstd::prelude::*;

use crate::board::{Board, Color, Piece, Rank};
use crate::coord::{char_of_col, col_text, BoardIndex};

verus! {

/// Whether the square at column `c`, row `r` is drawn shaded; shading
/// alternates with the parity of the two coordinates.
pub open spec fn shaded_spec(c: int, r: int) -> bool {
    (r % 2 == 0) != (c % 2 == 0)
}

/// The three-character glyph of one square: blank or shaded when
/// empty, `x`/`X` for Black Single/Double, `o`/`O` for White.
pub open spec fn icon_spec(square: Option<Piece>, shaded: bool) -> Seq<char> {
    match square {
        None => if shaded {
            "░░░"@
        } else {
            "   "@
        },
        Some(p) => match (p.color, p.rank) {
            (Color::Black, Rank::Single) => if shaded {
                "░x░"@
            } else {
                " x "@
            },
            (Color::Black, Rank::Double) => if shaded {
                "░X░"@
            } else {
                " X "@
            },
            (Color::White, Rank::Single) => if shaded {
                "░o░"@
            } else {
                " o "@
            },
            (Color::White, Rank::Double) => if shaded {
                "░O░"@
            } else {
                " O "@
            },
        },
    }
}

/// The grid's top edge.
pub open spec fn header_text() -> Seq<char> {
    "┌───┬───┬───┬───┬───┬───┬───┬───┬───┐\n"@
}

/// The rule drawn between two lettered rows.
pub open spec fn row_sep_text() -> Seq<char> {
    "\n├───┼───┼───┼───┼───┼───┼───┼───┼───┤\n"@
}

/// The grid's bottom edge with the row digits.
pub open spec fn footer_text() -> Seq<char> {
    "\n└───┼───┼───┼───┼───┼───┼───┼───┼───┤\n    │ 1 │ 2 │ 3 │ 4 │ 5 │ 6 │ 7 │ 8 │\n    └───┴───┴───┴───┴───┴───┴───┴───┘"@
}

/// The label opening the line of column `c`.
pub open spec fn row_label(c: int) -> Seq<char> {
    "│ "@ + seq![char_of_col(c as u8)] + " │"@
}

/// The glyphs of the squares of column `c` from row `r` on, each
/// followed by its right-hand border.
pub open spec fn cells_spec(sq: Seq<Option<Piece>>, c: int, r: int) -> Seq<char>
    decreases 8 - r,
{
    if 0 <= r && r < 8 {
        icon_spec(sq[c * 8 + r], shaded_spec(c, r)) + "│"@ + cells_spec(sq, c, r + 1)
    } else {
        Seq::empty()
    }
}

/// One full grid line: the label of column `c` and its eight squares.
pub open spec fn row_spec(sq: Seq<Option<Piece>>, c: int) -> Seq<char> {
    row_label(c) + cells_spec(sq, c, 0)
}

/// The grid lines of the columns from `c` on, separated by rules.
pub open spec fn rows_spec(sq: Seq<Option<Piece>>, c: int) -> Seq<char>
    decreases 8 - c,
{
    if 0 <= c && c < 7 {
        row_spec(sq, c) + row_sep_text() + rows_spec(sq, c + 1)
    } else if c == 7 {
        row_spec(sq, 7)
    } else {
        Seq::empty()
    }
}

/// The full text rendering of a board's squares.
pub open spec fn render_spec(sq: Seq<Option<Piece>>) -> Seq<char> {
    header_text() + rows_spec(sq, 0) + footer_text()
}

/// Whether the square at the given coordinates is drawn shaded.
pub fn is_square_shaded(col: usize, row: usize) -> (r: bool)
    ensures
        r == shaded_spec(col as int, row as int),
{
    (row % 2 == 0) != (col % 2 == 0)
}

/// The glyph of one square under the given shading.
pub fn icon_from_square(square: Option<Piece>, is_shaded: bool) -> (r: &'static str)
    ensures
        r@ == icon_spec(square, is_shaded),
{
    match square {
        None => if is_shaded {
            "░░░"
        } else {
            "   "
        },
        Some(p) => match (p.color, p.rank) {
            (Color::Black, Rank::Single) => if is_shaded {
                "░x░"
            } else {
                " x "
            },
            (Color::Black, Rank::Double) => if is_shaded {
                "░X░"
            } else {
                " X "
            },
            (Color::White, Rank::Single) => if is_shaded {
                "░o░"
            } else {
                " o "
            },
            (Color::White, Rank::Double) => if is_shaded {
                "░O░"
            } else {
                " O "
            },
        },
    }
}

/// Draws the whole board as its bordered text grid.
#[verifier::loop_isolation(false)]
pub fn render(b: &Board) -> (r: String)
    requires
        b.wf(),
    ensures
        r@ == render_spec(b.sq()),
{
    let mut out = String::from_str("┌───┬───┬───┬───┬───┬───┬───┬───┬───┐\n");
    let mut c: u8 = 0;
    while c < 8
        invariant
            c <= 8,
            render_spec(b.sq()) == out@ + rows_spec(b.sq(), c as int) + footer_text(),
        decreases 8 - c,
    {
        let ghost row_start = out@;
        out.append("│ ");
        out.append(col_text(c));
        out.append(" │");
        proof {
            assert(out@ =~= row_start + row_label(c as int));
        }
        let mut rr: u8 = 0;
        while rr < 8
            invariant
                c < 8,
                rr <= 8,
                out@ + cells_spec(b.sq(), c as int, rr as int) == row_start + row_spec(
                    b.sq(),
                    c as int,
                ),
            decreases 8 - rr,
        {
            let piece = b.get(BoardIndex::new(c, rr));
            let shaded = is_square_shaded(c as usize, rr as usize);
            let ghost before = out@;
            out.append(icon_from_square(piece, shaded));
            out.append("│");
            proof {
                assert(piece == b.sq()[c as int * 8 + rr as int]);
                assert(out@ + cells_spec(b.sq(), c as int, rr as int + 1) =~= before + cells_spec(
                    b.sq(),
                    c as int,
                    rr as int,
                ));
            }
            rr += 1;
        }
        proof {
            assert(cells_spec(b.sq(), c as int, 8) =~= Seq::<char>::empty());
            assert(out@ =~= row_start + row_spec(b.sq(), c as int));
        }
        if c < 7 {
            out.append("\n├───┼───┼───┼───┼───┼───┼───┼───┼───┤\n");
            proof {
                assert(render_spec(b.sq()) =~= out@ + rows_spec(b.sq(), c as int + 1)
                    + footer_text());
            }
        } else {
            proof {
                assert(rows_spec(b.sq(), 8) =~= Seq::<char>::empty());
                assert(render_spec(b.sq()) =~= out@ + rows_spec(b.sq(), c as int + 1)
                    + footer_text());
            }
        }
        c += 1;
    }
    out.append(
        "\n└───┼───┼───┼───┼───┼───┼───┼───┼───┤\n    │ 1 │ 2 │ 3 │ 4 │ 5 │ 6 │ 7 │ 8 │\n    └───┴───┴───┴───┴───┴───┴───┴───┘",
    );
    proof {
        assert(out@ =~= render_spec(b.sq()));
    }
    out
}

} // verus!

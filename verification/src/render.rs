//! The board as text: one line per row, one glyph per square.

use crate::board::Board;
use crate::grid::Grid;
use crate::piece::Piece;
use crate::{Color, Square};
use vstd::prelude::*;
use vstd::string::StringExecFns;

verus! {

/// The glyph of a square: a dot for a vacant square or one without a
/// colour, the chess symbol of the piece otherwise.
pub open spec fn glyph(sq: Square) -> Seq<char> {
    match (sq.piece, sq.color) {
        (_, None) => "."@,
        (Piece::Empty, _) => "."@,
        (Piece::King, Some(Color::White)) => "♔"@,
        (Piece::Queen, Some(Color::White)) => "♕"@,
        (Piece::Rook, Some(Color::White)) => "♖"@,
        (Piece::Bishop, Some(Color::White)) => "♗"@,
        (Piece::Knight, Some(Color::White)) => "♘"@,
        (Piece::Pawn, Some(Color::White)) => "♙"@,
        (Piece::King, Some(Color::Black)) => "♚"@,
        (Piece::Queen, Some(Color::Black)) => "♛"@,
        (Piece::Rook, Some(Color::Black)) => "♜"@,
        (Piece::Bishop, Some(Color::Black)) => "♝"@,
        (Piece::Knight, Some(Color::Black)) => "♞"@,
        (Piece::Pawn, Some(Color::Black)) => "♟︎"@,
    }
}

/// The first `n` squares of row `i` as text: each glyph followed by a space.
pub open spec fn row_text(g: Grid, i: int, n: int) -> Seq<char>
    decreases n,
{
    if n <= 0 {
        Seq::empty()
    } else {
        row_text(g, i, n - 1) + glyph(g[i][n - 1]) + " "@
    }
}

/// The first `n` rows as text: each row followed by a line break.
pub open spec fn rows_text(g: Grid, n: int) -> Seq<char>
    decreases n,
{
    if n <= 0 {
        Seq::empty()
    } else {
        rows_text(g, n - 1) + row_text(g, n - 1, 8) + "\n"@
    }
}

/// The board as text, row 0 first.
pub open spec fn board_text(g: Grid) -> Seq<char> {
    rows_text(g, 8)
}

/// The glyph of a square.
pub fn symbol(sq: &Square) -> (s: &'static str)
    ensures
        s@ == glyph(*sq),
{
    match (sq.piece, sq.color) {
        (_, None) => ".",
        (Piece::Empty, _) => ".",
        (Piece::King, Some(Color::White)) => "♔",
        (Piece::Queen, Some(Color::White)) => "♕",
        (Piece::Rook, Some(Color::White)) => "♖",
        (Piece::Bishop, Some(Color::White)) => "♗",
        (Piece::Knight, Some(Color::White)) => "♘",
        (Piece::Pawn, Some(Color::White)) => "♙",
        (Piece::King, Some(Color::Black)) => "♚",
        (Piece::Queen, Some(Color::Black)) => "♛",
        (Piece::Rook, Some(Color::Black)) => "♜",
        (Piece::Bishop, Some(Color::Black)) => "♝",
        (Piece::Knight, Some(Color::Black)) => "♞",
        (Piece::Pawn, Some(Color::Black)) => "♟︎",
    }
}

impl Board {
    /// The board as text: one line per row, row 0 first, and in each line
    /// the glyph of every square followed by a space.
    pub fn render(&self) -> (text: String)
        ensures
            text@ == board_text(self@.squares),
    {
        let ghost g = self@.squares;
        let mut text = String::new();
        let mut i: usize = 0;
        while i < 8
            invariant
                g == self@.squares,
                i <= 8,
                text@ == rows_text(g, i as int),
            decreases 8 - i,
        {
            let ghost before = text@;
            let mut j: usize = 0;
            assert(text@ =~= before + row_text(g, i as int, 0));
            while j < 8
                invariant
                    g == self@.squares,
                    i < 8,
                    j <= 8,
                    text@ == before + row_text(g, i as int, j as int),
                decreases 8 - j,
            {
                let square = self.squares[i][j];
                assert(square == g[i as int][j as int]);
                text.append(symbol(&square));
                text.append(" ");
                j += 1;
                assert(text@ =~= before + row_text(g, i as int, j as int));
            }
            text.append("\n");
            i += 1;
        }
        text
    }
}

} // verus!

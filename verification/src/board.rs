//! The board: the piece layout, the side to move and the search cache.

use crate::grid::{grid_after, grid_of, grid_wf, in_board, lemma_grid_after_wf, Grid};
use crate::movegen::valid_moves;
use crate::piece::Piece;
use crate::table::{CacheEntry, TranspositionTable};
use crate::{Color, Move, Position, Square};
use vstd::prelude::*;

verus! {

/// What a board looks like to its users: the layout and the side to move.
pub struct BoardView {
    pub squares: Grid,
    pub turn: Color,
}

/// The board: the piece layout, the cache of search results and the side to
/// move.
pub struct Board {
    pub squares: [[Square; 8]; 8],
    pub transposition_table: TranspositionTable,
    pub turn: Color,
}

impl View for Board {
    type V = BoardView;

    open spec fn view(&self) -> BoardView {
        BoardView { squares: grid_of(self.squares), turn: self.turn }
    }
}

impl BoardView {
    /// The position after the move `m`: the piece on its origin stands on its
    /// target, the origin is vacant, and the other side is to move.
    pub open spec fn played(self, m: Move) -> BoardView {
        BoardView { squares: grid_after(self.squares, m.from, m.to), turn: self.turn.opposite() }
    }
}

/// The layout at the start of a game.
pub open spec fn initial_grid() -> Grid {
    Seq::new(8, |i: int| Seq::new(8, |j: int| initial_square(i, j)))
}

/// The pieces of a back rank, by column.
pub open spec fn back_rank() -> Seq<Piece> {
    seq![
        Piece::Rook,
        Piece::Knight,
        Piece::Bishop,
        Piece::Queen,
        Piece::King,
        Piece::Bishop,
        Piece::Knight,
        Piece::Rook,
    ]
}

/// What stands on (`i`, `j`) at the start of a game: White's pieces on row
/// 0 and pawns on row 1, Black's pawns on row 6 and pieces on row 7.
pub open spec fn initial_square(i: int, j: int) -> Square {
    if i == 0 {
        Square { piece: back_rank()[j], color: Some(Color::White) }
    } else if i == 1 {
        Square { piece: Piece::Pawn, color: Some(Color::White) }
    } else if i == 6 {
        Square { piece: Piece::Pawn, color: Some(Color::Black) }
    } else if i == 7 {
        Square { piece: back_rank()[j], color: Some(Color::Black) }
    } else {
        Square::vacant()
    }
}

/// Whether `sq` holds a king marked with `color`.
pub open spec fn is_king_of(sq: Square, color: Color) -> bool {
    sq.piece == Piece::King && sq.owned_by(color)
}

/// Whether (`i`, `j`) is scanned before (`r`, `c`) when the board is read row
/// by row.
pub open spec fn scanned_before(i: int, j: int, r: int, c: int) -> bool {
    i < r || (i == r && j < c)
}

/// Whether `color` has a king on the board.
pub open spec fn has_king(g: Grid, color: Color) -> bool {
    exists|r: int, c: int| in_board(r, c) && is_king_of(#[trigger] g[r][c], color)
}

/// Whether (`r`, `c`) holds the king of `color` that a row-by-row scan meets first.
pub open spec fn first_king_at(g: Grid, color: Color, r: int, c: int) -> bool {
    &&& in_board(r, c)
    &&& is_king_of(g[r][c], color)
    &&& forall|i: int, j: int|
        in_board(i, j) && scanned_before(i, j, r, c) ==> !is_king_of(#[trigger] g[i][j], color)
}

/// Whether some pseudo-legal move of `by` lands on (`r`, `c`).
pub open spec fn attacked(g: Grid, by: Color, r: int, c: int) -> bool {
    exists|k: int|
        0 <= k < valid_moves(g, by).len() && (#[trigger] valid_moves(g, by)[k]).to == (Position {
            row: r as usize,
            col: c as usize,
        })
}

/// Whether the first king of `color` is the target of a pseudo-legal move of
/// the other side. A side without a king is never in check.
pub open spec fn in_check(g: Grid, color: Color) -> bool {
    exists|r: int, c: int| #[trigger] first_king_at(g, color, r, c) && attacked(g, color.opposite(), r, c)
}

/// Whether `color` has no pseudo-legal move and is in check.
pub open spec fn checkmated(g: Grid, color: Color) -> bool {
    valid_moves(g, color).len() == 0 && in_check(g, color)
}

impl Board {
    /// The board at the start of a game: the standard layout, White to
    /// move, nothing cached.
    pub fn new() -> (board: Board)
        ensures
            board@.squares == initial_grid(),
            board@.turn == Color::White,
            board.transposition_table@ == Map::<u64, CacheEntry>::empty(),
            grid_wf(board@.squares),
    {
        let empty_square = Square::new(Piece::Empty, None);
        let mut squares = [[empty_square; 8]; 8];
        for i in 0..8usize
            invariant
                forall|r: int, c: int|
                    0 <= r < 8 && 0 <= c < 8 ==> #[trigger] squares[r][c] == (if (r == 1 || r == 6) && c < i {
                        initial_square(r, c)
                    } else {
                        Square::vacant()
                    }),
        {
            squares[1][i] = Square::new(Piece::Pawn, Some(Color::White));
            squares[6][i] = Square::new(Piece::Pawn, Some(Color::Black));
        }
        squares[0][0] = Square::new(Piece::Rook, Some(Color::White));
        squares[0][7] = Square::new(Piece::Rook, Some(Color::White));
        squares[7][0] = Square::new(Piece::Rook, Some(Color::Black));
        squares[7][7] = Square::new(Piece::Rook, Some(Color::Black));

        squares[0][1] = Square::new(Piece::Knight, Some(Color::White));
        squares[0][6] = Square::new(Piece::Knight, Some(Color::White));
        squares[7][1] = Square::new(Piece::Knight, Some(Color::Black));
        squares[7][6] = Square::new(Piece::Knight, Some(Color::Black));

        squares[0][2] = Square::new(Piece::Bishop, Some(Color::White));
        squares[0][5] = Square::new(Piece::Bishop, Some(Color::White));
        squares[7][2] = Square::new(Piece::Bishop, Some(Color::Black));
        squares[7][5] = Square::new(Piece::Bishop, Some(Color::Black));

        squares[0][3] = Square::new(Piece::Queen, Some(Color::White));
        squares[0][4] = Square::new(Piece::King, Some(Color::White));
        squares[7][3] = Square::new(Piece::Queen, Some(Color::Black));
        squares[7][4] = Square::new(Piece::King, Some(Color::Black));

        let board = Board { squares, transposition_table: TranspositionTable::new(), turn: Color::White };
        assert(board@.squares =~~= initial_grid());
        board
    }

    /// Whether every square is well formed: it has a colour exactly if it
    /// holds a piece.
    pub fn is_well_formed(&self) -> (wf: bool)
        ensures
            wf == grid_wf(self@.squares),
    {
        let ghost g = self@.squares;
        let mut i: usize = 0;
        while i < 8
            invariant
                g == self@.squares,
                i <= 8,
                forall|r: int, c: int| 0 <= r < i && 0 <= c < 8 ==> (#[trigger] g[r][c]).wf(),
            decreases 8 - i,
        {
            let mut j: usize = 0;
            while j < 8
                invariant
                    g == self@.squares,
                    i < 8,
                    j <= 8,
                    forall|r: int, c: int| 0 <= r < i && 0 <= c < 8 ==> (#[trigger] g[r][c]).wf(),
                    forall|c: int| 0 <= c < j ==> (#[trigger] g[i as int][c]).wf(),
                decreases 8 - j,
            {
                let square = self.squares[i][j];
                assert(square == g[i as int][j as int]);
                let vacant = square.piece == Piece::Empty;
                let unowned = match square.color {
                    Some(_) => false,
                    None => true,
                };
                if vacant != unowned {
                    return false;
                }
                j += 1;
            }
            i += 1;
        }
        true
    }

    /// A copy of the position with a cache of its own, which starts empty.
    pub fn branch(&self) -> (copy: Board)
        ensures
            copy@ == self@,
            copy.transposition_table@ == Map::<u64, CacheEntry>::empty(),
    {
        Board { squares: self.squares, transposition_table: TranspositionTable::new(), turn: self.turn }
    }

    /// The side to move.
    pub fn current_turn(&self) -> (turn: Color)
        ensures
            turn == self@.turn,
    {
        self.turn
    }

    /// Puts the piece on `from` onto `to`, vacates `from` and hands the turn
    /// to the other side. Nothing is checked: whatever stands on `from` is
    /// moved, and whatever stood on `to` is gone.
    pub fn make_move(&mut self, from: Position, to: Position)
        requires
            from.on_board(),
            to.on_board(),
        ensures
            final(self)@.squares == grid_after(old(self)@.squares, from, to),
            final(self)@.turn == old(self)@.turn.opposite(),
            final(self).transposition_table@ == old(self).transposition_table@,
            grid_wf(old(self)@.squares) ==> grid_wf(final(self)@.squares),
    {
        proof {
            if grid_wf(self@.squares) {
                lemma_grid_after_wf(self@.squares, from, to);
            }
        }
        let piece = self.squares[from.row][from.col].piece;
        let color = self.squares[from.row][from.col].color;
        self.squares[to.row][to.col] = Square::new(piece, color);
        self.squares[from.row][from.col] = Square::new(Piece::Empty, None);
        self.turn = match self.turn {
            Color::White => Color::Black,
            Color::Black => Color::White,
        };
        assert(self@.squares =~~= grid_after(old(self)@.squares, from, to));
    }

    /// Whether `color` has no pseudo-legal move while its king is attacked.
    pub fn is_checkmate(&self, color: Color) -> (mate: bool)
        ensures
            mate == checkmated(self@.squares, color),
    {
        let valid_moves = self.get_valid_moves(color);
        valid_moves.len() == 0 && self.is_in_check(color)
    }

    /// Whether the king of `color` is the target of a pseudo-legal move of the
    /// other side.
    pub fn is_in_check(&self, color: Color) -> (check: bool)
        ensures
            check == in_check(self@.squares, color),
    {
        let ghost g = self@.squares;
        let king_pos = self.find_king(color);
        if let Some((king_i, king_j)) = king_pos {
            let opponent_color = if color == Color::White {
                Color::Black
            } else {
                Color::White
            };
            let opponent_moves = self.get_valid_moves(opponent_color);
            let mut k: usize = 0;
            while k < opponent_moves.len()
                invariant
                    k <= opponent_moves.len(),
                    g == self@.squares,
                    first_king_at(g, color, king_i as int, king_j as int),
                    opponent_moves@ == valid_moves(g, color.opposite()),
                    forall|n: int|
                        0 <= n < k ==> (#[trigger] opponent_moves@[n]).to != (Position { row: king_i, col: king_j }),
                decreases opponent_moves.len() - k,
            {
                let mv = opponent_moves[k];
                if mv.to == (Position { row: king_i, col: king_j }) {
                    assert(attacked(g, color.opposite(), king_i as int, king_j as int));
                    assert(first_king_at(g, color, king_i as int, king_j as int));
                    return true;
                }
                k += 1;
            }
            assert(!in_check(g, color)) by {
                if in_check(g, color) {
                    let (r, c) = choose|r: int, c: int| #[trigger]
                        first_king_at(g, color, r, c) && attacked(g, color.opposite(), r, c);
                    lemma_first_king_unique(g, color, r, c, king_i as int, king_j as int);
                }
            }
        } else {
            assert(!in_check(g, color));
        }
        false
    }

    /// Where the king of `color` stands: the first one that a row-by-row scan
    /// meets, if there are several.
    pub fn find_king(&self, color: Color) -> (king: Option<(usize, usize)>)
        ensures
            match king {
                Some((r, c)) => first_king_at(self@.squares, color, r as int, c as int),
                None => !has_king(self@.squares, color),
            },
    {
        let ghost g = self@.squares;
        let mut i: usize = 0;
        while i < 8
            invariant
                g == self@.squares,
                i <= 8,
                forall|r: int, c: int| in_board(r, c) && r < i ==> !is_king_of(#[trigger] g[r][c], color),
            decreases 8 - i,
        {
            let mut j: usize = 0;
            while j < 8
                invariant
                    g == self@.squares,
                    i < 8,
                    j <= 8,
                    forall|r: int, c: int|
                        in_board(r, c) && scanned_before(r, c, i as int, j as int) ==> !is_king_of(
                            #[trigger] g[r][c],
                            color,
                        ),
                decreases 8 - j,
            {
                let square = self.squares[i][j];
                assert(square == g[i as int][j as int]);
                if square.piece == Piece::King && square.is_owned_by(color) {
                    return Some((i, j));
                }
                j += 1;
            }
            i += 1;
        }
        None
    }
}

impl Clone for Board {
    /// A copy of the board, cache included.
    fn clone(&self) -> (copy: Board)
        ensures
            copy@ == self@,
            copy.transposition_table@ == self.transposition_table@,
    {
        let mut new_squares = [[Square::new(Piece::Empty, None); 8]; 8];
        for i in 0..8usize
            invariant
                forall|r: int, c: int| 0 <= r < i && 0 <= c < 8 ==> new_squares[r][c] == self.squares[r][c],
        {
            for j in 0..8usize
                invariant
                    i < 8,
                    forall|r: int, c: int| 0 <= r < i && 0 <= c < 8 ==> new_squares[r][c] == self.squares[r][c],
                    forall|c: int| 0 <= c < j ==> new_squares[i as int][c] == self.squares[i as int][c],
            {
                new_squares[i][j] = self.squares[i][j];
            }
        }
        let copy = Board {
            squares: new_squares,
            transposition_table: self.transposition_table.clone(),
            turn: self.turn,
        };
        assert(copy@.squares =~~= self@.squares);
        copy
    }
}

/// A side has at most one first king.
pub proof fn lemma_first_king_unique(g: Grid, color: Color, r1: int, c1: int, r2: int, c2: int)
    requires
        first_king_at(g, color, r1, c1),
        first_king_at(g, color, r2, c2),
    ensures
        r1 == r2,
        c1 == c2,
{
}

} // verus!

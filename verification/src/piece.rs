//! Piece kinds with their material values, move directions and
//! piece-square tables.

use vstd::prelude::*;

verus! {

/// A piece kind; `Empty` marks a vacant square.
#[derive(Copy, Clone, PartialEq, Eq, Debug, Hash, Structural)]
pub enum Piece {
    King,
    Queen,
    Rook,
    Bishop,
    Knight,
    Pawn,
    Empty,
}

impl Piece {
    /// Positional bonus of a pawn, indexed by row and column.
    pub const PAWN_TABLE: [[i32; 8]; 8] = [
        [0, 0, 0, 0, 0, 0, 0, 0],
        [5, 5, 5, 5, 5, 5, 5, 5],
        [1, 1, 2, 3, 3, 2, 1, 1],
        [0, 0, 0, 2, 2, 0, 0, 0],
        [0, 0, 0, 1, 1, 0, 0, 0],
        [1, 1, 1, -1, -1, 1, 1, 1],
        [1, 2, 2, -2, -2, 2, 2, 1],
        [0, 0, 0, 0, 0, 0, 0, 0],
    ];

    /// Positional bonus of a knight, indexed by row and column.
    pub const KNIGHT_TABLE: [[i32; 8]; 8] = [
        [-5, -4, -3, -3, -3, -3, -4, -5],
        [-4, -2, 0, 0, 0, 0, -2, -4],
        [-3, 0, 1, 1, 1, 1, 0, -3],
        [-3, 0, 1, 2, 2, 1, 0, -3],
        [-3, 0, 1, 2, 2, 1, 0, -3],
        [-3, 0, 1, 1, 1, 1, 0, -3],
        [-4, -2, 0, 0, 0, 0, -2, -4],
        [-5, -4, -3, -3, -3, -3, -4, -5],
    ];

    /// Positional bonus of a bishop, indexed by row and column.
    pub const BISHOP_TABLE: [[i32; 8]; 8] = [
        [-2, -1, -1, -1, -1, -1, -1, -2],
        [-1, 0, 0, 0, 0, 0, 0, -1],
        [-1, 0, 0, 1, 1, 0, 0, -1],
        [-1, 0, 1, 1, 1, 1, 0, -1],
        [-1, 0, 1, 1, 1, 1, 0, -1],
        [-1, 0, 0, 1, 1, 0, 0, -1],
        [-1, 0, 0, 0, 0, 0, 0, -1],
        [-2, -1, -1, -1, -1, -1, -1, -2],
    ];

    /// Positional bonus of a rook, indexed by row and column.
    pub const ROOK_TABLE: [[i32; 8]; 8] = [
        [0, 0, 0, 0, 0, 0, 0, 0],
        [1, 2, 2, 2, 2, 2, 2, 1],
        [-1, 0, 0, 0, 0, 0, 0, -1],
        [-1, 0, 0, 0, 0, 0, 0, -1],
        [-1, 0, 0, 0, 0, 0, 0, -1],
        [-1, 0, 0, 0, 0, 0, 0, -1],
        [-1, 0, 0, 0, 0, 0, 0, -1],
        [0, 0, 0, 1, 1, 0, 0, 0],
    ];

    /// Positional bonus of a queen, indexed by row and column.
    pub const QUEEN_TABLE: [[i32; 8]; 8] = [
        [-2, -1, -1, 0, 0, -1, -1, -2],
        [-1, 0, 0, 0, 0, 0, 0, -1],
        [-1, 0, 1, 1, 1, 1, 0, -1],
        [0, 0, 1, 1, 1, 1, 0, 0],
        [0, 0, 1, 1, 1, 1, 0, 0],
        [-1, 1, 1, 1, 1, 1, 0, -1],
        [-1, 0, 1, 0, 0, 0, 0, -1],
        [-2, -1, -1, 0, 0, -1, -1, -2],
    ];

    /// Positional bonus of a king, indexed by row and column.
    pub const KING_TABLE: [[i32; 8]; 8] = [
        [-3, -4, -4, -5, -5, -4, -4, -3],
        [-3, -4, -4, -5, -5, -4, -4, -3],
        [-3, -4, -4, -5, -5, -4, -4, -3],
        [-3, -4, -4, -5, -5, -4, -4, -3],
        [-2, -3, -3, -4, -4, -3, -3, -2],
        [-1, -2, -2, -2, -2, -2, -2, -1],
        [2, 2, 0, 0, 0, 0, 2, 2],
        [2, 3, 1, 0, 0, 1, 3, 2],
    ];

    /// Positional bonus of a vacant square: zero everywhere.
    pub const EMPTY_TABLE: [[i32; 8]; 8] = [
        [0, 0, 0, 0, 0, 0, 0, 0],
        [0, 0, 0, 0, 0, 0, 0, 0],
        [0, 0, 0, 0, 0, 0, 0, 0],
        [0, 0, 0, 0, 0, 0, 0, 0],
        [0, 0, 0, 0, 0, 0, 0, 0],
        [0, 0, 0, 0, 0, 0, 0, 0],
        [0, 0, 0, 0, 0, 0, 0, 0],
        [0, 0, 0, 0, 0, 0, 0, 0],
    ];

    /// The steps a piece may take, as (row, column) offsets, in the order in
    /// which moves are generated. Pawns and vacant squares have none: pawn
    /// pushes depend on the colour and are handled by the move generator.
    pub open spec fn spec_directions(self) -> Seq<(isize, isize)> {
        match self {
            Piece::King => seq![
                (1isize, 0isize),
                (1isize, 1isize),
                (0isize, 1isize),
                (-1isize, 1isize),
                (-1isize, 0isize),
                (-1isize, -1isize),
                (0isize, -1isize),
                (1isize, -1isize),
            ],
            Piece::Queen => seq![
                (1isize, 0isize),
                (0isize, 1isize),
                (-1isize, 0isize),
                (0isize, -1isize),
                (1isize, 1isize),
                (1isize, -1isize),
                (-1isize, 1isize),
                (-1isize, -1isize),
            ],
            Piece::Rook => seq![(1isize, 0isize), (0isize, 1isize), (-1isize, 0isize), (0isize, -1isize)],
            Piece::Bishop => seq![(1isize, 1isize), (1isize, -1isize), (-1isize, 1isize), (-1isize, -1isize)],
            Piece::Knight => seq![
                (2isize, 1isize),
                (2isize, -1isize),
                (-2isize, 1isize),
                (-2isize, -1isize),
                (1isize, 2isize),
                (1isize, -2isize),
                (-1isize, 2isize),
                (-1isize, -2isize),
            ],
            Piece::Pawn => Seq::empty(),
            Piece::Empty => Seq::empty(),
        }
    }

    /// Whether the piece keeps moving along a direction until it is blocked.
    pub open spec fn slides(self) -> bool {
        self == Piece::Queen || self == Piece::Rook || self == Piece::Bishop
    }

    /// The piece-square table of the piece kind.
    pub open spec fn spec_table(self) -> [[i32; 8]; 8] {
        match self {
            Piece::King => Piece::KING_TABLE,
            Piece::Queen => Piece::QUEEN_TABLE,
            Piece::Rook => Piece::ROOK_TABLE,
            Piece::Bishop => Piece::BISHOP_TABLE,
            Piece::Knight => Piece::KNIGHT_TABLE,
            Piece::Pawn => Piece::PAWN_TABLE,
            Piece::Empty => Piece::EMPTY_TABLE,
        }
    }

    /// Positional bonus of the piece kind on the square (`row`, `col`).
    pub open spec fn bonus(self, row: int, col: int) -> int {
        self.spec_table()[row][col] as int
    }

    /// Material value of the piece kind.
    pub open spec fn spec_value(self) -> int {
        match self {
            Piece::King => 900,
            Piece::Queen => 90,
            Piece::Rook => 50,
            Piece::Bishop => 30,
            Piece::Knight => 30,
            Piece::Pawn => 10,
            Piece::Empty => 0,
        }
    }

    /// The steps the piece may take, in generation order.
    pub fn directions(&self) -> (dirs: Vec<(isize, isize)>)
        ensures
            dirs@ == self.spec_directions(),
    {
        match self {
            Piece::King => vec![(1, 0), (1, 1), (0, 1), (-1, 1), (-1, 0), (-1, -1), (0, -1), (1, -1)],
            Piece::Queen => vec![(1, 0), (0, 1), (-1, 0), (0, -1), (1, 1), (1, -1), (-1, 1), (-1, -1)],
            Piece::Rook => vec![(1, 0), (0, 1), (-1, 0), (0, -1)],
            Piece::Bishop => vec![(1, 1), (1, -1), (-1, 1), (-1, -1)],
            Piece::Knight => vec![(2, 1), (2, -1), (-2, 1), (-2, -1), (1, 2), (1, -2), (-1, 2), (-1, -2)],
            Piece::Pawn => vec![],
            Piece::Empty => vec![],
        }
    }

    /// The piece-square table of the piece kind.
    pub fn table(&self) -> (t: &'static [[i32; 8]; 8])
        ensures
            *t == self.spec_table(),
    {
        match self {
            Piece::King => &Piece::KING_TABLE,
            Piece::Queen => &Piece::QUEEN_TABLE,
            Piece::Rook => &Piece::ROOK_TABLE,
            Piece::Bishop => &Piece::BISHOP_TABLE,
            Piece::Knight => &Piece::KNIGHT_TABLE,
            Piece::Pawn => &Piece::PAWN_TABLE,
            Piece::Empty => &Piece::EMPTY_TABLE,
        }
    }

    /// Material value of the piece kind.
    pub fn value(&self) -> (v: i32)
        ensures
            v == self.spec_value(),
    {
        match self {
            Piece::King => 900,
            Piece::Queen => 90,
            Piece::Rook => 50,
            Piece::Bishop | Piece::Knight => 30,
            Piece::Pawn => 10,
            Piece::Empty => 0,
        }
    }
}

/// Every positional bonus lies between -5 and 5.
pub proof fn lemma_bonus_range(piece: Piece, row: int, col: int)
    requires
        0 <= row < 8,
        0 <= col < 8,
    ensures
        -5 <= piece.bonus(row, col) <= 5,
{
}

} // verus!

//! A small chess engine: pseudo-legal move generation, a static evaluator and
//! an iterative-deepening alpha-beta search with quiescence extension.

use vstd::prelude::*;

pub mod board;
pub mod eval;
pub mod fingerprint;
pub mod game;
pub mod grid;
pub mod legality;
pub mod movegen;
pub mod piece;
pub mod pruning;
pub mod render;
pub mod search;
pub mod symmetry;
pub mod table;

pub use board::Board;
pub use piece::Piece;

verus! {

/// The two sides.
#[derive(Copy, Clone, PartialEq, Eq, Debug, Hash, Structural)]
pub enum Color {
    White,
    Black,
}

impl Color {
    /// The other side.
    pub open spec fn opposite(self) -> Color {
        match self {
            Color::White => Color::Black,
            Color::Black => Color::White,
        }
    }

}

/// One square of the board: a piece kind and the side that owns it.
#[derive(Copy, Clone, Debug, PartialEq, Hash)]
pub struct Square {
    pub piece: Piece,
    pub color: Option<Color>,
}

impl Square {
    /// A square is well formed when it has a colour exactly if it holds a piece.
    pub open spec fn wf(self) -> bool {
        self.piece == Piece::Empty <==> self.color is None
    }

    /// The vacant square.
    pub open spec fn vacant() -> Square {
        Square { piece: Piece::Empty, color: None }
    }

    /// Whether the square is marked as belonging to `color`.
    pub open spec fn owned_by(self, color: Color) -> bool {
        self.color == Some(color)
    }

    /// The square that holds `piece` for `color`.
    pub fn new(piece: Piece, color: Option<Color>) -> (sq: Square)
        ensures
            sq.piece == piece,
            sq.color == color,
    {
        Square { piece, color }
    }

    /// Whether the square is marked as belonging to `color`.
    pub fn is_owned_by(&self, color: Color) -> (b: bool)
        ensures
            b == self.owned_by(color),
    {
        match self.color {
            Some(c) => c == color,
            None => false,
        }
    }
}

/// A board coordinate: row 0 is White's back rank.
#[derive(Copy, Clone, PartialEq, Eq, Debug, Hash, Structural)]
pub struct Position {
    pub row: usize,
    pub col: usize,
}

impl Position {
    /// Whether the coordinate lies on the board.
    pub open spec fn on_board(self) -> bool {
        self.row < 8 && self.col < 8
    }
}

/// A move: where from, where to, what moved and what it took.
///
/// `score` is scratch space for ordering heuristics; the generator sets it
/// to zero.
#[derive(Debug, Clone, Copy, PartialEq)]
pub struct Move {
    pub from: Position,
    pub to: Position,
    pub piece: Piece,
    pub captured: Option<Piece>,
    pub score: i32,
}

} // verus!

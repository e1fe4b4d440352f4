//! The static evaluator: material, piece-square bonus, king safety, pawn
//! structure, piece activity and mobility, summed into one score that is
//! positive when White is ahead.

use crate::board::Board;
use crate::grid::Grid;
use crate::legality::lemma_valid_moves_len;
use crate::movegen::valid_moves;
use crate::piece::{lemma_bonus_range, Piece};
use crate::{Color, Square};
use vstd::prelude::*;

verus! {

/// The per-square terms of the evaluation.
pub enum Term {
    /// Material value plus piece-square bonus.
    Material,
    /// A king on a corner of its own back rank is safer than elsewhere.
    KingSafety,
    /// Pawns on the two central files count more.
    PawnStructure,
    /// A flat bonus per piece kind.
    Activity,
}

/// `x` counted for the side that owns `sq`: as it is for White, negated for
/// Black, zero for a square without a colour.
pub open spec fn signed(x: int, sq: Square) -> int {
    match sq.color {
        Some(Color::White) => x,
        Some(Color::Black) => -x,
        None => 0,
    }
}

/// The safety bonus of a king of the colour of `sq` on (`i`, `j`): 20 on a
/// corner of its own back rank, 10 elsewhere.
pub open spec fn king_safety_value(sq: Square, i: int, j: int) -> int {
    let home: int = if sq.color == Some(Color::White) { 0 } else { 7 };
    if i == home && (j == 0 || j == 7) {
        20
    } else {
        10
    }
}

/// The structure bonus of a pawn on column `j`: 5 on the central files, 2 elsewhere.
pub open spec fn pawn_structure_value(j: int) -> int {
    if j == 3 || j == 4 {
        5
    } else {
        2
    }
}

/// The activity bonus of a piece kind.
pub open spec fn activity_value(piece: Piece) -> int {
    match piece {
        Piece::King => 0,
        Piece::Queen => 10,
        Piece::Rook => 5,
        Piece::Bishop => 3,
        Piece::Knight => 3,
        Piece::Pawn => 1,
        Piece::Empty => 0,
    }
}

/// What the square `sq` on (`i`, `j`) adds to the term `t`.
pub open spec fn square_term(t: Term, sq: Square, i: int, j: int) -> int {
    match t {
        Term::Material => signed(sq.piece.spec_value() + sq.piece.bonus(i, j), sq),
        Term::KingSafety => if sq.piece == Piece::King {
            signed(king_safety_value(sq, i, j), sq)
        } else {
            0
        },
        Term::PawnStructure => if sq.piece == Piece::Pawn {
            signed(pawn_structure_value(j), sq)
        } else {
            0
        },
        Term::Activity => signed(activity_value(sq.piece), sq),
    }
}

/// The term `t` summed over the first `n` squares of row `i`.
pub open spec fn row_term(g: Grid, t: Term, i: int, n: int) -> int
    decreases n,
{
    if n <= 0 {
        0
    } else {
        row_term(g, t, i, n - 1) + square_term(t, g[i][n - 1], i, n - 1)
    }
}

/// The term `t` summed over the first `n` rows.
pub open spec fn rows_term(g: Grid, t: Term, n: int) -> int
    decreases n,
{
    if n <= 0 {
        0
    } else {
        rows_term(g, t, n - 1) + row_term(g, t, n - 1, 8)
    }
}

/// The term `t` summed over the whole board.
pub open spec fn term_total(g: Grid, t: Term) -> int {
    rows_term(g, t, 8)
}

/// The number of White's pseudo-legal moves minus the number of Black's.
pub open spec fn mobility(g: Grid) -> int {
    valid_moves(g, Color::White).len() - valid_moves(g, Color::Black).len()
}

/// The score of a layout, positive when White is ahead.
pub open spec fn evaluation(g: Grid) -> int {
    term_total(g, Term::Material) + term_total(g, Term::KingSafety) + term_total(g, Term::PawnStructure)
        + term_total(g, Term::Activity) + mobility(g)
}

/// Multiplying by a sign keeps, negates or cancels a value.
pub proof fn lemma_times_sign(x: int, s: int)
    by (nonlinear_arith)
    requires
        s == 1 || s == -1 || s == 0,
    ensures
        x * s == (if s == 1 {
            x
        } else if s == -1 {
            -x
        } else {
            0
        }),
{
}

/// No square adds more than 905 to a term, in either direction.
pub proof fn lemma_square_term_range(t: Term, sq: Square, i: int, j: int)
    requires
        0 <= i < 8,
        0 <= j < 8,
    ensures
        -905 <= square_term(t, sq, i, j) <= 905,
{
    lemma_bonus_range(sq.piece, i, j);
}

/// A partial row sum of `n` squares stays within 905 per square.
pub proof fn lemma_row_term_range(g: Grid, t: Term, i: int, n: int)
    requires
        0 <= i < 8,
        0 <= n <= 8,
    ensures
        -905 * n <= row_term(g, t, i, n) <= 905 * n,
    decreases n,
{
    if n > 0 {
        lemma_row_term_range(g, t, i, n - 1);
        lemma_square_term_range(t, g[i][n - 1], i, n - 1);
    }
}

/// A partial sum over `n` rows stays within 7240 per row.
pub proof fn lemma_rows_term_range(g: Grid, t: Term, n: int)
    requires
        0 <= n <= 8,
    ensures
        -7240 * n <= rows_term(g, t, n) <= 7240 * n,
    decreases n,
{
    if n > 0 {
        lemma_rows_term_range(g, t, n - 1);
        lemma_row_term_range(g, t, n - 1, 8);
    }
}

/// The evaluation of any layout lies well inside the range of `i32`.
pub proof fn lemma_evaluation_range(g: Grid)
    ensures
        -300000 < evaluation(g) < 300000,
{
    lemma_rows_term_range(g, Term::Material, 8);
    lemma_rows_term_range(g, Term::KingSafety, 8);
    lemma_rows_term_range(g, Term::PawnStructure, 8);
    lemma_rows_term_range(g, Term::Activity, 8);
    lemma_valid_moves_len(g, Color::White);
    lemma_valid_moves_len(g, Color::Black);
}

impl Board {
    /// The score of the position, positive when White is ahead: the sum of
    /// material with piece-square bonus, king safety, pawn structure, piece
    /// activity and the difference in mobility.
    pub fn evaluate_board(&self) -> (score: i32)
        ensures
            score == evaluation(self@.squares),
            -300000 < score < 300000,
    {
        let ghost g = self@.squares;
        let mut score: i32 = 0;
        let mut i: usize = 0;
        while i < 8
            invariant
                g == self@.squares,
                i <= 8,
                score == rows_term(g, Term::Material, i as int),
            decreases 8 - i,
        {
            let ghost row_start = score;
            let mut j: usize = 0;
            while j < 8
                invariant
                    g == self@.squares,
                    i < 8,
                    j <= 8,
                    row_start == rows_term(g, Term::Material, i as int),
                    score == row_start + row_term(g, Term::Material, i as int, j as int),
                decreases 8 - j,
            {
                let square = self.squares[i][j];
                assert(square == g[i as int][j as int]);
                let piece_value = match square.piece {
                    Piece::King => 900,
                    Piece::Queen => 90,
                    Piece::Rook => 50,
                    Piece::Bishop | Piece::Knight => 30,
                    Piece::Pawn => 10,
                    Piece::Empty => 0,
                };
                let position_value = square.piece.table()[i][j];
                proof {
                    lemma_rows_term_range(g, Term::Material, i as int);
                    lemma_row_term_range(g, Term::Material, i as int, j as int);
                    lemma_bonus_range(square.piece, i as int, j as int);
                }
                let sign: i32 = match square.color {
                    Some(Color::White) => 1,
                    Some(Color::Black) => -1,
                    None => 0,
                };
                proof {
                    lemma_times_sign(piece_value + position_value, sign as int);
                }
                score += (piece_value + position_value) * sign;
                j += 1;
            }
            i += 1;
        }
        proof {
            lemma_rows_term_range(g, Term::Material, 8);
            lemma_rows_term_range(g, Term::KingSafety, 8);
            lemma_rows_term_range(g, Term::PawnStructure, 8);
            lemma_rows_term_range(g, Term::Activity, 8);
            lemma_valid_moves_len(g, Color::White);
            lemma_valid_moves_len(g, Color::Black);
        }

        score += self.evaluate_king_safety();
        score += self.evaluate_pawn_structure();
        score += self.evaluate_piece_activity();

        let white_moves = self.get_valid_moves(Color::White).len() as i32;
        let black_moves = self.get_valid_moves(Color::Black).len() as i32;
        score += white_moves - black_moves;

        score
    }

    /// The king-safety term: 20 for a king on a corner of its own back rank,
    /// 10 for a king elsewhere, counted for White and against Black.
    pub fn evaluate_king_safety(&self) -> (score: i32)
        ensures
            score == term_total(self@.squares, Term::KingSafety),
    {
        let ghost g = self@.squares;
        let mut score: i32 = 0;
        let mut i: usize = 0;
        while i < 8
            invariant
                g == self@.squares,
                i <= 8,
                score == rows_term(g, Term::KingSafety, i as int),
            decreases 8 - i,
        {
            let ghost row_start = score;
            let mut j: usize = 0;
            while j < 8
                invariant
                    g == self@.squares,
                    i < 8,
                    j <= 8,
                    row_start == rows_term(g, Term::KingSafety, i as int),
                    score == row_start + row_term(g, Term::KingSafety, i as int, j as int),
                decreases 8 - j,
            {
                let square = self.squares[i][j];
                assert(square == g[i as int][j as int]);
                proof {
                    lemma_rows_term_range(g, Term::KingSafety, i as int);
                    lemma_row_term_range(g, Term::KingSafety, i as int, j as int);
                }
                if square.piece == Piece::King {
                    let king_safety_value: i32 = if square.is_owned_by(Color::White) {
                        if i == 0 && (j == 0 || j == 7) {
                            20
                        } else {
                            10
                        }
                    } else {
                        if i == 7 && (j == 0 || j == 7) {
                            20
                        } else {
                            10
                        }
                    };
                    let sign: i32 = match square.color {
                        Some(Color::White) => 1,
                        Some(Color::Black) => -1,
                        None => 0,
                    };
                    proof {
                        lemma_times_sign(king_safety_value as int, sign as int);
                    }
                    score += king_safety_value * sign;
                }
                j += 1;
            }
            i += 1;
        }
        score
    }

    /// The pawn-structure term: 5 for a pawn on a central file, 2 for a pawn
    /// elsewhere, counted for White and against Black.
    pub fn evaluate_pawn_structure(&self) -> (score: i32)
        ensures
            score == term_total(self@.squares, Term::PawnStructure),
    {
        let ghost g = self@.squares;
        let mut score: i32 = 0;
        let mut i: usize = 0;
        while i < 8
            invariant
                g == self@.squares,
                i <= 8,
                score == rows_term(g, Term::PawnStructure, i as int),
            decreases 8 - i,
        {
            let ghost row_start = score;
            let mut j: usize = 0;
            while j < 8
                invariant
                    g == self@.squares,
                    i < 8,
                    j <= 8,
                    row_start == rows_term(g, Term::PawnStructure, i as int),
                    score == row_start + row_term(g, Term::PawnStructure, i as int, j as int),
                decreases 8 - j,
            {
                let square = self.squares[i][j];
                assert(square == g[i as int][j as int]);
                proof {
                    lemma_rows_term_range(g, Term::PawnStructure, i as int);
                    lemma_row_term_range(g, Term::PawnStructure, i as int, j as int);
                }
                if square.piece == Piece::Pawn {
                    let pawn_structure_value: i32 = if j == 3 || j == 4 {
                        5
                    } else {
                        2
                    };
                    let sign: i32 = match square.color {
                        Some(Color::White) => 1,
                        Some(Color::Black) => -1,
                        None => 0,
                    };
                    proof {
                        lemma_times_sign(pawn_structure_value as int, sign as int);
                    }
                    score += pawn_structure_value * sign;
                }
                j += 1;
            }
            i += 1;
        }
        score
    }

    /// The activity term: a flat bonus per piece kind, counted for White and
    /// against Black.
    pub fn evaluate_piece_activity(&self) -> (score: i32)
        ensures
            score == term_total(self@.squares, Term::Activity),
    {
        let ghost g = self@.squares;
        let mut score: i32 = 0;
        let mut i: usize = 0;
        while i < 8
            invariant
                g == self@.squares,
                i <= 8,
                score == rows_term(g, Term::Activity, i as int),
            decreases 8 - i,
        {
            let ghost row_start = score;
            let mut j: usize = 0;
            while j < 8
                invariant
                    g == self@.squares,
                    i < 8,
                    j <= 8,
                    row_start == rows_term(g, Term::Activity, i as int),
                    score == row_start + row_term(g, Term::Activity, i as int, j as int),
                decreases 8 - j,
            {
                let square = self.squares[i][j];
                assert(square == g[i as int][j as int]);
                proof {
                    lemma_rows_term_range(g, Term::Activity, i as int);
                    lemma_row_term_range(g, Term::Activity, i as int, j as int);
                }
                if square.piece != Piece::Empty {
                    let piece_activity_value: i32 = match square.piece {
                        Piece::King => 0,
                        Piece::Queen => 10,
                        Piece::Rook => 5,
                        Piece::Bishop => 3,
                        Piece::Knight => 3,
                        Piece::Pawn => 1,
                        Piece::Empty => 0,
                    };
                    let sign: i32 = match square.color {
                        Some(Color::White) => 1,
                        Some(Color::Black) => -1,
                        None => 0,
                    };
                    proof {
                        lemma_times_sign(piece_activity_value as int, sign as int);
                    }
                    score += piece_activity_value * sign;
                }
                j += 1;
            }
            i += 1;
        }
        score
    }
}

} // verus!

//! What exchanging the two colours does to the evaluation.
//!
//! Material, piece-square bonus, pawn structure and piece activity change
//! sign. King safety and mobility look at the colour itself: a king's safe
//! corners lie on its own back rank, and a pawn's push goes towards the far
//! side. What these two add to a position and to the colour-swapped position
//! together is the position's colour bias; where it is zero, the evaluation
//! changes sign.

use crate::eval::{evaluation, mobility, row_term, rows_term, term_total, Term};
use crate::grid::{in_board, Grid};
use crate::movegen::{ray_moves, ray_room, rays_moves, row_moves, rows_moves, square_moves, valid_moves};
use crate::piece::Piece;
use crate::{Color, Square};
use vstd::prelude::*;

verus! {

/// The square with the other colour on it.
pub open spec fn swapped_square(sq: Square) -> Square {
    Square {
        piece: sq.piece,
        color: match sq.color {
            Some(c) => Some(c.opposite()),
            None => None,
        },
    }
}

/// The layout with the colour of every piece exchanged.
pub open spec fn color_swapped(g: Grid) -> Grid {
    Seq::new(8, |i: int| Seq::new(8, |j: int| swapped_square(g[i][j])))
}

/// What king safety and mobility add to a layout and to the colour-swapped
/// layout together. The other terms cancel.
pub open spec fn color_bias(g: Grid) -> int {
    term_total(g, Term::KingSafety) + term_total(color_swapped(g), Term::KingSafety) + mobility(g) + mobility(
        color_swapped(g),
    )
}

/// Whether (`i`, `j`) is one of the four corners of the board.
pub open spec fn is_corner(i: int, j: int) -> bool {
    (i == 0 || i == 7) && (j == 0 || j == 7)
}

/// No king stands on a corner of the board.
pub open spec fn kings_off_corners(g: Grid) -> bool {
    forall|i: int, j: int| in_board(i, j) && is_corner(i, j) ==> (#[trigger] g[i][j]).piece != Piece::King
}

/// No pawn stands on the board.
pub open spec fn pawnless(g: Grid) -> bool {
    forall|i: int, j: int| in_board(i, j) ==> (#[trigger] g[i][j]).piece != Piece::Pawn
}

/// Whether the term `t` of the square on (`i`, `j`) changes sign with the
/// colour: always, but for the safety of a king on a corner.
pub open spec fn term_flips(g: Grid, t: Term, i: int, j: int) -> bool {
    t is KingSafety ==> !(is_corner(i, j) && g[i][j].piece == Piece::King)
}

/// Exchanging the colours negates a term summed over part of a row, if it
/// negates the term of each square.
pub proof fn lemma_row_term_swapped(g: Grid, t: Term, i: int, n: int)
    requires
        0 <= i < 8,
        0 <= n <= 8,
        forall|j: int| 0 <= j < n ==> term_flips(g, t, i, j),
    ensures
        row_term(color_swapped(g), t, i, n) == -row_term(g, t, i, n),
    decreases n,
{
    if n > 0 {
        lemma_row_term_swapped(g, t, i, n - 1);
        assert(term_flips(g, t, i, n - 1));
        assert(color_swapped(g)[i][n - 1] == swapped_square(g[i][n - 1]));
    }
}

/// Exchanging the colours negates a term summed over rows, if it negates the
/// term of each square.
pub proof fn lemma_rows_term_swapped(g: Grid, t: Term, n: int)
    requires
        0 <= n <= 8,
        forall|i: int, j: int| 0 <= i < n && 0 <= j < 8 ==> term_flips(g, t, i, j),
    ensures
        rows_term(color_swapped(g), t, n) == -rows_term(g, t, n),
    decreases n,
{
    if n > 0 {
        lemma_rows_term_swapped(g, t, n - 1);
        lemma_row_term_swapped(g, t, n - 1, 8);
    }
}

/// The evaluation of the colour-swapped layout is the negated evaluation
/// plus the colour bias.
pub proof fn lemma_evaluation_swapped(g: Grid)
    ensures
        evaluation(color_swapped(g)) == -evaluation(g) + color_bias(g),
{
    lemma_rows_term_swapped(g, Term::Material, 8);
    lemma_rows_term_swapped(g, Term::PawnStructure, 8);
    lemma_rows_term_swapped(g, Term::Activity, 8);
}

/// The evaluation is antisymmetric under exchange of the colours: where
/// king safety and mobility are balanced between the colours, the
/// colour-swapped layout has the negated evaluation.
pub proof fn lemma_evaluation_antisymmetric(g: Grid)
    requires
        color_bias(g) == 0,
    ensures
        evaluation(color_swapped(g)) == -evaluation(g),
{
    lemma_evaluation_swapped(g);
}

/// Along a direction, the colour-swapped layout offers the other colour the
/// same moves.
pub proof fn lemma_ray_moves_swapped(
    g: Grid,
    color: Color,
    piece: Piece,
    fr: int,
    fc: int,
    dr: int,
    dc: int,
    r: int,
    c: int,
)
    ensures
        ray_moves(color_swapped(g), color.opposite(), piece, fr, fc, dr, dc, r, c) == ray_moves(
            g,
            color,
            piece,
            fr,
            fc,
            dr,
            dc,
            r,
            c,
        ),
    decreases ray_room(dr, dc, r, c),
{
    let tr = r + dr;
    let tc = c + dc;
    if (dr == 0 && dc == 0) || !in_board(tr, tc) {
    } else {
        assert(color_swapped(g)[tr][tc] == swapped_square(g[tr][tc]));
        if g[tr][tc].piece == Piece::Empty && piece.slides() {
            lemma_ray_moves_swapped(g, color, piece, fr, fc, dr, dc, tr, tc);
        }
    }
}

/// Along its first `n` directions, a piece has the same moves for the other
/// colour on the colour-swapped layout.
pub proof fn lemma_rays_moves_swapped(g: Grid, color: Color, piece: Piece, fr: int, fc: int, n: int)
    ensures
        rays_moves(color_swapped(g), color.opposite(), piece, fr, fc, n) == rays_moves(g, color, piece, fr, fc, n),
    decreases n,
{
    if n > 0 {
        lemma_rays_moves_swapped(g, color, piece, fr, fc, n - 1);
        let d = piece.spec_directions()[n - 1];
        lemma_ray_moves_swapped(g, color, piece, fr, fc, d.0 as int, d.1 as int, fr, fc);
    }
}

/// From a square without a pawn, the colour-swapped layout offers the other
/// colour the same moves.
pub proof fn lemma_square_moves_swapped(g: Grid, color: Color, fr: int, fc: int)
    requires
        in_board(fr, fc),
        g[fr][fc].piece != Piece::Pawn,
    ensures
        square_moves(color_swapped(g), color.opposite(), fr, fc) == square_moves(g, color, fr, fc),
{
    assert(color_swapped(g)[fr][fc] == swapped_square(g[fr][fc]));
    let piece = g[fr][fc].piece;
    lemma_rays_moves_swapped(g, color, piece, fr, fc, piece.spec_directions().len() as int);
}

/// From the first `n` squares of a row without pawns, the colour-swapped
/// layout offers the other colour the same moves.
pub proof fn lemma_row_moves_swapped(g: Grid, color: Color, i: int, n: int)
    requires
        pawnless(g),
        0 <= i < 8,
        0 <= n <= 8,
    ensures
        row_moves(color_swapped(g), color.opposite(), i, n) == row_moves(g, color, i, n),
    decreases n,
{
    if n > 0 {
        lemma_row_moves_swapped(g, color, i, n - 1);
        lemma_square_moves_swapped(g, color, i, n - 1);
    }
}

/// From the first `n` rows of a layout without pawns, the colour-swapped
/// layout offers the other colour the same moves.
pub proof fn lemma_rows_moves_swapped(g: Grid, color: Color, n: int)
    requires
        pawnless(g),
        0 <= n <= 8,
    ensures
        rows_moves(color_swapped(g), color.opposite(), n) == rows_moves(g, color, n),
    decreases n,
{
    if n > 0 {
        lemma_rows_moves_swapped(g, color, n - 1);
        lemma_row_moves_swapped(g, color, n - 1, 8);
    }
}

/// A layout without pawns and without a king on a corner has no colour
/// bias: its evaluation changes sign when the colours are exchanged.
pub proof fn lemma_unbiased_without_pawns_and_corner_kings(g: Grid)
    requires
        pawnless(g),
        kings_off_corners(g),
    ensures
        color_bias(g) == 0,
        evaluation(color_swapped(g)) == -evaluation(g),
{
    lemma_rows_term_swapped(g, Term::KingSafety, 8);
    lemma_rows_moves_swapped(g, Color::White, 8);
    lemma_rows_moves_swapped(g, Color::Black, 8);
    assert(valid_moves(color_swapped(g), Color::Black) == valid_moves(g, Color::White));
    assert(valid_moves(color_swapped(g), Color::White) == valid_moves(g, Color::Black));
    lemma_evaluation_swapped(g);
}

} // verus!

//! Pseudo-legal move generation.
//!
//! A move is generated for every step a piece can take by its movement rule
//! alone; whether the mover's own king is left attacked is not looked at.

use crate::board::Board;
use crate::grid::{in_board, Grid};
use crate::legality::{
    lemma_ordered_ascending, lemma_ordered_permutation, lemma_valid_moves_complete, lemma_valid_moves_distinct,
    lemma_valid_moves_sound, pseudo_legal,
};
use crate::piece::Piece;
use crate::{Color, Move, Position};
use vstd::prelude::*;

verus! {

/// The move of `piece` from (`fr`, `fc`) to (`tr`, `tc`).
pub open spec fn step_move(piece: Piece, fr: int, fc: int, tr: int, tc: int, captured: Option<Piece>) -> Move {
    Move {
        from: Position { row: fr as usize, col: fc as usize },
        to: Position { row: tr as usize, col: tc as usize },
        piece,
        captured,
        score: 0,
    }
}

/// How many squares can at most follow (`r`, `c`) on the board in direction
/// (`dr`, `dc`).
pub open spec fn ray_room(dr: int, dc: int, r: int, c: int) -> int {
    if dr > 0 {
        8 - r
    } else if dr < 0 {
        r + 1
    } else if dc > 0 {
        8 - c
    } else if dc < 0 {
        c + 1
    } else {
        0
    }
}

/// The moves of the piece standing on (`fr`, `fc`) along direction
/// (`dr`, `dc`) that land beyond (`r`, `c`), nearest first.
///
/// A vacant target gives a quiet move, after which a sliding piece goes on;
/// an occupied target ends the ray, with a capture unless the occupant is
/// marked with the mover's colour.
pub open spec fn ray_moves(
    g: Grid,
    color: Color,
    piece: Piece,
    fr: int,
    fc: int,
    dr: int,
    dc: int,
    r: int,
    c: int,
) -> Seq<Move>
    decreases ray_room(dr, dc, r, c),
{
    let tr = r + dr;
    let tc = c + dc;
    if (dr == 0 && dc == 0) || !in_board(tr, tc) {
        Seq::empty()
    } else if g[tr][tc].piece == Piece::Empty {
        let rest = if piece.slides() {
            ray_moves(g, color, piece, fr, fc, dr, dc, tr, tc)
        } else {
            Seq::empty()
        };
        seq![step_move(piece, fr, fc, tr, tc, None)] + rest
    } else if !g[tr][tc].owned_by(color) {
        seq![step_move(piece, fr, fc, tr, tc, Some(g[tr][tc].piece))]
    } else {
        Seq::empty()
    }
}

/// The moves of the piece on (`fr`, `fc`) along the first `n` of its
/// directions.
pub open spec fn rays_moves(g: Grid, color: Color, piece: Piece, fr: int, fc: int, n: int) -> Seq<Move>
    decreases n,
{
    if n <= 0 {
        Seq::empty()
    } else {
        let d = piece.spec_directions()[n - 1];
        rays_moves(g, color, piece, fr, fc, n - 1) + ray_moves(
            g,
            color,
            piece,
            fr,
            fc,
            d.0 as int,
            d.1 as int,
            fr,
            fc,
        )
    }
}

/// The row a pawn of `color` standing on row `r` steps to.
pub open spec fn pawn_target_row(color: Color, r: int) -> int {
    match color {
        Color::White => r + 1,
        Color::Black => r - 1,
    }
}

/// The single forward push of a pawn of `color` on (`fr`, `fc`), if the
/// square ahead is on the board and vacant.
pub open spec fn pawn_moves(g: Grid, color: Color, fr: int, fc: int) -> Seq<Move> {
    let tr = pawn_target_row(color, fr);
    if 0 <= tr < 8 && g[tr][fc].piece == Piece::Empty {
        seq![step_move(Piece::Pawn, fr, fc, tr, fc, None)]
    } else {
        Seq::empty()
    }
}

/// The moves that start on (`fr`, `fc`): none unless the square is marked
/// with `color`.
pub open spec fn square_moves(g: Grid, color: Color, fr: int, fc: int) -> Seq<Move> {
    let sq = g[fr][fc];
    if !sq.owned_by(color) {
        Seq::empty()
    } else {
        match sq.piece {
            Piece::Pawn => pawn_moves(g, color, fr, fc),
            Piece::Empty => Seq::empty(),
            _ => rays_moves(g, color, sq.piece, fr, fc, sq.piece.spec_directions().len() as int),
        }
    }
}

/// The moves that start on the first `n` squares of row `i`.
pub open spec fn row_moves(g: Grid, color: Color, i: int, n: int) -> Seq<Move>
    decreases n,
{
    if n <= 0 {
        Seq::empty()
    } else {
        row_moves(g, color, i, n - 1) + square_moves(g, color, i, n - 1)
    }
}

/// The moves that start on the first `n` rows.
pub open spec fn rows_moves(g: Grid, color: Color, n: int) -> Seq<Move>
    decreases n,
{
    if n <= 0 {
        Seq::empty()
    } else {
        rows_moves(g, color, n - 1) + row_moves(g, color, n - 1, 8)
    }
}

/// All pseudo-legal moves of `color`, square by square in row-major order.
pub open spec fn generated_moves(g: Grid, color: Color) -> Seq<Move> {
    rows_moves(g, color, 8)
}

/// The material value of what a move captures; zero for a quiet move.
pub open spec fn capture_value(m: Move) -> int {
    match m.captured {
        Some(p) => p.spec_value(),
        None => 0,
    }
}

/// The test "captures material worth `v`".
pub open spec fn worth_is(v: int) -> spec_fn(Move) -> bool {
    |m: Move| capture_value(m) == v
}

/// The moves of `s` that capture material worth `v`, in the order of `s`.
pub open spec fn captures_worth(s: Seq<Move>, v: int) -> Seq<Move> {
    s.filter(worth_is(v))
}

/// The moves of `s` in ascending order of captured value, moves of equal
/// value in the order of `s`.
pub open spec fn ordered(s: Seq<Move>) -> Seq<Move> {
    captures_worth(s, 0) + captures_worth(s, 10) + captures_worth(s, 30) + captures_worth(s, 50)
        + captures_worth(s, 90) + captures_worth(s, 900)
}

/// The pseudo-legal moves of `color` in the order in which they are explored.
pub open spec fn valid_moves(g: Grid, color: Color) -> Seq<Move> {
    ordered(generated_moves(g, color))
}

/// Every direction of a piece is a non-zero step of at most two squares each way.
pub proof fn lemma_direction_shape(piece: Piece, k: int)
    requires
        0 <= k < piece.spec_directions().len(),
    ensures
        -2 <= piece.spec_directions()[k].0 <= 2,
        -2 <= piece.spec_directions()[k].1 <= 2,
        piece.spec_directions()[k].0 != 0 || piece.spec_directions()[k].1 != 0,
        piece.spec_directions().len() <= 8,
{
}

/// The material value of what `mv` captures.
pub fn capture_worth(mv: &Move) -> (v: i32)
    ensures
        v == capture_value(*mv),
{
    match mv.captured {
        Some(piece) => piece.value(),
        None => 0,
    }
}

/// Appends to `out` the moves of `src` that capture material worth `v`.
fn append_worth(src: &Vec<Move>, v: i32, out: &mut Vec<Move>)
    ensures
        final(out)@ == old(out)@ + captures_worth(src@, v as int),
{
    let ghost before = out@;
    let mut k: usize = 0;
    proof {
        reveal(Seq::filter);
        assert(src@.take(0) =~= Seq::empty());
    }
    while k < src.len()
        invariant
            k <= src.len(),
            out@ == before + captures_worth(src@.take(k as int), v as int),
        decreases src.len() - k,
    {
        let mv = src[k];
        proof {
            reveal(Seq::filter);
            assert(src@.take(k + 1).drop_last() =~= src@.take(k as int));
            assert(src@.take(k + 1).last() == mv);
        }
        if capture_worth(&mv) == v {
            out.push(mv);
        }
        k += 1;
    }
    proof {
        assert(src@.take(src.len() as int) =~= src@);
    }
}

/// Sorts moves by ascending captured value, keeping the order of moves that
/// capture the same value.
pub fn order_moves(moves: Vec<Move>) -> (sorted: Vec<Move>)
    ensures
        sorted@ == ordered(moves@),
        sorted@.to_multiset() == moves@.to_multiset(),
        forall|i: int, j: int|
            0 <= i <= j < sorted.len() ==> capture_value(#[trigger] sorted[i]) <= capture_value(#[trigger] sorted[j]),
{
    proof {
        lemma_ordered_permutation(moves@);
        assert forall|i: int, j: int| 0 <= i <= j < ordered(moves@).len() implies capture_value(
            #[trigger] ordered(moves@)[i],
        ) <= capture_value(#[trigger] ordered(moves@)[j]) by {
            lemma_ordered_ascending(moves@, i, j);
        }
    }
    let mut sorted: Vec<Move> = Vec::new();
    append_worth(&moves, 0, &mut sorted);
    append_worth(&moves, 10, &mut sorted);
    append_worth(&moves, 30, &mut sorted);
    append_worth(&moves, 50, &mut sorted);
    append_worth(&moves, 90, &mut sorted);
    append_worth(&moves, 900, &mut sorted);
    sorted
}

impl Board {
    /// Appends the moves of the piece on `from` along one direction.
    fn push_ray(&self, color: Color, piece: Piece, from: Position, di: isize, dj: isize, moves: &mut Vec<Move>)
        requires
            from.on_board(),
            piece.slides() || piece == Piece::King || piece == Piece::Knight,
            -2 <= di <= 2,
            -2 <= dj <= 2,
            di != 0 || dj != 0,
        ensures
            final(moves)@ == old(moves)@ + ray_moves(
                self@.squares,
                color,
                piece,
                from.row as int,
                from.col as int,
                di as int,
                dj as int,
                from.row as int,
                from.col as int,
            ),
    {
        let ghost g = self@.squares;
        let ghost before = moves@;
        let ghost fr = from.row as int;
        let ghost fc = from.col as int;
        let ghost total = ray_moves(g, color, piece, fr, fc, di as int, dj as int, fr, fc);
        let mut new_i: isize = from.row as isize;
        let mut new_j: isize = from.col as isize;
        loop
            invariant_except_break
                in_board(new_i as int, new_j as int),
                before + total == moves@ + ray_moves(
                    g,
                    color,
                    piece,
                    fr,
                    fc,
                    di as int,
                    dj as int,
                    new_i as int,
                    new_j as int,
                ),
            invariant
                g == self@.squares,
                from.on_board(),
                fr == from.row,
                fc == from.col,
                piece.slides() || piece == Piece::King || piece == Piece::Knight,
                -2 <= di <= 2,
                -2 <= dj <= 2,
                di != 0 || dj != 0,
            ensures
                moves@ == before + total,
            decreases ray_room(di as int, dj as int, new_i as int, new_j as int),
        {
            let ghost rest = ray_moves(g, color, piece, fr, fc, di as int, dj as int, new_i as int, new_j as int);
            new_i += di;
            new_j += dj;
            if new_i < 0 || new_i >= 8 || new_j < 0 || new_j >= 8 {
                assert(rest =~= Seq::empty());
                assert(moves@ + rest =~= moves@);
                break;
            }
            let target_square = self.squares[new_i as usize][new_j as usize];
            assert(target_square == g[new_i as int][new_j as int]);
            if target_square.piece == Piece::Empty {
                let mv = Move {
                    from: Position { row: from.row, col: from.col },
                    to: Position { row: new_i as usize, col: new_j as usize },
                    piece,
                    captured: None,
                    score: 0,
                };
                assert(mv == step_move(piece, fr, fc, new_i as int, new_j as int, None));
                let ghost shown = moves@;
                moves.push(mv);
                if piece == Piece::King || piece == Piece::Knight {
                    assert(rest =~= seq![mv]);
                    assert(shown + rest =~= moves@);
                    break;
                }
                let ghost next = ray_moves(g, color, piece, fr, fc, di as int, dj as int, new_i as int, new_j as int);
                assert(rest =~= seq![mv] + next);
                assert(shown + rest =~= moves@ + next);
            } else {
                let ghost shown = moves@;
                if !target_square.is_owned_by(color) {
                    let mv = Move {
                        from: Position { row: from.row, col: from.col },
                        to: Position { row: new_i as usize, col: new_j as usize },
                        piece,
                        captured: Some(target_square.piece),
                        score: 0,
                    };
                    assert(mv == step_move(piece, fr, fc, new_i as int, new_j as int, Some(target_square.piece)));
                    moves.push(mv);
                    assert(rest =~= seq![mv]);
                } else {
                    assert(rest =~= Seq::empty());
                }
                assert(shown + rest =~= moves@);
                break;
            }
        }
    }

    /// Appends the moves that start on `from`.
    fn push_square_moves(&self, color: Color, from: Position, moves: &mut Vec<Move>)
        requires
            from.on_board(),
        ensures
            final(moves)@ == old(moves)@ + square_moves(self@.squares, color, from.row as int, from.col as int),
    {
        let ghost g = self@.squares;
        let ghost before = moves@;
        let i = from.row;
        let j = from.col;
        let square = self.squares[i][j];
        assert(square == g[i as int][j as int]);
        if square.is_owned_by(color) {
            match square.piece {
                Piece::Pawn => {
                    let direction: isize = if color == Color::White { 1 } else { -1 };
                    let new_i = i as isize + direction;
                    if 0 <= new_i && new_i < 8 && self.squares[new_i as usize][j].piece == Piece::Empty {
                        moves.push(
                            Move {
                                from: Position { row: i, col: j },
                                to: Position { row: new_i as usize, col: j },
                                piece: Piece::Pawn,
                                captured: None,
                                score: 0,
                            },
                        );
                    }
                    assert(moves@ =~= before + pawn_moves(g, color, i as int, j as int));
                },
                Piece::King | Piece::Queen | Piece::Rook | Piece::Bishop | Piece::Knight => {
                    let dirs = square.piece.directions();
                    let mut k: usize = 0;
                    assert(moves@ =~= before + rays_moves(g, color, square.piece, i as int, j as int, 0));
                    while k < dirs.len()
                        invariant
                            g == self@.squares,
                            from.on_board(),
                            i == from.row,
                            j == from.col,
                            k <= dirs.len(),
                            dirs@ == square.piece.spec_directions(),
                            square.piece.slides() || square.piece == Piece::King || square.piece == Piece::Knight,
                            moves@ == before + rays_moves(g, color, square.piece, i as int, j as int, k as int),
                        decreases dirs.len() - k,
                    {
                        let (di, dj) = dirs[k];
                        proof {
                            lemma_direction_shape(square.piece, k as int);
                        }
                        self.push_ray(color, square.piece, from, di, dj, moves);
                        k += 1;
                        assert(moves@ =~= before + rays_moves(g, color, square.piece, i as int, j as int, k as int));
                    }
                },
                Piece::Empty => {
                    assert(moves@ =~= before + Seq::<Move>::empty());
                },
            }
        } else {
            assert(moves@ =~= before + Seq::<Move>::empty());
        }
    }

    /// The pseudo-legal moves of `color`: nothing else, and every one of
    /// them once, in ascending order of captured value. Moves that capture the
    /// same value keep the order in which the squares are scanned, row by
    /// row, and in which a piece's directions are listed.
    pub fn get_valid_moves(&self, color: Color) -> (moves: Vec<Move>)
        ensures
            moves@ == valid_moves(self@.squares, color),
            forall|k: int| 0 <= k < moves.len() ==> pseudo_legal(self@.squares, color, #[trigger] moves[k]),
            forall|m: Move| pseudo_legal(self@.squares, color, m) ==> moves@.contains(m),
            moves@.no_duplicates(),
            forall|i: int, j: int|
                0 <= i <= j < moves.len() ==> capture_value(#[trigger] moves[i]) <= capture_value(#[trigger] moves[j]),
    {
        let ghost g = self@.squares;
        let mut moves: Vec<Move> = Vec::new();
        let mut i: usize = 0;
        while i < 8
            invariant
                g == self@.squares,
                i <= 8,
                moves@ == rows_moves(g, color, i as int),
            decreases 8 - i,
        {
            let ghost row_start = moves@;
            let mut j: usize = 0;
            assert(moves@ =~= row_start + row_moves(g, color, i as int, 0));
            while j < 8
                invariant
                    g == self@.squares,
                    i < 8,
                    j <= 8,
                    moves@ == row_start + row_moves(g, color, i as int, j as int),
                decreases 8 - j,
            {
                self.push_square_moves(color, Position { row: i, col: j }, &mut moves);
                j += 1;
                assert(moves@ =~= row_start + row_moves(g, color, i as int, j as int));
            }
            i += 1;
        }
        let sorted = order_moves(moves);
        proof {
            assert forall|k: int| 0 <= k < sorted.len() implies pseudo_legal(g, color, #[trigger] sorted[k]) by {
                lemma_valid_moves_sound(g, color, k);
            }
            assert forall|m: Move| pseudo_legal(g, color, m) implies sorted@.contains(m) by {
                lemma_valid_moves_complete(g, color, m);
            }
            lemma_valid_moves_distinct(g, color);
        }
        sorted
    }
}

} // verus!

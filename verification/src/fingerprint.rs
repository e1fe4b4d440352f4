//! The fingerprint of a position: 64 bits that stand for the layout and the
//! side to move.
//!
//! Every combination of a place on the board, a piece kind and a colour mark
//! has a key; the fingerprint is the exclusive or of the keys of all 64
//! squares and, when Black is to move, of the side key. So the fingerprint of
//! the position after a move is that of the position before it with five
//! keys exchanged.

use crate::board::{Board, BoardView};
use crate::grid::{grid_after, grid_shaped, in_board, Grid};
use crate::piece::Piece;
use crate::{Color, Move, Position, Square};
use vstd::prelude::*;

verus! {

/// The key that is mixed in when Black is to move.
pub const SIDE_KEY: u64 = 0x9E37_79B9_7F4A_7C15;

/// A scrambling of 64 bits: the output step of the SplitMix64 generator.
pub open spec fn spec_mix(z: u64) -> u64 {
    let a = z.wrapping_add(0x9E37_79B9_7F4A_7C15u64);
    let b = (a ^ (a >> 30)).wrapping_mul(0xBF58_476D_1CE4_E5B9u64);
    let c = (b ^ (b >> 27)).wrapping_mul(0x94D0_49BB_1331_11EBu64);
    c ^ (c >> 31)
}

/// The number of a piece kind.
pub open spec fn piece_index(piece: Piece) -> int {
    match piece {
        Piece::King => 0,
        Piece::Queen => 1,
        Piece::Rook => 2,
        Piece::Bishop => 3,
        Piece::Knight => 4,
        Piece::Pawn => 5,
        Piece::Empty => 6,
    }
}

/// The number of a square's colour mark.
pub open spec fn color_index(color: Option<Color>) -> int {
    match color {
        Some(Color::White) => 0,
        Some(Color::Black) => 1,
        None => 2,
    }
}

/// A number that tells apart every combination of a place on the board, a
/// piece kind and a colour mark.
pub open spec fn square_code(sq: Square, i: int, j: int) -> int {
    ((i * 8 + j) * 7 + piece_index(sq.piece)) * 3 + color_index(sq.color)
}

/// The key of the square `sq` on (`i`, `j`).
pub open spec fn square_key(sq: Square, i: int, j: int) -> u64 {
    spec_mix(square_code(sq, i, j) as u64)
}

/// The keys of the first `n` squares of row `i`, combined by exclusive or.
pub open spec fn row_key(g: Grid, i: int, n: int) -> u64
    decreases n,
{
    if n <= 0 {
        0
    } else {
        row_key(g, i, n - 1) ^ square_key(g[i][n - 1], i, n - 1)
    }
}

/// The keys of the squares of the first `n` rows, combined by exclusive or.
pub open spec fn rows_key(g: Grid, n: int) -> u64
    decreases n,
{
    if n <= 0 {
        0
    } else {
        rows_key(g, n - 1) ^ row_key(g, n - 1, 8)
    }
}

/// The fingerprint of a position: the keys of all 64 squares and, when Black
/// is to move, the side key, combined by exclusive or.
pub open spec fn fingerprint(b: BoardView) -> u64 {
    rows_key(b.squares, 8) ^ (if b.turn == Color::Black {
        SIDE_KEY
    } else {
        0
    })
}

/// A scrambling of 64 bits: the output step of the SplitMix64 generator.
pub fn mix(z: u64) -> (r: u64)
    ensures
        r == spec_mix(z),
{
    let a = z.wrapping_add(0x9E37_79B9_7F4A_7C15u64);
    let b = (a ^ (a >> 30)).wrapping_mul(0xBF58_476D_1CE4_E5B9u64);
    let c = (b ^ (b >> 27)).wrapping_mul(0x94D0_49BB_1331_11EBu64);
    c ^ (c >> 31)
}

/// The key of the square `sq` on (`i`, `j`).
pub fn key_of_square(sq: &Square, i: usize, j: usize) -> (key: u64)
    requires
        i < 8,
        j < 8,
    ensures
        key == square_key(*sq, i as int, j as int),
{
    let piece: u64 = match sq.piece {
        Piece::King => 0,
        Piece::Queen => 1,
        Piece::Rook => 2,
        Piece::Bishop => 3,
        Piece::Knight => 4,
        Piece::Pawn => 5,
        Piece::Empty => 6,
    };
    let color: u64 = match sq.color {
        Some(Color::White) => 0,
        Some(Color::Black) => 1,
        None => 2,
    };
    let code: u64 = ((i as u64 * 8 + j as u64) * 7 + piece) * 3 + color;
    mix(code)
}

/// What a move adds to the fingerprint: the keys of what stood on the
/// target and of the moved piece on its origin leave, the keys of the moved
/// piece on the target and of the vacated origin come in, and the side to
/// move changes.
pub open spec fn move_keys(g: Grid, from: Position, to: Position) -> u64 {
    let moved = g[from.row as int][from.col as int];
    let taken = g[to.row as int][to.col as int];
    square_key(taken, to.row as int, to.col as int) ^ square_key(moved, to.row as int, to.col as int) ^ square_key(
        moved,
        from.row as int,
        from.col as int,
    ) ^ square_key(Square::vacant(), from.row as int, from.col as int) ^ SIDE_KEY
}

/// Exclusive or may be regrouped: a key that is added last may as well be
/// added before the one before it.
pub proof fn lemma_xor_exchange(a: u64, x: u64, d: u64)
    ensures
        (a ^ d) ^ x == (a ^ x) ^ d,
        a ^ 0 == a,
{
    assert((a ^ d) ^ x == (a ^ x) ^ d) by (bit_vector);
    assert(a ^ 0 == a) by (bit_vector);
}

/// Adding a key and the difference between it and another key adds the
/// other key.
pub proof fn lemma_xor_replace(a: u64, old_key: u64, new_key: u64)
    ensures
        (a ^ old_key) ^ (old_key ^ new_key) == a ^ new_key,
{
    assert((a ^ old_key) ^ (old_key ^ new_key) == a ^ new_key) by (bit_vector);
}

/// The key of part of a row looks only at the squares of that part.
pub proof fn lemma_row_key_same(g: Grid, h: Grid, i: int, n: int)
    requires
        forall|j: int| 0 <= j < n ==> g[i][j] == h[i][j],
    ensures
        row_key(g, i, n) == row_key(h, i, n),
    decreases n,
{
    if n > 0 {
        lemma_row_key_same(g, h, i, n - 1);
    }
}

/// Replacing the square on (`i`, `j`) exchanges its key in the key of
/// row `i`, if the square is among those counted.
pub proof fn lemma_row_key_set(g: Grid, i: int, j: int, sq: Square, n: int)
    requires
        grid_shaped(g),
        in_board(i, j),
        0 <= n <= 8,
    ensures
        row_key(g.update(i, g[i].update(j, sq)), i, n) == row_key(g, i, n) ^ (if j < n {
            square_key(g[i][j], i, j) ^ square_key(sq, i, j)
        } else {
            0
        }),
    decreases n,
{
    let h = g.update(i, g[i].update(j, sq));
    if n <= j {
        lemma_row_key_same(g, h, i, n);
        lemma_xor_exchange(row_key(g, i, n), 0, 0);
    } else if n - 1 == j {
        lemma_row_key_same(g, h, i, j);
        lemma_xor_replace(row_key(g, i, j), square_key(g[i][j], i, j), square_key(sq, i, j));
    } else {
        lemma_row_key_set(g, i, j, sq, n - 1);
        lemma_xor_exchange(
            row_key(g, i, n - 1),
            square_key(g[i][n - 1], i, n - 1),
            square_key(g[i][j], i, j) ^ square_key(sq, i, j),
        );
    }
}

/// Replacing the square on (`i`, `j`) exchanges its key in the key of the
/// first `n` rows, if its row is among those counted.
pub proof fn lemma_rows_key_set(g: Grid, i: int, j: int, sq: Square, n: int)
    requires
        grid_shaped(g),
        in_board(i, j),
        0 <= n <= 8,
    ensures
        rows_key(g.update(i, g[i].update(j, sq)), n) == rows_key(g, n) ^ (if i < n {
            square_key(g[i][j], i, j) ^ square_key(sq, i, j)
        } else {
            0
        }),
    decreases n,
{
    let h = g.update(i, g[i].update(j, sq));
    let delta = square_key(g[i][j], i, j) ^ square_key(sq, i, j);
    if n <= 0 {
        lemma_xor_exchange(0, 0, 0);
    } else {
        lemma_rows_key_set(g, i, j, sq, n - 1);
        let a = rows_key(g, n - 1);
        let r = row_key(g, n - 1, 8);
        if n - 1 == i {
            lemma_row_key_set(g, i, j, sq, 8);
            lemma_xor_exchange(a, 0, 0);
            assert(rows_key(h, n - 1) == a);
            assert(row_key(h, n - 1, 8) == r ^ delta);
            assert(a ^ (r ^ delta) == (a ^ r) ^ delta) by (bit_vector);
        } else {
            lemma_row_key_same(g, h, n - 1, 8);
            assert(row_key(h, n - 1, 8) == r);
            if i < n {
                assert(rows_key(h, n - 1) == a ^ delta);
                lemma_xor_exchange(a, r, delta);
            } else {
                lemma_xor_exchange(a, 0, 0);
                assert(rows_key(h, n - 1) == a);
                lemma_xor_exchange(a ^ r, 0, 0);
            }
        }
    }
}

/// The fingerprint can be kept up move by move: after a move it is the
/// fingerprint before the move with the keys of the move added.
pub proof fn lemma_fingerprint_after_move(b: BoardView, m: Move)
    requires
        grid_shaped(b.squares),
        m.from.on_board(),
        m.to.on_board(),
    ensures
        fingerprint(b.played(m)) == fingerprint(b) ^ move_keys(b.squares, m.from, m.to),
{
    let g = b.squares;
    let fr = m.from.row as int;
    let fc = m.from.col as int;
    let tr = m.to.row as int;
    let tc = m.to.col as int;
    let moved = g[fr][fc];
    let taken = g[tr][tc];
    let placed = g.update(tr, g[tr].update(tc, moved));
    lemma_rows_key_set(g, tr, tc, moved, 8);
    assert(grid_shaped(placed));
    lemma_rows_key_set(placed, fr, fc, Square::vacant(), 8);
    assert(grid_after(g, m.from, m.to) == placed.update(fr, placed[fr].update(fc, Square::vacant())));
    let k = rows_key(g, 8);
    let t_out = square_key(taken, tr, tc);
    let t_in = square_key(moved, tr, tc);
    let f_out = square_key(placed[fr][fc], fr, fc);
    let f_in = square_key(Square::vacant(), fr, fc);
    let f_moved = square_key(moved, fr, fc);
    let side = if b.turn == Color::Black {
        SIDE_KEY
    } else {
        0u64
    };
    let other = if b.turn.opposite() == Color::Black {
        SIDE_KEY
    } else {
        0u64
    };
    let s = SIDE_KEY;
    assert(other == side ^ s) by {
        assert(0u64 ^ s == s) by (bit_vector);
        assert(s ^ s == 0u64) by (bit_vector);
    }
    if m.from == m.to {
        let kk = t_out;
        assert(t_in == kk && f_out == kk && f_moved == kk);
        assert(((k ^ (kk ^ kk)) ^ (kk ^ f_in)) ^ (side ^ s) == (k ^ side) ^ (kk ^ kk ^ kk ^ f_in ^ s)) by (bit_vector);
    } else {
        assert(f_out == f_moved);
        assert(((k ^ (t_out ^ t_in)) ^ (f_moved ^ f_in)) ^ (side ^ s) == (k ^ side) ^ (t_out ^ t_in ^ f_moved ^ f_in
            ^ s)) by (bit_vector);
    }
}

impl Board {
    /// The fingerprint of the position, side to move included.
    pub fn hash(&self) -> (key: u64)
        ensures
            key == fingerprint(self@),
    {
        let ghost g = self@.squares;
        let mut key: u64 = 0;
        let mut i: usize = 0;
        while i < 8
            invariant
                g == self@.squares,
                i <= 8,
                key == rows_key(g, i as int),
            decreases 8 - i,
        {
            let mut row: u64 = 0;
            let mut j: usize = 0;
            while j < 8
                invariant
                    g == self@.squares,
                    i < 8,
                    j <= 8,
                    row == row_key(g, i as int, j as int),
                decreases 8 - j,
            {
                let square = self.squares[i][j];
                assert(square == g[i as int][j as int]);
                row = row ^ key_of_square(&square, i, j);
                j += 1;
            }
            key = key ^ row;
            i += 1;
        }
        if self.turn == Color::Black {
            key ^ SIDE_KEY
        } else {
            proof {
                lemma_xor_exchange(key, 0, 0);
            }
            key
        }
    }

    /// `key` with the keys of the move `mv` added. If `key` is the
    /// fingerprint of this position, the result is the fingerprint of the
    /// position after the move.
    pub fn hash_after(&self, key: u64, mv: &Move) -> (next: u64)
        requires
            mv.from.on_board(),
            mv.to.on_board(),
        ensures
            next == key ^ move_keys(self@.squares, mv.from, mv.to),
            key == fingerprint(self@) ==> next == fingerprint(self@.played(*mv)),
    {
        let moved = self.squares[mv.from.row][mv.from.col];
        let taken = self.squares[mv.to.row][mv.to.col];
        let vacant = Square::new(Piece::Empty, None);
        proof {
            let g = self@.squares;
            assert(moved == g[mv.from.row as int][mv.from.col as int]);
            assert(taken == g[mv.to.row as int][mv.to.col as int]);
            assert(vacant == Square::vacant());
            lemma_fingerprint_after_move(self@, *mv);
        }
        let keys = key_of_square(&taken, mv.to.row, mv.to.col) ^ key_of_square(&moved, mv.to.row, mv.to.col)
            ^ key_of_square(&moved, mv.from.row, mv.from.col) ^ key_of_square(&vacant, mv.from.row, mv.from.col)
            ^ SIDE_KEY;
        key ^ keys
    }
}

} // verus!

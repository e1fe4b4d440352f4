//! The mathematical model of a piece layout: eight rows of eight squares.

use crate::piece::Piece;
use crate::{Position, Square};
use vstd::prelude::*;

verus! {

/// Eight rows of eight squares; row 0 is White's back rank.
pub type Grid = Seq<Seq<Square>>;

/// The grid has eight rows of eight squares.
pub open spec fn grid_shaped(g: Grid) -> bool {
    &&& g.len() == 8
    &&& forall|i: int| 0 <= i < 8 ==> (#[trigger] g[i]).len() == 8
}

/// The grid has the right shape and every square is well formed.
pub open spec fn grid_wf(g: Grid) -> bool {
    &&& grid_shaped(g)
    &&& forall|i: int, j: int| 0 <= i < 8 && 0 <= j < 8 ==> (#[trigger] g[i][j]).wf()
}

/// Whether (`row`, `col`) lies on the board.
pub open spec fn in_board(row: int, col: int) -> bool {
    0 <= row < 8 && 0 <= col < 8
}

/// The grid after the piece on `from` has been put on `to` and `from` has
/// been vacated. Nothing is checked: whatever stands on `from` is moved.
pub open spec fn grid_after(g: Grid, from: Position, to: Position) -> Grid {
    let placed = g.update(to.row as int, g[to.row as int].update(to.col as int, g[from.row as int][from.col as int]));
    placed.update(from.row as int, placed[from.row as int].update(from.col as int, Square::vacant()))
}

/// The view of an 8x8 array of squares.
pub open spec fn grid_of(squares: [[Square; 8]; 8]) -> Grid {
    Seq::new(8, |i: int| squares[i]@)
}

/// One for an occupied square, zero for a vacant one.
pub open spec fn occupied(sq: Square) -> int {
    if sq.piece != Piece::Empty {
        1
    } else {
        0
    }
}

/// The number of occupied squares among the first `n` of a row.
pub open spec fn row_count(row: Seq<Square>, n: int) -> int
    decreases n,
{
    if n <= 0 {
        0
    } else {
        row_count(row, n - 1) + occupied(row[n - 1])
    }
}

/// The number of occupied squares in the first `n` rows.
pub open spec fn rows_count(g: Grid, n: int) -> int
    decreases n,
{
    if n <= 0 {
        0
    } else {
        rows_count(g, n - 1) + row_count(g[n - 1], 8)
    }
}

/// The number of pieces on the board.
pub open spec fn piece_count(g: Grid) -> int {
    rows_count(g, 8)
}

/// Counts are never negative.
pub proof fn lemma_row_count_nonnegative(row: Seq<Square>, n: int)
    ensures
        row_count(row, n) >= 0,
    decreases n,
{
    if n > 0 {
        lemma_row_count_nonnegative(row, n - 1);
    }
}

/// Counts are never negative.
pub proof fn lemma_rows_count_nonnegative(g: Grid, n: int)
    ensures
        rows_count(g, n) >= 0,
    decreases n,
{
    if n > 0 {
        lemma_rows_count_nonnegative(g, n - 1);
        lemma_row_count_nonnegative(g[n - 1], 8);
    }
}

/// Replacing one square of a row changes the count by the difference in
/// occupancy, if the square is among those counted.
pub proof fn lemma_row_count_update(row: Seq<Square>, j: int, sq: Square, n: int)
    requires
        0 <= j < row.len(),
        0 <= n <= row.len(),
    ensures
        row_count(row.update(j, sq), n) == row_count(row, n) + (if j < n {
            occupied(sq) - occupied(row[j])
        } else {
            0
        }),
    decreases n,
{
    if n > 0 {
        lemma_row_count_update(row, j, sq, n - 1);
    }
}

/// Replacing one row changes the count by the difference of the rows'
/// counts, if the row is among those counted.
pub proof fn lemma_rows_count_update(g: Grid, i: int, row: Seq<Square>, n: int)
    requires
        0 <= i < g.len(),
        0 <= n <= g.len(),
    ensures
        rows_count(g.update(i, row), n) == rows_count(g, n) + (if i < n {
            row_count(row, 8) - row_count(g[i], 8)
        } else {
            0
        }),
    decreases n,
{
    if n > 0 {
        lemma_rows_count_update(g, i, row, n - 1);
    }
}

/// Replacing one square changes the number of pieces by the difference in
/// occupancy.
pub proof fn lemma_piece_count_set(g: Grid, i: int, j: int, sq: Square)
    requires
        grid_shaped(g),
        in_board(i, j),
    ensures
        piece_count(g.update(i, g[i].update(j, sq))) == piece_count(g) + occupied(sq) - occupied(g[i][j]),
{
    lemma_row_count_update(g[i], j, sq, 8);
    lemma_rows_count_update(g, i, g[i].update(j, sq), 8);
}

/// A move onto another square removes from the board exactly what stood on
/// the target.
pub proof fn lemma_grid_after_count(g: Grid, from: Position, to: Position)
    requires
        grid_shaped(g),
        from.on_board(),
        to.on_board(),
        from != to,
    ensures
        piece_count(grid_after(g, from, to)) == piece_count(g) - occupied(g[to.row as int][to.col as int]),
        piece_count(g) >= 0,
{
    let placed = g.update(
        to.row as int,
        g[to.row as int].update(to.col as int, g[from.row as int][from.col as int]),
    );
    lemma_piece_count_set(g, to.row as int, to.col as int, g[from.row as int][from.col as int]);
    assert(grid_shaped(placed));
    lemma_piece_count_set(placed, from.row as int, from.col as int, Square::vacant());
    lemma_rows_count_nonnegative(g, 8);
}

/// A move keeps the grid well formed.
pub proof fn lemma_grid_after_wf(g: Grid, from: Position, to: Position)
    requires
        grid_wf(g),
        from.on_board(),
        to.on_board(),
    ensures
        grid_wf(grid_after(g, from, to)),
{
    let placed = g.update(
        to.row as int,
        g[to.row as int].update(to.col as int, g[from.row as int][from.col as int]),
    );
    assert(grid_wf(placed)) by {
        assert forall|i: int, j: int| 0 <= i < 8 && 0 <= j < 8 implies (#[trigger] placed[i][j]).wf() by {
            assert(g[i][j].wf());
            assert(g[from.row as int][from.col as int].wf());
        }
    }
    let after = grid_after(g, from, to);
    assert forall|i: int, j: int| 0 <= i < 8 && 0 <= j < 8 implies (#[trigger] after[i][j]).wf() by {
        assert(placed[i][j].wf());
    }
}

} // verus!

//! What the move generator offers: exactly the pseudo-legal moves, each
//! once, in ascending order of captured value, and never more than 4096 of
//! them.

use crate::grid::{in_board, Grid};
use crate::movegen::{
    capture_value, captures_worth, generated_moves, lemma_direction_shape, ordered, pawn_moves, pawn_target_row,
    ray_moves, ray_room, rays_moves, row_moves, rows_moves, square_moves, step_move, valid_moves, worth_is,
};
use crate::piece::Piece;
use crate::{Color, Move, Position};
use vstd::prelude::*;

verus! {

/// Whether the `t`-th square from (`fr`, `fc`) in direction (`dr`, `dc`) is
/// on the board and vacant.
pub open spec fn passes(g: Grid, fr: int, fc: int, dr: int, dc: int, t: int) -> bool {
    in_board(fr + t * dr, fc + t * dc) && g[fr + t * dr][fc + t * dc].piece == Piece::Empty
}

/// Whether `piece` gets from (`fr`, `fc`) to (`tr`, `tc`) by `n` steps of
/// (`dr`, `dc`): every square passed on the way is vacant, and only a sliding
/// piece takes more than one step.
pub open spec fn ray_reaches(
    g: Grid,
    piece: Piece,
    fr: int,
    fc: int,
    dr: int,
    dc: int,
    n: int,
    tr: int,
    tc: int,
) -> bool {
    &&& n >= 1
    &&& tr == fr + n * dr
    &&& tc == fc + n * dc
    &&& (n == 1 || piece.slides())
    &&& forall|t: int| 1 <= t < n ==> #[trigger] passes(g, fr, fc, dr, dc, t)
}

/// Whether `m` is a move that `color` may make by the movement rules alone.
///
/// The piece named by the move stands on the origin and is marked with
/// `color`; the target is on the board and is vacant or holds a piece that
/// is not marked with `color`, which the move then captures. A pawn steps
/// one row forward onto a vacant square. Any other piece follows one of its
/// directions over vacant squares only.
pub open spec fn pseudo_legal(g: Grid, color: Color, m: Move) -> bool {
    let fr = m.from.row as int;
    let fc = m.from.col as int;
    let tr = m.to.row as int;
    let tc = m.to.col as int;
    &&& in_board(fr, fc)
    &&& in_board(tr, tc)
    &&& g[fr][fc].owned_by(color)
    &&& m.piece == g[fr][fc].piece
    &&& m.score == 0
    &&& g[tr][tc].piece == Piece::Empty ==> m.captured is None
    &&& g[tr][tc].piece != Piece::Empty ==> !g[tr][tc].owned_by(color) && m.captured == Some(g[tr][tc].piece)
    &&& match m.piece {
        Piece::Empty => false,
        Piece::Pawn => tc == fc && tr == pawn_target_row(color, fr) && g[tr][tc].piece == Piece::Empty,
        _ => exists|k: int, n: int|
            0 <= k < m.piece.spec_directions().len() && #[trigger] ray_reaches(
                g,
                m.piece,
                fr,
                fc,
                m.piece.spec_directions()[k].0 as int,
                m.piece.spec_directions()[k].1 as int,
                n,
                tr,
                tc,
            ),
    }
}

/// What holds of every move generated along one direction.
pub open spec fn ray_move_ok(
    g: Grid,
    color: Color,
    piece: Piece,
    fr: int,
    fc: int,
    dr: int,
    dc: int,
    m: Move,
) -> bool {
    let tr = m.to.row as int;
    let tc = m.to.col as int;
    &&& m.from == (Position { row: fr as usize, col: fc as usize })
    &&& m.piece == piece
    &&& m.score == 0
    &&& in_board(tr, tc)
    &&& g[tr][tc].piece == Piece::Empty ==> m.captured is None
    &&& g[tr][tc].piece != Piece::Empty ==> !g[tr][tc].owned_by(color) && m.captured == Some(g[tr][tc].piece)
    &&& exists|n: int| #[trigger] ray_reaches(g, piece, fr, fc, dr, dc, n, tr, tc)
}

/// Every move generated along a direction, from the `n`-th square on, lands
/// where the piece can get over vacant squares.
pub proof fn lemma_ray_sound(
    g: Grid,
    color: Color,
    piece: Piece,
    fr: int,
    fc: int,
    dr: int,
    dc: int,
    r: int,
    c: int,
    n: int,
    idx: int,
)
    requires
        in_board(fr, fc),
        n >= 0,
        r == fr + n * dr,
        c == fc + n * dc,
        n == 0 || piece.slides(),
        forall|t: int| 1 <= t <= n ==> #[trigger] passes(g, fr, fc, dr, dc, t),
        0 <= idx < ray_moves(g, color, piece, fr, fc, dr, dc, r, c).len(),
    ensures
        ray_move_ok(g, color, piece, fr, fc, dr, dc, ray_moves(g, color, piece, fr, fc, dr, dc, r, c)[idx]),
    decreases ray_room(dr, dc, r, c),
{
    let tr = r + dr;
    let tc = c + dc;
    let m = ray_moves(g, color, piece, fr, fc, dr, dc, r, c)[idx];
    assert((n + 1) * dr == n * dr + dr) by (nonlinear_arith);
    assert((n + 1) * dc == n * dc + dc) by (nonlinear_arith);
    if (dr == 0 && dc == 0) || !in_board(tr, tc) {
    } else if g[tr][tc].piece == Piece::Empty {
        if idx == 0 {
            assert(m == step_move(piece, fr, fc, tr, tc, None));
            assert(ray_reaches(g, piece, fr, fc, dr, dc, n + 1, tr, tc));
        } else {
            assert(passes(g, fr, fc, dr, dc, n + 1));
            lemma_ray_sound(g, color, piece, fr, fc, dr, dc, tr, tc, n + 1, idx - 1);
        }
    } else if !g[tr][tc].owned_by(color) {
        assert(m == step_move(piece, fr, fc, tr, tc, Some(g[tr][tc].piece)));
        assert(ray_reaches(g, piece, fr, fc, dr, dc, n + 1, tr, tc));
    }
}

/// Every move generated for the piece on (`fr`, `fc`) is pseudo-legal.
pub proof fn lemma_rays_sound(g: Grid, color: Color, fr: int, fc: int, n: int, idx: int)
    requires
        in_board(fr, fc),
        g[fr][fc].owned_by(color),
        g[fr][fc].piece != Piece::Pawn,
        g[fr][fc].piece != Piece::Empty,
        0 <= n <= g[fr][fc].piece.spec_directions().len(),
        0 <= idx < rays_moves(g, color, g[fr][fc].piece, fr, fc, n).len(),
    ensures
        pseudo_legal(g, color, rays_moves(g, color, g[fr][fc].piece, fr, fc, n)[idx]),
    decreases n,
{
    let piece = g[fr][fc].piece;
    let before = rays_moves(g, color, piece, fr, fc, n - 1);
    if idx < before.len() {
        lemma_rays_sound(g, color, fr, fc, n - 1, idx);
    } else {
        let d = piece.spec_directions()[n - 1];
        let dr = d.0 as int;
        let dc = d.1 as int;
        assert(0 * dr == 0 && 0 * dc == 0);
        lemma_ray_sound(g, color, piece, fr, fc, dr, dc, fr, fc, 0, idx - before.len());
        let m = rays_moves(g, color, piece, fr, fc, n)[idx];
        assert(ray_move_ok(g, color, piece, fr, fc, dr, dc, m));
        let steps = choose|steps: int| #[trigger]
            ray_reaches(g, piece, fr, fc, dr, dc, steps, m.to.row as int, m.to.col as int);
        assert(ray_reaches(
            g,
            m.piece,
            fr,
            fc,
            m.piece.spec_directions()[n - 1].0 as int,
            m.piece.spec_directions()[n - 1].1 as int,
            steps,
            m.to.row as int,
            m.to.col as int,
        ));
    }
}

/// Every move generated from one square is pseudo-legal.
pub proof fn lemma_square_sound(g: Grid, color: Color, fr: int, fc: int, idx: int)
    requires
        in_board(fr, fc),
        0 <= idx < square_moves(g, color, fr, fc).len(),
    ensures
        pseudo_legal(g, color, square_moves(g, color, fr, fc)[idx]),
{
    let sq = g[fr][fc];
    if sq.piece != Piece::Pawn && sq.piece != Piece::Empty {
        lemma_rays_sound(g, color, fr, fc, sq.piece.spec_directions().len() as int, idx);
    }
}

/// Every move generated from the first `n` squares of a row is pseudo-legal.
pub proof fn lemma_row_sound(g: Grid, color: Color, i: int, n: int, idx: int)
    requires
        0 <= i < 8,
        0 <= n <= 8,
        0 <= idx < row_moves(g, color, i, n).len(),
    ensures
        pseudo_legal(g, color, row_moves(g, color, i, n)[idx]),
    decreases n,
{
    let before = row_moves(g, color, i, n - 1);
    if idx < before.len() {
        lemma_row_sound(g, color, i, n - 1, idx);
    } else {
        lemma_square_sound(g, color, i, n - 1, idx - before.len());
    }
}

/// Every move generated from the first `n` rows is pseudo-legal.
pub proof fn lemma_rows_sound(g: Grid, color: Color, n: int, idx: int)
    requires
        0 <= n <= 8,
        0 <= idx < rows_moves(g, color, n).len(),
    ensures
        pseudo_legal(g, color, rows_moves(g, color, n)[idx]),
    decreases n,
{
    let before = rows_moves(g, color, n - 1);
    if idx < before.len() {
        lemma_rows_sound(g, color, n - 1, idx);
    } else {
        lemma_row_sound(g, color, n - 1, 8, idx - before.len());
    }
}

/// Ordering keeps the moves: what is in the ordered list was in the list.
pub proof fn lemma_ordered_subset(s: Seq<Move>, m: Move)
    requires
        ordered(s).contains(m),
    ensures
        s.contains(m),
{
    broadcast use Seq::lemma_filter_contains_rev;
    let i = choose|i: int| 0 <= i < ordered(s).len() && ordered(s)[i] == m;
    let a = captures_worth(s, 0);
    let b = captures_worth(s, 10);
    let c = captures_worth(s, 30);
    let d = captures_worth(s, 50);
    let e = captures_worth(s, 90);
    let f = captures_worth(s, 900);
    if i < a.len() {
        assert(a[i] == m);
        assert(a.contains(m));
    } else if i < a.len() + b.len() {
        assert(b[i - a.len()] == m);
        assert(b.contains(m));
    } else if i < a.len() + b.len() + c.len() {
        assert(c[i - a.len() - b.len()] == m);
        assert(c.contains(m));
    } else if i < a.len() + b.len() + c.len() + d.len() {
        assert(d[i - a.len() - b.len() - c.len()] == m);
        assert(d.contains(m));
    } else if i < a.len() + b.len() + c.len() + d.len() + e.len() {
        assert(e[i - a.len() - b.len() - c.len() - d.len()] == m);
        assert(e.contains(m));
    } else {
        assert(f[i - a.len() - b.len() - c.len() - d.len() - e.len()] == m);
        assert(f.contains(m));
    }
}

/// Soundness of the generator: every move it offers is pseudo-legal. In
/// particular a move starts on a square of the mover, never lands on a
/// square of the mover, and never passes over an occupied square.
pub proof fn lemma_valid_moves_sound(g: Grid, color: Color, idx: int)
    requires
        0 <= idx < valid_moves(g, color).len(),
    ensures
        pseudo_legal(g, color, valid_moves(g, color)[idx]),
{
    let m = valid_moves(g, color)[idx];
    assert(valid_moves(g, color).contains(m));
    lemma_ordered_subset(generated_moves(g, color), m);
    let k = choose|k: int| 0 <= k < generated_moves(g, color).len() && generated_moves(g, color)[k] == m;
    lemma_rows_sound(g, color, 8, k);
}

/// A move that the piece reaches along a direction is among those generated
/// along it: seen from the `s`-th square of the ray, with the squares up to
/// the target vacant.
pub proof fn lemma_ray_complete(
    g: Grid,
    color: Color,
    m: Move,
    dr: int,
    dc: int,
    s: int,
    n: int,
)
    requires
        in_board(m.from.row as int, m.from.col as int),
        in_board(m.to.row as int, m.to.col as int),
        dr != 0 || dc != 0,
        m.score == 0,
        0 <= s < n,
        s + 1 == n || m.piece.slides(),
        m.to.row == m.from.row + n * dr,
        m.to.col == m.from.col + n * dc,
        forall|t: int| s < t < n ==> #[trigger] passes(g, m.from.row as int, m.from.col as int, dr, dc, t),
        g[m.to.row as int][m.to.col as int].piece == Piece::Empty ==> m.captured is None,
        g[m.to.row as int][m.to.col as int].piece != Piece::Empty ==> !g[m.to.row as int][m.to.col as int].owned_by(
            color,
        ) && m.captured == Some(g[m.to.row as int][m.to.col as int].piece),
    ensures
        ray_moves(
            g,
            color,
            m.piece,
            m.from.row as int,
            m.from.col as int,
            dr,
            dc,
            m.from.row + s * dr,
            m.from.col + s * dc,
        ).contains(m),
    decreases n - s,
{
    let fr = m.from.row as int;
    let fc = m.from.col as int;
    let r = fr + s * dr;
    let c = fc + s * dc;
    let tr = r + dr;
    let tc = c + dc;
    assert((s + 1) * dr == s * dr + dr) by (nonlinear_arith);
    assert((s + 1) * dc == s * dc + dc) by (nonlinear_arith);
    let here = ray_moves(g, color, m.piece, fr, fc, dr, dc, r, c);
    if s + 1 == n {
        assert(tr == m.to.row && tc == m.to.col);
        assert(here[0] == m);
    } else {
        assert(passes(g, fr, fc, dr, dc, s + 1));
        lemma_ray_complete(g, color, m, dr, dc, s + 1, n);
        let rest = ray_moves(g, color, m.piece, fr, fc, dr, dc, tr, tc);
        let k = choose|k: int| 0 <= k < rest.len() && rest[k] == m;
        assert(here[k + 1] == m);
    }
}

/// What is generated along one of the first `n` directions is among the
/// moves generated along the first `n` directions.
pub proof fn lemma_rays_include(g: Grid, color: Color, piece: Piece, fr: int, fc: int, k: int, n: int, m: Move)
    requires
        0 <= k < n,
        ray_moves(
            g,
            color,
            piece,
            fr,
            fc,
            piece.spec_directions()[k].0 as int,
            piece.spec_directions()[k].1 as int,
            fr,
            fc,
        ).contains(m),
    ensures
        rays_moves(g, color, piece, fr, fc, n).contains(m),
    decreases n,
{
    let before = rays_moves(g, color, piece, fr, fc, n - 1);
    let d = piece.spec_directions()[n - 1];
    let last = ray_moves(g, color, piece, fr, fc, d.0 as int, d.1 as int, fr, fc);
    if k == n - 1 {
        let i = choose|i: int| 0 <= i < last.len() && last[i] == m;
        assert((before + last)[before.len() + i] == m);
    } else {
        lemma_rays_include(g, color, piece, fr, fc, k, n - 1, m);
        let i = choose|i: int| 0 <= i < before.len() && before[i] == m;
        assert((before + last)[i] == m);
    }
}

/// What is generated from one of the first `n` squares of a row is among the
/// moves generated from the first `n` squares.
pub proof fn lemma_row_includes(g: Grid, color: Color, i: int, j: int, n: int, m: Move)
    requires
        0 <= j < n,
        square_moves(g, color, i, j).contains(m),
    ensures
        row_moves(g, color, i, n).contains(m),
    decreases n,
{
    let before = row_moves(g, color, i, n - 1);
    let last = square_moves(g, color, i, n - 1);
    if j == n - 1 {
        let k = choose|k: int| 0 <= k < last.len() && last[k] == m;
        assert((before + last)[before.len() + k] == m);
    } else {
        lemma_row_includes(g, color, i, j, n - 1, m);
        let k = choose|k: int| 0 <= k < before.len() && before[k] == m;
        assert((before + last)[k] == m);
    }
}

/// What is generated from one of the first `n` rows is among the moves
/// generated from the first `n` rows.
pub proof fn lemma_rows_include(g: Grid, color: Color, i: int, n: int, m: Move)
    requires
        0 <= i < n,
        row_moves(g, color, i, 8).contains(m),
    ensures
        rows_moves(g, color, n).contains(m),
    decreases n,
{
    let before = rows_moves(g, color, n - 1);
    let last = row_moves(g, color, n - 1, 8);
    if i == n - 1 {
        let k = choose|k: int| 0 <= k < last.len() && last[k] == m;
        assert((before + last)[before.len() + k] == m);
    } else {
        lemma_rows_include(g, color, i, n - 1, m);
        let k = choose|k: int| 0 <= k < before.len() && before[k] == m;
        assert((before + last)[k] == m);
    }
}

/// Ordering keeps the moves: what was in the list is in the ordered list.
pub proof fn lemma_ordered_superset(s: Seq<Move>, m: Move)
    requires
        s.contains(m),
    ensures
        ordered(s).contains(m),
{
    broadcast use Seq::lemma_filter_contains;

    let i = choose|i: int| 0 <= i < s.len() && s[i] == m;
    let v = capture_value(m);
    assert(worth_is(v)(s[i]));
    let part = captures_worth(s, v);
    assert(part.contains(m));
    let k = choose|k: int| 0 <= k < part.len() && part[k] == m;
    let a = captures_worth(s, 0);
    let b = captures_worth(s, 10);
    let c = captures_worth(s, 30);
    let d = captures_worth(s, 50);
    let e = captures_worth(s, 90);
    if v == 0 {
        assert(ordered(s)[k] == m);
    } else if v == 10 {
        assert(ordered(s)[a.len() + k] == m);
    } else if v == 30 {
        assert(ordered(s)[a.len() + b.len() + k] == m);
    } else if v == 50 {
        assert(ordered(s)[a.len() + b.len() + c.len() + k] == m);
    } else if v == 90 {
        assert(ordered(s)[a.len() + b.len() + c.len() + d.len() + k] == m);
    } else {
        assert(v == 900);
        assert(ordered(s)[a.len() + b.len() + c.len() + d.len() + e.len() + k] == m);
    }
}

/// The moves of `s` as a multiset, gathered value by value.
pub open spec fn gathered(s: Seq<Move>) -> vstd::multiset::Multiset<Move> {
    captures_worth(s, 0).to_multiset().add(captures_worth(s, 10).to_multiset()).add(
        captures_worth(s, 30).to_multiset(),
    ).add(captures_worth(s, 50).to_multiset()).add(captures_worth(s, 90).to_multiset()).add(
        captures_worth(s, 900).to_multiset(),
    )
}

/// Gathering the moves value by value loses none and adds none.
pub proof fn lemma_gathered_all(s: Seq<Move>)
    ensures
        gathered(s) == s.to_multiset(),
    decreases s.len(),
{
    broadcast use vstd::multiset::group_multiset_axioms;
    broadcast use vstd::seq_lib::to_multiset_build;

    reveal(Seq::filter);
    if s.len() == 0 {
        let none = vstd::multiset::Multiset::<Move>::empty();
        s.to_multiset_ensures();
        assert(s.to_multiset() =~= none);
        assert(captures_worth(s, 0) == s && captures_worth(s, 10) == s && captures_worth(s, 30) == s);
        assert(captures_worth(s, 50) == s && captures_worth(s, 90) == s && captures_worth(s, 900) == s);
        assert(gathered(s) =~= none);
    } else {
        let t = s.drop_last();
        let m = s.last();
        lemma_gathered_all(t);
        assert(s =~= t.push(m));
        assert(capture_value(m) == 0 || capture_value(m) == 10 || capture_value(m) == 30 || capture_value(m) == 50
            || capture_value(m) == 90 || capture_value(m) == 900);
        assert(gathered(s) =~= gathered(t).insert(m));
        assert(s.to_multiset() =~= t.to_multiset().insert(m));
    }
}

/// Ordering is a rearrangement: the ordered list holds every move as often
/// as the list does.
pub proof fn lemma_ordered_permutation(s: Seq<Move>)
    ensures
        ordered(s).to_multiset() == s.to_multiset(),
{
    broadcast use vstd::seq_lib::lemma_multiset_commutative;

    lemma_gathered_all(s);
    assert(ordered(s).to_multiset() =~= gathered(s));
}

/// Completeness of the generator: every pseudo-legal move is offered.
pub proof fn lemma_valid_moves_complete(g: Grid, color: Color, m: Move)
    requires
        pseudo_legal(g, color, m),
    ensures
        valid_moves(g, color).contains(m),
{
    let fr = m.from.row as int;
    let fc = m.from.col as int;
    let tr = m.to.row as int;
    let tc = m.to.col as int;
    let from_square = square_moves(g, color, fr, fc);
    if m.piece == Piece::Pawn {
        assert(pawn_moves(g, color, fr, fc)[0] == m);
    } else {
        let (k, n) = choose|k: int, n: int|
            0 <= k < m.piece.spec_directions().len() && #[trigger] ray_reaches(
                g,
                m.piece,
                fr,
                fc,
                m.piece.spec_directions()[k].0 as int,
                m.piece.spec_directions()[k].1 as int,
                n,
                tr,
                tc,
            );
        let dr = m.piece.spec_directions()[k].0 as int;
        let dc = m.piece.spec_directions()[k].1 as int;
        lemma_direction_shape(m.piece, k);
        assert(0 * dr == 0 && 0 * dc == 0);
        lemma_ray_complete(g, color, m, dr, dc, 0, n);
        lemma_rays_include(g, color, m.piece, fr, fc, k, m.piece.spec_directions().len() as int, m);
    }
    assert(from_square.contains(m));
    lemma_row_includes(g, color, fr, fc, 8, m);
    lemma_rows_include(g, color, fr, 8, m);
    lemma_ordered_superset(generated_moves(g, color), m);
}

/// The ordered list is in ascending order of captured value.
pub proof fn lemma_ordered_ascending(s: Seq<Move>, i: int, j: int)
    requires
        0 <= i <= j < ordered(s).len(),
    ensures
        capture_value(ordered(s)[i]) <= capture_value(ordered(s)[j]),
{
    lemma_ordered_value(s, i);
    lemma_ordered_value(s, j);
}

/// The length of `part` if `counted`, zero otherwise.
pub open spec fn count_if(counted: bool, part: Seq<Move>) -> int {
    if counted {
        part.len() as int
    } else {
        0
    }
}

/// The number of moves of `s` that capture material worth less than `v`.
pub open spec fn count_below(s: Seq<Move>, v: int) -> int {
    count_if(v > 0, captures_worth(s, 0)) + count_if(v > 10, captures_worth(s, 10)) + count_if(
        v > 30,
        captures_worth(s, 30),
    ) + count_if(v > 50, captures_worth(s, 50)) + count_if(v > 90, captures_worth(s, 90))
}

/// In the ordered list a move stands behind exactly the moves that capture
/// less, and among those that capture as much.
pub proof fn lemma_ordered_value(s: Seq<Move>, i: int)
    requires
        0 <= i < ordered(s).len(),
    ensures
        count_below(s, capture_value(ordered(s)[i])) <= i < count_below(s, capture_value(ordered(s)[i]))
            + captures_worth(s, capture_value(ordered(s)[i])).len(),
        capture_value(ordered(s)[i]) == 0 || capture_value(ordered(s)[i]) == 10 || capture_value(ordered(s)[i]) == 30
            || capture_value(ordered(s)[i]) == 50 || capture_value(ordered(s)[i]) == 90 || capture_value(
            ordered(s)[i],
        ) == 900,
{
    broadcast use Seq::lemma_filter_pred;

    let a = captures_worth(s, 0);
    let b = captures_worth(s, 10);
    let c = captures_worth(s, 30);
    let d = captures_worth(s, 50);
    let e = captures_worth(s, 90);
    let f = captures_worth(s, 900);
    if i < a.len() {
        assert(worth_is(0)(a[i]));
    } else if i < a.len() + b.len() {
        assert(worth_is(10)(b[i - a.len()]));
    } else if i < a.len() + b.len() + c.len() {
        assert(worth_is(30)(c[i - a.len() - b.len()]));
    } else if i < a.len() + b.len() + c.len() + d.len() {
        assert(worth_is(50)(d[i - a.len() - b.len() - c.len()]));
    } else if i < a.len() + b.len() + c.len() + d.len() + e.len() {
        assert(worth_is(90)(e[i - a.len() - b.len() - c.len() - d.len()]));
    } else {
        assert(worth_is(900)(f[i - a.len() - b.len() - c.len() - d.len() - e.len()]));
    }
}

/// Along one direction a piece has at most as many moves as squares are left.
pub proof fn lemma_ray_len(g: Grid, color: Color, piece: Piece, fr: int, fc: int, dr: int, dc: int, r: int, c: int)
    requires
        0 <= r < 8,
        0 <= c < 8,
    ensures
        ray_moves(g, color, piece, fr, fc, dr, dc, r, c).len() <= 8,
        ray_moves(g, color, piece, fr, fc, dr, dc, r, c).len() <= ray_room(dr, dc, r, c),
    decreases ray_room(dr, dc, r, c),
{
    let tr = r + dr;
    let tc = c + dc;
    if (dr == 0 && dc == 0) || !(0 <= tr < 8 && 0 <= tc < 8) {
    } else if g[tr][tc].piece == Piece::Empty && piece.slides() {
        lemma_ray_len(g, color, piece, fr, fc, dr, dc, tr, tc);
    }
}

/// Along its first `n` directions a piece has at most `8 * n` moves.
pub proof fn lemma_rays_len(g: Grid, color: Color, piece: Piece, fr: int, fc: int, n: int)
    requires
        0 <= fr < 8,
        0 <= fc < 8,
        0 <= n <= piece.spec_directions().len(),
    ensures
        rays_moves(g, color, piece, fr, fc, n).len() <= 8 * n,
    decreases n,
{
    if n > 0 {
        lemma_rays_len(g, color, piece, fr, fc, n - 1);
        let d = piece.spec_directions()[n - 1];
        lemma_ray_len(g, color, piece, fr, fc, d.0 as int, d.1 as int, fr, fc);
    }
}

/// At most 64 moves start on one square.
pub proof fn lemma_square_moves_len(g: Grid, color: Color, fr: int, fc: int)
    requires
        0 <= fr < 8,
        0 <= fc < 8,
    ensures
        square_moves(g, color, fr, fc).len() <= 64,
{
    let piece = g[fr][fc].piece;
    if piece.spec_directions().len() > 0 {
        lemma_direction_shape(piece, 0);
    }
    lemma_rays_len(g, color, piece, fr, fc, piece.spec_directions().len() as int);
}

/// At most `64 * n` moves start on the first `n` squares of a row.
pub proof fn lemma_row_moves_len(g: Grid, color: Color, i: int, n: int)
    requires
        0 <= i < 8,
        0 <= n <= 8,
    ensures
        row_moves(g, color, i, n).len() <= 64 * n,
    decreases n,
{
    if n > 0 {
        lemma_row_moves_len(g, color, i, n - 1);
        lemma_square_moves_len(g, color, i, n - 1);
    }
}

/// At most `512 * n` moves start on the first `n` rows.
pub proof fn lemma_rows_moves_len(g: Grid, color: Color, n: int)
    requires
        0 <= n <= 8,
    ensures
        rows_moves(g, color, n).len() <= 512 * n,
    decreases n,
{
    if n > 0 {
        lemma_rows_moves_len(g, color, n - 1);
        lemma_row_moves_len(g, color, n - 1, 8);
    }
}

/// Ordering moves by captured value neither drops nor adds a move.
pub proof fn lemma_ordered_len(s: Seq<Move>)
    ensures
        ordered(s).len() == s.len(),
    decreases s.len(),
{
    reveal(Seq::filter);
    if s.len() > 0 {
        lemma_ordered_len(s.drop_last());
        let m = s.last();
        assert(capture_value(m) == 0 || capture_value(m) == 10 || capture_value(m) == 30 || capture_value(m) == 50
            || capture_value(m) == 90 || capture_value(m) == 900);
    }
}

/// A side never has more than 4096 pseudo-legal moves.
pub proof fn lemma_valid_moves_len(g: Grid, color: Color)
    ensures
        valid_moves(g, color).len() == generated_moves(g, color).len(),
        valid_moves(g, color).len() <= 4096,
{
    lemma_ordered_len(generated_moves(g, color));
    lemma_rows_moves_len(g, color, 8);
}

/// Two different directions of a piece never lead to the same square: not
/// by one step each, and for a sliding piece not by any number of steps.
pub proof fn lemma_directions_part(piece: Piece, k1: int, k2: int, n1: int, n2: int)
    requires
        0 <= k1 < piece.spec_directions().len(),
        0 <= k2 < piece.spec_directions().len(),
        k1 != k2,
        n1 >= 1,
        n2 >= 1,
        piece.slides() || (n1 == 1 && n2 == 1),
    ensures
        n1 * piece.spec_directions()[k1].0 != n2 * piece.spec_directions()[k2].0 || n1 * piece.spec_directions()[k1].1
            != n2 * piece.spec_directions()[k2].1,
{
    let d1 = piece.spec_directions()[k1];
    let d2 = piece.spec_directions()[k2];
    assert(-1 <= d1.0 <= 1 && -1 <= d1.1 <= 1 && -1 <= d2.0 <= 1 && -1 <= d2.1 <= 1 || !piece.slides());
    if piece.slides() {
        lemma_signed_steps(n1, d1.0 as int);
        lemma_signed_steps(n1, d1.1 as int);
        lemma_signed_steps(n2, d2.0 as int);
        lemma_signed_steps(n2, d2.1 as int);
    }
}

/// A positive number of unit steps keeps the sign of the step.
pub proof fn lemma_signed_steps(n: int, d: int)
    by (nonlinear_arith)
    requires
        n >= 1,
        -1 <= d <= 1,
    ensures
        d == 0 ==> n * d == 0,
        d == 1 ==> n * d == n,
        d == -1 ==> n * d == -n,
{
}

/// Different numbers of steps in a direction lead to different squares.
pub proof fn lemma_steps_part(i: int, j: int, dr: int, dc: int)
    by (nonlinear_arith)
    requires
        i != j,
        dr != 0 || dc != 0,
    ensures
        i * dr != j * dr || i * dc != j * dc,
{
}

/// The `idx`-th move generated along a direction from (`r`, `c`) on lands
/// `idx + 1` steps beyond (`r`, `c`), and only a sliding piece has more than
/// the first.
pub proof fn lemma_ray_steps(
    g: Grid,
    color: Color,
    piece: Piece,
    fr: int,
    fc: int,
    dr: int,
    dc: int,
    r: int,
    c: int,
    idx: int,
)
    requires
        0 <= idx < ray_moves(g, color, piece, fr, fc, dr, dc, r, c).len(),
    ensures
        ray_moves(g, color, piece, fr, fc, dr, dc, r, c)[idx].from == (Position {
            row: fr as usize,
            col: fc as usize,
        }),
        ray_moves(g, color, piece, fr, fc, dr, dc, r, c)[idx].to.row == r + (idx + 1) * dr,
        ray_moves(g, color, piece, fr, fc, dr, dc, r, c)[idx].to.col == c + (idx + 1) * dc,
        idx == 0 || piece.slides(),
    decreases ray_room(dr, dc, r, c),
{
    let tr = r + dr;
    let tc = c + dc;
    assert((idx + 1) * dr == idx * dr + dr) by (nonlinear_arith);
    assert((idx + 1) * dc == idx * dc + dc) by (nonlinear_arith);
    assert(1 * dr == dr && 1 * dc == dc);
    if (dr == 0 && dc == 0) || !in_board(tr, tc) {
    } else if g[tr][tc].piece == Piece::Empty {
        if idx > 0 {
            lemma_ray_steps(g, color, piece, fr, fc, dr, dc, tr, tc, idx - 1);
        }
    }
}

/// No move is generated twice along a direction.
pub proof fn lemma_ray_distinct(g: Grid, color: Color, piece: Piece, fr: int, fc: int, dr: int, dc: int)
    ensures
        ray_moves(g, color, piece, fr, fc, dr, dc, fr, fc).no_duplicates(),
{
    let ray = ray_moves(g, color, piece, fr, fc, dr, dc, fr, fc);
    assert forall|i: int, j: int| 0 <= i < ray.len() && 0 <= j < ray.len() && i != j implies ray[i] != ray[j] by {
        lemma_ray_steps(g, color, piece, fr, fc, dr, dc, fr, fc, i);
        lemma_ray_steps(g, color, piece, fr, fc, dr, dc, fr, fc, j);
        if dr != 0 || dc != 0 {
            lemma_steps_part(i + 1, j + 1, dr, dc);
        }
    }
}

/// Every move generated along the first `n` directions of a piece starts on
/// the piece's square and lands some steps along one of those directions.
pub proof fn lemma_rays_steps(g: Grid, color: Color, piece: Piece, fr: int, fc: int, n: int, idx: int) -> (at: (
    int,
    int,
))
    requires
        0 <= n <= piece.spec_directions().len(),
        0 <= idx < rays_moves(g, color, piece, fr, fc, n).len(),
    ensures
        0 <= at.0 < n,
        at.1 >= 1,
        at.1 == 1 || piece.slides(),
        rays_moves(g, color, piece, fr, fc, n)[idx].from == (Position { row: fr as usize, col: fc as usize }),
        rays_moves(g, color, piece, fr, fc, n)[idx].to.row == fr + at.1 * piece.spec_directions()[at.0].0,
        rays_moves(g, color, piece, fr, fc, n)[idx].to.col == fc + at.1 * piece.spec_directions()[at.0].1,
    decreases n,
{
    let before = rays_moves(g, color, piece, fr, fc, n - 1);
    if idx < before.len() {
        lemma_rays_steps(g, color, piece, fr, fc, n - 1, idx)
    } else {
        let d = piece.spec_directions()[n - 1];
        lemma_ray_steps(g, color, piece, fr, fc, d.0 as int, d.1 as int, fr, fc, idx - before.len());
        (n - 1, idx - before.len() + 1)
    }
}

/// No move is generated twice for one piece.
pub proof fn lemma_rays_distinct(g: Grid, color: Color, piece: Piece, fr: int, fc: int, n: int)
    requires
        0 <= n <= piece.spec_directions().len(),
    ensures
        rays_moves(g, color, piece, fr, fc, n).no_duplicates(),
    decreases n,
{
    if n > 0 {
        let before = rays_moves(g, color, piece, fr, fc, n - 1);
        let d = piece.spec_directions()[n - 1];
        let last = ray_moves(g, color, piece, fr, fc, d.0 as int, d.1 as int, fr, fc);
        lemma_rays_distinct(g, color, piece, fr, fc, n - 1);
        lemma_ray_distinct(g, color, piece, fr, fc, d.0 as int, d.1 as int);
        assert forall|i: int, j: int| 0 <= i < before.len() && 0 <= j < last.len() implies before[i] != last[j] by {
            let at = lemma_rays_steps(g, color, piece, fr, fc, n - 1, i);
            lemma_ray_steps(g, color, piece, fr, fc, d.0 as int, d.1 as int, fr, fc, j);
            lemma_directions_part(piece, at.0, n - 1, at.1, j + 1);
        }
        vstd::seq_lib::lemma_no_dup_in_concat(before, last);
    }
}

/// The moves generated from a square start on that square, and none of
/// them is generated twice.
pub proof fn lemma_square_distinct(g: Grid, color: Color, fr: int, fc: int)
    ensures
        square_moves(g, color, fr, fc).no_duplicates(),
        forall|k: int|
            0 <= k < square_moves(g, color, fr, fc).len() ==> (#[trigger] square_moves(g, color, fr, fc)[k]).from == (
            Position { row: fr as usize, col: fc as usize }),
{
    let piece = g[fr][fc].piece;
    let all = piece.spec_directions().len() as int;
    lemma_rays_distinct(g, color, piece, fr, fc, all);
    assert forall|k: int| 0 <= k < square_moves(g, color, fr, fc).len() implies (#[trigger] square_moves(
        g,
        color,
        fr,
        fc,
    )[k]).from == (Position { row: fr as usize, col: fc as usize }) by {
        if piece != Piece::Pawn {
            let at = lemma_rays_steps(g, color, piece, fr, fc, all, k);
        }
    }
}

/// The moves generated from the first `n` squares of row `i` start on those
/// squares, and none of them is generated twice.
pub proof fn lemma_row_distinct(g: Grid, color: Color, i: int, n: int)
    requires
        0 <= i < 8,
        0 <= n <= 8,
    ensures
        row_moves(g, color, i, n).no_duplicates(),
        forall|k: int|
            0 <= k < row_moves(g, color, i, n).len() ==> (#[trigger] row_moves(g, color, i, n)[k]).from.row == i
                && row_moves(g, color, i, n)[k].from.col < n,
    decreases n,
{
    if n > 0 {
        let before = row_moves(g, color, i, n - 1);
        let last = square_moves(g, color, i, n - 1);
        lemma_row_distinct(g, color, i, n - 1);
        lemma_square_distinct(g, color, i, n - 1);
        assert forall|a: int, b: int| 0 <= a < before.len() && 0 <= b < last.len() implies before[a] != last[b] by {
            assert(before[a].from.col < n - 1);
            assert(last[b].from.col == n - 1);
        }
        vstd::seq_lib::lemma_no_dup_in_concat(before, last);
        assert forall|k: int| 0 <= k < row_moves(g, color, i, n).len() implies (#[trigger] row_moves(
            g,
            color,
            i,
            n,
        )[k]).from.row == i && row_moves(g, color, i, n)[k].from.col < n by {
            if k < before.len() {
                assert(before[k].from.col < n - 1);
            } else {
                assert(last[k - before.len()].from.col == n - 1);
            }
        }
    }
}

/// The moves generated from the first `n` rows start on those rows, and
/// none of them is generated twice.
pub proof fn lemma_rows_distinct(g: Grid, color: Color, n: int)
    requires
        0 <= n <= 8,
    ensures
        rows_moves(g, color, n).no_duplicates(),
        forall|k: int| 0 <= k < rows_moves(g, color, n).len() ==> (#[trigger] rows_moves(g, color, n)[k]).from.row < n,
    decreases n,
{
    if n > 0 {
        let before = rows_moves(g, color, n - 1);
        let last = row_moves(g, color, n - 1, 8);
        lemma_rows_distinct(g, color, n - 1);
        lemma_row_distinct(g, color, n - 1, 8);
        assert forall|a: int, b: int| 0 <= a < before.len() && 0 <= b < last.len() implies before[a] != last[b] by {
            assert(before[a].from.row < n - 1);
            assert(last[b].from.row == n - 1);
        }
        vstd::seq_lib::lemma_no_dup_in_concat(before, last);
        assert forall|k: int| 0 <= k < rows_moves(g, color, n).len() implies (#[trigger] rows_moves(
            g,
            color,
            n,
        )[k]).from.row < n by {
            if k < before.len() {
                assert(before[k].from.row < n - 1);
            } else {
                assert(last[k - before.len()].from.row == n - 1);
            }
        }
    }
}

/// The generator offers no move twice.
pub proof fn lemma_valid_moves_distinct(g: Grid, color: Color)
    ensures
        valid_moves(g, color).no_duplicates(),
{
    let raw = generated_moves(g, color);
    lemma_rows_distinct(g, color, 8);
    raw.lemma_multiset_has_no_duplicates();
    lemma_ordered_permutation(raw);
    ordered(raw).lemma_multiset_has_no_duplicates_conv();
}

} // verus!

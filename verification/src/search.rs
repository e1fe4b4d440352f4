//! The search: quiescence search at the horizon, depth-limited alpha-beta
//! above it, and iterative deepening with a tie-break on top.
//!
//! Quiescence search looks at the noisy moves of the side to move, as the
//! board's turn says. The main search takes the mover of a ply from its
//! `maximizing` flag: Black where the score is maximised.

use crate::board::{in_check, Board, BoardView};
use crate::eval::{evaluation, lemma_evaluation_range};
use crate::fingerprint::fingerprint;
use crate::game::lemma_best_move_exists;
use crate::grid::{
    grid_after, grid_wf, lemma_grid_after_count, lemma_grid_after_wf, lemma_rows_count_nonnegative, piece_count, Grid,
};
use crate::legality::{lemma_valid_moves_sound, pseudo_legal};
use crate::movegen::valid_moves;
use crate::pruning::{
    clamp, cuts_off, lemma_alpha_beta_is_minimax, lemma_one_ply_range, lemma_quiesce_clamps,
    lemma_quiesce_from_empty_window, lemma_quiescence_at_least_stand_pat, lemma_quiescence_covers,
    lemma_search_within_bounds, within_bounds,
};
use crate::table::{TranspositionTable, MAX_ENTRIES};
use crate::{Color, Move, Position};
use vstd::prelude::*;

verus! {

/// Whether quiescence search looks at the move: it captures, or the side
/// that owns the target square is in check.
pub open spec fn is_noisy(g: Grid, m: Move) -> bool {
    m.captured is Some || match g[m.to.row as int][m.to.col as int].color {
        Some(c) => in_check(g, c),
        None => false,
    }
}

/// The test "quiescence search looks at the move".
pub open spec fn noisy(g: Grid) -> spec_fn(Move) -> bool {
    |m: Move| is_noisy(g, m)
}

/// The moves that quiescence search tries: the noisy moves of the side to
/// move, in the order of generation.
pub open spec fn noisy_moves(b: BoardView) -> Seq<Move> {
    valid_moves(b.squares, b.turn).filter(noisy(b.squares))
}

/// On a well-formed board every move that quiescence search looks at takes
/// a piece off the board and leaves the board well formed.
pub proof fn lemma_noisy_move_shrinks(b: BoardView, k: int)
    requires
        grid_wf(b.squares),
        0 <= k < noisy_moves(b).len(),
    ensures
        noisy_moves(b)[k].from.on_board(),
        noisy_moves(b)[k].to.on_board(),
        noisy_moves(b)[k].captured is Some,
        valid_moves(b.squares, b.turn).contains(noisy_moves(b)[k]),
        grid_wf(b.played(noisy_moves(b)[k]).squares),
        piece_count(b.played(noisy_moves(b)[k]).squares) == piece_count(b.squares) - 1,
        piece_count(b.squares) >= 1,
{
    broadcast use Seq::lemma_filter_contains_rev;
    broadcast use Seq::lemma_filter_pred;

    let g = b.squares;
    let all = valid_moves(g, b.turn);
    let m = noisy_moves(b)[k];
    assert(noisy(g)(m));
    assert(noisy_moves(b).contains(m));
    assert(all.contains(m));
    let idx = choose|idx: int| 0 <= idx < all.len() && all[idx] == m;
    lemma_valid_moves_sound(g, b.turn, idx);
    assert(pseudo_legal(g, b.turn, m));
    assert(g[m.to.row as int][m.to.col as int].wf());
    assert(g[m.from.row as int][m.from.col as int].wf());
    lemma_grid_after_count(g, m.from, m.to);
    lemma_grid_after_wf(g, m.from, m.to);
    lemma_rows_count_nonnegative(grid_after(g, m.from, m.to), 8);
}

/// The result of quiescence search on `b` with the window (`alpha`, `beta`).
///
/// The static evaluation is returned as `beta` if it reaches `beta`, and
/// otherwise raises `alpha`; then the noisy moves are tried in order.
pub open spec fn quiesce(b: BoardView, alpha: int, beta: int) -> int
    decreases piece_count(b.squares), 1int, 0int,
    when grid_wf(b.squares)
{
    let stand_pat = evaluation(b.squares);
    if stand_pat >= beta {
        beta
    } else {
        quiesce_from(b, 0, if alpha < stand_pat { stand_pat } else { alpha }, beta)
    }
}

/// The result of quiescence search once the first `k` noisy moves have been
/// tried and have raised the lower bound to `alpha`.
///
/// Each move is scored by the negated search of the position it leads to,
/// with the negated window swapped. A score that reaches `beta` ends the
/// search with `beta`; a score above `alpha` raises `alpha`.
pub open spec fn quiesce_from(b: BoardView, k: int, alpha: int, beta: int) -> int
    decreases piece_count(b.squares), 0int, noisy_moves(b).len() - k,
    when grid_wf(b.squares)
{
    if k < 0 || k >= noisy_moves(b).len() {
        alpha
    } else {
        proof {
            lemma_noisy_move_shrinks(b, k);
        }
        let score = -quiesce(b.played(noisy_moves(b)[k]), -beta, -alpha);
        if score >= beta {
            beta
        } else {
            quiesce_from(b, k + 1, if score > alpha { score } else { alpha }, beta)
        }
    }
}

/// Whether the side to move has no capture.
pub open spec fn is_quiet(b: BoardView) -> bool {
    forall|k: int|
        0 <= k < valid_moves(b.squares, b.turn).len() ==> (#[trigger] valid_moves(b.squares, b.turn)[k]).captured
            is None
}

/// A quiet position is scored by its static evaluation: quiescence search
/// returns `beta` if the evaluation reaches it, and otherwise the
/// evaluation raised to `alpha`.
pub proof fn lemma_quiet_position(b: BoardView, alpha: int, beta: int)
    requires
        grid_wf(b.squares),
        is_quiet(b),
    ensures
        noisy_moves(b).len() == 0,
        quiescence_value(b) == evaluation(b.squares),
        quiesce(b, alpha, beta) == (if evaluation(b.squares) >= beta {
            beta
        } else {
            larger(alpha, evaluation(b.squares))
        }),
{
    if noisy_moves(b).len() > 0 {
        lemma_noisy_move_shrinks(b, 0);
        let m = noisy_moves(b)[0];
        let all = valid_moves(b.squares, b.turn);
        let k = choose|k: int| 0 <= k < all.len() && all[k] == m;
        assert(all[k].captured is None);
    }
}

/// The side that moves at a ply of the search: Black where the score is
/// maximised, White where it is minimised.
pub open spec fn mover(maximizing: bool) -> Color {
    if maximizing {
        Color::Black
    } else {
        Color::White
    }
}

/// The score a ply starts from before any move has been tried: the lowest
/// where the score is maximised, the highest where it is minimised.
pub open spec fn worst_score(maximizing: bool) -> int {
    if maximizing {
        i32::MIN as int
    } else {
        i32::MAX as int
    }
}

/// The larger of two scores.
pub open spec fn larger(a: int, b: int) -> int {
    if a >= b {
        a
    } else {
        b
    }
}

/// The smaller of two scores.
pub open spec fn smaller(a: int, b: int) -> int {
    if a <= b {
        a
    } else {
        b
    }
}

/// The result of the alpha-beta search of `b` to `depth` plies with the
/// window (`alpha`, `beta`). At depth zero it is the quiescence search.
pub open spec fn search_value(b: BoardView, depth: nat, maximizing: bool, alpha: int, beta: int) -> int
    decreases depth, 1int, 0int,
{
    if depth == 0 {
        quiesce(b, alpha, beta)
    } else {
        search_from(b, depth, maximizing, 0, alpha, beta, worst_score(maximizing))
    }
}

/// The result of the alpha-beta search once the first `k` moves have been
/// tried, have narrowed the window to (`alpha`, `beta`) and have given
/// `best` as the best score so far.
///
/// A maximising ply takes the larger score and raises `alpha`; a minimising
/// ply takes the smaller one and lowers `beta`; the ply ends as soon as the
/// window is empty.
pub open spec fn search_from(
    b: BoardView,
    depth: nat,
    maximizing: bool,
    k: int,
    alpha: int,
    beta: int,
    best: int,
) -> int
    decreases depth, 0int, valid_moves(b.squares, mover(maximizing)).len() - k,
{
    let moves = valid_moves(b.squares, mover(maximizing));
    if depth == 0 || k < 0 || k >= moves.len() {
        best
    } else {
        let eval = search_value(b.played(moves[k]), (depth - 1) as nat, !maximizing, alpha, beta);
        if maximizing {
            if beta <= larger(alpha, eval) {
                larger(best, eval)
            } else {
                search_from(b, depth, maximizing, k + 1, larger(alpha, eval), beta, larger(best, eval))
            }
        } else {
            if smaller(beta, eval) <= alpha {
                smaller(best, eval)
            } else {
                search_from(b, depth, maximizing, k + 1, alpha, smaller(beta, eval), smaller(best, eval))
            }
        }
    }
}

/// The quiescence value of a position: the best, for the side to move in
/// the negamax sense, of standing pat on the static evaluation and of every
/// noisy move followed by the negated quiescence value of what it leads to.
pub open spec fn quiescence_value(b: BoardView) -> int
    decreases piece_count(b.squares), 1int, 0int,
    when grid_wf(b.squares)
{
    quiescence_from(b, 0)
}

/// The best of standing pat and of the noisy moves from the `k`-th on.
pub open spec fn quiescence_from(b: BoardView, k: int) -> int
    decreases piece_count(b.squares), 0int, noisy_moves(b).len() - k,
    when grid_wf(b.squares)
{
    if k < 0 || k >= noisy_moves(b).len() {
        evaluation(b.squares)
    } else {
        proof {
            lemma_noisy_move_shrinks(b, k);
        }
        larger(-quiescence_value(b.played(noisy_moves(b)[k])), quiescence_from(b, k + 1))
    }
}

/// The full minimax value of `b` searched to `depth` plies: no window, no
/// pruning. At depth zero it is the quiescence value.
pub open spec fn minimax_value(b: BoardView, depth: nat, maximizing: bool) -> int
    decreases depth, 1int, 0int,
{
    if depth == 0 {
        quiescence_value(b)
    } else {
        minimax_from(b, depth, maximizing, 0)
    }
}

/// The best full minimax value among the moves from the `k`-th on; the
/// worst score if there is none.
pub open spec fn minimax_from(b: BoardView, depth: nat, maximizing: bool, k: int) -> int
    decreases depth, 0int, valid_moves(b.squares, mover(maximizing)).len() - k,
{
    let moves = valid_moves(b.squares, mover(maximizing));
    if depth == 0 || k < 0 || k >= moves.len() {
        worst_score(maximizing)
    } else {
        let value = minimax_value(b.played(moves[k]), (depth - 1) as nat, !maximizing);
        let rest = minimax_from(b, depth, maximizing, k + 1);
        if maximizing {
            larger(value, rest)
        } else {
            smaller(value, rest)
        }
    }
}

/// The deepest search that move selection runs.
pub const MAX_DEPTH: usize = 4;

/// Whether the square is one of the four in the middle of the board.
pub open spec fn in_center(p: Position) -> bool {
    (p.row == 3 || p.row == 4) && (p.col == 3 || p.col == 4)
}

/// The number of pseudo-legal moves that the side to move has after `m`.
pub open spec fn mobility_after(b: BoardView, m: Move) -> nat {
    valid_moves(b.played(m).squares, b.played(m).turn).len()
}

/// The tie-break between two moves of equal score: whether `m1` is to be
/// preferred to `m2`. A move to the centre beats one that is not; otherwise
/// the move after which the side to move has strictly more moves wins.
pub open spec fn prefers(b: BoardView, m1: Move, m2: Move) -> bool {
    if in_center(m1.to) && !in_center(m2.to) {
        true
    } else if !in_center(m1.to) && in_center(m2.to) {
        false
    } else {
        mobility_after(b, m1) > mobility_after(b, m2)
    }
}

/// What move selection holds at any moment: the best score so far and the
/// move that gave it.
pub struct Choice {
    pub score: int,
    pub held: Option<Move>,
}

/// Whether `score` is strictly better for `color` than `best`: higher for
/// Black, lower for White.
pub open spec fn improves(color: Color, score: int, best: int) -> bool {
    (color == Color::Black && score > best) || (color == Color::White && score < best)
}

/// The choice after the candidate `mv` has been searched to `depth` plies.
///
/// A strictly better score takes over. On an equal score the candidate takes
/// over if the tie-break prefers it to the move held. (It would also take
/// over if no move were held; but the first move considered always improves
/// on the worst score, so one is.)
pub open spec fn consider(b: BoardView, depth: nat, mv: Move, state: Choice) -> Choice {
    let score = minimax_value(b.played(mv), depth, b.turn == Color::White);
    if improves(b.turn, score, state.score) {
        Choice { score, held: Some(mv) }
    } else if score == state.score {
        match state.held {
            Some(held) => if prefers(b, mv, held) {
                Choice { score: state.score, held: Some(mv) }
            } else {
                state
            },
            None => Choice { score: state.score, held: Some(mv) },
        }
    } else {
        state
    }
}

/// The choice after the first `k` moves have been considered at `depth`,
/// starting from `state`.
pub open spec fn choice_within(b: BoardView, depth: nat, k: int, state: Choice) -> Choice
    decreases k,
{
    if k <= 0 {
        state
    } else {
        consider(b, depth, valid_moves(b.squares, b.turn)[k - 1], choice_within(b, depth, k - 1, state))
    }
}

/// The choice after all moves have been considered at every depth from 1 to
/// `depth`. It starts from the worst score for the side to move and no move.
pub open spec fn choice_upto(b: BoardView, depth: nat) -> Choice
    decreases depth,
{
    if depth == 0 {
        Choice { score: worst_score(b.turn == Color::Black), held: None }
    } else {
        choice_within(b, depth, valid_moves(b.squares, b.turn).len() as int, choice_upto(b, (depth - 1) as nat))
    }
}

/// The move that iterative deepening selects for the side to move.
pub open spec fn best_move(b: BoardView) -> Option<Move> {
    choice_upto(b, MAX_DEPTH as nat).held
}

impl Board {
    /// Whether the square is one of the four in the middle of the board.
    pub fn controls_center(p: &Position) -> (center: bool)
        ensures
            center == in_center(*p),
    {
        (p.row == 3 || p.row == 4) && (p.col == 3 || p.col == 4)
    }

    /// The tie-break between two moves of equal score: whether `mv1` is to
    /// be preferred to `mv2`.
    pub fn more_criteria(&self, mv1: &Move, mv2: &Move) -> (preferred: bool)
        requires
            mv1.from.on_board(),
            mv1.to.on_board(),
            mv2.from.on_board(),
            mv2.to.on_board(),
        ensures
            preferred == prefers(self@, *mv1, *mv2),
    {
        let mv1_controls_center = Board::controls_center(&mv1.to);
        let mv2_controls_center = Board::controls_center(&mv2.to);

        if mv1_controls_center && !mv2_controls_center {
            return true;
        } else if !mv1_controls_center && mv2_controls_center {
            return false;
        }
        let mv1_mobility = self.get_valid_moves_after_move(mv1).len();
        let mv2_mobility = self.get_valid_moves_after_move(mv2).len();

        if mv1_mobility > mv2_mobility {
            return true;
        } else if mv1_mobility < mv2_mobility {
            return false;
        }
        false
    }

    /// The pseudo-legal moves of the side to move after `mv` has been made.
    pub fn get_valid_moves_after_move(&self, mv: &Move) -> (moves: Vec<Move>)
        requires
            mv.from.on_board(),
            mv.to.on_board(),
        ensures
            moves@ == valid_moves(self@.played(*mv).squares, self@.played(*mv).turn),
    {
        let mut new_board = self.branch();
        new_board.make_move(mv.from, mv.to);
        new_board.get_valid_moves(new_board.turn)
    }

    /// The best move for the side to move, by iterative deepening: every
    /// move is searched to depth 1, then 2, up to `MAX_DEPTH`, and one
    /// running best score is kept over all depths. `None` exactly when the
    /// side to move has no pseudo-legal move. Only the cache changes, and it
    /// stays within its bound.
    pub fn find_best_move(&mut self) -> (best: Option<Move>)
        requires
            grid_wf(old(self)@.squares),
        ensures
            final(self)@ == old(self)@,
            best == best_move(old(self)@),
            best is None <==> valid_moves(old(self)@.squares, old(self)@.turn).len() == 0,
            best is Some ==> pseudo_legal(old(self)@.squares, old(self)@.turn, best->0),
            final(self).transposition_table@.len() <= MAX_ENTRIES,
    {
        let ghost b = self@;
        proof {
            lemma_best_move_exists(b);
            if best_move(b) is Some {
                let held = best_move(b)->0;
                let n = choose|n: int|
                    0 <= n < valid_moves(b.squares, b.turn).len() && valid_moves(b.squares, b.turn)[n] == held;
                lemma_valid_moves_sound(b.squares, b.turn, n);
            }
        }
        let color = self.turn;
        let mut best_move: Option<Move> = None;
        let mut best_score = if color == Color::Black {
            i32::MIN
        } else {
            i32::MAX
        };
        let mut table = TranspositionTable::new();
        core::mem::swap(&mut table, &mut self.transposition_table);
        let key = self.hash();

        let mut depth: usize = 1;
        while depth <= MAX_DEPTH
            invariant
                b == self@,
                b.turn == color,
                grid_wf(b.squares),
                key == fingerprint(b),
                1 <= depth <= MAX_DEPTH + 1,
                (Choice { score: best_score as int, held: best_move }) == choice_upto(b, (depth - 1) as nat),
                best_move is Some ==> valid_moves(b.squares, color).contains(best_move->0),
                best_move is None ==> depth == 1 || valid_moves(b.squares, color).len() == 0,
                best_move is None ==> best_score == worst_score(color == Color::Black),
            decreases MAX_DEPTH + 1 - depth,
        {
            let moves = self.get_valid_moves(color);
            let mut k: usize = 0;
            while k < moves.len()
                invariant
                    b == self@,
                    b.turn == color,
                    grid_wf(b.squares),
                    key == fingerprint(b),
                    1 <= depth <= MAX_DEPTH,
                    moves@ == valid_moves(b.squares, color),
                    k <= moves.len(),
                    (Choice { score: best_score as int, held: best_move }) == choice_within(
                        b,
                        depth as nat,
                        k as int,
                        choice_upto(b, (depth - 1) as nat),
                    ),
                    best_move is Some ==> valid_moves(b.squares, color).contains(best_move->0),
                    best_move is None ==> k == 0 && (depth == 1 || valid_moves(b.squares, color).len() == 0),
                    best_move is None ==> best_score == worst_score(color == Color::Black),
                decreases moves.len() - k,
            {
                let mv = moves[k];
                proof {
                    lemma_valid_moves_sound(b.squares, color, k as int);
                    lemma_grid_after_wf(b.squares, mv.from, mv.to);
                    lemma_alpha_beta_is_minimax(b.played(mv), depth as nat, color == Color::White);
                }
                let new_key = self.hash_after(key, &mv);
                let mut new_board = self.branch();
                new_board.make_move(mv.from, mv.to);
                assert(new_board@ == b.played(mv));
                let score = new_board.search(&mut table, new_key, depth, color == Color::White, i32::MIN, i32::MAX);
                if (color == Color::Black && score > best_score) || (color == Color::White && score < best_score) {
                    best_score = score;
                    best_move = Some(mv);
                } else if score == best_score {
                    proof {
                        // The first move considered always improves on the
                        // worst score, so a move is held by now.
                        if best_move is None {
                            lemma_one_ply_range(b.played(mv), color == Color::White, 0);
                        }
                        let held = best_move->0;
                        let n = choose|n: int|
                            0 <= n < valid_moves(b.squares, color).len() && valid_moves(b.squares, color)[n] == held;
                        lemma_valid_moves_sound(b.squares, color, n);
                    }
                    if self.more_criteria(&mv, &best_move.unwrap()) {
                        best_move = Some(mv);
                    }
                }
                k += 1;
            }
            depth += 1;
        }
        core::mem::swap(&mut table, &mut self.transposition_table);
        proof {
            use_type_invariant(&self.transposition_table);
        }
        best_move
    }

    /// The moves of `moves` that quiescence search looks at: the captures,
    /// and the moves onto a square whose owner is in check.
    pub fn retain_noisy(&self, moves: Vec<Move>) -> (kept: Vec<Move>)
        requires
            forall|k: int| 0 <= k < moves.len() ==> (#[trigger] moves[k]).to.on_board(),
        ensures
            kept@ == moves@.filter(noisy(self@.squares)),
    {
        let ghost g = self@.squares;
        let mut kept: Vec<Move> = Vec::new();
        let mut k: usize = 0;
        proof {
            reveal(Seq::filter);
            assert(moves@.take(0) =~= Seq::empty());
        }
        while k < moves.len()
            invariant
                g == self@.squares,
                k <= moves.len(),
                forall|n: int| 0 <= n < moves.len() ==> (#[trigger] moves[n]).to.on_board(),
                kept@ == moves@.take(k as int).filter(noisy(g)),
            decreases moves.len() - k,
        {
            let mv = moves[k];
            proof {
                reveal(Seq::filter);
                assert(moves@.take(k + 1).drop_last() =~= moves@.take(k as int));
                assert(moves@.take(k + 1).last() == mv);
            }
            let keep = match mv.captured {
                Some(_) => true,
                None => {
                    let target_square = self.squares[mv.to.row][mv.to.col];
                    assert(target_square == g[mv.to.row as int][mv.to.col as int]);
                    if let Some(color) = target_square.color {
                        self.is_in_check(color)
                    } else {
                        false
                    }
                },
            };
            assert(keep == is_noisy(g, mv));
            if keep {
                kept.push(mv);
            }
            k += 1;
        }
        proof {
            assert(moves@.take(moves.len() as int) =~= moves@);
        }
        kept
    }

    /// Quiescence search with the window (`alpha`, `beta`): the static
    /// evaluation, raised by the negated scores of the noisy moves of the
    /// side to move, and cut off at `beta`. With a window that is not empty,
    /// the result is the quiescence value brought into the window. Where the
    /// side to move has no capture, it is the evaluation raised to `alpha`,
    /// or `beta` if the evaluation reaches it.
    ///
    /// The result does not depend on the order in which the moves are tried,
    /// so they are tried from the last to the first: the captures of the
    /// most valuable pieces come first, which cuts the search off soonest.
    pub fn quiescence_search(&self, alpha: i32, beta: i32) -> (score: i32)
        requires
            grid_wf(self@.squares),
        ensures
            score == quiesce(self@, alpha as int, beta as int),
            alpha < beta ==> score == clamp(quiescence_value(self@), alpha as int, beta as int),
            is_quiet(self@) ==> score == (if evaluation(self@.squares) >= beta {
                beta as int
            } else {
                larger(alpha as int, evaluation(self@.squares))
            }),
            score == beta || score >= alpha,
        decreases piece_count(self@.squares),
    {
        let ghost b = self@;
        proof {
            if is_quiet(b) {
                lemma_quiet_position(b, alpha as int, beta as int);
            }
        }
        let mut floor = alpha;
        let stand_pat = self.evaluate_board();
        proof {
            lemma_evaluation_range(b.squares);
            if alpha < beta {
                lemma_quiesce_clamps(b, alpha as int, beta as int);
                lemma_quiescence_at_least_stand_pat(b, 0);
            } else {
                lemma_quiesce_from_empty_window(b, 0, alpha as int, beta as int);
            }
        }
        if stand_pat >= beta {
            return beta;
        }
        if floor < stand_pat {
            floor = stand_pat;
        }
        let valid_moves = self.get_valid_moves(self.current_turn());
        proof {
            assert forall|k: int| 0 <= k < valid_moves.len() implies (#[trigger] valid_moves[k]).to.on_board() by {
                lemma_valid_moves_sound(b.squares, b.turn, k);
            }
        }
        let candidates = self.retain_noisy(valid_moves);
        let mut k: usize = candidates.len();
        while k > 0
            invariant
                b == self@,
                grid_wf(b.squares),
                candidates@ == noisy_moves(b),
                k <= candidates.len(),
                -300000 < stand_pat <= floor,
                stand_pat == evaluation(b.squares),
                stand_pat < beta,
                alpha <= floor,
                alpha < beta ==> floor < beta && floor == larger(alpha as int, quiescence_from(b, k as int)),
                alpha < beta ==> quiesce(b, alpha as int, beta as int) == clamp(
                    quiescence_value(b),
                    alpha as int,
                    beta as int,
                ),
                alpha >= beta ==> floor == alpha && forall|j: int|
                    k <= j < candidates.len() ==> !#[trigger] cuts_off(b, j, alpha as int, beta as int),
                alpha >= beta ==> quiesce(b, alpha as int, beta as int) == (if exists|j: int|
                    0 <= j < noisy_moves(b).len() && #[trigger] cuts_off(b, j, alpha as int, beta as int) {
                    beta as int
                } else {
                    alpha as int
                }),
            decreases k,
        {
            let mv = candidates[k - 1];
            proof {
                lemma_noisy_move_shrinks(b, k - 1);
                if alpha < beta {
                    lemma_quiescence_covers(b, 0, k - 1);
                }
            }
            let mut new_board = self.branch();
            new_board.make_move(mv.from, mv.to);
            assert(new_board@ == b.played(mv));
            let score = -new_board.quiescence_search(-beta, -floor);
            if score >= beta {
                assert(alpha >= beta ==> cuts_off(b, k - 1, alpha as int, beta as int));
                return beta;
            }
            if score > floor {
                floor = score;
            }
            k -= 1;
        }
        floor
    }

    /// Alpha-beta search of the position to `depth` plies with the window
    /// (`alpha`, `beta`), with `table` as its cache and `key` the fingerprint
    /// of the position.
    ///
    /// A cached result that answers this search is returned as it is. At
    /// depth zero the result is that of quiescence search. Otherwise every
    /// move of the side named by `is_maximizing` is tried on a copy of the
    /// board, until the window is empty. The result is cached.
    ///
    /// With a window that is not empty, the result is the full minimax value
    /// if it lies inside the window, and a bound of that value otherwise.
    fn search(
        &self,
        table: &mut TranspositionTable,
        key: u64,
        depth: usize,
        is_maximizing: bool,
        alpha: i32,
        beta: i32,
    ) -> (eval: i32)
        requires
            grid_wf(self@.squares),
            key == fingerprint(self@),
        ensures
            eval == search_value(self@, depth as nat, is_maximizing, alpha as int, beta as int),
            alpha < beta ==> within_bounds(
                minimax_value(self@, depth as nat, is_maximizing),
                eval as int,
                alpha as int,
                beta as int,
            ),
            final(table)@.contains_key(key),
            final(table)@[key].answers(self@, depth as nat, is_maximizing, alpha as int, beta as int),
            final(table)@[key].score == eval,
        decreases depth,
    {
        let ghost b = self@;
        proof {
            if alpha < beta {
                lemma_search_within_bounds(b, depth as nat, is_maximizing, alpha as int, beta as int);
            }
        }
        if let Some(cached_eval) = table.probe(key, self, depth, is_maximizing, alpha, beta) {
            return cached_eval;
        }
        if depth == 0 {
            let eval = self.quiescence_search(alpha, beta);
            table.record(key, self, depth, is_maximizing, alpha, beta, eval);
            return eval;
        }
        let color = if is_maximizing {
            Color::Black
        } else {
            Color::White
        };
        let moves = self.get_valid_moves(color);

        let mut low = alpha;
        let mut high = beta;
        let mut best_eval = if is_maximizing {
            i32::MIN
        } else {
            i32::MAX
        };
        let mut k: usize = 0;
        while k < moves.len()
            invariant_except_break
                search_value(b, depth as nat, is_maximizing, alpha as int, beta as int) == search_from(
                    b,
                    depth as nat,
                    is_maximizing,
                    k as int,
                    low as int,
                    high as int,
                    best_eval as int,
                ),
            invariant
                b == self@,
                grid_wf(b.squares),
                key == fingerprint(b),
                depth > 0,
                moves@ == valid_moves(b.squares, mover(is_maximizing)),
                k <= moves.len(),
            ensures
                best_eval == search_value(b, depth as nat, is_maximizing, alpha as int, beta as int),
            decreases moves.len() - k,
        {
            let mv = moves[k];
            proof {
                lemma_valid_moves_sound(b.squares, mover(is_maximizing), k as int);
                lemma_grid_after_wf(b.squares, mv.from, mv.to);
            }
            let new_key = self.hash_after(key, &mv);
            let mut new_board = self.branch();
            new_board.make_move(mv.from, mv.to);
            assert(new_board@ == b.played(mv));
            let eval = new_board.search(table, new_key, (depth - 1) as usize, !is_maximizing, low, high);
            if is_maximizing {
                if eval > best_eval {
                    best_eval = eval;
                }
                if eval > low {
                    low = eval;
                }
            } else {
                if eval < best_eval {
                    best_eval = eval;
                }
                if eval < high {
                    high = eval;
                }
            }
            if high <= low {
                break;
            }
            k += 1;
        }

        table.record(key, self, depth, is_maximizing, alpha, beta, best_eval);
        best_eval
    }

    /// Alpha-beta search of the position to `depth` plies with the window
    /// (`alpha`, `beta`), with the board's own cache. The position itself is
    /// left as it was; afterwards the cache answers this search, under the
    /// fingerprint of the position.
    ///
    /// With a window that is not empty, the result is the full minimax value
    /// if it lies inside the window, and a bound of that value otherwise;
    /// with the full window it is the full minimax value.
    pub fn minimax(&mut self, depth: usize, is_maximizing: bool, alpha: i32, beta: i32) -> (eval: i32)
        requires
            grid_wf(old(self)@.squares),
        ensures
            final(self)@ == old(self)@,
            eval == search_value(old(self)@, depth as nat, is_maximizing, alpha as int, beta as int),
            alpha < beta ==> within_bounds(
                minimax_value(old(self)@, depth as nat, is_maximizing),
                eval as int,
                alpha as int,
                beta as int,
            ),
            alpha == i32::MIN && beta == i32::MAX ==> eval == minimax_value(
                old(self)@,
                depth as nat,
                is_maximizing,
            ),
            final(self).transposition_table@.contains_key(fingerprint(old(self)@)),
            final(self).transposition_table@[fingerprint(old(self)@)].answers(
                old(self)@,
                depth as nat,
                is_maximizing,
                alpha as int,
                beta as int,
            ),
            final(self).transposition_table@[fingerprint(old(self)@)].score == eval,
            final(self).transposition_table@.len() <= MAX_ENTRIES,
    {
        proof {
            lemma_alpha_beta_is_minimax(self@, depth as nat, is_maximizing);
        }
        let mut table = TranspositionTable::new();
        core::mem::swap(&mut table, &mut self.transposition_table);
        let key = self.hash();
        let eval = self.search(&mut table, key, depth, is_maximizing, alpha, beta);
        core::mem::swap(&mut table, &mut self.transposition_table);
        proof {
            use_type_invariant(&self.transposition_table);
        }
        eval
    }
}

} // verus!

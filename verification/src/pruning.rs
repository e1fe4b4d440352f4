//! Alpha-beta pruning does not change what the search finds: the relation
//! between the pruned search and full minimax.

use crate::board::BoardView;
use crate::eval::{evaluation, lemma_evaluation_range};
use crate::grid::{grid_wf, lemma_grid_after_wf, piece_count};
use crate::legality::lemma_valid_moves_sound;
use crate::movegen::valid_moves;
use crate::search::{
    larger, lemma_noisy_move_shrinks, minimax_from, minimax_value, mover, noisy_moves, quiesce, quiesce_from,
    quiescence_from, quiescence_value, search_from, search_value, smaller, worst_score,
};
use vstd::prelude::*;

verus! {

/// `v` brought into the window: `lo` if it is at or below it, `hi` if it is
/// at or above it.
pub open spec fn clamp(v: int, lo: int, hi: int) -> int {
    if v <= lo {
        lo
    } else if v >= hi {
        hi
    } else {
        v
    }
}

/// `v`, or `hi` if `v` reaches it.
pub open spec fn cap(v: int, hi: int) -> int {
    if v >= hi {
        hi
    } else {
        v
    }
}

/// What a search with the window (`alpha`, `beta`) says of the exact value:
/// a result inside the window is the exact value, a result at or below
/// `alpha` is an upper bound of it, a result at or above `beta` a lower bound.
pub open spec fn within_bounds(exact: int, result: int, alpha: int, beta: int) -> bool {
    &&& result <= alpha ==> exact <= result
    &&& result >= beta ==> exact >= result
    &&& alpha < result < beta ==> result == exact
}

/// The quiescence value is never below the static evaluation.
pub proof fn lemma_quiescence_at_least_stand_pat(b: BoardView, k: int)
    requires
        grid_wf(b.squares),
        0 <= k,
    ensures
        quiescence_from(b, k) >= evaluation(b.squares),
    decreases noisy_moves(b).len() - k,
{
    if k < noisy_moves(b).len() {
        lemma_quiescence_at_least_stand_pat(b, k + 1);
    }
}

/// The quiescence value lies well inside the range of `i32`.
pub proof fn lemma_quiescence_value_range(b: BoardView)
    requires
        grid_wf(b.squares),
    ensures
        -300000 < quiescence_value(b) < 300000,
    decreases piece_count(b.squares), 1int, 0int,
{
    lemma_quiescence_from_range(b, 0);
}

/// The best of standing pat and of the noisy moves from the `k`-th on lies
/// well inside the range of `i32`.
pub proof fn lemma_quiescence_from_range(b: BoardView, k: int)
    requires
        grid_wf(b.squares),
        0 <= k,
    ensures
        -300000 < quiescence_from(b, k) < 300000,
    decreases piece_count(b.squares), 0int, noisy_moves(b).len() - k,
{
    lemma_evaluation_range(b.squares);
    if k < noisy_moves(b).len() {
        lemma_noisy_move_shrinks(b, k);
        lemma_quiescence_value_range(b.played(noisy_moves(b)[k]));
        lemma_quiescence_from_range(b, k + 1);
    }
}

/// Quiescence search with a non-empty window returns the quiescence value
/// brought into the window.
pub proof fn lemma_quiesce_clamps(b: BoardView, alpha: int, beta: int)
    requires
        grid_wf(b.squares),
        alpha < beta,
    ensures
        quiesce(b, alpha, beta) == clamp(quiescence_value(b), alpha, beta),
    decreases piece_count(b.squares), 1int, 0int,
{
    let stand_pat = evaluation(b.squares);
    lemma_quiescence_at_least_stand_pat(b, 0);
    if stand_pat < beta {
        lemma_quiesce_from_caps(b, 0, larger(alpha, stand_pat), beta);
    }
}

/// Once the lower bound has reached the static evaluation, the rest of
/// quiescence search returns the larger of the bound and the best remaining
/// move, cut off at `beta`.
pub proof fn lemma_quiesce_from_caps(b: BoardView, k: int, alpha: int, beta: int)
    requires
        grid_wf(b.squares),
        0 <= k,
        evaluation(b.squares) <= alpha < beta,
    ensures
        quiesce_from(b, k, alpha, beta) == cap(larger(alpha, quiescence_from(b, k)), beta),
    decreases piece_count(b.squares), 0int, noisy_moves(b).len() - k,
{
    if k < noisy_moves(b).len() {
        lemma_noisy_move_shrinks(b, k);
        let child = b.played(noisy_moves(b)[k]);
        lemma_quiesce_clamps(child, -beta, -alpha);
        let score = -quiesce(child, -beta, -alpha);
        lemma_quiescence_at_least_stand_pat(b, k + 1);
        if score < beta {
            lemma_quiesce_from_caps(b, k + 1, larger(alpha, score), beta);
        }
    }
}

/// The quiescence value is never below the negated quiescence value of what
/// a noisy move leads to.
pub proof fn lemma_quiescence_covers(b: BoardView, k: int, j: int)
    requires
        grid_wf(b.squares),
        0 <= k <= j < noisy_moves(b).len(),
    ensures
        quiescence_from(b, k) >= -quiescence_value(b.played(noisy_moves(b)[j])),
    decreases j - k,
{
    lemma_noisy_move_shrinks(b, k);
    assert(quiescence_from(b, k) == larger(
        -quiescence_value(b.played(noisy_moves(b)[k])),
        quiescence_from(b, k + 1),
    ));
    if k < j {
        lemma_quiescence_covers(b, k + 1, j);
    }
}

/// Whether, with the empty window (`alpha`, `beta`), the `j`-th noisy move
/// ends quiescence search: its negated score reaches `beta`.
pub open spec fn cuts_off(b: BoardView, j: int, alpha: int, beta: int) -> bool {
    -quiesce(b.played(noisy_moves(b)[j]), -beta, -alpha) >= beta
}

/// With an empty window above the static evaluation, quiescence search
/// returns `beta` if one of the remaining moves ends it, and `alpha` if
/// none does: the order in which the moves are tried does not matter.
pub proof fn lemma_quiesce_from_empty_window(b: BoardView, k: int, alpha: int, beta: int)
    requires
        grid_wf(b.squares),
        0 <= k,
        beta <= alpha,
    ensures
        quiesce_from(b, k, alpha, beta) == (if exists|j: int|
            k <= j < noisy_moves(b).len() && #[trigger] cuts_off(b, j, alpha, beta) {
            beta
        } else {
            alpha
        }),
    decreases noisy_moves(b).len() - k,
{
    if k < noisy_moves(b).len() {
        lemma_noisy_move_shrinks(b, k);
        if cuts_off(b, k, alpha, beta) {
        } else {
            lemma_quiesce_from_empty_window(b, k + 1, alpha, beta);
            if exists|j: int| k <= j < noisy_moves(b).len() && #[trigger] cuts_off(b, j, alpha, beta) {
                let j = choose|j: int| k <= j < noisy_moves(b).len() && #[trigger] cuts_off(b, j, alpha, beta);
                assert(k + 1 <= j);
            }
        }
    }
}

/// Full minimax values lie in the range of `i32`.
pub proof fn lemma_minimax_value_range(b: BoardView, depth: nat, maximizing: bool)
    requires
        grid_wf(b.squares),
    ensures
        i32::MIN <= minimax_value(b, depth, maximizing) <= i32::MAX,
    decreases depth, 1int, 0int,
{
    if depth == 0 {
        lemma_quiescence_value_range(b);
    } else {
        lemma_minimax_from_range(b, depth, maximizing, 0);
    }
}

/// The best full minimax value among the moves from the `k`-th on lies in
/// the range of `i32`.
pub proof fn lemma_minimax_from_range(b: BoardView, depth: nat, maximizing: bool, k: int)
    requires
        grid_wf(b.squares),
        0 <= k,
    ensures
        i32::MIN <= minimax_from(b, depth, maximizing, k) <= i32::MAX,
    decreases depth, 0int, valid_moves(b.squares, mover(maximizing)).len() - k,
{
    let moves = valid_moves(b.squares, mover(maximizing));
    if depth > 0 && k < moves.len() {
        lemma_valid_moves_sound(b.squares, mover(maximizing), k);
        lemma_grid_after_wf(b.squares, moves[k].from, moves[k].to);
        lemma_minimax_value_range(b.played(moves[k]), (depth - 1) as nat, !maximizing);
        lemma_minimax_from_range(b, depth, maximizing, k + 1);
    }
}

/// One ply above quiescence a score is never the worst score of the other
/// kind: where the score is maximised it stays well below the highest
/// score, where it is minimised well above the lowest.
pub proof fn lemma_one_ply_range(b: BoardView, maximizing: bool, k: int)
    requires
        grid_wf(b.squares),
        0 <= k,
    ensures
        maximizing ==> minimax_from(b, 1, maximizing, k) < 300000,
        !maximizing ==> minimax_from(b, 1, maximizing, k) > -300000,
    decreases valid_moves(b.squares, mover(maximizing)).len() - k,
{
    let moves = valid_moves(b.squares, mover(maximizing));
    if k < moves.len() {
        lemma_valid_moves_sound(b.squares, mover(maximizing), k);
        lemma_grid_after_wf(b.squares, moves[k].from, moves[k].to);
        let child = b.played(moves[k]);
        lemma_quiescence_value_range(child);
        assert(minimax_value(child, 0, !maximizing) == quiescence_value(child));
        lemma_one_ply_range(b, maximizing, k + 1);
    }
}

/// Alpha-beta pruning is sound: searched with a non-empty window within the
/// range of `i32`, a position yields its full minimax value if that value
/// lies inside the window, and otherwise a bound of it on the side on which
/// the value lies.
pub proof fn lemma_search_within_bounds(b: BoardView, depth: nat, maximizing: bool, alpha: int, beta: int)
    requires
        grid_wf(b.squares),
        i32::MIN <= alpha < beta <= i32::MAX,
    ensures
        within_bounds(
            minimax_value(b, depth, maximizing),
            search_value(b, depth, maximizing, alpha, beta),
            alpha,
            beta,
        ),
    decreases depth, 1int, 0int,
{
    if depth == 0 {
        lemma_quiesce_clamps(b, alpha, beta);
    } else {
        let worst = worst_score(maximizing);
        lemma_search_from_within_bounds(b, depth, maximizing, 0, alpha, beta, alpha, beta, worst, worst);
    }
}

/// The state of a ply after some moves have been tried, with `seen` the
/// best full minimax value among them: no move has emptied the window yet,
/// the best score so far is a bound of `seen` on the side away from the
/// window, and equals `seen` once it has entered the window.
pub open spec fn ply_state_ok(
    maximizing: bool,
    alpha: int,
    beta: int,
    low: int,
    high: int,
    best: int,
    seen: int,
) -> bool {
    &&& i32::MIN <= seen <= i32::MAX
    &&& if maximizing {
        &&& high == beta
        &&& low == larger(alpha, best)
        &&& best < beta
        &&& seen <= best
        &&& best > alpha ==> best == seen
    } else {
        &&& low == alpha
        &&& high == smaller(beta, best)
        &&& best > alpha
        &&& seen >= best
        &&& best < beta ==> best == seen
    }
}

/// The rest of a ply, started from a state that the moves tried so far can
/// have led to, ends with a result that is sound for the ply as a whole.
pub proof fn lemma_search_from_within_bounds(
    b: BoardView,
    depth: nat,
    maximizing: bool,
    k: int,
    alpha: int,
    beta: int,
    low: int,
    high: int,
    best: int,
    seen: int,
)
    requires
        grid_wf(b.squares),
        depth > 0,
        0 <= k,
        i32::MIN <= alpha < beta <= i32::MAX,
        ply_state_ok(maximizing, alpha, beta, low, high, best, seen),
    ensures
        within_bounds(
            if maximizing {
                larger(seen, minimax_from(b, depth, maximizing, k))
            } else {
                smaller(seen, minimax_from(b, depth, maximizing, k))
            },
            search_from(b, depth, maximizing, k, low, high, best),
            alpha,
            beta,
        ),
    decreases depth, 0int, valid_moves(b.squares, mover(maximizing)).len() - k,
{
    let moves = valid_moves(b.squares, mover(maximizing));
    lemma_minimax_from_range(b, depth, maximizing, k);
    if k < moves.len() {
        lemma_valid_moves_sound(b.squares, mover(maximizing), k);
        lemma_grid_after_wf(b.squares, moves[k].from, moves[k].to);
        let child = b.played(moves[k]);
        lemma_search_within_bounds(child, (depth - 1) as nat, !maximizing, low, high);
        let eval = search_value(child, (depth - 1) as nat, !maximizing, low, high);
        let value = minimax_value(child, (depth - 1) as nat, !maximizing);
        lemma_minimax_value_range(child, (depth - 1) as nat, !maximizing);
        lemma_minimax_from_range(b, depth, maximizing, k + 1);
        if maximizing {
            if !(high <= larger(low, eval)) {
                lemma_search_from_within_bounds(
                    b,
                    depth,
                    maximizing,
                    k + 1,
                    alpha,
                    beta,
                    larger(low, eval),
                    high,
                    larger(best, eval),
                    larger(seen, value),
                );
            }
        } else {
            if !(smaller(high, eval) <= low) {
                lemma_search_from_within_bounds(
                    b,
                    depth,
                    maximizing,
                    k + 1,
                    alpha,
                    beta,
                    low,
                    smaller(high, eval),
                    smaller(best, eval),
                    smaller(seen, value),
                );
            }
        }
    }
}

/// Alpha-beta search agrees with full minimax: searched with the full
/// window, every position yields its full minimax value to the same depth.
pub proof fn lemma_alpha_beta_is_minimax(b: BoardView, depth: nat, maximizing: bool)
    requires
        grid_wf(b.squares),
    ensures
        search_value(b, depth, maximizing, i32::MIN as int, i32::MAX as int) == minimax_value(
            b,
            depth,
            maximizing,
        ),
{
    lemma_search_within_bounds(b, depth, maximizing, i32::MIN as int, i32::MAX as int);
    lemma_minimax_value_range(b, depth, maximizing);
}

} // verus!

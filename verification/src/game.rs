//! One turn of self-play: select a move, make it, and see whether the game
//! is over.

use crate::board::{checkmated, in_check, Board, BoardView};
use crate::grid::{grid_wf, lemma_grid_after_wf};
use crate::legality::lemma_valid_moves_sound;
use crate::movegen::valid_moves;
use crate::pruning::lemma_minimax_value_range;
use crate::search::{best_move, choice_upto, choice_within, consider, worst_score, Choice, MAX_DEPTH};
use crate::table::MAX_ENTRIES;
use crate::{Color, Move};
use vstd::prelude::*;

verus! {

/// What move selection keeps true of its choice: without a move held, the
/// score is still the worst for the side to move; a move held is one of the
/// moves of the side to move.
pub open spec fn choice_ok(b: BoardView, state: Choice) -> bool {
    match state.held {
        Some(mv) => valid_moves(b.squares, b.turn).contains(mv),
        None => state.score == worst_score(b.turn == Color::Black),
    }
}

/// Considering a move of the side to move always leaves a move held.
pub proof fn lemma_consider_holds(b: BoardView, depth: nat, k: int, state: Choice)
    requires
        grid_wf(b.squares),
        0 <= k < valid_moves(b.squares, b.turn).len(),
        choice_ok(b, state),
    ensures
        consider(b, depth, valid_moves(b.squares, b.turn)[k], state).held is Some,
        choice_ok(b, consider(b, depth, valid_moves(b.squares, b.turn)[k], state)),
{
    let mv = valid_moves(b.squares, b.turn)[k];
    lemma_valid_moves_sound(b.squares, b.turn, k);
    lemma_grid_after_wf(b.squares, mv.from, mv.to);
    lemma_minimax_value_range(b.played(mv), depth, b.turn == Color::White);
}

/// After the first `k` moves have been considered, a move is held if one
/// was held before or `k` is positive.
pub proof fn lemma_choice_within_holds(b: BoardView, depth: nat, k: int, state: Choice)
    requires
        grid_wf(b.squares),
        0 <= k <= valid_moves(b.squares, b.turn).len(),
        choice_ok(b, state),
    ensures
        choice_ok(b, choice_within(b, depth, k, state)),
        k > 0 ==> choice_within(b, depth, k, state).held is Some,
        k == 0 ==> choice_within(b, depth, k, state) == state,
    decreases k,
{
    if k > 0 {
        lemma_choice_within_holds(b, depth, k - 1, state);
        lemma_consider_holds(b, depth, k - 1, choice_within(b, depth, k - 1, state));
    }
}

/// After every depth up to `depth`, a move is held exactly if the side to
/// move has a move and `depth` is positive.
pub proof fn lemma_choice_upto_holds(b: BoardView, depth: nat)
    requires
        grid_wf(b.squares),
    ensures
        choice_ok(b, choice_upto(b, depth)),
        choice_upto(b, depth).held is Some <==> depth > 0 && valid_moves(b.squares, b.turn).len() > 0,
    decreases depth,
{
    if depth > 0 {
        lemma_choice_upto_holds(b, (depth - 1) as nat);
        lemma_choice_within_holds(
            b,
            depth,
            valid_moves(b.squares, b.turn).len() as int,
            choice_upto(b, (depth - 1) as nat),
        );
    }
}

/// Move selection gives a move exactly if the side to move has one, and
/// then one of its pseudo-legal moves.
pub proof fn lemma_best_move_exists(b: BoardView)
    requires
        grid_wf(b.squares),
    ensures
        best_move(b) is None <==> valid_moves(b.squares, b.turn).len() == 0,
        best_move(b) is Some ==> valid_moves(b.squares, b.turn).contains(best_move(b)->0),
{
    lemma_choice_upto_holds(b, MAX_DEPTH as nat);
}

/// The end of a game: a side that is to move, has no pseudo-legal move and
/// is in check gets no move from move selection, and is checkmated.
pub proof fn lemma_no_move_in_check_is_checkmate(b: BoardView)
    requires
        grid_wf(b.squares),
        valid_moves(b.squares, b.turn).len() == 0,
        in_check(b.squares, b.turn),
    ensures
        best_move(b) is None,
        checkmated(b.squares, b.turn),
{
    lemma_best_move_exists(b);
}

/// What a turn led to.
pub enum Turn {
    /// The side to move had no pseudo-legal move: the game is over and the
    /// board is as it was.
    Stuck,
    /// The move was made and the game goes on.
    Moved(Move),
    /// The move was made and the side that is now to move is checkmated.
    Mated(Move),
}

impl Board {
    /// Plays one turn: makes the best move of the side to move, if it has
    /// one, and says whether the other side is then checkmated.
    pub fn play_turn(&mut self) -> (turn: Turn)
        requires
            grid_wf(old(self)@.squares),
        ensures
            grid_wf(final(self)@.squares),
            final(self).transposition_table@.len() <= MAX_ENTRIES,
            match turn {
                Turn::Stuck => best_move(old(self)@) is None && final(self)@ == old(self)@,
                Turn::Moved(mv) => {
                    &&& best_move(old(self)@) == Some(mv)
                    &&& final(self)@ == old(self)@.played(mv)
                    &&& !checkmated(final(self)@.squares, final(self)@.turn)
                },
                Turn::Mated(mv) => {
                    &&& best_move(old(self)@) == Some(mv)
                    &&& final(self)@ == old(self)@.played(mv)
                    &&& checkmated(final(self)@.squares, final(self)@.turn)
                },
            },
    {
        match self.find_best_move() {
            Some(mv) => {
                self.make_move(mv.from, mv.to);
                if self.is_checkmate(self.turn) {
                    Turn::Mated(mv)
                } else {
                    Turn::Moved(mv)
                }
            },
            None => Turn::Stuck,
        }
    }
}

} // verus!

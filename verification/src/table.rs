//! The transposition table: a cache of search results, keyed by a 64-bit
//! fingerprint of the position.
//!
//! Two positions may share a fingerprint, and a score found with one depth
//! or window says little about another. So every entry names the position,
//! the depth, the side and the window it was computed for, and says whether
//! its score is exact or only a bound. An entry is handed out to a search of
//! the same position, depth and side that has the same window, or, if the
//! score is exact, any window that holds the score: in both cases the search
//! would find that very score. The table keeps as its invariant that every
//! score it holds is the score of the search it names.
//!
//! The table never holds more than `MAX_ENTRIES` entries: when it is full
//! and a result for a new key comes in, the table is emptied first.

use crate::board::{Board, BoardView};
use crate::grid::{grid_of, grid_wf};
use crate::pruning::lemma_search_within_bounds;
use crate::search::search_value;
use crate::{Color, Square};
use std::collections::HashMap;
use vstd::prelude::*;

verus! {

/// Whether two squares hold the same piece with the same colour mark.
pub fn same_square(a: &Square, b: &Square) -> (same: bool)
    ensures
        same == (*a == *b),
{
    let same_color = match (a.color, b.color) {
        (Some(x), Some(y)) => x == y,
        (None, None) => true,
        _ => false,
    };
    a.piece == b.piece && same_color
}

/// Whether two layouts agree on every square.
pub fn same_layout(a: &[[Square; 8]; 8], b: &[[Square; 8]; 8]) -> (same: bool)
    ensures
        same == (grid_of(*a) == grid_of(*b)),
{
    let mut i: usize = 0;
    while i < 8
        invariant
            i <= 8,
            forall|r: int, c: int| 0 <= r < i && 0 <= c < 8 ==> a[r][c] == b[r][c],
        decreases 8 - i,
    {
        let mut j: usize = 0;
        while j < 8
            invariant
                i < 8,
                j <= 8,
                forall|r: int, c: int| 0 <= r < i && 0 <= c < 8 ==> a[r][c] == b[r][c],
                forall|c: int| 0 <= c < j ==> a[i as int][c] == b[i as int][c],
            decreases 8 - j,
        {
            if !same_square(&a[i][j], &b[i][j]) {
                assert(grid_of(*a)[i as int][j as int] != grid_of(*b)[i as int][j as int]);
                return false;
            }
            j += 1;
        }
        i += 1;
    }
    assert(grid_of(*a) =~~= grid_of(*b));
    true
}

/// What a score found with a window says of the full minimax value.
#[derive(Clone, Copy, PartialEq, Eq, Debug, Structural)]
pub enum Bound {
    /// The score lies inside the window: it is the value.
    Exact,
    /// The score reached the upper end of the window: the value is at least
    /// the score.
    Lower,
    /// The score stayed at or below the lower end of the window: the value
    /// is at most the score.
    Upper,
}

/// The kind of bound that `score` is when it was found with the window
/// (`alpha`, `beta`).
pub open spec fn bound_of(score: int, alpha: int, beta: int) -> Bound {
    if alpha < score < beta {
        Bound::Exact
    } else if score >= beta {
        Bound::Lower
    } else {
        Bound::Upper
    }
}

/// One cached search result and the search it belongs to.
#[derive(Clone, Copy)]
pub struct CacheEntry {
    pub squares: [[Square; 8]; 8],
    pub turn: Color,
    pub depth: usize,
    pub maximizing: bool,
    pub alpha: i32,
    pub beta: i32,
    pub bound: Bound,
    pub score: i32,
}

impl CacheEntry {
    /// The position the entry was computed for.
    pub open spec fn position(self) -> BoardView {
        BoardView { squares: grid_of(self.squares), turn: self.turn }
    }

    /// Whether the entry answers the search of `b` to `depth` plies with
    /// the window (`alpha`, `beta`): it was computed for that position, depth
    /// and side, and either with that window or with an exact score that the
    /// window holds.
    pub open spec fn answers(self, b: BoardView, depth: nat, maximizing: bool, alpha: int, beta: int) -> bool {
        &&& self.position() == b
        &&& self.depth == depth
        &&& self.maximizing == maximizing
        &&& (self.alpha == alpha && self.beta == beta) || (self.bound == Bound::Exact && alpha < self.score < beta)
    }

    /// Whether the score is that of the search the entry names, and the
    /// bound is what that score is for the entry's window.
    pub open spec fn sound(self) -> bool {
        &&& grid_wf(grid_of(self.squares))
        &&& self.bound == bound_of(self.score as int, self.alpha as int, self.beta as int)
        &&& self.score == search_value(
            self.position(),
            self.depth as nat,
            self.maximizing,
            self.alpha as int,
            self.beta as int,
        )
    }
}

/// The most entries a table holds.
pub const MAX_ENTRIES: usize = 262144;

/// The cache of search results. Every entry in it is sound, and there are
/// never more than `MAX_ENTRIES` of them.
pub struct TranspositionTable {
    entries: HashMap<u64, CacheEntry>,
}

impl View for TranspositionTable {
    type V = Map<u64, CacheEntry>;

    closed spec fn view(&self) -> Map<u64, CacheEntry> {
        self.entries@
    }
}

impl TranspositionTable {
    /// What holds of every table: the entries are sound and at most
    /// `MAX_ENTRIES`.
    #[verifier::type_invariant]
    pub open spec fn sound_and_bounded(self) -> bool {
        &&& forall|k: u64| #[trigger] self@.contains_key(k) ==> self@[k].sound()
        &&& self@.dom().finite()
        &&& self@.len() <= MAX_ENTRIES
    }

    /// What storing `entry` under `key` makes of the entries `held`: the
    /// entry is put in place of what stood under the key; if the key is new
    /// and the table is full, everything else is dropped first.
    #[verifier::opaque]
    pub open spec fn stored(held: Map<u64, CacheEntry>, key: u64, entry: CacheEntry) -> Map<u64, CacheEntry> {
        if held.contains_key(key) || held.len() < MAX_ENTRIES {
            held.insert(key, entry)
        } else {
            Map::<u64, CacheEntry>::empty().insert(key, entry)
        }
    }

    /// An empty table.
    pub fn new() -> (table: TranspositionTable)
        ensures
            table@ == Map::<u64, CacheEntry>::empty(),
    {
        broadcast use vstd::std_specs::hash::group_hash_axioms;

        TranspositionTable { entries: HashMap::new() }
    }

    /// The number of entries.
    pub fn len(&self) -> (len: usize)
        ensures
            len == self@.len(),
            len <= MAX_ENTRIES,
    {
        broadcast use vstd::std_specs::hash::group_hash_axioms;

        proof {
            use_type_invariant(self);
        }
        self.entries.len()
    }

    /// The cached score of the search of `board` to `depth` plies with the
    /// window (`alpha`, `beta`): the score of the entry under `key`, if that
    /// entry answers this search. A score that is handed out is the score
    /// that the search would find.
    pub fn probe(&self, key: u64, board: &Board, depth: usize, maximizing: bool, alpha: i32, beta: i32) -> (hit:
        Option<i32>)
        ensures
            hit == (if self@.contains_key(key) && self@[key].answers(
                board@,
                depth as nat,
                maximizing,
                alpha as int,
                beta as int,
            ) {
                Some(self@[key].score)
            } else {
                None
            }),
            hit is Some ==> hit->0 == search_value(board@, depth as nat, maximizing, alpha as int, beta as int),
    {
        broadcast use vstd::std_specs::hash::group_hash_axioms;

        proof {
            use_type_invariant(self);
        }
        match self.entries.get(&key) {
            Some(entry) => {
                let same_window = entry.alpha == alpha && entry.beta == beta;
                let exact_inside = entry.bound == Bound::Exact && alpha < entry.score && entry.score < beta;
                if entry.depth == depth && entry.maximizing == maximizing && (same_window || exact_inside)
                    && entry.turn == board.turn && same_layout(&entry.squares, &board.squares) {
                    proof {
                        assert(entry.sound());
                        if !same_window {
                            lemma_search_within_bounds(
                                board@,
                                depth as nat,
                                maximizing,
                                entry.alpha as int,
                                entry.beta as int,
                            );
                            lemma_search_within_bounds(board@, depth as nat, maximizing, alpha as int, beta as int);
                        }
                    }
                    Some(entry.score)
                } else {
                    None
                }
            },
            None => None,
        }
    }

    /// Stores `score` under `key` as the result of the search of `board` to
    /// `depth` plies with the window (`alpha`, `beta`), in place of what was
    /// stored under `key` before. If the key is new and the table is full,
    /// the table is emptied first.
    pub(crate) fn record(
        &mut self,
        key: u64,
        board: &Board,
        depth: usize,
        maximizing: bool,
        alpha: i32,
        beta: i32,
        score: i32,
    )
        requires
            grid_wf(board@.squares),
            score == search_value(board@, depth as nat, maximizing, alpha as int, beta as int),
        ensures
            final(self)@ == Self::stored(
                old(self)@,
                key,
                (CacheEntry {
                    squares: board.squares,
                    turn: board.turn,
                    depth,
                    maximizing,
                    alpha,
                    beta,
                    bound: bound_of(score as int, alpha as int, beta as int),
                    score,
                }),
            ),
            final(self)@.contains_key(key),
            final(self)@[key].answers(board@, depth as nat, maximizing, alpha as int, beta as int),
            final(self)@[key].score == score,
    {
        broadcast use vstd::std_specs::hash::group_hash_axioms;

        proof {
            use_type_invariant(&*self);
            reveal(TranspositionTable::stored);
        }
        let bound = if alpha < score && score < beta {
            Bound::Exact
        } else if score >= beta {
            Bound::Lower
        } else {
            Bound::Upper
        };
        let entry = CacheEntry {
            squares: board.squares,
            turn: board.turn,
            depth,
            maximizing,
            alpha,
            beta,
            bound,
            score,
        };
        assert(entry.sound());
        let mut entries: HashMap<u64, CacheEntry> = HashMap::new();
        core::mem::swap(&mut entries, &mut self.entries);
        if entries.len() >= MAX_ENTRIES && !entries.contains_key(&key) {
            entries.clear();
        }
        entries.insert(key, entry);
        core::mem::swap(&mut entries, &mut self.entries);
    }
}

impl Clone for TranspositionTable {
    fn clone(&self) -> (copy: TranspositionTable)
        ensures
            copy@ == self@,
    {
        broadcast use vstd::std_specs::hash::group_hash_axioms;

        proof {
            use_type_invariant(self);
        }
        TranspositionTable { entries: self.entries.clone() }
    }
}

} // verus!

use chess::game::Turn;
use chess::search::MAX_DEPTH;
use chess::table::{TranspositionTable, MAX_ENTRIES};
use chess::{Board, Color, Move, Piece, Position, Square};

fn empty_board() -> Board {
    let mut board = Board::new();
    board.squares = [[Square::new(Piece::Empty, None); 8]; 8];
    board
}

fn with(turn: Color, pieces: &[(usize, usize, Piece, Color)]) -> Board {
    let mut board = empty_board();
    for &(r, c, piece, color) in pieces {
        board.squares[r][c] = Square::new(piece, Some(color));
    }
    board.turn = turn;
    board
}

fn quiet(piece: Piece, from: (usize, usize), to: (usize, usize)) -> Move {
    Move {
        from: Position { row: from.0, col: from.1 },
        to: Position { row: to.0, col: to.1 },
        piece,
        captured: None,
        score: 0,
    }
}

fn after(board: &Board, mv: &Move) -> Board {
    let mut child = board.branch();
    child.make_move(mv.from, mv.to);
    child
}

/// The quiescence value, computed without any window.
fn plain_quiescence(board: &Board) -> i32 {
    let mut best = board.evaluate_board();
    for mv in board.get_valid_moves(board.turn) {
        if mv.captured.is_some() {
            best = best.max(-plain_quiescence(&after(board, &mv)));
        }
    }
    best
}

/// Minimax without window, pruning or cache.
fn plain_minimax(board: &Board, depth: usize, maximizing: bool) -> i32 {
    if depth == 0 {
        return plain_quiescence(board);
    }
    let color = if maximizing { Color::Black } else { Color::White };
    let mut best = if maximizing { i32::MIN } else { i32::MAX };
    for mv in board.get_valid_moves(color) {
        let value = plain_minimax(&after(board, &mv), depth - 1, !maximizing);
        best = if maximizing { best.max(value) } else { best.min(value) };
    }
    best
}

/// Move selection written out: one running best over depths 1 to 4.
fn plain_selection(board: &Board) -> Option<Move> {
    let color = board.turn;
    let mut best_score = if color == Color::Black { i32::MIN } else { i32::MAX };
    let mut best_move: Option<Move> = None;
    for depth in 1..=MAX_DEPTH {
        for mv in board.get_valid_moves(color) {
            let score = plain_minimax(&after(board, &mv), depth, color == Color::White);
            let better = match color {
                Color::Black => score > best_score,
                Color::White => score < best_score,
            };
            if better {
                best_score = score;
                best_move = Some(mv);
            } else if score == best_score {
                match best_move {
                    Some(held) => {
                        if board.more_criteria(&mv, &held) {
                            best_move = Some(mv);
                        }
                    }
                    None => best_move = Some(mv),
                }
            }
        }
    }
    best_move
}

fn skirmish() -> Board {
    with(
        Color::White,
        &[
            (0, 4, Piece::King, Color::White),
            (3, 3, Piece::Rook, Color::White),
            (2, 5, Piece::Knight, Color::White),
            (1, 1, Piece::Pawn, Color::White),
            (7, 4, Piece::King, Color::Black),
            (3, 6, Piece::Bishop, Color::Black),
            (5, 3, Piece::Knight, Color::Black),
            (6, 6, Piece::Pawn, Color::Black),
        ],
    )
}

fn duel() -> Board {
    with(
        Color::White,
        &[
            (1, 4, Piece::King, Color::White),
            (2, 1, Piece::Pawn, Color::White),
            (6, 3, Piece::King, Color::Black),
            (4, 1, Piece::Knight, Color::Black),
            (5, 6, Piece::Pawn, Color::Black),
        ],
    )
}

#[test]
fn quiescence_stands_pat_when_the_capture_does_not_pay() {
    // evaluation 53; after the rook takes the pawn the evaluation is 69,
    // which cuts the reply off at its upper bound
    let board = with(Color::White, &[(3, 3, Piece::Rook, Color::White), (3, 5, Piece::Pawn, Color::Black)]);
    assert_eq!(board.evaluate_board(), 53);
    assert_eq!(board.quiescence_search(-1000, 1000), 53);
    assert_eq!(board.quiescence_search(i32::MIN, i32::MAX), 53);
}

#[test]
fn quiescence_returns_beta_when_the_evaluation_reaches_it() {
    let board = with(Color::White, &[(3, 3, Piece::Rook, Color::White), (3, 5, Piece::Pawn, Color::Black)]);
    assert_eq!(board.quiescence_search(-1000, 50), 50);
    assert_eq!(board.quiescence_search(-1000, 53), 53);
    assert_eq!(board.quiescence_search(-1000, 54), 53);
}

#[test]
fn quiescence_never_returns_less_than_alpha() {
    let board = with(Color::White, &[(3, 3, Piece::Rook, Color::White), (3, 5, Piece::Pawn, Color::Black)]);
    assert_eq!(board.quiescence_search(60, 1000), 60);
}

#[test]
fn quiescence_takes_the_negated_score_of_a_capture_that_raises_alpha() {
    // evaluation: material 50 - 10 - 88, pawn structure -2, activity
    // 5 - 1 - 10, mobility 12 - 22
    let board = with(
        Color::White,
        &[
            (3, 3, Piece::Rook, Color::White),
            (3, 5, Piece::Pawn, Color::Black),
            (7, 0, Piece::Queen, Color::Black),
        ],
    );
    assert_eq!(board.evaluate_board(), -66);
    // after rook takes pawn: material 50 - 88, activity 5 - 10, mobility
    // 14 - 21; no further capture, so the reply stands pat on -50
    let mut child = board.branch();
    child.make_move(Position { row: 3, col: 3 }, Position { row: 3, col: 5 });
    assert_eq!(child.evaluate_board(), -50);
    assert_eq!(board.quiescence_search(-1000, 1000), 50);
    // cut off at beta
    assert_eq!(board.quiescence_search(-1000, 40), 40);
}

#[test]
fn quiescence_tries_the_captures_of_the_side_to_move() {
    // evaluation: material 50 - 900 - 10, king safety -10, pawn structure
    // -2, activity 5 - 1, mobility 10 - 6
    let mut board = with(
        Color::Black,
        &[
            (7, 4, Piece::King, Color::Black),
            (3, 0, Piece::Pawn, Color::Black),
            (0, 0, Piece::Rook, Color::White),
        ],
    );
    assert_eq!(board.evaluate_board(), -864);
    assert_eq!(board.current_turn(), Color::Black);
    // Black has no capture: the position is quiet
    assert_eq!(board.quiescence_search(-1000, 1000), -864);
    assert_eq!(board.quiescence_search(-500, 1000), -500);
    // White has one: after rook takes pawn the evaluation is
    // 49 - 900 - 10 + 5 + 14 - 5, and Black has no capture in reply
    board.turn = Color::White;
    assert_eq!(board.current_turn(), Color::White);
    assert_eq!(board.quiescence_search(-1000, 1000), 847);
}

#[test]
fn quiescence_follows_a_capture_with_the_reply() {
    // White's rook can take the pawn, and Black's rook can take back.
    let board = with(
        Color::White,
        &[
            (3, 3, Piece::Rook, Color::White),
            (3, 5, Piece::Pawn, Color::Black),
            (7, 5, Piece::Rook, Color::Black),
        ],
    );
    // material 50 - 10 - 50, pawn structure -2, activity 5 - 1 - 5,
    // mobility 12 - 11
    assert_eq!(board.evaluate_board(), -12);
    // after rook takes pawn: material 0, activity 0, mobility 14 - 11
    let taken = after(&board, &board.get_valid_moves(Color::White).pop().unwrap());
    assert_eq!(taken.evaluate_board(), 3);
    // after rook takes rook: material -50, activity -5, mobility -14
    let retaken = after(&taken, &taken.get_valid_moves(Color::Black).pop().unwrap());
    assert_eq!(retaken.evaluate_board(), -69);
    // the reply scores 69 for Black, so the capture scores -69 for White,
    // who stands pat
    assert_eq!(taken.quiescence_search(-1000, 1000), 69);
    assert_eq!(board.quiescence_search(-1000, 1000), -12);
}

/// Quiescence search with the moves tried from the first to the last.
fn forward_quiescence(board: &Board, mut alpha: i32, beta: i32) -> i32 {
    let stand_pat = board.evaluate_board();
    if stand_pat >= beta {
        return beta;
    }
    if alpha < stand_pat {
        alpha = stand_pat;
    }
    for mv in board.get_valid_moves(board.turn) {
        if mv.captured.is_some() {
            let score = -forward_quiescence(&after(board, &mv), -beta, -alpha);
            if score >= beta {
                return beta;
            }
            if score > alpha {
                alpha = score;
            }
        }
    }
    alpha
}

#[test]
fn quiescence_does_not_depend_on_the_order_of_the_captures() {
    let mut dice = Dice(31);
    for n in 0..60 {
        let board = scattered(&mut dice, 3 + n % 5);
        let value = plain_quiescence(&board);
        for (alpha, beta) in [
            (-2000, 2000),
            (value - 3, value + 3),
            (value, value + 1),
            (value - 1, value),
            (-40, 40),
            // empty windows
            (value, value),
            (value + 5, value - 5),
            (50, -50),
            (1000, -1000),
        ] {
            assert_eq!(
                board.quiescence_search(alpha, beta),
                forward_quiescence(&board, alpha, beta),
                "window ({alpha}, {beta})\n{}",
                board.render()
            );
        }
    }
}

#[test]
fn retain_noisy_keeps_the_captures() {
    let board = with(Color::White, &[(3, 3, Piece::Rook, Color::White), (3, 5, Piece::Pawn, Color::Black)]);
    let moves = board.get_valid_moves(Color::White);
    let kept = board.retain_noisy(moves);
    assert_eq!(
        kept,
        vec![Move {
            from: Position { row: 3, col: 3 },
            to: Position { row: 3, col: 5 },
            piece: Piece::Rook,
            captured: Some(Piece::Pawn),
            score: 0,
        }]
    );
}

#[test]
fn search_at_depth_zero_is_quiescence_search() {
    let mut board = skirmish();
    for (alpha, beta) in [(i32::MIN, i32::MAX), (-50, 50), (0, 10), (200, 300)] {
        let expected = board.quiescence_search(alpha, beta);
        assert_eq!(board.minimax(0, true, alpha, beta), expected);
        assert_eq!(board.minimax(0, false, alpha, beta), expected);
    }
}

#[test]
fn search_without_moves_returns_the_worst_score() {
    let mut board = with(Color::White, &[(3, 3, Piece::Rook, Color::White)]);
    // Black moves where the score is maximised, and has no piece
    assert_eq!(board.minimax(1, true, i32::MIN, i32::MAX), i32::MIN);
    assert_eq!(board.minimax(3, true, -5, 5), i32::MIN);
    let mut board = with(Color::Black, &[(3, 3, Piece::Rook, Color::Black)]);
    assert_eq!(board.minimax(1, false, i32::MIN, i32::MAX), i32::MAX);
}

#[test]
fn search_one_ply_takes_the_best_quiescence_value() {
    // White moves where the score is minimised: the pawn has one push
    let mut board = with(Color::White, &[(1, 0, Piece::Pawn, Color::White)]);
    // after the push: material 10 + bonus 1, structure 2, activity 1, one move
    assert_eq!(board.minimax(1, false, i32::MIN, i32::MAX), 15);
    // Black has no move afterwards, so two plies end in the worst score
    // for the maximising side
    assert_eq!(board.minimax(2, false, i32::MIN, i32::MAX), i32::MIN);
}

#[test]
fn alpha_beta_with_the_full_window_equals_plain_minimax() {
    for depth in 0..4 {
        for maximizing in [false, true] {
            if depth < 3 {
                let mut board = Board::new();
                assert_eq!(
                    board.minimax(depth, maximizing, i32::MIN, i32::MAX),
                    plain_minimax(&board, depth, maximizing),
                    "initial position, depth {depth}, maximizing {maximizing}"
                );
            }
            let mut board = duel();
            assert_eq!(
                board.minimax(depth, maximizing, i32::MIN, i32::MAX),
                plain_minimax(&board, depth, maximizing),
                "duel, depth {depth}, maximizing {maximizing}"
            );
        }
    }
}

#[test]
fn alpha_beta_with_the_full_window_equals_plain_minimax_where_pieces_can_be_taken() {
    for depth in 0..3 {
        for maximizing in [false, true] {
            let mut board = skirmish();
            assert_eq!(
                board.minimax(depth, maximizing, i32::MIN, i32::MAX),
                plain_minimax(&board, depth, maximizing),
                "skirmish, depth {depth}, maximizing {maximizing}"
            );
        }
    }
}

#[test]
fn alpha_beta_with_a_window_is_exact_inside_and_a_bound_outside() {
    for depth in 0..3 {
        for maximizing in [false, true] {
            let exact = plain_minimax(&skirmish(), depth, maximizing);
            for (alpha, beta) in [(-1000, 1000), (exact - 1, exact + 1), (exact, exact + 50), (exact - 50, exact), (-20, 20)]
            {
                let result = skirmish().minimax(depth, maximizing, alpha, beta);
                if result <= alpha {
                    assert!(exact <= result);
                } else if result >= beta {
                    assert!(exact >= result);
                } else {
                    assert_eq!(result, exact);
                }
            }
        }
    }
}

#[test]
fn search_leaves_the_position_alone_and_repeats_its_answer() {
    let mut board = skirmish();
    let squares = board.squares;
    let first = board.minimax(3, false, i32::MIN, i32::MAX);
    assert_eq!(board.squares, squares);
    assert_eq!(board.turn, Color::White);
    // the second call is answered from the cache
    assert_eq!(board.minimax(3, false, i32::MIN, i32::MAX), first);
    assert_eq!(board.minimax(3, false, first - 10, first + 10), first);
}

#[test]
fn cache_hands_out_only_what_the_search_would_find() {
    let mut board = skirmish();
    let key = board.hash();
    assert_eq!(board.transposition_table.probe(key, &board, 2, false, -1000, 1000), None);

    let exact = board.minimax(2, false, -1000, 1000);
    assert_eq!(exact, plain_minimax(&board, 2, false));
    let table = &board.transposition_table;
    // the same search
    assert_eq!(table.probe(key, &board, 2, false, -1000, 1000), Some(exact));
    // an exact score answers every window that holds it
    assert_eq!(table.probe(key, &board, 2, false, exact - 1, exact + 1), Some(exact));
    assert_eq!(table.probe(key, &board, 2, false, i32::MIN, i32::MAX), Some(exact));
    // but no window that does not
    assert_eq!(table.probe(key, &board, 2, false, exact, exact + 100), None);
    assert_eq!(table.probe(key, &board, 2, false, exact - 100, exact), None);
    // and no other depth, side, key or position
    assert_eq!(table.probe(key, &board, 3, false, -1000, 1000), None);
    assert_eq!(table.probe(key, &board, 2, true, -1000, 1000), None);
    assert_eq!(table.probe(key ^ 1, &board, 2, false, -1000, 1000), None);
    let mut other = board.branch();
    other.turn = Color::Black;
    assert_eq!(table.probe(key, &other, 2, false, -1000, 1000), None);
    let mut other = board.branch();
    other.squares[1][1] = Square::new(Piece::Empty, None);
    assert_eq!(table.probe(key, &other, 2, false, -1000, 1000), None);
}

#[test]
fn cache_hands_out_a_bound_only_for_its_own_window() {
    let mut board = skirmish();
    let key = board.hash();
    let exact = plain_minimax(&board, 2, false);
    // a window below the value: the search fails high
    let high = board.minimax(2, false, exact - 100, exact - 50);
    assert!(high >= exact - 50);
    let table = &board.transposition_table;
    assert_eq!(table.probe(key, &board, 2, false, exact - 100, exact - 50), Some(high));
    assert_eq!(table.probe(key, &board, 2, false, exact - 100, exact + 50), None);
    assert_eq!(table.probe(key, &board, 2, false, i32::MIN, i32::MAX), None);
}

#[test]
fn a_later_search_replaces_what_was_cached_for_the_position() {
    let mut board = skirmish();
    let key = board.hash();
    let shallow = board.minimax(1, false, -1000, 1000);
    assert_eq!(board.transposition_table.probe(key, &board, 1, false, -1000, 1000), Some(shallow));
    let deep = board.minimax(2, false, -1000, 1000);
    assert_eq!(board.transposition_table.probe(key, &board, 2, false, -1000, 1000), Some(deep));
    assert_eq!(board.transposition_table.probe(key, &board, 1, false, -1000, 1000), None);
    // the positions one move on are cached as well, one ply shallower
    let mv = board.get_valid_moves(Color::White)[0];
    let child = after(&board, &mv);
    assert!(board.transposition_table.probe(child.hash(), &child, 1, true, -1000, 1000).is_some());
    // a copy of the table holds the same entries
    let copy = board.transposition_table.clone();
    assert_eq!(copy.probe(key, &board, 2, false, -1000, 1000), Some(deep));
    // and so does a copy of the board, but not a branch
    let twin = board.clone();
    assert_eq!(twin.transposition_table.probe(key, &board, 2, false, -1000, 1000), Some(deep));
    assert_eq!(board.branch().transposition_table.probe(key, &board, 2, false, -1000, 1000), None);
    // a fresh table holds nothing
    assert_eq!(TranspositionTable::new().probe(key, &board, 2, false, -1000, 1000), None);
}

#[test]
fn the_cache_is_emptied_when_it_is_full() {
    assert_eq!(MAX_ENTRIES, 262144);
    let mut board = Board::new();
    assert_eq!(board.transposition_table.len(), 0);
    let mut sizes = Vec::new();
    for _ in 0..11 {
        let best = board.find_best_move().expect("the game goes on");
        let held = board.transposition_table.len();
        assert!(held <= MAX_ENTRIES);
        assert!(held > 0);
        sizes.push(held);
        board.make_move(best.from, best.to);
    }
    // the cache is carried from move to move and grows, until a result
    // comes in that it has no room for
    assert!(sizes[0] < sizes[1] && sizes[1] < sizes[2]);
    assert!(sizes.windows(2).any(|pair| pair[1] < pair[0]));
}

#[test]
fn first_move_from_the_initial_position_flips_the_turn() {
    let mut board = Board::new();
    let before = board.squares;
    let offered = board.get_valid_moves(Color::White);
    let best = board.find_best_move().expect("White has moves");
    assert!(offered.contains(&best));
    assert_eq!(best.piece, Piece::Pawn);
    assert_eq!(board.squares, before);
    assert_eq!(board.turn, Color::White);
    board.make_move(best.from, best.to);
    assert_eq!(board.turn, Color::Black);
    assert_eq!(board.squares[best.from.row][best.from.col], Square::new(Piece::Empty, None));
    assert_eq!(board.squares[best.to.row][best.to.col], Square::new(best.piece, Some(Color::White)));
}

#[test]
fn best_move_is_what_plain_selection_over_plain_minimax_gives() {
    let mut black_to_move = duel();
    black_to_move.turn = Color::Black;
    for mut board in [
        duel(),
        black_to_move,
        with(Color::White, &[(1, 0, Piece::Pawn, Color::White), (1, 3, Piece::Pawn, Color::White)]),
    ] {
        let expected = plain_selection(&board);
        assert!(expected.is_some());
        assert_eq!(board.find_best_move(), expected);
    }
}

#[test]
fn selection_deepens_to_four_plies() {
    assert_eq!(MAX_DEPTH, 4);
}

#[test]
fn the_only_move_is_the_best_move() {
    let mut board = with(Color::White, &[(1, 0, Piece::Pawn, Color::White)]);
    assert_eq!(board.find_best_move(), Some(quiet(Piece::Pawn, (1, 0), (2, 0))));
    let mut board = with(Color::Black, &[(6, 7, Piece::Pawn, Color::Black)]);
    assert_eq!(board.find_best_move(), Some(quiet(Piece::Pawn, (6, 7), (5, 7))));
}

#[test]
fn no_move_without_check_gives_no_best_move_and_no_checkmate() {
    let mut board = with(Color::White, &[(7, 0, Piece::Pawn, Color::White), (0, 0, Piece::Rook, Color::Black)]);
    assert_eq!(board.find_best_move(), None);
    assert!(!board.is_checkmate(Color::White));
}

#[test]
fn no_move_and_in_check_is_checkmate() {
    let mut board = empty_board();
    board.squares[7][0] = Square::new(Piece::King, Some(Color::Black));
    board.squares[7][1] = Square::new(Piece::Pawn, Some(Color::Black));
    board.squares[6][0] = Square::new(Piece::Pawn, Some(Color::Black));
    board.squares[6][1] = Square::new(Piece::Pawn, Some(Color::Black));
    board.squares[5][0] = Square::new(Piece::Pawn, Some(Color::White));
    board.squares[5][1] = Square::new(Piece::Knight, Some(Color::White));
    board.turn = Color::Black;
    assert!(board.get_valid_moves(Color::Black).is_empty());
    assert!(board.is_in_check(Color::Black));
    assert_eq!(board.find_best_move(), None);
    assert!(board.is_checkmate(Color::Black));
    assert!(!board.is_checkmate(Color::White));
}

#[test]
fn tie_break_prefers_the_centre() {
    let board = Board::new();
    let to_centre = quiet(Piece::Pawn, (2, 3), (3, 3));
    let elsewhere = quiet(Piece::Pawn, (1, 0), (2, 0));
    assert!(board.more_criteria(&to_centre, &elsewhere));
    assert!(!board.more_criteria(&elsewhere, &to_centre));
    for centre in [(3, 3), (3, 4), (4, 3), (4, 4)] {
        assert!(Board::controls_center(&Position { row: centre.0, col: centre.1 }));
    }
    for other in [(2, 3), (3, 2), (5, 4), (4, 5), (0, 0), (3, 7)] {
        assert!(!Board::controls_center(&Position { row: other.0, col: other.1 }));
    }
}

#[test]
fn tie_break_then_prefers_the_move_that_leaves_more_moves() {
    // The black rook has 14 moves. A white rook on (4, 7) leaves it 10:
    // seven along the row, two down the column and the capture.
    let board = with(Color::White, &[(4, 0, Piece::Rook, Color::White), (7, 7, Piece::Rook, Color::Black)]);
    let blocking = quiet(Piece::Rook, (4, 0), (4, 7));
    let passing = quiet(Piece::Rook, (4, 0), (4, 6));
    assert_eq!(board.get_valid_moves_after_move(&blocking).len(), 10);
    assert_eq!(board.get_valid_moves_after_move(&passing).len(), 14);
    assert!(board.more_criteria(&passing, &blocking));
    assert!(!board.more_criteria(&blocking, &passing));
    // two moves to the centre fall through to mobility as well
    let centre_a = quiet(Piece::Rook, (4, 0), (4, 3));
    let centre_b = quiet(Piece::Rook, (4, 0), (4, 4));
    assert!(!board.more_criteria(&centre_a, &centre_b));
    assert!(!board.more_criteria(&centre_b, &centre_a));
}

#[test]
fn tie_break_keeps_the_earlier_move_when_nothing_tells_them_apart() {
    let board = Board::new();
    let a = quiet(Piece::Pawn, (1, 0), (2, 0));
    let b = quiet(Piece::Pawn, (1, 7), (2, 7));
    assert!(!board.more_criteria(&a, &b));
    assert!(!board.more_criteria(&b, &a));
    assert!(!board.more_criteria(&a, &a));
}

#[test]
fn moves_after_a_move_are_those_of_the_side_then_to_move() {
    let board = Board::new();
    let push = quiet(Piece::Pawn, (1, 4), (2, 4));
    let moves = board.get_valid_moves_after_move(&push);
    assert_eq!(moves.len(), 12);
    assert!(moves.iter().all(|m| board.squares[m.from.row][m.from.col].color == Some(Color::Black)));
}

#[test]
fn a_turn_makes_the_best_move() {
    let mut board = duel();
    let expected = plain_selection(&board).unwrap();
    let before = board.branch();
    match board.play_turn() {
        Turn::Moved(mv) => {
            assert_eq!(mv, expected);
            assert_eq!(board.squares, after(&before, &mv).squares);
            assert_eq!(board.turn, Color::Black);
            assert!(!board.is_checkmate(Color::Black));
        }
        _ => panic!("the game goes on"),
    }
}

#[test]
fn a_turn_without_a_move_leaves_the_board_alone() {
    let mut board = with(Color::White, &[(7, 0, Piece::Pawn, Color::White), (0, 0, Piece::Rook, Color::Black)]);
    let squares = board.squares;
    assert!(matches!(board.play_turn(), Turn::Stuck));
    assert_eq!(board.squares, squares);
    assert_eq!(board.turn, Color::White);
}

#[test]
fn a_turn_that_checkmates_says_so() {
    // White's only move is the knight's leap to (6, 2), which attacks the
    // boxed-in king.
    let mut board = with(
        Color::White,
        &[
            (7, 0, Piece::King, Color::Black),
            (7, 1, Piece::Pawn, Color::Black),
            (6, 0, Piece::Pawn, Color::Black),
            (6, 1, Piece::Pawn, Color::Black),
            (6, 3, Piece::Pawn, Color::Black),
            (6, 5, Piece::Pawn, Color::Black),
            (7, 6, Piece::Pawn, Color::Black),
            (5, 0, Piece::Pawn, Color::White),
            (5, 1, Piece::Pawn, Color::White),
            (5, 3, Piece::Pawn, Color::White),
            (5, 5, Piece::Pawn, Color::White),
            (6, 6, Piece::Pawn, Color::White),
            (7, 4, Piece::Knight, Color::White),
        ],
    );
    assert_eq!(board.get_valid_moves(Color::White), vec![quiet(Piece::Knight, (7, 4), (6, 2))]);
    assert!(board.get_valid_moves(Color::Black).is_empty());
    match board.play_turn() {
        Turn::Mated(mv) => assert_eq!(mv, quiet(Piece::Knight, (7, 4), (6, 2))),
        _ => panic!("Black is checkmated"),
    }
    assert_eq!(board.turn, Color::Black);
    assert!(board.is_checkmate(Color::Black));
    assert!(matches!(board.play_turn(), Turn::Stuck));
}

/// A small deterministic generator of test positions.
struct Dice(u64);

impl Dice {
    fn roll(&mut self, sides: u64) -> u64 {
        self.0 = self.0.wrapping_mul(6364136223846793005).wrapping_add(1442695040888963407);
        (self.0 >> 33) % sides
    }
}

fn scattered(dice: &mut Dice, pieces: usize) -> Board {
    let kinds = [Piece::King, Piece::Queen, Piece::Rook, Piece::Bishop, Piece::Knight, Piece::Pawn];
    let mut board = empty_board();
    for _ in 0..pieces {
        let r = dice.roll(8) as usize;
        let c = dice.roll(8) as usize;
        let color = if dice.roll(2) == 0 { Color::White } else { Color::Black };
        board.squares[r][c] = Square::new(kinds[dice.roll(6) as usize], Some(color));
    }
    board.turn = if dice.roll(2) == 0 { Color::White } else { Color::Black };
    board
}

#[test]
fn quiescence_search_is_the_quiescence_value_brought_into_the_window() {
    let mut dice = Dice(99);
    for n in 0..40 {
        let board = scattered(&mut dice, 3 + n % 4);
        let value = plain_quiescence(&board);
        assert_eq!(board.quiescence_search(i32::MIN, i32::MAX), value);
        for (alpha, beta) in [(-2000, 2000), (value - 7, value + 7), (value, value + 30), (value - 30, value), (-15, 15)] {
            assert_eq!(board.quiescence_search(alpha, beta), value.clamp(alpha, beta), "\n{}", board.render());
        }
    }
}

#[test]
fn alpha_beta_equals_plain_minimax_on_scattered_positions() {
    let mut dice = Dice(4711);
    for n in 0..30 {
        let mut board = scattered(&mut dice, 3 + n % 3);
        for depth in 0..3 {
            for maximizing in [false, true] {
                let exact = plain_minimax(&board, depth, maximizing);
                assert_eq!(board.minimax(depth, maximizing, i32::MIN, i32::MAX), exact, "\n{}", board.render());
                // the worst scores lie at the ends of the range: no window holds them
                if exact != i32::MIN && exact != i32::MAX {
                    assert_eq!(board.minimax(depth, maximizing, exact - 5, exact + 5), exact);
                }
            }
        }
    }
}

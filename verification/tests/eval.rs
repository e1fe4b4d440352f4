use chess::{Board, Color, Piece, Square};

fn empty_board() -> Board {
    let mut board = Board::new();
    board.squares = [[Square::new(Piece::Empty, None); 8]; 8];
    board
}

fn with(pieces: &[(usize, usize, Piece, Color)]) -> Board {
    let mut board = empty_board();
    for &(r, c, piece, color) in pieces {
        board.squares[r][c] = Square::new(piece, Some(color));
    }
    board
}

fn color_swapped(board: &Board) -> Board {
    let mut swapped = board.branch();
    for r in 0..8 {
        for c in 0..8 {
            swapped.squares[r][c].color = match board.squares[r][c].color {
                Some(Color::White) => Some(Color::Black),
                Some(Color::Black) => Some(Color::White),
                None => None,
            };
        }
    }
    swapped
}

#[test]
fn empty_board_evaluates_to_zero() {
    let board = empty_board();
    assert_eq!(board.evaluate_board(), 0);
    assert_eq!(board.evaluate_king_safety(), 0);
    assert_eq!(board.evaluate_pawn_structure(), 0);
    assert_eq!(board.evaluate_piece_activity(), 0);
}

#[test]
fn initial_position_evaluates_to_the_difference_of_the_square_bonuses() {
    // Material, king safety, pawn structure, activity and mobility are the
    // same for both sides. White's pieces collect -15 + 40 from the tables,
    // Black's -10 + 6.
    let board = Board::new();
    assert_eq!(board.evaluate_king_safety(), 0);
    assert_eq!(board.evaluate_pawn_structure(), 0);
    assert_eq!(board.evaluate_piece_activity(), 0);
    assert_eq!(board.evaluate_board(), 29);
}

#[test]
fn lone_rook_counts_material_bonus_activity_and_mobility() {
    // 50 material + 0 bonus + 5 activity + 14 moves
    let board = with(&[(3, 3, Piece::Rook, Color::White)]);
    assert_eq!(board.evaluate_board(), 69);
    // the same rook for Black counts against White
    let board = with(&[(3, 3, Piece::Rook, Color::Black)]);
    assert_eq!(board.evaluate_board(), -69);
}

#[test]
fn rook_bonus_depends_on_the_square() {
    // 50 material + 2 bonus on (1, 1) + 5 activity + 14 moves
    let board = with(&[(1, 1, Piece::Rook, Color::White)]);
    assert_eq!(board.evaluate_board(), 71);
}

#[test]
fn king_safety_is_twenty_on_an_own_back_rank_corner_and_ten_elsewhere() {
    assert_eq!(with(&[(0, 0, Piece::King, Color::White)]).evaluate_king_safety(), 20);
    assert_eq!(with(&[(0, 7, Piece::King, Color::White)]).evaluate_king_safety(), 20);
    assert_eq!(with(&[(7, 0, Piece::King, Color::White)]).evaluate_king_safety(), 10);
    assert_eq!(with(&[(3, 3, Piece::King, Color::White)]).evaluate_king_safety(), 10);
    assert_eq!(with(&[(7, 7, Piece::King, Color::Black)]).evaluate_king_safety(), -20);
    assert_eq!(with(&[(7, 0, Piece::King, Color::Black)]).evaluate_king_safety(), -20);
    assert_eq!(with(&[(0, 0, Piece::King, Color::Black)]).evaluate_king_safety(), -10);
    assert_eq!(with(&[(4, 4, Piece::King, Color::Black)]).evaluate_king_safety(), -10);
    assert_eq!(
        with(&[(0, 0, Piece::King, Color::White), (4, 4, Piece::King, Color::Black)]).evaluate_king_safety(),
        10
    );
}

#[test]
fn pawn_structure_is_five_on_the_central_files_and_two_elsewhere() {
    assert_eq!(with(&[(2, 3, Piece::Pawn, Color::White)]).evaluate_pawn_structure(), 5);
    assert_eq!(with(&[(2, 4, Piece::Pawn, Color::White)]).evaluate_pawn_structure(), 5);
    assert_eq!(with(&[(2, 2, Piece::Pawn, Color::White)]).evaluate_pawn_structure(), 2);
    assert_eq!(with(&[(5, 0, Piece::Pawn, Color::Black)]).evaluate_pawn_structure(), -2);
    assert_eq!(with(&[(5, 4, Piece::Pawn, Color::Black)]).evaluate_pawn_structure(), -5);
    assert_eq!(
        with(&[(2, 3, Piece::Pawn, Color::White), (5, 0, Piece::Pawn, Color::Black)]).evaluate_pawn_structure(),
        3
    );
    // only pawns count
    assert_eq!(with(&[(2, 3, Piece::Queen, Color::White)]).evaluate_pawn_structure(), 0);
}

#[test]
fn activity_is_a_flat_bonus_per_piece_kind() {
    assert_eq!(with(&[(3, 3, Piece::King, Color::White)]).evaluate_piece_activity(), 0);
    assert_eq!(with(&[(3, 3, Piece::Queen, Color::White)]).evaluate_piece_activity(), 10);
    assert_eq!(with(&[(3, 3, Piece::Rook, Color::White)]).evaluate_piece_activity(), 5);
    assert_eq!(with(&[(3, 3, Piece::Bishop, Color::White)]).evaluate_piece_activity(), 3);
    assert_eq!(with(&[(3, 3, Piece::Knight, Color::White)]).evaluate_piece_activity(), 3);
    assert_eq!(with(&[(3, 3, Piece::Pawn, Color::White)]).evaluate_piece_activity(), 1);
    assert_eq!(with(&[(3, 3, Piece::Queen, Color::Black)]).evaluate_piece_activity(), -10);
    assert_eq!(
        with(&[(3, 3, Piece::Queen, Color::White), (5, 5, Piece::Knight, Color::Black)]).evaluate_piece_activity(),
        7
    );
}

#[test]
fn mobility_counts_white_moves_minus_black_moves() {
    // rook: 12 moves with the pawn in its way (one of them the capture);
    // pawn: one push.
    // material 50 - 10, bonus 0, pawn structure -2, activity 5 - 1, mobility 12 - 1
    let board = with(&[(3, 3, Piece::Rook, Color::White), (3, 5, Piece::Pawn, Color::Black)]);
    assert_eq!(board.get_valid_moves(Color::White).len(), 12);
    assert_eq!(board.get_valid_moves(Color::Black).len(), 1);
    assert_eq!(board.evaluate_board(), 53);
}

#[test]
fn evaluation_changes_sign_with_the_colours_without_pawns_and_corner_kings() {
    let board = with(&[
        (3, 3, Piece::Rook, Color::White),
        (0, 4, Piece::King, Color::White),
        (2, 6, Piece::Knight, Color::White),
        (7, 4, Piece::King, Color::Black),
        (5, 5, Piece::Queen, Color::Black),
        (6, 2, Piece::Bishop, Color::Black),
    ]);
    let swapped = color_swapped(&board);
    assert_eq!(swapped.evaluate_board(), -board.evaluate_board());
    assert_eq!(swapped.evaluate_king_safety(), -board.evaluate_king_safety());
    assert_eq!(swapped.evaluate_piece_activity(), -board.evaluate_piece_activity());
    assert_ne!(board.evaluate_board(), 0);
}

#[test]
fn a_corner_king_gives_the_evaluation_a_colour_bias() {
    // White king on its own corner: 900 - 3 + 20 + 0 + 3 moves.
    let board = with(&[(0, 0, Piece::King, Color::White)]);
    assert_eq!(board.evaluate_board(), 920);
    // A black king there is far from home: -(900 - 3) - 10 - 0 - 3 moves.
    let swapped = color_swapped(&board);
    assert_eq!(swapped.evaluate_board(), -910);
}

#[test]
fn a_pawn_gives_the_evaluation_a_colour_bias_at_the_edge() {
    // A white pawn on the last row cannot move; a black pawn there can.
    let board = with(&[(7, 0, Piece::Pawn, Color::White)]);
    // 10 + 0 bonus + 2 structure + 1 activity + 0 moves
    assert_eq!(board.evaluate_board(), 13);
    let swapped = color_swapped(&board);
    // -(10 + 0) - 2 - 1 - 1 move
    assert_eq!(swapped.evaluate_board(), -14);
}

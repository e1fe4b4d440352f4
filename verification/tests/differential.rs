use chess::movegen::order_moves;
use chess::{Board, Color, Move, Piece, Position, Square};

/// A small deterministic generator of test positions.
struct Dice(u64);

impl Dice {
    fn roll(&mut self, sides: u64) -> u64 {
        self.0 = self.0.wrapping_mul(6364136223846793005).wrapping_add(1442695040888963407);
        (self.0 >> 33) % sides
    }
}

const KINDS: [Piece; 6] = [Piece::King, Piece::Queen, Piece::Rook, Piece::Bishop, Piece::Knight, Piece::Pawn];

fn scattered(dice: &mut Dice, pieces: usize, well_formed: bool) -> Board {
    let mut board = Board::new();
    board.squares = [[Square::new(Piece::Empty, None); 8]; 8];
    for _ in 0..pieces {
        let r = dice.roll(8) as usize;
        let c = dice.roll(8) as usize;
        let piece = KINDS[dice.roll(6) as usize];
        let color = match dice.roll(if well_formed { 2 } else { 3 }) {
            0 => Some(Color::White),
            1 => Some(Color::Black),
            _ => None,
        };
        board.squares[r][c] = Square::new(piece, color);
    }
    if !well_formed {
        let r = dice.roll(8) as usize;
        let c = dice.roll(8) as usize;
        board.squares[r][c] = Square::new(Piece::Empty, Some(Color::White));
    }
    board.turn = if dice.roll(2) == 0 { Color::White } else { Color::Black };
    board
}

fn positions() -> Vec<Board> {
    let mut dice = Dice(2024);
    let mut boards = vec![Board::new()];
    for n in 0..60 {
        boards.push(scattered(&mut dice, 2 + n % 20, n % 3 != 0));
    }
    boards
}

fn worth(mv: &Move) -> i32 {
    match mv.captured {
        Some(piece) => piece.value(),
        None => 0,
    }
}

/// Move generation written out step by step, with the standard stable sort.
fn stepwise_moves(board: &Board, color: Color) -> Vec<Move> {
    let mut moves = Vec::new();
    for r in 0..8isize {
        for c in 0..8isize {
            let square = board.squares[r as usize][c as usize];
            if square.color != Some(color) {
                continue;
            }
            let from = Position { row: r as usize, col: c as usize };
            let mut offer = |tr: isize, tc: isize, captured: Option<Piece>| {
                moves.push(Move {
                    from,
                    to: Position { row: tr as usize, col: tc as usize },
                    piece: square.piece,
                    captured,
                    score: 0,
                })
            };
            if square.piece == Piece::Pawn {
                let tr = if color == Color::White { r + 1 } else { r - 1 };
                if (0..8).contains(&tr) && board.squares[tr as usize][c as usize].piece == Piece::Empty {
                    offer(tr, c, None);
                }
                continue;
            }
            let single = matches!(square.piece, Piece::King | Piece::Knight);
            for (dr, dc) in square.piece.directions() {
                let (mut tr, mut tc) = (r + dr, c + dc);
                while (0..8).contains(&tr) && (0..8).contains(&tc) {
                    let target = board.squares[tr as usize][tc as usize];
                    if target.piece != Piece::Empty {
                        if target.color != Some(color) {
                            offer(tr, tc, Some(target.piece));
                        }
                        break;
                    }
                    offer(tr, tc, None);
                    if single {
                        break;
                    }
                    tr += dr;
                    tc += dc;
                }
            }
        }
    }
    moves.sort_by_key(worth);
    moves
}

/// The evaluation written out term by term.
fn stepwise_evaluation(board: &Board) -> i32 {
    let mut score = 0;
    for r in 0..8 {
        for c in 0..8 {
            let square = board.squares[r][c];
            let sign = match square.color {
                Some(Color::White) => 1,
                Some(Color::Black) => -1,
                None => 0,
            };
            let home = if square.color == Some(Color::White) { 0 } else { 7 };
            let corner = r == home && (c == 0 || c == 7);
            let (king, pawn, activity) = match square.piece {
                Piece::King => (if corner { 20 } else { 10 }, 0, 0),
                Piece::Queen => (0, 0, 10),
                Piece::Rook => (0, 0, 5),
                Piece::Bishop | Piece::Knight => (0, 0, 3),
                Piece::Pawn => (0, if c == 3 || c == 4 { 5 } else { 2 }, 1),
                Piece::Empty => (0, 0, 0),
            };
            score += sign * (square.piece.value() + square.piece.table()[r][c] + king + pawn + activity);
        }
    }
    score + stepwise_moves(board, Color::White).len() as i32 - stepwise_moves(board, Color::Black).len() as i32
}

#[test]
fn generator_agrees_with_stepwise_generation() {
    for board in positions() {
        for color in [Color::White, Color::Black] {
            assert_eq!(board.get_valid_moves(color), stepwise_moves(&board, color), "\n{}", board.render());
        }
    }
}

#[test]
fn generator_offers_no_move_twice() {
    for board in positions() {
        for color in [Color::White, Color::Black] {
            let moves = board.get_valid_moves(color);
            for (i, a) in moves.iter().enumerate() {
                assert!(!moves[..i].contains(a));
            }
            assert!(moves.len() <= 4096);
        }
    }
}

#[test]
fn ordering_agrees_with_the_standard_stable_sort() {
    let mut dice = Dice(7);
    for len in 0..40 {
        let moves: Vec<Move> = (0..len)
            .map(|n| Move {
                from: Position { row: n % 8, col: n / 8 },
                to: Position { row: dice.roll(8) as usize, col: dice.roll(8) as usize },
                piece: KINDS[dice.roll(6) as usize],
                captured: match dice.roll(8) {
                    6 => Some(Piece::Empty),
                    7 => None,
                    k => Some(KINDS[k as usize]),
                },
                score: 0,
            })
            .collect();
        let mut expected = moves.clone();
        expected.sort_by_key(worth);
        assert_eq!(order_moves(moves), expected);
    }
}

#[test]
fn evaluation_agrees_with_stepwise_evaluation() {
    for board in positions() {
        assert_eq!(board.evaluate_board(), stepwise_evaluation(&board), "\n{}", board.render());
    }
}

#[test]
fn check_agrees_with_a_search_for_a_move_onto_the_first_king() {
    for board in positions() {
        for color in [Color::White, Color::Black] {
            let other = if color == Color::White { Color::Black } else { Color::White };
            let mut king = None;
            'scan: for r in 0..8 {
                for c in 0..8 {
                    if board.squares[r][c] == Square::new(Piece::King, Some(color)) {
                        king = Some((r, c));
                        break 'scan;
                    }
                }
            }
            assert_eq!(board.find_king(color), king);
            let expected = match king {
                Some((r, c)) => stepwise_moves(&board, other).iter().any(|m| m.to == Position { row: r, col: c }),
                None => false,
            };
            assert_eq!(board.is_in_check(color), expected);
            assert_eq!(board.is_checkmate(color), expected && stepwise_moves(&board, color).is_empty());
        }
    }
}

#[test]
fn fingerprint_after_a_move_agrees_with_the_fingerprint_of_the_result() {
    for board in positions() {
        let key = board.hash();
        for mv in board.get_valid_moves(board.turn) {
            let mut child = board.branch();
            child.make_move(mv.from, mv.to);
            assert_eq!(board.hash_after(key, &mv), child.hash());
        }
    }
}

#[test]
fn well_formedness_agrees_with_a_scan() {
    for board in positions() {
        let expected = board
            .squares
            .iter()
            .flatten()
            .all(|sq| (sq.piece == Piece::Empty) == sq.color.is_none());
        assert_eq!(board.is_well_formed(), expected);
    }
}

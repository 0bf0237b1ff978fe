use rusty_chess::game::Game;
use rusty_chess::moves::Move;
use rusty_chess::moves::MoveType;
use rusty_chess::moves::UserInput;
use rusty_chess::moves::UserOutput;
use rusty_chess::pieces::Color;
use rusty_chess::pieces::Piece;
use rusty_chess::pieces::PieceType;
use rusty_chess::pieces::Position;

fn sq(name: &str) -> Position {
    let mut chars = name.chars();
    Position(chars.next().unwrap(), chars.next().unwrap())
}

fn play(game: &mut Game, from: &str, to: &str) -> Option<UserOutput> {
    game.process_input(&UserInput::Move(sq(from), sq(to)))
}

fn play_all(game: &mut Game, line: &[(&str, &str)]) {
    for (from, to) in line {
        assert_eq!(play(game, from, to), None, "{from}{to}");
    }
}

fn at(game: &Game, name: &str) -> Option<Piece> {
    game.board[sq(name).as_index()]
}

fn piece(piece_type: PieceType, color: Color) -> Option<Piece> {
    Some(Piece::new(piece_type, color))
}

/// A game on an empty board with the given pieces, no right to castle, and
/// the attacks computed.
fn position(turn: Color, pieces: &[(&str, PieceType, Color)]) -> Game {
    let mut game = Game::new();
    game.board = [None; 64];
    for (name, piece_type, color) in pieces {
        game.board[sq(name).as_index()] = piece(*piece_type, *color);
    }
    game.turn = turn;
    game.able_to_long_castle = [false, false];
    game.able_to_short_castle = [false, false];
    game.number_of_repeated_board_states.clear();
    game.refresh();
    game
}

fn destinations(moves: &[Move]) -> Vec<Position> {
    moves.iter().map(|m| m.to).collect()
}

#[test]
fn twenty_moves_at_the_start() {
    let game = Game::new();
    let moves = game.get_all_currently_valid_moves();
    assert_eq!(moves.len(), 20);
    let pawns = moves.iter().filter(|m| m.piece.piece_type == PieceType::Pawn).count();
    let knights = moves.iter().filter(|m| m.piece.piece_type == PieceType::Knight).count();
    assert_eq!(pawns, 16);
    assert_eq!(knights, 4);
    assert!(moves.iter().all(|m| m.piece.color == Color::White));
}

#[test]
fn start_position_is_the_standard_one() {
    let game = Game::new();
    assert_eq!(game.turn, Color::White);
    assert_eq!(at(&game, "a1"), piece(PieceType::Rook, Color::White));
    assert_eq!(at(&game, "b1"), piece(PieceType::Knight, Color::White));
    assert_eq!(at(&game, "c1"), piece(PieceType::Bishop, Color::White));
    assert_eq!(at(&game, "d1"), piece(PieceType::Queen, Color::White));
    assert_eq!(at(&game, "e1"), piece(PieceType::King, Color::White));
    assert_eq!(at(&game, "h8"), piece(PieceType::Rook, Color::Black));
    assert_eq!(at(&game, "d8"), piece(PieceType::Queen, Color::Black));
    assert_eq!(at(&game, "e8"), piece(PieceType::King, Color::Black));
    assert_eq!(at(&game, "c2"), piece(PieceType::Pawn, Color::White));
    assert_eq!(at(&game, "f7"), piece(PieceType::Pawn, Color::Black));
    assert_eq!(at(&game, "e4"), None);
    assert!(game.history.is_empty());
    assert!(!game.check(Color::White));
    assert!(!game.check(Color::Black));
    assert!(!game.is_a_draw());
}

#[test]
fn three_opening_moves_enter_the_history_in_order() {
    let mut game = Game::new();
    assert_eq!(play(&mut game, "e2", "e4"), None);
    assert_eq!(play(&mut game, "e7", "e5"), None);
    assert_eq!(play(&mut game, "f1", "c4"), None);
    assert_eq!(game.history.len(), 3);
    assert_eq!((game.history[0].from, game.history[0].to), (sq("e2"), sq("e4")));
    assert_eq!((game.history[1].from, game.history[1].to), (sq("e7"), sq("e5")));
    assert_eq!((game.history[2].from, game.history[2].to), (sq("f1"), sq("c4")));
    assert_eq!(game.history[2].piece, Piece::new(PieceType::Bishop, Color::White));
    assert_eq!(game.history[2].traversed_squares, vec![sq("f1"), sq("e2"), sq("d3"), sq("c4")]);
    assert_eq!(game.turn, Color::Black);
}

#[test]
fn invalid_moves_change_nothing() {
    let mut game = Game::new();
    let before = game.clone();
    // no piece there
    assert_eq!(play(&mut game, "e4", "e5"), Some(UserOutput::InvalidMove));
    // the other side's piece
    assert_eq!(play(&mut game, "e7", "e5"), Some(UserOutput::InvalidMove));
    // not a move of that piece
    assert_eq!(play(&mut game, "e2", "e5"), Some(UserOutput::InvalidMove));
    // off the board
    assert_eq!(play(&mut game, "i2", "i4"), Some(UserOutput::InvalidMove));
    assert_eq!(play(&mut game, "e2", "e9"), Some(UserOutput::InvalidMove));
    assert_eq!(game.board, before.board);
    assert_eq!(game.turn, before.turn);
    assert_eq!(game.history, before.history);
    assert_eq!(game.number_of_repeated_board_states, before.number_of_repeated_board_states);
}

#[test]
fn a_pinned_pawn_has_no_move() {
    let mut game = Game::new();
    play_all(&mut game, &[("e2", "e4"), ("e7", "e5"), ("f1", "b5")]);
    assert!(game.get_valid_moves(sq("d7")).is_empty());
    assert_eq!(play(&mut game, "d7", "d6"), Some(UserOutput::InvalidMove));
    // the pseudo-legal moves are still there
    assert_eq!(destinations(&game.pseudo_legal_moves(sq("d7"), false)), vec![sq("d6"), sq("d5")]);
}

#[test]
fn no_legal_move_leaves_the_own_king_in_check() {
    let mut game = Game::new();
    play_all(
        &mut game,
        &[("e2", "e4"), ("e7", "e5"), ("d1", "h5"), ("b8", "c6"), ("f1", "c4"), ("g8", "f6")],
    );
    let mover = game.turn;
    for mv in game.get_all_currently_valid_moves() {
        let mut after = game.clone();
        let out = after.process_input(&UserInput::Move(mv.from, mv.to));
        assert_ne!(out, Some(UserOutput::InvalidMove));
        assert!(!after.check(mover), "{:?}", mv);
    }
}

#[test]
fn fools_mate() {
    let mut game = Game::new();
    play_all(&mut game, &[("f2", "f3"), ("e7", "e5"), ("g2", "g4")]);
    assert_eq!(play(&mut game, "d8", "h4"), Some(UserOutput::CheckMate));
    assert_eq!(game.turn, Color::White);
    assert!(game.check(Color::White));
    assert!(!game.check(Color::Black));
    assert!(game.get_all_currently_valid_moves().is_empty());
    assert!(game.no_possible_moves(Color::White));
}

#[test]
fn scholars_mate() {
    let mut game = Game::new();
    play_all(
        &mut game,
        &[("e2", "e4"), ("e7", "e5"), ("f1", "c4"), ("b8", "c6"), ("d1", "h5"), ("g8", "f6")],
    );
    assert_eq!(play(&mut game, "h5", "f7"), Some(UserOutput::CheckMate));
    assert_eq!(game.turn, Color::Black);
    assert!(game.check(Color::Black));
    assert!(game.get_all_currently_valid_moves().is_empty());
    assert_eq!(game.captured[0], vec![Piece::new(PieceType::Pawn, Color::Black)]);
}

#[test]
fn stalemate_is_no_check() {
    let mut game = position(
        Color::White,
        &[
            ("f7", PieceType::King, Color::White),
            ("g5", PieceType::Queen, Color::White),
            ("h8", PieceType::King, Color::Black),
        ],
    );
    assert_eq!(play(&mut game, "g5", "g6"), Some(UserOutput::StaleMate));
    assert_eq!(game.turn, Color::Black);
    assert!(!game.check(Color::Black));
    assert!(game.get_all_currently_valid_moves().is_empty());
}

#[test]
fn en_passant_takes_the_pawn_that_passed() {
    let mut game = Game::new();
    play_all(&mut game, &[("e2", "e4"), ("a7", "a6"), ("e4", "e5")]);
    let before = game.get_valid_moves(sq("e5"));
    assert_eq!(destinations(&before), vec![sq("e6")]);
    assert_eq!(play(&mut game, "d7", "d5"), None);
    let after = game.get_valid_moves(sq("e5"));
    assert_eq!(destinations(&after), vec![sq("e6"), sq("d6")]);
    let capture = &after[1];
    assert_eq!(capture.move_type, MoveType::Enpassant);
    assert_eq!(capture.captured_piece, piece(PieceType::Pawn, Color::Black));
    assert_eq!(play(&mut game, "e5", "d6"), None);
    assert_eq!(at(&game, "d5"), None);
    assert_eq!(at(&game, "e5"), None);
    assert_eq!(at(&game, "d6"), piece(PieceType::Pawn, Color::White));
    assert_eq!(game.captured[0], vec![Piece::new(PieceType::Pawn, Color::Black)]);
}

#[test]
fn en_passant_lasts_one_move_only() {
    let mut game = Game::new();
    play_all(
        &mut game,
        &[("e2", "e4"), ("a7", "a6"), ("e4", "e5"), ("d7", "d5"), ("a2", "a3"), ("a6", "a5")],
    );
    assert_eq!(destinations(&game.get_valid_moves(sq("e5"))), vec![sq("e6")]);
}

#[test]
fn short_castle_moves_king_and_rook() {
    let mut game = Game::new();
    play_all(
        &mut game,
        &[("e2", "e4"), ("e7", "e5"), ("g1", "f3"), ("b8", "c6"), ("f1", "c4"), ("f8", "c5")],
    );
    assert!(game.can_short_castle(Color::White));
    assert!(!game.can_long_castle(Color::White));
    let king = game.get_valid_moves(sq("e1"));
    let castle: Vec<&Move> = king.iter().filter(|m| m.move_type == MoveType::ShortCastle).collect();
    assert_eq!(castle.len(), 1);
    assert_eq!(castle[0].to, sq("g1"));
    assert_eq!(castle[0].traversed_squares, vec![sq("e1"), sq("f1"), sq("g1")]);
    assert_eq!(play(&mut game, "e1", "g1"), None);
    assert_eq!(at(&game, "g1"), piece(PieceType::King, Color::White));
    assert_eq!(at(&game, "f1"), piece(PieceType::Rook, Color::White));
    assert_eq!(at(&game, "h1"), None);
    assert_eq!(at(&game, "e1"), None);
    assert_eq!(game.able_to_short_castle, [false, true]);
    assert_eq!(game.able_to_long_castle, [false, true]);
}

#[test]
fn long_castle_moves_king_and_rook() {
    let mut game = Game::new();
    play_all(
        &mut game,
        &[
            ("d2", "d4"),
            ("d7", "d5"),
            ("c1", "f4"),
            ("c8", "f5"),
            ("b1", "c3"),
            ("b8", "c6"),
            ("d1", "d2"),
            ("d8", "d7"),
        ],
    );
    assert!(game.can_long_castle(Color::White));
    assert_eq!(play(&mut game, "e1", "c1"), None);
    assert_eq!(at(&game, "c1"), piece(PieceType::King, Color::White));
    assert_eq!(at(&game, "d1"), piece(PieceType::Rook, Color::White));
    assert_eq!(at(&game, "a1"), None);
    assert!(game.can_long_castle(Color::Black));
    assert_eq!(play(&mut game, "e8", "c8"), None);
    assert_eq!(at(&game, "c8"), piece(PieceType::King, Color::Black));
    assert_eq!(at(&game, "d8"), piece(PieceType::Rook, Color::Black));
    assert_eq!(at(&game, "a8"), None);
}

fn castling_position() -> Game {
    let mut game = position(
        Color::White,
        &[
            ("e1", PieceType::King, Color::White),
            ("h1", PieceType::Rook, Color::White),
            ("a1", PieceType::Rook, Color::White),
            ("e8", PieceType::King, Color::Black),
        ],
    );
    game.able_to_short_castle = [true, false];
    game.able_to_long_castle = [true, false];
    game
}

#[test]
fn castling_needs_every_condition() {
    let game = castling_position();
    assert!(game.can_short_castle(Color::White));
    assert!(game.can_long_castle(Color::White));

    // the right is gone
    let mut no_right = castling_position();
    no_right.able_to_short_castle = [false, false];
    assert!(!no_right.can_short_castle(Color::White));
    assert!(no_right.can_long_castle(Color::White));

    // a square between king and rook is taken
    let mut blocked = castling_position();
    blocked.board[sq("g1").as_index()] = piece(PieceType::Knight, Color::White);
    blocked.board[sq("b1").as_index()] = piece(PieceType::Knight, Color::White);
    blocked.refresh();
    assert!(!blocked.can_short_castle(Color::White));
    assert!(!blocked.can_long_castle(Color::White));

    // the king is in check
    let mut checked = castling_position();
    checked.board[sq("e5").as_index()] = piece(PieceType::Rook, Color::Black);
    checked.refresh();
    assert!(checked.check(Color::White));
    assert!(!checked.can_short_castle(Color::White));
    assert!(!checked.can_long_castle(Color::White));

    // a square the king crosses is attacked
    let mut crossed = castling_position();
    crossed.board[sq("f5").as_index()] = piece(PieceType::Rook, Color::Black);
    crossed.refresh();
    assert!(!crossed.check(Color::White));
    assert!(!crossed.can_short_castle(Color::White));
    assert!(crossed.can_long_castle(Color::White));
    let king = crossed.get_valid_moves(sq("e1"));
    assert!(king.iter().all(|m| m.move_type != MoveType::ShortCastle));
    assert!(king.iter().any(|m| m.move_type == MoveType::LongCastle));

    // the square the king lands on is attacked
    let mut landing = castling_position();
    landing.board[sq("c5").as_index()] = piece(PieceType::Rook, Color::Black);
    landing.refresh();
    assert!(landing.can_short_castle(Color::White));
    assert!(!landing.can_long_castle(Color::White));
}

#[test]
fn moving_king_or_rook_ends_castling() {
    let mut game = castling_position();
    assert_eq!(play(&mut game, "h1", "h2"), None);
    assert_eq!(game.able_to_short_castle, [false, false]);
    assert_eq!(game.able_to_long_castle, [true, false]);
    assert_eq!(play(&mut game, "e8", "e7"), None);
    assert_eq!(play(&mut game, "h2", "h1"), None);
    assert_eq!(play(&mut game, "e7", "e8"), None);
    assert!(!game.can_short_castle(Color::White));
    assert!(game.can_long_castle(Color::White));
    assert_eq!(play(&mut game, "e1", "e2"), None);
    assert_eq!(game.able_to_long_castle, [false, false]);
}

#[test]
fn threefold_repetition_is_a_draw() {
    let mut game = Game::new();
    play_all(
        &mut game,
        &[
            ("g1", "f3"),
            ("g8", "f6"),
            ("f3", "g1"),
            ("f6", "g8"),
            ("g1", "f3"),
            ("g8", "f6"),
            ("f3", "g1"),
        ],
    );
    assert!(!game.is_a_draw());
    assert_eq!(play(&mut game, "f6", "g8"), Some(UserOutput::Draw));
    assert!(game.is_a_draw());
    assert_eq!(game.history.len(), 8);
}

#[test]
fn fifty_quiet_moves_are_a_draw() {
    let mut game = Game::new();
    for ply in 1..=50 {
        let candidates = game.get_all_currently_valid_moves();
        let mut chosen = None;
        for mv in candidates {
            if mv.piece.piece_type == PieceType::Pawn || mv.captured_piece.is_some() {
                continue;
            }
            let mut trial = game.clone();
            let out = trial.process_input(&UserInput::Move(mv.from, mv.to));
            let wanted = if ply == 50 { Some(UserOutput::Draw) } else { None };
            if out == wanted && trial.number_of_repeated_board_states.iter().all(|e| e.1 < 3) {
                chosen = Some((mv, trial));
                break;
            }
        }
        let (_, next) = chosen.expect("a quiet move that does not repeat a position three times");
        assert_eq!(next.number_of_moves_without_captures_or_pawn_moves, ply);
        game = next;
    }
    assert!(game.is_a_draw());
    assert_eq!(game.history.len(), 50);
    // a drawn game that is played on stays drawn
    assert!(game.has_room_to_count());
    let quiet = game
        .get_all_currently_valid_moves()
        .into_iter()
        .find(|mv| mv.piece.piece_type != PieceType::Pawn && mv.captured_piece.is_none())
        .unwrap();
    assert_eq!(game.process_input(&UserInput::Move(quiet.from, quiet.to)), Some(UserOutput::Draw));
    assert_eq!(game.number_of_moves_without_captures_or_pawn_moves, 51);
}

#[test]
fn the_counts_have_room_until_they_are_full() {
    let mut game = Game::new();
    assert!(game.has_room_to_count());
    game.number_of_moves_without_captures_or_pawn_moves = 254;
    assert!(game.has_room_to_count());
    game.number_of_moves_without_captures_or_pawn_moves = 255;
    assert!(!game.has_room_to_count());
    game.number_of_moves_without_captures_or_pawn_moves = 0;
    game.number_of_repeated_board_states[0].1 = 255;
    assert!(!game.has_room_to_count());
    assert!(game.is_a_draw());
}

#[test]
fn a_capture_and_a_pawn_move_reset_the_count() {
    let mut game = Game::new();
    play_all(&mut game, &[("g1", "f3"), ("b8", "c6")]);
    assert_eq!(game.number_of_moves_without_captures_or_pawn_moves, 2);
    play_all(&mut game, &[("e2", "e4")]);
    assert_eq!(game.number_of_moves_without_captures_or_pawn_moves, 0);
    play_all(&mut game, &[("c6", "d4"), ("f3", "d4")]);
    assert_eq!(game.number_of_moves_without_captures_or_pawn_moves, 0);
    assert_eq!(game.captured[0], vec![Piece::new(PieceType::Knight, Color::Black)]);
}

#[test]
fn promotion_waits_for_the_choice() {
    let mut game = position(
        Color::White,
        &[
            ("a7", PieceType::Pawn, Color::White),
            ("e1", PieceType::King, Color::White),
            ("h7", PieceType::King, Color::Black),
        ],
    );
    assert_eq!(game.pending_promotion(), None);
    assert_eq!(play(&mut game, "a7", "a8"), Some(UserOutput::Promotion(sq("a8"))));
    assert_eq!(game.turn, Color::White);
    assert_eq!(game.pending_promotion(), Some(sq("a8")));
    assert_eq!(at(&game, "a8"), piece(PieceType::Pawn, Color::White));
    assert_eq!(at(&game, "a7"), None);
    // a move is not accepted now
    assert_eq!(play(&mut game, "e1", "e2"), Some(UserOutput::InvalidMove));
    // nor a choice that does not fit
    let queen = Piece::new(PieceType::Queen, Color::White);
    for wrong in [
        UserInput::Promotion(queen, sq("b8")),
        UserInput::Promotion(Piece::new(PieceType::Queen, Color::Black), sq("a8")),
        UserInput::Promotion(Piece::new(PieceType::King, Color::White), sq("a8")),
        UserInput::Promotion(Piece::new(PieceType::Pawn, Color::White), sq("a8")),
        UserInput::Promotion(queen, sq("z9")),
    ] {
        assert_eq!(game.process_input(&wrong), Some(UserOutput::InvalidMove));
    }
    assert_eq!(game.process_input(&UserInput::Promotion(queen, sq("a8"))), None);
    assert_eq!(at(&game, "a8"), Some(queen));
    assert_eq!(game.turn, Color::Black);
    assert_eq!(game.pending_promotion(), None);
    // no promotion is pending any more
    assert_eq!(
        game.process_input(&UserInput::Promotion(queen, sq("a8"))),
        Some(UserOutput::InvalidMove)
    );
}

#[test]
fn promotion_can_mate() {
    let mut game = position(
        Color::White,
        &[
            ("a7", PieceType::Pawn, Color::White),
            ("g6", PieceType::King, Color::White),
            ("g8", PieceType::King, Color::Black),
        ],
    );
    assert_eq!(play(&mut game, "a7", "a8"), Some(UserOutput::Promotion(sq("a8"))));
    let queen = Piece::new(PieceType::Queen, Color::White);
    assert_eq!(
        game.process_input(&UserInput::Promotion(queen, sq("a8"))),
        Some(UserOutput::CheckMate)
    );
    assert!(game.check(Color::Black));
}

#[test]
fn draw_and_resign_leave_the_game_alone() {
    let mut game = Game::new();
    let before = game.clone();
    assert_eq!(game.process_input(&UserInput::Draw), None);
    assert_eq!(game.process_input(&UserInput::Resign), None);
    assert_eq!(game.board, before.board);
    assert_eq!(game.turn, before.turn);
    assert!(game.history.is_empty());
}

#[test]
fn in_single_check_only_answers_remain() {
    let mut game = Game::new();
    play_all(&mut game, &[("e2", "e4"), ("f7", "f6"), ("d1", "h5")]);
    assert!(game.check(Color::Black));
    let moves = game.get_all_currently_valid_moves();
    assert_eq!(moves.len(), 1);
    assert_eq!((moves[0].from, moves[0].to), (sq("g7"), sq("g6")));
}

#[test]
fn in_double_check_only_the_king_moves() {
    let game = position(
        Color::Black,
        &[
            ("e8", PieceType::King, Color::Black),
            ("a5", PieceType::Rook, Color::Black),
            ("e1", PieceType::Rook, Color::White),
            ("f6", PieceType::Knight, Color::White),
            ("a1", PieceType::King, Color::White),
        ],
    );
    assert_eq!(game.pieces_attacking_king[1].len(), 2);
    assert!(game.get_valid_moves(sq("a5")).is_empty());
    let moves = game.get_all_currently_valid_moves();
    assert!(!moves.is_empty());
    assert!(moves.iter().all(|m| m.piece.piece_type == PieceType::King));
}

#[test]
fn kings_keep_apart() {
    let game = position(
        Color::White,
        &[("e4", PieceType::King, Color::White), ("e6", PieceType::King, Color::Black)],
    );
    let to = destinations(&game.get_valid_moves(sq("e4")));
    assert_eq!(to, vec![sq("f4"), sq("f3"), sq("e3"), sq("d3"), sq("d4")]);
}

#[test]
fn sliding_pieces_stop_at_obstacles() {
    let game = position(
        Color::White,
        &[
            ("a1", PieceType::Rook, Color::White),
            ("a3", PieceType::Pawn, Color::White),
            ("c1", PieceType::Pawn, Color::Black),
            ("h8", PieceType::King, Color::White),
            ("h1", PieceType::King, Color::Black),
        ],
    );
    let rook = Piece::new(PieceType::Rook, Color::White);
    let moves = game.possible_horizontal_vertical_moves(sq("a1"), rook, false);
    assert_eq!(destinations(&moves), vec![sq("b1"), sq("c1"), sq("a2")]);
    assert_eq!(moves[1].captured_piece, piece(PieceType::Pawn, Color::Black));
    assert_eq!(moves[1].traversed_squares, vec![sq("a1"), sq("b1"), sq("c1")]);
    let attacked = game.possible_horizontal_vertical_moves(sq("a1"), rook, true);
    assert_eq!(destinations(&attacked), vec![sq("b1"), sq("c1"), sq("a2"), sq("a3")]);
}

#[test]
fn pawns_attack_diagonally_only() {
    let game = Game::new();
    let pawn = Piece::new(PieceType::Pawn, Color::White);
    let moves = game.possible_pawn_moves(sq("e2"), pawn, false);
    assert_eq!(destinations(&moves), vec![sq("e3"), sq("e4")]);
    let attacked = game.possible_pawn_moves(sq("e2"), pawn, true);
    assert_eq!(destinations(&attacked), vec![sq("f3"), sq("d3")]);
    let edge = game.possible_pawn_moves(sq("a2"), pawn, true);
    assert_eq!(destinations(&edge), vec![sq("b3")]);
}

#[test]
fn knights_jump() {
    let game = Game::new();
    let knight = Piece::new(PieceType::Knight, Color::White);
    let moves = game.possible_knight_moves(sq("b1"), knight, false);
    assert_eq!(destinations(&moves), vec![sq("c3"), sq("a3")]);
    assert!(moves.iter().all(|m| m.move_type == MoveType::Jump));
    let attacked = game.possible_knight_moves(sq("b1"), knight, true);
    assert_eq!(destinations(&attacked), vec![sq("d2"), sq("c3"), sq("a3")]);
}

#[test]
fn squares_and_indices() {
    assert_eq!(sq("a1").as_index(), 0);
    assert_eq!(sq("h1").as_index(), 7);
    assert_eq!(sq("a2").as_index(), 8);
    assert_eq!(sq("e4").as_index(), 28);
    assert_eq!(sq("h8").as_index(), 63);
    assert_eq!(sq("h8").try_as_index(), Some(63));
    assert_eq!(sq("i1").try_as_index(), None);
    assert_eq!(sq("a9").try_as_index(), None);
    assert_eq!(sq("a0").try_as_index(), None);
    assert_eq!(Position::try_from(28usize), Ok(sq("e4")));
    assert_eq!(Position::try_from(63usize), Ok(sq("h8")));
    assert_eq!(Position::try_from(64usize), Err(()));
    assert_eq!(Position::from(('c', '5')), sq("c5"));
    for index in 0..64usize {
        assert_eq!(Position::try_from(index).unwrap().as_index(), index);
    }
}

#[test]
fn adding_to_a_square() {
    assert_eq!(sq("e4").add((1, 2)), sq("f6"));
    assert_eq!(sq("e4").add((-4, -3)), sq("a1"));
    assert_eq!(sq("h8").add((1, 0)), Position('i', '8'));
    assert_eq!(sq("h8").add((1, 0)).try_as_index(), None);
    assert_eq!(sq("a1").add((0, -1)).try_as_index(), None);
    assert_eq!(sq("a1").add((-128, 0)), Position('\u{0}', '1'));
    assert_eq!(Position('\u{f0}', '1').add((127, 0)), Position('\u{ff}', '1'));
}

#[test]
fn colours_and_values() {
    assert_eq!(Color::White.invert(), Color::Black);
    assert_eq!(Color::Black.invert(), Color::White);
    assert_eq!(PieceType::Pawn.value(), 1);
    assert_eq!(PieceType::Knight.value(), 3);
    assert_eq!(PieceType::Bishop.value(), 3);
    assert_eq!(PieceType::Rook.value(), 5);
    assert_eq!(PieceType::Queen.value(), 8);
    assert_eq!(PieceType::King.value(), 0);
}

#[test]
fn castling_needs_the_rook_in_its_corner() {
    let mut game = castling_position();
    game.board[sq("h1").as_index()] = None;
    game.board[sq("a1").as_index()] = piece(PieceType::Bishop, Color::Black);
    game.refresh();
    // the rights are still held, but there is no rook to castle with
    assert_eq!(game.able_to_short_castle, [true, false]);
    assert_eq!(game.able_to_long_castle, [true, false]);
    assert!(!game.rook_in_corner(Color::White, 'h'));
    assert!(!game.rook_in_corner(Color::White, 'a'));
    assert!(!game.can_short_castle(Color::White));
    assert!(!game.can_long_castle(Color::White));
    let king = game.get_valid_moves(sq("e1"));
    assert!(king.iter().all(|m| m.move_type == MoveType::Normal));
    assert_eq!(play(&mut game, "e1", "g1"), Some(UserOutput::InvalidMove));
    assert_eq!(play(&mut game, "e1", "c1"), Some(UserOutput::InvalidMove));
    // a rook of the other side in the corner is no rook to castle with
    let mut other = castling_position();
    other.board[sq("h1").as_index()] = piece(PieceType::Rook, Color::Black);
    other.board[sq("e1").as_index()] = None;
    other.board[sq("e2").as_index()] = piece(PieceType::King, Color::White);
    other.refresh();
    assert!(!other.can_short_castle(Color::White));
}

#[test]
fn a_king_away_from_home_does_not_castle() {
    let mut game = position(
        Color::White,
        &[
            ("e2", PieceType::King, Color::White),
            ("h1", PieceType::Rook, Color::White),
            ("e8", PieceType::King, Color::Black),
        ],
    );
    game.able_to_short_castle = [true, false];
    assert!(game.rook_in_corner(Color::White, 'h'));
    assert!(!game.king_at_home(Color::White));
    assert!(!game.can_short_castle(Color::White));
    assert!(game.get_valid_moves(sq("e2")).iter().all(|m| m.move_type == MoveType::Normal));
}

#[test]
fn a_rook_taken_in_its_corner_ends_the_right() {
    // 1. g4 b6 2. g5 Bb7 3. g6 Bxh1
    let mut game = Game::new();
    play_all(
        &mut game,
        &[("g2", "g4"), ("b7", "b6"), ("g4", "g5"), ("c8", "b7"), ("g5", "g6")],
    );
    assert!(game.king_at_home(Color::White) && game.rook_in_corner(Color::White, 'h'));
    assert_eq!(game.able_to_short_castle, [true, true]);
    assert_eq!(play(&mut game, "b7", "h1"), None);
    assert_eq!(game.able_to_short_castle, [false, true]);
    assert_eq!(game.able_to_long_castle, [true, true]);
    assert!(!game.can_short_castle(Color::White));
    assert_eq!(game.captured[1], vec![Piece::new(PieceType::Rook, Color::White)]);
    // another rook that comes to stand in the corner does not bring the right back
    game.board[sq("h1").as_index()] = piece(PieceType::Rook, Color::White);
    game.board[sq("f1").as_index()] = None;
    game.board[sq("g1").as_index()] = None;
    game.refresh();
    assert!(game.rook_in_corner(Color::White, 'h'));
    assert!(!game.can_short_castle(Color::White));
    assert!(game.get_valid_moves(sq("e1")).iter().all(|m| m.move_type == MoveType::Normal));
}

#[test]
fn a_promoting_capture_is_a_capture_and_a_pawn_move() {
    let mut game = Game::new();
    play_all(
        &mut game,
        &[
            ("a2", "a4"),
            ("b7", "b5"),
            ("a4", "b5"),
            ("a7", "a6"),
            ("b5", "a6"),
            ("c8", "b7"),
            ("a6", "b7"),
            ("g8", "f6"),
        ],
    );
    assert_eq!(game.number_of_moves_without_captures_or_pawn_moves, 1);
    let counted = game.number_of_repeated_board_states.len();
    assert_eq!(play(&mut game, "b7", "a8"), Some(UserOutput::Promotion(sq("a8"))));
    // the move is applied, but the turn stays and the position is not counted yet
    let pawn = Piece::new(PieceType::Pawn, Color::Black);
    let bishop = Piece::new(PieceType::Bishop, Color::Black);
    let rook = Piece::new(PieceType::Rook, Color::Black);
    assert_eq!(game.turn, Color::White);
    assert_eq!(game.captured[0], vec![pawn, pawn, bishop, rook]);
    assert_eq!(game.number_of_moves_without_captures_or_pawn_moves, 0);
    assert_eq!(game.able_to_long_castle, [true, false]);
    assert_eq!(game.able_to_short_castle, [true, true]);
    assert_eq!(game.number_of_repeated_board_states.len(), counted);
    assert_eq!(game.history.len(), 9);
    let queen = Piece::new(PieceType::Queen, Color::White);
    assert_eq!(game.process_input(&UserInput::Promotion(queen, sq("a8"))), None);
    assert_eq!(at(&game, "a8"), Some(queen));
    assert_eq!(at(&game, "b7"), None);
    assert_eq!(game.turn, Color::Black);
    assert!(!game.check(Color::Black));
    assert_eq!(game.captured[0], vec![pawn, pawn, bishop, rook]);
    assert!(game.captured[1].is_empty());
    assert_eq!(game.number_of_moves_without_captures_or_pawn_moves, 0);
    assert_eq!(game.history.len(), 9);
    // the position after the promotion is counted, with Black to move
    assert_eq!(game.number_of_repeated_board_states.len(), counted + 1);
    let last = game.number_of_repeated_board_states.last().unwrap();
    assert_eq!(last.1, 1);
    assert_eq!(last.0 .0, Color::Black);
    assert_eq!(last.0 .1, game.board);
}

#[test]
fn the_line_with_the_move_of_the_h_pawn() {
    let mut game = Game::new();
    play_all(
        &mut game,
        &[
            ("a2", "a4"),
            ("b7", "b5"),
            ("a4", "b5"),
            ("a7", "a6"),
            ("b5", "a6"),
            ("c8", "b7"),
            ("a6", "b7"),
            ("h7", "h6"),
        ],
    );
    assert_eq!(play(&mut game, "b7", "a8"), Some(UserOutput::Promotion(sq("a8"))));
    assert_eq!(game.turn, Color::White);
    let queen = Piece::new(PieceType::Queen, Color::White);
    assert_eq!(game.process_input(&UserInput::Promotion(queen, sq("a8"))), None);
    assert_eq!(at(&game, "a8"), Some(queen));
    assert_eq!(game.turn, Color::Black);
    assert!(!game.check(Color::Black));
    assert_eq!(
        game.captured[0],
        vec![
            Piece::new(PieceType::Pawn, Color::Black),
            Piece::new(PieceType::Pawn, Color::Black),
            Piece::new(PieceType::Bishop, Color::Black),
            Piece::new(PieceType::Rook, Color::Black),
        ]
    );
}

#[test]
fn a_promotion_resets_the_count_of_quiet_moves() {
    let mut game = position(
        Color::White,
        &[
            ("a7", PieceType::Pawn, Color::White),
            ("e1", PieceType::King, Color::White),
            ("h7", PieceType::King, Color::Black),
        ],
    );
    game.number_of_moves_without_captures_or_pawn_moves = 49;
    assert_eq!(play(&mut game, "a7", "a8"), Some(UserOutput::Promotion(sq("a8"))));
    assert_eq!(game.number_of_moves_without_captures_or_pawn_moves, 0);
    let rook = Piece::new(PieceType::Rook, Color::White);
    assert_eq!(game.process_input(&UserInput::Promotion(rook, sq("a8"))), None);
    assert!(!game.is_a_draw());
    assert_eq!(game.number_of_repeated_board_states.len(), 1);
    assert_eq!(play(&mut game, "h7", "g7"), None);
    assert_eq!(game.number_of_moves_without_captures_or_pawn_moves, 1);
}

#[test]
fn no_position_is_counted_under_two_entries() {
    let mut game = Game::new();
    play_all(
        &mut game,
        &[
            ("g1", "f3"),
            ("g8", "f6"),
            ("f3", "g1"),
            ("f6", "g8"),
            ("b1", "c3"),
            ("b8", "c6"),
            ("c3", "b1"),
        ],
    );
    let table = &game.number_of_repeated_board_states;
    for i in 0..table.len() {
        for j in (i + 1)..table.len() {
            assert!(table[i].0 != table[j].0);
        }
    }
    let total: usize = table.iter().map(|e| usize::from(e.1)).sum();
    assert_eq!(total, 8);
}

#[test]
fn en_passant_may_not_bare_the_king() {
    // Taking en passant would clear the fifth rank between rook and king.
    let mut game = position(
        Color::Black,
        &[
            ("a5", PieceType::King, Color::White),
            ("b5", PieceType::Pawn, Color::White),
            ("c7", PieceType::Pawn, Color::Black),
            ("h5", PieceType::Rook, Color::Black),
            ("h8", PieceType::King, Color::Black),
        ],
    );
    assert_eq!(play(&mut game, "c7", "c5"), None);
    let offered = game.pseudo_legal_moves(sq("b5"), false);
    assert!(offered.iter().any(|m| m.move_type == MoveType::Enpassant));
    let legal = game.get_valid_moves(sq("b5"));
    assert_eq!(destinations(&legal), vec![sq("b6")]);
    assert_eq!(play(&mut game, "b5", "c6"), Some(UserOutput::InvalidMove));
}

#[test]
fn check_is_answered_by_taking_blocking_or_fleeing() {
    let game = position(
        Color::White,
        &[
            ("e1", PieceType::King, Color::White),
            ("a4", PieceType::Rook, Color::White),
            ("c3", PieceType::Knight, Color::White),
            ("e8", PieceType::Rook, Color::Black),
            ("h8", PieceType::King, Color::Black),
        ],
    );
    assert!(game.check(Color::White));
    assert_eq!(game.pieces_attacking_king[0].len(), 1);
    // the rook blocks on e4, the knight on e2 or e4
    assert_eq!(destinations(&game.get_valid_moves(sq("a4"))), vec![sq("e4")]);
    assert_eq!(destinations(&game.get_valid_moves(sq("c3"))), vec![sq("e4"), sq("e2")]);
    // the king leaves the file
    let king = destinations(&game.get_valid_moves(sq("e1")));
    assert_eq!(king, vec![sq("d2"), sq("f2"), sq("f1"), sq("d1")]);
}

#[test]
fn a_king_does_not_take_a_guarded_piece() {
    let game = position(
        Color::White,
        &[
            ("e1", PieceType::King, Color::White),
            ("e2", PieceType::Queen, Color::Black),
            ("e8", PieceType::Rook, Color::Black),
            ("h8", PieceType::King, Color::Black),
        ],
    );
    assert!(game.check(Color::White));
    assert!(game.get_valid_moves(sq("e1")).is_empty());
    assert!(game.no_possible_moves(Color::White));
}

#[test]
fn the_attacks_of_the_start_position() {
    let game = Game::new();
    let mut white: Vec<Position> = game.protected_squares[0].clone();
    white.sort_by_key(|p| p.as_index());
    white.dedup();
    let mut expected: Vec<Position> = Vec::new();
    for name in ["b1", "c1", "d1", "e1", "f1", "g1"] {
        expected.push(sq(name));
    }
    for rank in ['2', '3'] {
        for file in 'a'..='h' {
            expected.push(Position(file, rank));
        }
    }
    assert_eq!(white, expected);
    assert!(game.pos_protected(sq("e3"), Color::White));
    assert!(!game.pos_protected(sq("e4"), Color::White));
    assert!(game.pos_protected(sq("e6"), Color::Black));
    assert!(game.pieces_attacking_king[0].is_empty());
    assert!(game.pieces_attacking_king[1].is_empty());
}

#[test]
fn a_position_is_counted_each_time_it_is_met() {
    let mut game = Game::new();
    assert_eq!(game.number_of_repeated_board_states.len(), 1);
    play_all(&mut game, &[("g1", "f3"), ("g8", "f6"), ("f3", "g1"), ("f6", "g8")]);
    assert_eq!(game.number_of_repeated_board_states.len(), 4);
    let counts: Vec<u8> = game.number_of_repeated_board_states.iter().map(|e| e.1).collect();
    assert_eq!(counts, vec![2, 1, 1, 1]);
    let key = &game.number_of_repeated_board_states[0].0;
    assert_eq!(key.0, Color::White);
    assert_eq!(key.1, Game::new().board);
    assert_eq!(key.2, Game::new().get_all_possible_moves());
}

#[test]
fn legal_moves_of_one_piece_end_on_different_squares() {
    let mut game = Game::new();
    play_all(
        &mut game,
        &[("e2", "e4"), ("d7", "d5"), ("e4", "d5"), ("d8", "d5"), ("b1", "c3"), ("d5", "e5")],
    );
    for index in 0..64usize {
        let pos = Position::try_from(index).unwrap();
        let mut to: Vec<usize> = game.get_valid_moves(pos).iter().map(|m| m.to.as_index()).collect();
        let all = to.len();
        to.sort();
        to.dedup();
        assert_eq!(to.len(), all);
    }
}

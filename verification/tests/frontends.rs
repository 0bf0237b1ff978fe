use rusty_chess::game::Game;
use rusty_chess::moves::Move;
use rusty_chess::moves::MoveType;
use rusty_chess::moves::UserInput;
use rusty_chess::moves::UserOutput;
use rusty_chess::notation::accepts_draw;
use rusty_chess::notation::contains_text;
use rusty_chess::notation::input_from_captures;
use rusty_chess::notation::lower;
use rusty_chess::notation::parse_input_move;
use rusty_chess::notation::parse_promotion_choice;
use rusty_chess::pieces::Color;
use rusty_chess::pieces::Piece;
use rusty_chess::pieces::PieceType;
use rusty_chess::pieces::Position;
use rusty_chess::players::choose_aggressive;
use rusty_chess::players::choose_attacking_king;
use rusty_chess::players::move_gives_check;
use rusty_chess::players::play_attacking_king;
use rusty_chess::players::play_move;
use rusty_chess::players::play_randomly_aggressive;
use rusty_chess::players::promote_to_piece;
use rusty_chess::screen::coord_to_game_index;
use rusty_chess::screen::ends_game;
use rusty_chess::screen::message;
use rusty_chess::screen::update_selection;
use rusty_chess::screen::SelectedPiece;
use rusty_chess::screen::game_index_to_coord;
use rusty_chess::screen::to_game_index;
use rusty_chess::web::ChessGame;
use rusty_chess::web::PositionWrapper;
use rusty_chess::web::UserOutputWrapper;

fn square(name: &str) -> Position {
    let mut chars = name.chars();
    Position(chars.next().unwrap(), chars.next().unwrap())
}

fn a_move(from: &str, to: &str) -> Result<UserInput, String> {
    Ok(UserInput::Move(square(from), square(to)))
}

fn wrong_format() -> Result<UserInput, String> {
    Err(String::from("Wrong input format, please input a move."))
}

fn lines(text: &str) -> Vec<&str> {
    text.split('\n').collect()
}

#[test]
fn typed_moves_are_read() {
    assert_eq!(parse_input_move("e2e4"), a_move("e2", "e4"));
    assert_eq!(parse_input_move("e2-e4"), a_move("e2", "e4"));
    assert_eq!(parse_input_move("e2->e4"), a_move("e2", "e4"));
    assert_eq!(parse_input_move("e2 to e4"), a_move("e2", "e4"));
    assert_eq!(parse_input_move("  e 2 -> e 4  "), a_move("e2", "e4"));
    assert_eq!(parse_input_move("G1F3"), Ok(UserInput::Move(Position('G', '1'), Position('F', '3'))));
    assert_eq!(parse_input_move("please play a7 - a5 now"), a_move("a7", "a5"));
    assert_eq!(parse_input_move("z9z0"), a_move("z9", "z0"));
}

#[test]
fn typed_words_are_read() {
    assert_eq!(parse_input_move("resign"), Ok(UserInput::Resign));
    assert_eq!(parse_input_move("I Resign!"), Ok(UserInput::Resign));
    assert_eq!(parse_input_move("RESIGN"), Ok(UserInput::Resign));
    assert_eq!(parse_input_move("draw"), Ok(UserInput::Draw));
    assert_eq!(parse_input_move("Draw?"), Ok(UserInput::Draw));
    assert_eq!(parse_input_move("resign or draw"), Ok(UserInput::Resign));
    assert_eq!(parse_input_move(""), wrong_format());
    assert_eq!(parse_input_move("e2"), wrong_format());
    assert_eq!(parse_input_move("hello"), wrong_format());
    assert_eq!(parse_input_move("22ee"), wrong_format());
}

#[test]
fn captured_groups_decide_the_reading() {
    let group = |s: &str| Some(String::from(s));
    let full = Some(vec![group("b1c3"), group("b"), group("1"), group("c"), group("3")]);
    assert_eq!(input_from_captures(&full, "anything"), a_move("b1", "c3"));
    let short = Some(vec![group("b1"), group("b"), group("1")]);
    assert_eq!(input_from_captures(&short, "resign"), wrong_format());
    let hole = Some(vec![group("b1c3"), group("b"), None, group("c"), group("3")]);
    assert_eq!(input_from_captures(&hole, "b1c3"), wrong_format());
    let empty = Some(vec![group("b1c3"), group("b"), group(""), group("c"), group("3")]);
    assert_eq!(input_from_captures(&empty, "b1c3"), wrong_format());
    assert_eq!(input_from_captures(&None, "b1c3"), wrong_format());
    assert_eq!(input_from_captures(&None, "a draw"), Ok(UserInput::Draw));
}

#[test]
fn words_are_found_whatever_their_case() {
    assert!(contains_text("I RESIGN", "resign"));
    assert!(contains_text("resign", "Resign"));
    assert!(contains_text("xxdrawxx", "draw"));
    assert!(contains_text("abc", ""));
    assert!(contains_text("", ""));
    assert!(!contains_text("", "a"));
    assert!(!contains_text("dra", "draw"));
    assert!(!contains_text("d raw", "draw"));
    assert_eq!(lower('A'), 'a');
    assert_eq!(lower('Z'), 'z');
    assert_eq!(lower('q'), 'q');
    assert_eq!(lower('['), '[');
    assert_eq!(lower('@'), '@');
    assert_eq!(lower('1'), '1');
}

#[test]
fn promotion_answers_are_read() {
    assert_eq!(parse_promotion_choice("Queen"), Some(PieceType::Queen));
    assert_eq!(parse_promotion_choice("a rook please"), Some(PieceType::Rook));
    assert_eq!(parse_promotion_choice("KNIGHT"), Some(PieceType::Knight));
    assert_eq!(parse_promotion_choice("bishop"), Some(PieceType::Bishop));
    assert_eq!(parse_promotion_choice("queen or rook"), Some(PieceType::Queen));
    assert_eq!(parse_promotion_choice("king"), None);
    assert_eq!(parse_promotion_choice(""), None);
    assert!(accepts_draw("y"));
    assert!(accepts_draw("okay"));
    assert!(!accepts_draw("N"));
    assert!(!accepts_draw("Y"));
    assert!(!accepts_draw(""));
}

#[test]
fn the_start_position_as_text() {
    let text = Game::new().to_string();
    let rule = format!("  -{}", "--".repeat(16));
    let expected = vec![
        rule.clone(),
        String::from("8 | \u{2656} | \u{2658} | \u{2657} | \u{2655} | \u{2654} | \u{2657} | \u{2658} | \u{2656} | "),
        rule.clone(),
        String::from("7 | \u{2659} | \u{2659} | \u{2659} | \u{2659} | \u{2659} | \u{2659} | \u{2659} | \u{2659} | "),
        rule.clone(),
        String::from("6 |   |   |   |   |   |   |   |   | "),
        rule.clone(),
        String::from("5 |   |   |   |   |   |   |   |   | "),
        rule.clone(),
        String::from("4 |   |   |   |   |   |   |   |   | "),
        rule.clone(),
        String::from("3 |   |   |   |   |   |   |   |   | "),
        rule.clone(),
        String::from("2 | \u{265F} | \u{265F} | \u{265F} | \u{265F} | \u{265F} | \u{265F} | \u{265F} | \u{265F} | "),
        rule.clone(),
        String::from("1 | \u{265C} | \u{265E} | \u{265D} | \u{265B} | \u{265A} | \u{265D} | \u{265E} | \u{265C} | "),
        rule.clone(),
        String::from("    a   b   c   d   e   f   g   h   "),
        String::new(),
    ];
    assert_eq!(lines(&text), expected);
}

#[test]
fn pieces_and_moves_as_text() {
    assert_eq!(Piece::new(PieceType::King, Color::White).to_string(), "\u{265A}");
    assert_eq!(Piece::new(PieceType::King, Color::Black).to_string(), "\u{2654}");
    assert_eq!(Piece::new(PieceType::Pawn, Color::White).symbol(), "\u{265F}");
    assert_eq!(Piece::new(PieceType::Queen, Color::Black).symbol(), "\u{2655}");
    assert_eq!(PieceType::Knight.name(), "Knight");
    let mut game = Game::new();
    game.process_input(&UserInput::Move(square("e2"), square("e4")));
    assert_eq!(game.history[0].to_string(), "Pawn: Position('e', '2') -> Position('e', '4')");
    assert_eq!(
        game.history[0].to_string(),
        format!("{:?}: {:?} -> {:?}", PieceType::Pawn, square("e2"), square("e4"))
    );
}

#[test]
fn squares_of_the_window() {
    assert_eq!(to_game_index(0, 7), 0);
    assert_eq!(to_game_index(7, 0), 63);
    assert_eq!(to_game_index(4, 6), 12);
    assert_eq!(coord_to_game_index(0, 0), Some(56));
    assert_eq!(coord_to_game_index(639, 639), Some(7));
    assert_eq!(coord_to_game_index(0, 639), Some(0));
    assert_eq!(coord_to_game_index(330, 500), Some(12));
    assert_eq!(coord_to_game_index(640, 0), None);
    assert_eq!(coord_to_game_index(0, 640), None);
    assert_eq!(coord_to_game_index(-1, 5), None);
    assert_eq!(coord_to_game_index(5, -1), None);
    assert_eq!(game_index_to_coord(0), (0, 560));
    assert_eq!(game_index_to_coord(63), (560, 0));
    assert_eq!(game_index_to_coord(12), (320, 480));
    for index in 0..64usize {
        let (x, y) = game_index_to_coord(index);
        assert_eq!(coord_to_game_index(x, y), Some(index));
        assert_eq!(coord_to_game_index(x + 79, y + 79), Some(index));
    }
}

fn taking(captured: bool, to: &str) -> Move {
    Move {
        piece: Piece::new(PieceType::Knight, Color::White),
        from: square("b1"),
        to: square(to),
        captured_piece: if captured { Some(Piece::new(PieceType::Pawn, Color::Black)) } else { None },
        move_type: MoveType::Jump,
        traversed_squares: vec![square("b1"), square(to)],
    }
}

#[test]
fn the_aggressive_choice() {
    let quiet = vec![taking(false, "a3"), taking(false, "c3"), taking(false, "d2")];
    assert_eq!(choose_aggressive(&quiet, 0), 0);
    assert_eq!(choose_aggressive(&quiet, 2), 2);
    let mixed = vec![taking(false, "a3"), taking(true, "c3"), taking(true, "d2")];
    assert_eq!(choose_aggressive(&mixed, 0), 1);
    assert_eq!(choose_aggressive(&mixed, 2), 1);
}

/// After 1. e4 e5 2. Qh5 Nc6 3. Bc4 Nf6 the queen mates on f7.
fn before_scholars_mate() -> Game {
    let mut game = Game::new();
    for (from, to) in
        [("e2", "e4"), ("e7", "e5"), ("d1", "h5"), ("b8", "c6"), ("f1", "c4"), ("g8", "f6")]
    {
        assert_eq!(game.process_input(&UserInput::Move(square(from), square(to))), None);
    }
    game
}

#[test]
fn the_attacking_choice_goes_for_the_king() {
    let game = before_scholars_mate();
    let moves = game.get_all_currently_valid_moves();
    let chosen = choose_attacking_king(&game, &moves, 0);
    assert!(move_gives_check(&game, &moves[chosen]));
    for earlier in &moves[..chosen] {
        assert!(!move_gives_check(&game, earlier));
    }
    // at the start nothing gives check and nothing can be taken
    let start = Game::new();
    let first = start.get_all_currently_valid_moves();
    assert_eq!(choose_attacking_king(&start, &first, 7), 7);
    assert_eq!(choose_attacking_king(&start, &first, 19), 19);
}

#[test]
fn the_attacking_player_gives_check() {
    let mut game = before_scholars_mate();
    let out = play_attacking_king(&mut game);
    assert_eq!(game.history.len(), 7);
    assert_eq!(game.turn, Color::Black);
    assert!(out == Some(UserOutput::CheckMate) || game.check(Color::Black));
}

#[test]
fn the_players_play_a_legal_move() {
    for _ in 0..20 {
        let start = Game::new();
        let legal = start.get_all_currently_valid_moves();
        let mut game = start.clone();
        assert_eq!(play_randomly_aggressive(&mut game), None);
        assert_eq!(game.history.len(), 1);
        assert!(legal.contains(&game.history[0]));
        let mut other = start.clone();
        assert_eq!(play_attacking_king(&mut other), None);
        assert_eq!(other.history.len(), 1);
        assert!(legal.contains(&other.history[0]));
    }
}

#[test]
fn the_players_take_what_they_can() {
    let mut game = Game::new();
    for (from, to) in [("e2", "e4"), ("d7", "d5")] {
        assert_eq!(game.process_input(&UserInput::Move(square(from), square(to))), None);
    }
    assert_eq!(play_randomly_aggressive(&mut game), None);
    assert_eq!(game.history[2].captured_piece, Some(Piece::new(PieceType::Pawn, Color::Black)));
    assert_eq!((game.history[2].from, game.history[2].to), (square("e4"), square("d5")));
}

#[test]
fn a_player_without_moves_reports_it() {
    let mut game = Game::new();
    for (from, to) in [("f2", "f3"), ("e7", "e5"), ("g2", "g4")] {
        assert_eq!(game.process_input(&UserInput::Move(square(from), square(to))), None);
    }
    assert_eq!(
        game.process_input(&UserInput::Move(square("d8"), square("h4"))),
        Some(UserOutput::CheckMate)
    );
    let before = game.clone();
    assert_eq!(play_attacking_king(&mut game), Some(UserOutput::InvalidMove));
    assert_eq!(game.board, before.board);
    assert_eq!(game.history, before.history);
}

fn promotion_position() -> Game {
    let mut game = Game::new();
    game.board = [None; 64];
    game.board[square("a7").as_index()] = Some(Piece::new(PieceType::Pawn, Color::White));
    game.board[square("e1").as_index()] = Some(Piece::new(PieceType::King, Color::White));
    game.board[square("h7").as_index()] = Some(Piece::new(PieceType::King, Color::Black));
    game.able_to_long_castle = [false, false];
    game.able_to_short_castle = [false, false];
    game.refresh();
    game
}

#[test]
fn a_played_pawn_becomes_a_queen() {
    let mut game = promotion_position();
    let push = game.get_valid_moves(square("a7")).remove(0);
    assert_eq!(play_move(&mut game, &push), None);
    assert_eq!(game.board[square("a8").as_index()], Some(Piece::new(PieceType::Queen, Color::White)));
    assert_eq!(game.turn, Color::Black);

    let mut other = promotion_position();
    assert_eq!(
        other.process_input(&UserInput::Move(square("a7"), square("a8"))),
        Some(UserOutput::Promotion(square("a8")))
    );
    assert_eq!(promote_to_piece(&mut other, square("a8"), PieceType::Knight), None);
    assert_eq!(other.board[square("a8").as_index()], Some(Piece::new(PieceType::Knight, Color::White)));
}

#[test]
fn outputs_can_be_asked_what_they_are() {
    let mate = UserOutputWrapper(UserOutput::CheckMate);
    assert!(mate.is_check_mate());
    assert!(!mate.is_stale_mate() && !mate.is_draw() && !mate.is_invalid_move());
    assert!(!mate.is_promotion());
    assert_eq!(mate.promotion_pos(), None);
    assert_eq!(mate.to_string(), "CheckMate");
    assert!(UserOutputWrapper(UserOutput::StaleMate).is_stale_mate());
    assert_eq!(UserOutputWrapper(UserOutput::StaleMate).to_string(), "StaleMate");
    assert!(UserOutputWrapper(UserOutput::Draw).is_draw());
    assert_eq!(UserOutputWrapper(UserOutput::Draw).to_string(), "Draw");
    assert!(UserOutputWrapper(UserOutput::InvalidMove).is_invalid_move());
    assert_eq!(UserOutputWrapper(UserOutput::InvalidMove).to_string(), "InvalidMove");
    let promotion = UserOutputWrapper(UserOutput::Promotion(square("e8")));
    assert!(promotion.is_promotion());
    assert!(!promotion.is_check_mate());
    assert_eq!(promotion.promotion_pos(), Some(PositionWrapper('e', '8')));
    assert_eq!(promotion.to_string(), "Promotion (e,8)");
}

#[test]
fn the_page_sees_the_board() {
    let mut page = ChessGame::new();
    let codes: Vec<u8> = page.get_game_board().iter().map(|c| c.code()).collect();
    assert_eq!(&codes[0..8], &[7, 3, 5, 9, 11, 5, 3, 7]);
    assert_eq!(&codes[8..16], &[1; 8]);
    assert_eq!(&codes[16..48], &[0; 32]);
    assert_eq!(&codes[48..56], &[2; 8]);
    assert_eq!(&codes[56..64], &[8, 4, 6, 10, 12, 6, 4, 8]);
    assert_eq!(ChessGame::get_index('1', 'a'), 0);
    assert_eq!(ChessGame::get_index('4', 'e'), 28);
    assert_eq!(page.play_move('e', '2', 'e', '4'), None);
    assert_eq!(page.get_game_board()[12].code(), 0);
    assert_eq!(page.get_game_board()[28].code(), 1);
    assert_eq!(page.play_move('e', '2', 'e', '4'), Some(UserOutputWrapper(UserOutput::InvalidMove)));
    assert_eq!(page.render(), page.game.to_string());
    // nothing to take, nothing gives check: the move at the given place is played
    let legal = page.game.get_all_currently_valid_moves();
    assert_eq!(page.play_randomly_aggressive(3 + legal.len()), None);
    assert_eq!(page.game.history[1], legal[3]);
    let mut fresh = ChessGame::new();
    let legal = fresh.game.get_all_currently_valid_moves();
    assert_eq!(fresh.play_attacking_king(5), None);
    assert_eq!(fresh.game.history[0], legal[5]);
    assert_eq!(fresh.get_game_board()[legal[5].to.as_index()].code() % 2, 1);
    assert_eq!(fresh.get_game_board()[legal[5].from.as_index()].code(), 0);
}

#[test]
fn the_mouse_picks_up_and_drops_a_piece() {
    let game = Game::new();
    // nothing held, button up: nothing happens
    assert_eq!(update_selection(&game.board, None, false, 330, 500), (None, None));
    // the button goes down over e2, 10 pixels into the square and 20 down
    let (held, asked) = update_selection(&game.board, None, true, 330, 500);
    let picked = SelectedPiece {
        piece: Piece::new(PieceType::Pawn, Color::White),
        game_index: 12,
        square_x: 10,
        square_y: 20,
        x: 330,
        y: 500,
    };
    assert_eq!((held, asked), (Some(picked), None));
    // the piece follows the mouse, even out of the window
    let (held, asked) = update_selection(&game.board, held, true, 700, -3);
    assert_eq!(held, Some(SelectedPiece { x: 700, y: -3, ..picked }));
    assert_eq!(asked, None);
    // dropped outside the window it goes back
    assert_eq!(update_selection(&game.board, held, false, 700, -3), (None, None));
    // dropped over e4 it asks for the move
    let dropped = update_selection(&game.board, held, false, 350, 350);
    assert_eq!(dropped, (None, Some(UserInput::Move(square("e2"), square("e4")))));
    // an empty square and a place outside the window give nothing to pick up
    assert_eq!(update_selection(&game.board, None, true, 330, 330), (None, None));
    assert_eq!(update_selection(&game.board, None, true, 640, 0), (None, None));
    // a piece from no square of the board is dropped without a move
    let stray = SelectedPiece { game_index: 64, ..picked };
    assert_eq!(update_selection(&game.board, Some(stray), false, 350, 350), (None, None));
}

#[test]
fn the_window_names_the_outputs() {
    assert_eq!(message(&UserOutput::CheckMate), "Checkmate!");
    assert_eq!(message(&UserOutput::StaleMate), "Stalemate!");
    assert_eq!(message(&UserOutput::Draw), "Draw!");
    assert_eq!(message(&UserOutput::InvalidMove), "Invalid move!");
    assert_eq!(message(&UserOutput::Promotion(square("a8"))), "Press Q, R, B or K.");
    assert!(ends_game(&Some(UserOutput::CheckMate)));
    assert!(ends_game(&Some(UserOutput::StaleMate)));
    assert!(ends_game(&Some(UserOutput::Draw)));
    assert!(!ends_game(&Some(UserOutput::InvalidMove)));
    assert!(!ends_game(&Some(UserOutput::Promotion(square("a8")))));
    assert!(!ends_game(&None));
}

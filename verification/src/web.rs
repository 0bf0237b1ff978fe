//! A game as a page in a browser holds it: the board as a flat list of
//! cells, and outputs that can be asked what they are.

use vstd::prelude::*;
use crate::game::Game;
use crate::moves::view_moves;
use crate::moves::UserInput;
use crate::moves::UserOutput;
use crate::pieces::Color;
use crate::pieces::PieceType;
use crate::pieces::Position;
use crate::players::attacking_choice;
use crate::players::aggressive_choice;
use crate::players::choose_aggressive;
use crate::players::choose_attacking_king;
use crate::render::board_text;
use crate::render::push_char;
use crate::rules;

verus! {

/// What a cell of the board holds, as the page draws it.
#[derive(Clone, Copy, Debug, PartialEq, Eq, Structural)]
pub enum Piece {
    Empty,
    PawnWhite,
    PawnBlack,
    KnightWhite,
    KnightBlack,
    BishopWhite,
    BishopBlack,
    RookWhite,
    RookBlack,
    QueenWhite,
    QueenBlack,
    KingWhite,
    KingBlack,
}

/// The cell that shows what a square holds.
pub open spec fn cell_of(square: Option<crate::pieces::Piece>) -> Piece {
    match square {
        None => Piece::Empty,
        Some(piece) => match (piece.piece_type, piece.color) {
            (PieceType::Pawn, Color::White) => Piece::PawnWhite,
            (PieceType::Pawn, Color::Black) => Piece::PawnBlack,
            (PieceType::Knight, Color::White) => Piece::KnightWhite,
            (PieceType::Knight, Color::Black) => Piece::KnightBlack,
            (PieceType::Bishop, Color::White) => Piece::BishopWhite,
            (PieceType::Bishop, Color::Black) => Piece::BishopBlack,
            (PieceType::Rook, Color::White) => Piece::RookWhite,
            (PieceType::Rook, Color::Black) => Piece::RookBlack,
            (PieceType::Queen, Color::White) => Piece::QueenWhite,
            (PieceType::Queen, Color::Black) => Piece::QueenBlack,
            (PieceType::King, Color::White) => Piece::KingWhite,
            (PieceType::King, Color::Black) => Piece::KingBlack,
        },
    }
}

/// The cells that show a board.
pub open spec fn cells_of(board: Seq<Option<crate::pieces::Piece>>) -> Seq<Piece> {
    Seq::new(board.len(), |i: int| cell_of(board[i]))
}

impl Piece {
    /// The number under which the page knows a cell: 0 for an empty one, then
    /// pawn, knight, bishop, rook, queen and king, White's before Black's.
    pub open spec fn spec_code(&self) -> u8 {
        match self {
            Piece::Empty => 0,
            Piece::PawnWhite => 1,
            Piece::PawnBlack => 2,
            Piece::KnightWhite => 3,
            Piece::KnightBlack => 4,
            Piece::BishopWhite => 5,
            Piece::BishopBlack => 6,
            Piece::RookWhite => 7,
            Piece::RookBlack => 8,
            Piece::QueenWhite => 9,
            Piece::QueenBlack => 10,
            Piece::KingWhite => 11,
            Piece::KingBlack => 12,
        }
    }

    /// Returns the number under which the page knows a cell.
    #[verifier::when_used_as_spec(spec_code)]
    pub fn code(&self) -> (r: u8)
        ensures
            r == self.spec_code(),
    {
        match self {
            Piece::Empty => 0,
            Piece::PawnWhite => 1,
            Piece::PawnBlack => 2,
            Piece::KnightWhite => 3,
            Piece::KnightBlack => 4,
            Piece::BishopWhite => 5,
            Piece::BishopBlack => 6,
            Piece::RookWhite => 7,
            Piece::RookBlack => 8,
            Piece::QueenWhite => 9,
            Piece::QueenBlack => 10,
            Piece::KingWhite => 11,
            Piece::KingBlack => 12,
        }
    }

    /// Returns the cell that shows what a square holds.
    pub fn of(square: Option<crate::pieces::Piece>) -> (r: Piece)
        ensures
            r == cell_of(square),
    {
        match square {
            None => Piece::Empty,
            Some(piece) => match (piece.piece_type, piece.color) {
                (PieceType::Pawn, Color::White) => Piece::PawnWhite,
                (PieceType::Pawn, Color::Black) => Piece::PawnBlack,
                (PieceType::Knight, Color::White) => Piece::KnightWhite,
                (PieceType::Knight, Color::Black) => Piece::KnightBlack,
                (PieceType::Bishop, Color::White) => Piece::BishopWhite,
                (PieceType::Bishop, Color::Black) => Piece::BishopBlack,
                (PieceType::Rook, Color::White) => Piece::RookWhite,
                (PieceType::Rook, Color::Black) => Piece::RookBlack,
                (PieceType::Queen, Color::White) => Piece::QueenWhite,
                (PieceType::Queen, Color::Black) => Piece::QueenBlack,
                (PieceType::King, Color::White) => Piece::KingWhite,
                (PieceType::King, Color::Black) => Piece::KingBlack,
            },
        }
    }
}

/// A square as the page receives it.
#[derive(Debug, Clone, Copy, PartialEq, Eq, Structural)]
pub struct PositionWrapper(pub char, pub char);

/// An output that the page can ask what it is.
#[derive(Debug, Clone, Copy, PartialEq, Eq, Structural)]
pub struct UserOutputWrapper(pub UserOutput);

/// The text of an output.
pub open spec fn output_text(output: UserOutput) -> Seq<char> {
    match output {
        UserOutput::CheckMate => "CheckMate"@,
        UserOutput::StaleMate => "StaleMate"@,
        UserOutput::InvalidMove => "InvalidMove"@,
        UserOutput::Promotion(pos) => "Promotion ("@.push(pos.0) + ","@.push(pos.1) + ")"@,
        UserOutput::Draw => "Draw"@,
    }
}

impl UserOutputWrapper {
    /// Whether the output reports a mate.
    #[must_use]
    pub fn is_check_mate(&self) -> (r: bool)
        ensures
            r == (self.0 == UserOutput::CheckMate),
    {
        matches!(self.0, UserOutput::CheckMate)
    }

    /// Whether the output reports a stalemate.
    #[must_use]
    pub fn is_stale_mate(&self) -> (r: bool)
        ensures
            r == (self.0 == UserOutput::StaleMate),
    {
        matches!(self.0, UserOutput::StaleMate)
    }

    /// Whether the output rejects a move.
    #[must_use]
    pub fn is_invalid_move(&self) -> (r: bool)
        ensures
            r == (self.0 == UserOutput::InvalidMove),
    {
        matches!(self.0, UserOutput::InvalidMove)
    }

    /// Whether the output reports a pawn that awaits promotion.
    #[must_use]
    pub fn is_promotion(&self) -> (r: bool)
        ensures
            r == (self.0 is Promotion),
    {
        matches!(self.0, UserOutput::Promotion(_))
    }

    /// The square on which a pawn awaits promotion, where the output says so.
    #[must_use]
    pub fn promotion_pos(&self) -> (r: Option<PositionWrapper>)
        ensures
            r == match self.0 {
                UserOutput::Promotion(pos) => Some(PositionWrapper(pos.0, pos.1)),
                _ => None,
            },
    {
        match self.0 {
            UserOutput::Promotion(pos) => Some(PositionWrapper(pos.0, pos.1)),
            _ => None,
        }
    }

    /// Whether the output reports a draw.
    #[must_use]
    pub fn is_draw(&self) -> (r: bool)
        ensures
            r == (self.0 == UserOutput::Draw),
    {
        matches!(self.0, UserOutput::Draw)
    }

    /// Returns the text of the output.
    pub fn to_string(&self) -> (r: String)
        ensures
            r@ == output_text(self.0),
    {
        match self.0 {
            UserOutput::CheckMate => String::from_str("CheckMate"),
            UserOutput::StaleMate => String::from_str("StaleMate"),
            UserOutput::InvalidMove => String::from_str("InvalidMove"),
            UserOutput::Promotion(pos) => {
                let mut text = String::from_str("Promotion (");
                push_char(&mut text, pos.0);
                text.append(",");
                push_char(&mut text, pos.1);
                text.append(")");
                assert(text@ =~= output_text(self.0));
                text
            },
            UserOutput::Draw => String::from_str("Draw"),
        }
    }
}

/// The output as the page receives it.
pub open spec fn wrapped(output: Option<UserOutput>) -> Option<UserOutputWrapper> {
    match output {
        Some(o) => Some(UserOutputWrapper(o)),
        None => None,
    }
}

/// A game together with the cells that show its board.
pub struct ChessGame {
    pub game: Game,
    pub game_board: [Piece; 64],
}

impl ChessGame {
    /// Whether the cells show the board of the game.
    pub open spec fn shows_board(&self) -> bool {
        self.game_board@ == cells_of(self.game@.board)
    }

    /// Brings the cells up to date with the board.
    pub fn update_game_board(&mut self)
        ensures
            final(self).game == old(self).game,
            final(self).shows_board(),
    {
        let mut i: usize = 0;
        while i < 64
            invariant
                i <= 64,
                self.game == old(self).game,
                forall|j: int| 0 <= j < i ==> self.game_board@[j] == cell_of(self.game@.board[j]),
            decreases 64 - i,
        {
            self.game_board[i] = Piece::of(self.game.board[i]);
            i += 1;
        }
        assert(self.game_board@ =~= cells_of(self.game@.board));
    }

    /// The place in the cells of the square in the given row and column.
    pub fn get_index(row: char, col: char) -> (r: usize)
        requires
            Position(col, row).on_board(),
        ensures
            r == Position(col, row).spec_index(),
    {
        Position(col, row).as_index()
    }

    /// Starts a game and shows its board.
    #[must_use]
    pub fn new() -> (r: ChessGame)
        ensures
            r.game@ == rules::new_game(),
            r.shows_board(),
    {
        let mut chess_game = ChessGame { game: Game::new(), game_board: [Piece::Empty;64] };
        chess_game.update_game_board();
        chess_game
    }

    /// Hands a move to the game and shows the board that results.
    pub fn play_move(&mut self, from1: char, from2: char, to1: char, to2: char) -> (r: Option<
        UserOutputWrapper,
    >)
        requires
            rules::can_count(old(self).game@),
        ensures
            ({
                let played = rules::process(
                    old(self).game@,
                    UserInput::Move(Position(from1, from2), Position(to1, to2)),
                );
                final(self).game@ == played.0 && r == wrapped(played.1)
            }),
            final(self).shows_board(),
    {
        let user_output = self.game.process_input(
            &UserInput::Move(Position(from1, from2), Position(to1, to2)),
        );
        self.update_game_board();
        match user_output {
            Some(o) => Some(UserOutputWrapper(o)),
            None => None,
        }
    }

    /// Lets the player that goes for the king move: the first legal move that
    /// gives check, else the first that takes a piece, else the legal move at
    /// `random` counted round the list. `None` where there is no legal move.
    pub fn play_attacking_king(&mut self, random: usize) -> (r: Option<UserOutputWrapper>)
        requires
            rules::can_count(old(self).game@),
        ensures
            ({
                let legal = rules::all_legal_moves(old(self).game@);
                if legal.len() == 0 {
                    r is None && final(self).game@ == old(self).game@
                } else {
                    let mv = legal[attacking_choice(
                        old(self).game@,
                        legal,
                        random as int % legal.len() as int,
                    )];
                    let played = rules::process(
                        old(self).game@,
                        UserInput::Move(mv.from, mv.to),
                    );
                    final(self).game@ == played.0 && r == wrapped(played.1)
                }
            }),
            final(self).shows_board(),
    {
        let possible_moves = self.game.get_all_currently_valid_moves();
        if possible_moves.len() == 0 {
            self.update_game_board();
            return None;
        }
        let chosen = choose_attacking_king(
            &self.game,
            &possible_moves,
            random % possible_moves.len(),
        );
        let move_to_play = &possible_moves[chosen];
        assert(view_moves(possible_moves@)[chosen as int] == move_to_play@);
        let user_output = self.game.process_input(
            &UserInput::Move(move_to_play.from, move_to_play.to),
        );
        self.update_game_board();
        match user_output {
            Some(o) => Some(UserOutputWrapper(o)),
            None => None,
        }
    }

    /// Lets the player that takes what it can move: the first legal move that
    /// takes a piece, else the legal move at `random` counted round the list.
    /// `None` where there is no legal move.
    pub fn play_randomly_aggressive(&mut self, random: usize) -> (r: Option<UserOutputWrapper>)
        requires
            rules::can_count(old(self).game@),
        ensures
            ({
                let legal = rules::all_legal_moves(old(self).game@);
                if legal.len() == 0 {
                    r is None && final(self).game@ == old(self).game@
                } else {
                    let mv = legal[aggressive_choice(legal, random as int % legal.len() as int)];
                    let played = rules::process(
                        old(self).game@,
                        UserInput::Move(mv.from, mv.to),
                    );
                    final(self).game@ == played.0 && r == wrapped(played.1)
                }
            }),
            final(self).shows_board(),
    {
        let possible_moves = self.game.get_all_currently_valid_moves();
        if possible_moves.len() == 0 {
            self.update_game_board();
            return None;
        }
        let chosen = choose_aggressive(&possible_moves, random % possible_moves.len());
        let move_to_play = &possible_moves[chosen];
        assert(view_moves(possible_moves@)[chosen as int] == move_to_play@);
        let user_output = self.game.process_input(
            &UserInput::Move(move_to_play.from, move_to_play.to),
        );
        self.update_game_board();
        match user_output {
            Some(o) => Some(UserOutputWrapper(o)),
            None => None,
        }
    }

    /// The cells that show the board.
    #[must_use]
    pub fn get_game_board(&self) -> (r: &[Piece; 64])
        ensures
            r@ == self.game_board@,
    {
        &self.game_board
    }

    /// Draws the board as text.
    #[must_use]
    pub fn render(&self) -> (r: String)
        ensures
            r@ == board_text(self.game@.board),
    {
        self.game.to_string()
    }
}

impl Default for ChessGame {
    fn default() -> (r: Self)
        ensures
            r.game@ == rules::new_game(),
            r.shows_board(),
    {
        Self::new()
    }
}

} // verus!

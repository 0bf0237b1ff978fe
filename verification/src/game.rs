//! The game: its state, and the engine that generates moves on it.

use vstd::prelude::*;
pub use crate::moves::Move;
pub use crate::moves::MoveType;
pub use crate::moves::UserInput;
pub use crate::moves::UserOutput;
pub use crate::pieces::Board;
pub use crate::pieces::Color;
pub use crate::pieces::Piece;
pub use crate::pieces::PieceType;
pub use crate::pieces::Position;
pub use crate::pieces::BOARD_SIZE;
pub use crate::pieces::COLOR_COUNT;
pub use crate::pieces::TOTAL_SQUARES;
use crate::moves::clone_moves;
use crate::moves::view_moves;
use crate::moves::Obstacle;
use crate::rules;
use crate::rules::GameView;
use crate::rules::PositionKey;

verus! {

/// A game of chess.
///
/// Every operation is defined on every value of this type: none relies on
/// the fields agreeing with each other.
#[derive(Debug)]
pub struct Game {
    /// The side to move.
    pub turn: Color,
    pub board: Board,
    /// The pieces each side has taken, White's first.
    pub captured: [Vec<Piece>; 2],
    /// The moves made so far, oldest first.
    pub history: Vec<Move>,
    /// Each position met so far with the number of times it was met, in the
    /// order of first meeting. A new game holds no position twice, and no
    /// input makes it do so (`rules::keys_distinct`).
    pub number_of_repeated_board_states: Vec<((Color, Board, Vec<Move>), u8)>,
    pub number_of_moves_without_captures_or_pawn_moves: u8,
    pub able_to_long_castle: [bool; 2],
    pub able_to_short_castle: [bool; 2],
    /// The squares each side attacks, as of the last recomputation.
    pub protected_squares: [Vec<Position>; 2],
    /// The threats to each side's king, as of the last recomputation.
    pub pieces_attacking_king: [Vec<(Piece, Vec<Position>)>; 2],
}

/// The values of a list of threats.
pub open spec fn view_threats(threats: Seq<(Piece, Vec<Position>)>) -> Seq<(Piece, Seq<Position>)> {
    threats.map_values(|t: (Piece, Vec<Position>)| (t.0, t.1@))
}

/// The value of a position's key.
pub open spec fn view_key(key: (Color, Board, Vec<Move>)) -> PositionKey {
    PositionKey { turn: key.0, board: key.1@, moves: view_moves(key.2@) }
}

/// The values of a count of repetitions.
pub open spec fn view_table(table: Seq<((Color, Board, Vec<Move>), u8)>) -> Seq<(PositionKey, nat)> {
    table.map_values(|e: ((Color, Board, Vec<Move>), u8)| (view_key(e.0), e.1 as nat))
}

impl View for Game {
    type V = GameView;

    open spec fn view(&self) -> GameView {
        GameView {
            turn: self.turn,
            board: self.board@,
            captured: Seq::new(2, |i: int| self.captured@[i]@),
            history: view_moves(self.history@),
            number_of_repeated_board_states: view_table(self.number_of_repeated_board_states@),
            number_of_moves_without_captures_or_pawn_moves:
                self.number_of_moves_without_captures_or_pawn_moves as nat,
            able_to_long_castle: self.able_to_long_castle@,
            able_to_short_castle: self.able_to_short_castle@,
            protected_squares: Seq::new(2, |i: int| self.protected_squares@[i]@),
            pieces_attacking_king: Seq::new(
                2,
                |i: int| view_threats(self.pieces_attacking_king@[i]@),
            ),
        }
    }
}

/// Copies a list of threats.
pub fn clone_threats(threats: &Vec<(Piece, Vec<Position>)>) -> (r: Vec<(Piece, Vec<Position>)>)
    ensures
        view_threats(r@) == view_threats(threats@),
{
    let mut out: Vec<(Piece, Vec<Position>)> = Vec::new();
    let mut i: usize = 0;
    while i < threats.len()
        invariant
            i <= threats.len(),
            out.len() == i,
            forall|j: int| 0 <= j < i ==> out@[j].0 == threats@[j].0 && out@[j].1@ == threats@[j].1@,
        decreases threats.len() - i,
    {
        out.push((threats[i].0, threats[i].1.clone()));
        i += 1;
    }
    assert(view_threats(out@) =~= view_threats(threats@));
    out
}

/// Copies a count of repetitions.
pub fn clone_table(table: &Vec<((Color, Board, Vec<Move>), u8)>) -> (r: Vec<
    ((Color, Board, Vec<Move>), u8),
>)
    ensures
        view_table(r@) == view_table(table@),
{
    let mut out: Vec<((Color, Board, Vec<Move>), u8)> = Vec::new();
    let mut i: usize = 0;
    while i < table.len()
        invariant
            i <= table.len(),
            out.len() == i,
            forall|j: int|
                0 <= j < i ==> view_key(out@[j].0) == view_key(table@[j].0) && out@[j].1
                    == table@[j].1,
        decreases table.len() - i,
    {
        let entry = &table[i];
        out.push(((entry.0.0, entry.0.1, clone_moves(&entry.0.2)), entry.1));
        i += 1;
    }
    assert(view_table(out@) =~= view_table(table@));
    out
}

impl Clone for Game {
    fn clone(&self) -> (r: Self)
        ensures
            r@ == self@,
    {
        let r = Game {
            turn: self.turn,
            board: self.board,
            captured: [self.captured[0].clone(), self.captured[1].clone()],
            history: clone_moves(&self.history),
            number_of_repeated_board_states: clone_table(&self.number_of_repeated_board_states),
            number_of_moves_without_captures_or_pawn_moves:
                self.number_of_moves_without_captures_or_pawn_moves,
            able_to_long_castle: self.able_to_long_castle,
            able_to_short_castle: self.able_to_short_castle,
            protected_squares: [
                self.protected_squares[0].clone(),
                self.protected_squares[1].clone(),
            ],
            pieces_attacking_king: [
                clone_threats(&self.pieces_attacking_king[0]),
                clone_threats(&self.pieces_attacking_king[1]),
            ],
        };
        assert(r@.captured =~= self@.captured);
        assert(r@.protected_squares =~= self@.protected_squares);
        assert(r@.pieces_attacking_king =~= self@.pieces_attacking_king);
        r
    }
}

impl Game {
    /// What a step onto `pos` meets.
    pub fn obstacles_in_one_move(&self, pos: Position) -> (r: Option<Obstacle>)
        ensures
            r == rules::obstacle_at(self@.board, pos),
    {
        match pos.try_as_index() {
            None => Some(Obstacle::OutOfBoundary),
            Some(index) => match self.board[index] {
                None => None,
                Some(p) => Some(Obstacle::Piece(p.color)),
            },
        }
    }

    /// Whether the king of `color` is recorded as threatened.
    pub fn check(&self, color: Color) -> (r: bool)
        ensures
            r == rules::in_check(self@, color),
    {
        self.pieces_attacking_king[color.slot()].len() > 0
    }

    /// Whether `pos` is recorded as attacked by `color`.
    pub fn pos_protected(&self, pos: Position, color: Color) -> (r: bool)
        ensures
            r == rules::is_protected(self@, pos, color),
    {
        let squares = &self.protected_squares[color.slot()];
        let mut i: usize = 0;
        while i < squares.len()
            invariant
                i <= squares.len(),
                squares@ == self@.protected_squares[color.spec_slot()],
                forall|j: int| 0 <= j < i ==> squares@[j] != pos,
            decreases squares.len() - i,
        {
            if pos == squares[i] {
                assert(squares@[i as int] == pos);
                return true;
            }
            i += 1;
        }
        false
    }
}

} // verus!

//! Playing: starting a game, counting positions, and carrying out inputs.

use vstd::prelude::*;
use crate::game::view_key;
use crate::game::Game;
use crate::moves::same_moves;
use crate::moves::view_moves;
use crate::moves::Move;
use crate::moves::MoveType;
use crate::moves::UserInput;
use crate::moves::UserOutput;
use crate::pieces::Board;
use crate::pieces::Color;
use crate::pieces::Piece;
use crate::pieces::PieceType;
use crate::pieces::Position;
use crate::rules;
use crate::rules::GameView;
use crate::rules::PositionKey;

verus! {

/// Whether two boards hold the same pieces on the same squares.
pub fn same_board(a: &Board, b: &Board) -> (r: bool)
    ensures
        r == (a@ == b@),
{
    let mut i: usize = 0;
    while i < 64
        invariant
            i <= 64,
            forall|j: int| 0 <= j < i ==> a@[j] == b@[j],
        decreases 64 - i,
    {
        let same = match (a[i], b[i]) {
            (None, None) => true,
            (Some(p), Some(q)) => p == q,
            _ => false,
        };
        if !same {
            return false;
        }
        i += 1;
    }
    assert(a@ =~= b@);
    true
}

/// The place of a key is the first place that holds it.
pub proof fn lemma_key_place(table: Seq<(PositionKey, nat)>, key: PositionKey, from: int, i: int)
    requires
        0 <= from <= i <= table.len(),
        forall|j: int| from <= j < i ==> (#[trigger] table[j]).0 != key,
        i < table.len() ==> table[i].0 == key,
    ensures
        rules::key_place(table, key, from) == i,
    decreases i - from,
{
    if from < i {
        lemma_key_place(table, key, from + 1, i);
    }
}

/// The kind of piece that starts on the given file of a side's home rank.
fn home_piece(file: usize) -> (r: PieceType)
    ensures
        r == rules::home_piece(file as int),
{
    if file == 0 || file == 7 {
        PieceType::Rook
    } else if file == 1 || file == 6 {
        PieceType::Knight
    } else if file == 2 || file == 5 {
        PieceType::Bishop
    } else if file == 3 {
        PieceType::Queen
    } else {
        PieceType::King
    }
}

/// The board when a game starts.
pub fn initial_board() -> (board: Board)
    ensures
        board@ == rules::initial_board(),
{
    let mut board: Board = [None;64];
    let mut i: usize = 0;
    while i < 64
        invariant
            i <= 64,
            forall|j: int| 0 <= j < i ==> board@[j] == rules::initial_piece(j % 8, j / 8),
        decreases 64 - i,
    {
        let file = i % 8;
        let rank = i / 8;
        let piece = if rank == 1 {
            Some(Piece::new(PieceType::Pawn, Color::White))
        } else if rank == 6 {
            Some(Piece::new(PieceType::Pawn, Color::Black))
        } else if rank == 0 {
            Some(Piece::new(home_piece(file), Color::White))
        } else if rank == 7 {
            Some(Piece::new(home_piece(file), Color::Black))
        } else {
            None
        };
        board[i] = piece;
        i += 1;
    }
    assert(board@ =~= rules::initial_board());
    board
}

impl Game {
    /// Counts the present position once more.
    pub fn count_position(&mut self)
        requires
            forall|i: int|
                0 <= i < old(self).number_of_repeated_board_states.len() ==> (
                #[trigger] old(self).number_of_repeated_board_states@[i]).1 < 255,
        ensures
            final(self)@ == rules::counted(old(self)@),
            rules::keys_distinct(old(self)@.number_of_repeated_board_states)
                ==> rules::keys_distinct(final(self)@.number_of_repeated_board_states),
    {
        proof {
            crate::laws::law_counting_keeps_keys_distinct(
                old(self)@.number_of_repeated_board_states,
                rules::position_key(old(self)@),
            );
        }
        let all_possible_moves = self.get_all_possible_moves();
        let ghost key = rules::position_key(self@);
        let ghost table = self@.number_of_repeated_board_states;
        let mut i: usize = 0;
        let mut found = false;
        while i < self.number_of_repeated_board_states.len() && !found
            invariant
                i <= self.number_of_repeated_board_states.len(),
                self@ == old(self)@,
                self.number_of_repeated_board_states == old(self).number_of_repeated_board_states,
                key == rules::position_key(self@),
                key.moves == view_moves(all_possible_moves@),
                table == self@.number_of_repeated_board_states,
                forall|j: int| 0 <= j < i ==> (#[trigger] table[j]).0 != key,
                found ==> i < table.len() && table[i as int].0 == key,
            decreases
                    self.number_of_repeated_board_states.len() - i + (if found {
                        0int
                    } else {
                        1int
                    }),
        {
            let entry = &self.number_of_repeated_board_states[i];
            assert(table[i as int].0 == view_key(entry.0));
            if entry.0.0 == self.turn && same_board(&entry.0.1, &self.board) && same_moves(
                &entry.0.2,
                &all_possible_moves,
            ) {
                found = true;
            } else {
                i += 1;
            }
        }
        proof {
            lemma_key_place(table, key, 0, i as int);
        }
        if found {
            let count = self.number_of_repeated_board_states[i].1;
            self.number_of_repeated_board_states.set(
                i,
                ((self.turn, self.board, all_possible_moves), count + 1),
            );
            assert(self@.number_of_repeated_board_states =~= rules::met_again(table, key));
        } else {
            self.number_of_repeated_board_states.push(
                ((self.turn, self.board, all_possible_moves), 1),
            );
            assert(self@.number_of_repeated_board_states =~= rules::met_again(table, key));
        }
        assert(self@.captured =~= old(self)@.captured);
        assert(self@.protected_squares =~= old(self)@.protected_squares);
        assert(self@.pieces_attacking_king =~= old(self)@.pieces_attacking_king);
    }

    /// Whether the counts of the game have room for one more move.
    pub fn has_room_to_count(&self) -> (r: bool)
        ensures
            r == rules::can_count(self@),
    {
        if self.number_of_moves_without_captures_or_pawn_moves >= 255 {
            return false;
        }
        let ghost table = self@.number_of_repeated_board_states;
        let mut i: usize = 0;
        while i < self.number_of_repeated_board_states.len()
            invariant
                i <= self.number_of_repeated_board_states.len(),
                table == self@.number_of_repeated_board_states,
                forall|j: int| 0 <= j < i ==> (#[trigger] table[j]).1 < 255,
            decreases self.number_of_repeated_board_states.len() - i,
        {
            if self.number_of_repeated_board_states[i].1 >= 255 {
                assert(table[i as int].1 >= 255);
                return false;
            }
            i += 1;
        }
        true
    }

    /// Whether the game is drawn: fifty moves without capture or pawn move,
    /// or a position met three times.
    pub fn is_a_draw(&self) -> (r: bool)
        ensures
            r == rules::is_a_draw(self@),
            !r ==> rules::can_count(self@),
    {
        if self.number_of_moves_without_captures_or_pawn_moves >= 50 {
            return true;
        }
        let ghost table = self@.number_of_repeated_board_states;
        let mut i: usize = 0;
        while i < self.number_of_repeated_board_states.len()
            invariant
                i <= self.number_of_repeated_board_states.len(),
                table == self@.number_of_repeated_board_states,
                forall|j: int| 0 <= j < i ==> (#[trigger] table[j]).1 < 3,
            decreases self.number_of_repeated_board_states.len() - i,
        {
            if self.number_of_repeated_board_states[i].1 >= 3 {
                assert(table[i as int].1 >= 3);
                return true;
            }
            i += 1;
        }
        false
    }

    /// Starts a game: the starting position with White to move.
    #[must_use]
    pub fn new() -> (game: Game)
        ensures
            game@ == rules::new_game(),
            game@.turn == Color::White,
            game@.board == rules::initial_board(),
            game@.history.len() == 0,
            game@.number_of_moves_without_captures_or_pawn_moves == 0,
            game@.number_of_repeated_board_states.len() == 1,
            game@.number_of_repeated_board_states[0].1 == 1,
            !rules::is_a_draw(game@),
            rules::can_count(game@),
            rules::keys_distinct(game@.number_of_repeated_board_states),
    {
        let mut game = Game {
            turn: Color::White,
            board: initial_board(),
            captured: [Vec::new(), Vec::new()],
            history: Vec::new(),
            protected_squares: [Vec::new(), Vec::new()],
            pieces_attacking_king: [Vec::new(), Vec::new()],
            number_of_moves_without_captures_or_pawn_moves: 0,
            number_of_repeated_board_states: Vec::new(),
            able_to_long_castle: [true, true],
            able_to_short_castle: [true, true],
        };
        proof {
            let b = rules::blank_game();
            assert(game@.captured =~= b.captured);
            assert(game@.history =~= b.history);
            assert(game@.number_of_repeated_board_states =~= b.number_of_repeated_board_states);
            assert(game@.able_to_long_castle =~= b.able_to_long_castle);
            assert(game@.able_to_short_castle =~= b.able_to_short_castle);
            assert(game@.protected_squares =~= b.protected_squares);
            assert(game@.pieces_attacking_king[0] =~= b.pieces_attacking_king[0]);
            assert(game@.pieces_attacking_king[1] =~= b.pieces_attacking_king[1]);
            assert(game@.pieces_attacking_king =~= b.pieces_attacking_king);
            assert(game@ == b);
        }
        game.refresh();
        game.count_position();
        game
    }
    /// What the game reports for the side to move: mate or stalemate where it
    /// has no legal move, else a draw where one is due.
    pub fn verdict(&self) -> (r: Option<UserOutput>)
        ensures
            r == rules::verdict(self@),
    {
        if self.no_possible_moves(self.turn) {
            if self.check(self.turn) {
                Some(UserOutput::CheckMate)
            } else {
                Some(UserOutput::StaleMate)
            }
        } else if self.is_a_draw() {
            Some(UserOutput::Draw)
        } else {
            None
        }
    }

    /// The square on which a pawn awaits its promotion, if one does.
    pub fn pending_promotion(&self) -> (r: Option<Position>)
        ensures
            r == rules::pending_promotion(self@),
            r matches Some(pos) ==> pos.on_board(),
    {
        let n = self.history.len();
        if n == 0 {
            return None;
        }
        let last = &self.history[n - 1];
        assert(self@.history.last() == last@);
        let promotes = last.piece.piece_type == PieceType::Pawn && last.move_type
            == MoveType::Normal && (last.to.1 == '8' || last.to.1 == '1');
        if !promotes {
            return None;
        }
        match last.to.try_as_index() {
            None => None,
            Some(index) => match self.board[index] {
                Some(piece) => if piece == last.piece {
                    Some(last.to)
                } else {
                    None
                },
                None => None,
            },
        }
    }

    /// Whether `mv` ends the right of `color` to castle with the rook of the
    /// `a` or the `h` file.
    pub fn ends_castle(mv: &Move, color: Color, file: char) -> (r: bool)
        requires
            file == 'a' || file == 'h',
        ensures
            r == rules::ends_castle(mv@, color, file as int - 97),
    {
        let rank = match color {
            Color::White => '1',
            Color::Black => '8',
        };
        let corner = Position(file, rank);
        (mv.piece.color == color && (mv.piece.piece_type == PieceType::King || (
        mv.piece.piece_type == PieceType::Rook && mv.from == corner))) || mv.to == corner
    }

    /// Records a move that was carried out on the board: the piece it took,
    /// the rights to castle it ended, the count of moves without capture or
    /// pawn move, and the move itself at the end of the history.
    pub fn record_move(&mut self, mv: Move)
        requires
            old(self)@.number_of_moves_without_captures_or_pawn_moves < 255,
        ensures
            final(self)@ == (GameView {
                captured: rules::captured_after(old(self)@.captured, mv@),
                able_to_long_castle: rules::rights_after(old(self)@.able_to_long_castle, mv@, 0),
                able_to_short_castle: rules::rights_after(
                    old(self)@.able_to_short_castle,
                    mv@,
                    7,
                ),
                number_of_moves_without_captures_or_pawn_moves: rules::quiet_after(
                    old(self)@.number_of_moves_without_captures_or_pawn_moves,
                    mv@,
                ),
                history: old(self)@.history.push(mv@),
                ..old(self)@
            }),
    {
        let slot = mv.piece.color.slot();
        match mv.captured_piece {
            Some(captured_piece) => {
                self.captured[slot].push(captured_piece);
            },
            None => {},
        }
        self.able_to_long_castle = [
            self.able_to_long_castle[0] && !Self::ends_castle(&mv, Color::White, 'a'),
            self.able_to_long_castle[1] && !Self::ends_castle(&mv, Color::Black, 'a'),
        ];
        self.able_to_short_castle = [
            self.able_to_short_castle[0] && !Self::ends_castle(&mv, Color::White, 'h'),
            self.able_to_short_castle[1] && !Self::ends_castle(&mv, Color::Black, 'h'),
        ];
        if mv.captured_piece.is_some() || mv.piece.piece_type == PieceType::Pawn {
            self.number_of_moves_without_captures_or_pawn_moves = 0;
        } else {
            self.number_of_moves_without_captures_or_pawn_moves += 1;
        }
        proof {
            crate::moves::lemma_view_moves_push(self.history@, mv);
        }
        let ghost mvv = mv@;
        self.history.push(mv);
        proof {
            assert(self@.captured =~= rules::captured_after(old(self)@.captured, mvv));
            assert(self@.able_to_long_castle =~= rules::rights_after(
                old(self)@.able_to_long_castle,
                mvv,
                0,
            ));
            assert(self@.able_to_short_castle =~= rules::rights_after(
                old(self)@.able_to_short_castle,
                mvv,
                7,
            ));
            assert(self@.protected_squares =~= old(self)@.protected_squares);
            assert(self@.pieces_attacking_king =~= old(self)@.pieces_attacking_king);
        }
    }

    /// Carries out an input and reports what came of it.
    ///
    /// A `Move` is carried out where it is legal for the side to move and no
    /// pawn awaits promotion; where it brings a pawn to the last rank the
    /// turn stays and `Promotion` is reported. A `Promotion` is carried out
    /// where a pawn awaits it and the piece fits; the turn then passes and
    /// the position is counted. Any other move or promotion is reported as
    /// `InvalidMove` and changes nothing. `Draw` and `Resign` are between the
    /// players: they change nothing and nothing is reported.
    ///
    /// After a move that was carried out, the king of the side that moved is
    /// not in check. No position comes to be counted under two entries.
    pub fn process_input(&mut self, user_input: &UserInput) -> (r: Option<UserOutput>)
        requires
            *user_input is Move || *user_input is Promotion ==> rules::can_count(old(self)@),
        ensures
            (final(self)@, r) == rules::process(old(self)@, *user_input),
            *user_input is Move && r != Some(UserOutput::InvalidMove) ==> !rules::in_check(
                final(self)@,
                old(self)@.turn,
            ),
            r == Some(UserOutput::InvalidMove) ==> final(self)@ == old(self)@,
            rules::keys_distinct(old(self)@.number_of_repeated_board_states)
                ==> rules::keys_distinct(final(self)@.number_of_repeated_board_states),
    {
        match user_input {
            UserInput::Move(from, to) => {
                if self.pending_promotion().is_some() {
                    return Some(UserOutput::InvalidMove);
                }
                match self.get_move_if_valid(*from, *to) {
                    None => Some(UserOutput::InvalidMove),
                    Some(mv) => {
                        proof {
                            crate::laws::law_legal_move_keeps_king_safe(old(self)@, *from, *to);
                        }
                        let promotes = mv.piece.piece_type == PieceType::Pawn && mv.move_type
                            == MoveType::Normal && (mv.to.1 == '8' || mv.to.1 == '1');
                        let to = mv.to;
                        let ghost mvv = mv@;
                        self.apply_to_board(&mv);
                        self.refresh();
                        assert(self@ == rules::after_move(old(self)@, mvv));
                        self.record_move(mv);
                        assert(self@ == rules::after_applied(old(self)@, mvv));
                        if promotes {
                            return Some(UserOutput::Promotion(to));
                        }
                        self.turn = self.turn.invert();
                        proof {
                            let want = rules::after_complete_move(old(self)@, mvv);
                            assert(self@.captured =~= want.captured);
                            assert(self@.protected_squares =~= want.protected_squares);
                            assert(self@.pieces_attacking_king =~= want.pieces_attacking_king);
                            assert(self@ == want);
                            assert forall|i: int|
                                0 <= i < self.number_of_repeated_board_states.len() implies (
                            #[trigger] self.number_of_repeated_board_states@[i]).1 < 255 by {
                                assert(old(self)@.number_of_repeated_board_states[i].1
                                    == self.number_of_repeated_board_states@[i].1);
                            }
                        }
                        self.count_position();
                        self.verdict()
                    },
                }
            },
            UserInput::Promotion(piece, pos) => {
                let accepted = match self.pending_promotion() {
                    Some(square) => {
                        let n = self.history.len();
                        square == *pos && self.history[n - 1].piece.color == self.turn
                            && piece.color == self.turn && piece.piece_type != PieceType::Pawn
                            && piece.piece_type != PieceType::King
                    },
                    None => false,
                };
                if !accepted {
                    return Some(UserOutput::InvalidMove);
                }
                self.board[pos.as_index()] = Some(*piece);
                self.refresh();
                self.turn = self.turn.invert();
                proof {
                    let want = GameView {
                        turn: old(self)@.turn.spec_invert(),
                        ..rules::refreshed(
                            GameView {
                                board: old(self)@.board.update(pos.spec_index(), Some(*piece)),
                                ..old(self)@
                            },
                        )
                    };
                    assert(self@.captured =~= want.captured);
                    assert(self@.protected_squares =~= want.protected_squares);
                    assert(self@.pieces_attacking_king =~= want.pieces_attacking_king);
                    assert(self@ == want);
                    assert forall|i: int|
                        0 <= i < self.number_of_repeated_board_states.len() implies (
                    #[trigger] self.number_of_repeated_board_states@[i]).1 < 255 by {
                        assert(old(self)@.number_of_repeated_board_states[i].1
                            == self.number_of_repeated_board_states@[i].1);
                    }
                }
                self.count_position();
                self.verdict()
            },
            _ => None,
        }
    }
}

impl Default for Game {
    fn default() -> (game: Self)
        ensures
            game@ == rules::new_game(),
    {
        Self::new()
    }
}

} // verus!

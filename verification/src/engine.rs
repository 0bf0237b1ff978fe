//! The engine on a whole board: what each side attacks, what threatens each
//! king, which moves are legal.

use vstd::prelude::*;
use crate::game::view_threats;
use crate::game::Game;
use crate::moves::lemma_view_moves_push;
use crate::moves::view_moves;
use crate::moves::Move;
use crate::moves::MoveType;
use crate::moves::MoveView;
use crate::movegen::append_moves;
use crate::pieces::lemma_add_on_board;
use crate::pieces::Color;
use crate::pieces::Piece;
use crate::pieces::PieceType;
use crate::pieces::Position;
use crate::rules;
use crate::rules::GameView;
use crate::shape::lemma_possible_moves_shaped;
use crate::shape::well_shaped;

verus! {

/// The `n`-th square in the order in which the engine walks the board.
pub fn nth_square(n: usize) -> (r: Position)
    requires
        n < 64,
    ensures
        r == rules::nth_square(n as int),
        r.on_board(),
        r.spec_index() == (n % 8) * 8 + n / 8,
{
    let x: u8 = (n / 8) as u8 + 97u8;
    let y: u8 = (n % 8) as u8 + 49u8;
    Position(x as char, y as char)
}

/// Adds to `out` the destinations of `moves`.
fn push_destinations(out: &mut Vec<Position>, moves: &Vec<Move>)
    ensures
        final(out)@ == old(out)@ + rules::destinations(view_moves(moves@)),
{
    let ghost start = out@;
    let ghost all = rules::destinations(view_moves(moves@));
    let mut i: usize = 0;
    assert(out@ =~= start + all.take(0));
    while i < moves.len()
        invariant
            i <= moves.len(),
            all == rules::destinations(view_moves(moves@)),
            out@ == start + all.take(i as int),
        decreases moves.len() - i,
    {
        out.push(moves[i].to);
        assert(out@ =~= start + all.take(i + 1));
        i += 1;
    }
    assert(all.take(moves.len() as int) =~= all);
}

/// Whether a move is a threat to the king of `color`.
fn is_threat(mv: &Move, color: Color) -> (r: bool)
    ensures
        r == rules::threat_of(mv@, color).is_some(),
{
    match mv.captured_piece {
        Some(taken) => mv.piece.color != color && taken.piece_type == PieceType::King
            && taken.color == color,
        None => false,
    }
}

/// Adds to `out` the threats to the king of `color` among `moves`.
fn push_threats(out: &mut Vec<(Piece, Vec<Position>)>, moves: &Vec<Move>, color: Color)
    ensures
        view_threats(final(out)@) == view_threats(old(out)@) + rules::threats_among(
            view_moves(moves@),
            color,
        ),
{
    let ghost start = view_threats(out@);
    let mut i: usize = 0;
    assert(view_threats(out@) =~= start + rules::threats_among_upto(view_moves(moves@), color, 0));
    while i < moves.len()
        invariant
            i <= moves.len(),
            view_threats(out@) == start + rules::threats_among_upto(
                view_moves(moves@),
                color,
                i as int,
            ),
        decreases moves.len() - i,
    {
        let ghost before = out@;
        if is_threat(&moves[i], color) {
            let entry = (moves[i].piece, moves[i].traversed_squares.clone());
            out.push(entry);
            assert(view_threats(out@) =~= view_threats(before).push(
                (moves@[i as int]@.piece, moves@[i as int]@.traversed_squares),
            ));
        }
        assert(view_threats(out@) =~= start + rules::threats_among_upto(
            view_moves(moves@),
            color,
            i + 1,
        ));
        i += 1;
    }
}

/// One step of a filter: the filter of the first `i + 1` items is that of the
/// first `i`, with the next item added where it passes.
pub proof fn lemma_filter_step(s: Seq<MoveView>, pred: spec_fn(MoveView) -> bool, i: int)
    requires
        0 <= i < s.len(),
    ensures
        s.take(i + 1).filter(pred) == if pred(s[i]) {
            s.take(i).filter(pred).push(s[i])
        } else {
            s.take(i).filter(pred)
        },
{
    assert(s.take(i + 1) =~= s.take(i).push(s[i]));
    s.take(i).lemma_filter_push(s[i], pred);
}

/// The filter of no items is empty.
pub proof fn lemma_filter_none(s: Seq<MoveView>, pred: spec_fn(MoveView) -> bool)
    ensures
        s.take(0).filter(pred) == Seq::<MoveView>::empty(),
{
    reveal(Seq::filter);
    assert(s.take(0).filter(pred) =~= Seq::<MoveView>::empty());
}

/// Whether `p` is one of the squares of `path`.
pub fn contains_square(path: &Vec<Position>, p: Position) -> (r: bool)
    ensures
        r == path@.contains(p),
{
    let mut i: usize = 0;
    while i < path.len()
        invariant
            i <= path.len(),
            forall|j: int| 0 <= j < i ==> path@[j] != p,
        decreases path.len() - i,
    {
        if path[i] == p {
            assert(path@[i as int] == p);
            return true;
        }
        i += 1;
    }
    false
}

/// The moves of `moves` that end on one of the squares of `path`.
fn keep_ending_on(moves: &Vec<Move>, path: &Vec<Position>) -> (kept: Vec<Move>)
    ensures
        view_moves(kept@) == view_moves(moves@).filter(rules::ends_on(path@)),
{
    let mut kept: Vec<Move> = Vec::new();
    let mut i: usize = 0;
    proof {
        lemma_filter_none(view_moves(moves@), rules::ends_on(path@));
        assert(view_moves(kept@) =~= Seq::empty());
    }
    while i < moves.len()
        invariant
            i <= moves.len(),
            view_moves(kept@) == view_moves(moves@).take(i as int).filter(rules::ends_on(path@)),
        decreases moves.len() - i,
    {
        proof {
            lemma_filter_step(view_moves(moves@), rules::ends_on(path@), i as int);
        }
        if contains_square(path, moves[i].to) {
            let mv = moves[i].clone();
            proof {
                lemma_view_moves_push(kept@, mv);
            }
            kept.push(mv);
        }
        i += 1;
    }
    assert(view_moves(moves@).take(moves.len() as int) =~= view_moves(moves@));
    kept
}

/// The moves of `moves` that end on `to`.
fn keep_ending_at(moves: &Vec<Move>, to: Position) -> (kept: Vec<Move>)
    ensures
        view_moves(kept@) == view_moves(moves@).filter(rules::ends_at(to)),
{
    let mut kept: Vec<Move> = Vec::new();
    let mut i: usize = 0;
    proof {
        lemma_filter_none(view_moves(moves@), rules::ends_at(to));
        assert(view_moves(kept@) =~= Seq::empty());
    }
    while i < moves.len()
        invariant
            i <= moves.len(),
            view_moves(kept@) == view_moves(moves@).take(i as int).filter(rules::ends_at(to)),
        decreases moves.len() - i,
    {
        proof {
            lemma_filter_step(view_moves(moves@), rules::ends_at(to), i as int);
        }
        if moves[i].to == to {
            let mv = moves[i].clone();
            proof {
                lemma_view_moves_push(kept@, mv);
            }
            kept.push(mv);
        }
        i += 1;
    }
    assert(view_moves(moves@).take(moves.len() as int) =~= view_moves(moves@));
    kept
}

impl Game {
    /// Every pseudo-legal move on the board, square by square.
    pub fn get_all_possible_moves(&self) -> (moves: Vec<Move>)
        ensures
            view_moves(moves@) == rules::all_pseudo_moves(self@),
    {
        let mut moves: Vec<Move> = Vec::new();
        let mut n: usize = 0;
        assert(view_moves(moves@) =~= rules::all_pseudo_upto(self@, 0));
        while n < 64
            invariant
                n <= 64,
                view_moves(moves@) == rules::all_pseudo_upto(self@, n as int),
            decreases 64 - n,
        {
            append_moves(&mut moves, self.pseudo_legal_moves(nth_square(n), false));
            n += 1;
        }
        moves
    }

    /// The squares each side attacks, White's first.
    pub fn get_all_protected_squares(&self) -> (r: [Vec<Position>; 2])
        ensures
            r@[0]@ == rules::attacked_squares(self@, Color::White),
            r@[1]@ == rules::attacked_squares(self@, Color::Black),
    {
        let mut protected_squares_white: Vec<Position> = Vec::new();
        let mut protected_squares_black: Vec<Position> = Vec::new();
        let mut n: usize = 0;
        while n < 64
            invariant
                n <= 64,
                protected_squares_white@ == rules::attacked_upto(self@, Color::White, n as int),
                protected_squares_black@ == rules::attacked_upto(self@, Color::Black, n as int),
            decreases 64 - n,
        {
            let pos = nth_square(n);
            let ghost white = protected_squares_white@;
            let ghost black = protected_squares_black@;
            match self.board[pos.as_index()] {
                Some(piece) => {
                    let possible_moves = self.pseudo_legal_moves(pos, true);
                    match piece.color {
                        Color::White => {
                            push_destinations(&mut protected_squares_white, &possible_moves);
                            assert(protected_squares_black@ =~= black + Seq::empty());
                        },
                        Color::Black => {
                            push_destinations(&mut protected_squares_black, &possible_moves);
                            assert(protected_squares_white@ =~= white + Seq::empty());
                        },
                    }
                },
                None => {
                    assert(protected_squares_white@ =~= white + Seq::empty());
                    assert(protected_squares_black@ =~= black + Seq::empty());
                },
            }
            n += 1;
        }
        [protected_squares_white, protected_squares_black]
    }

    /// The threats to each side's king, White's first.
    pub fn pieces_attacking_king(&self) -> (r: [Vec<(Piece, Vec<Position>)>; 2])
        ensures
            view_threats(r@[0]@) == rules::threats_to_king(self@, Color::White),
            view_threats(r@[1]@) == rules::threats_to_king(self@, Color::Black),
    {
        let mut pieces_attacking_white: Vec<(Piece, Vec<Position>)> = Vec::new();
        let mut pieces_attacking_black: Vec<(Piece, Vec<Position>)> = Vec::new();
        let mut n: usize = 0;
        assert(view_threats(pieces_attacking_white@) =~= Seq::empty());
        assert(view_threats(pieces_attacking_black@) =~= Seq::empty());
        while n < 64
            invariant
                n <= 64,
                view_threats(pieces_attacking_white@) == rules::threats_upto(
                    self@,
                    Color::White,
                    n as int,
                ),
                view_threats(pieces_attacking_black@) == rules::threats_upto(
                    self@,
                    Color::Black,
                    n as int,
                ),
            decreases 64 - n,
        {
            let moves = self.pseudo_legal_moves(nth_square(n), false);
            push_threats(&mut pieces_attacking_white, &moves, Color::White);
            push_threats(&mut pieces_attacking_black, &moves, Color::Black);
            n += 1;
        }
        [pieces_attacking_white, pieces_attacking_black]
    }

    /// Recomputes the attacked squares from the board, and then the threats
    /// to the kings.
    pub fn refresh(&mut self)
        ensures
            final(self)@ == rules::refreshed(old(self)@),
    {
        self.protected_squares = self.get_all_protected_squares();
        let ghost g1 = GameView {
            protected_squares: seq![
                rules::attacked_squares(old(self)@, Color::White),
                rules::attacked_squares(old(self)@, Color::Black),
            ],
            ..old(self)@
        };
        assert(self@.protected_squares =~= g1.protected_squares);
        assert(self@ == g1);
        self.pieces_attacking_king = self.pieces_attacking_king();
        assert(self@.pieces_attacking_king =~= rules::refreshed(old(self)@).pieces_attacking_king);
    }
    /// Carries out `mv` on the board: its piece leaves `from` and stands on
    /// `to`, a pawn taken en passant leaves the board, a castling king's rook
    /// goes to the square the king crossed. Nothing but the board changes.
    pub fn apply_to_board(&mut self, mv: &Move)
        requires
            mv.from.on_board(),
            mv.to.on_board(),
        ensures
            final(self)@ == (GameView {
                board: rules::board_after(old(self)@.board, mv@),
                ..old(self)@
            }),
    {
        self.board[mv.from.as_index()] = None;
        self.board[mv.to.as_index()] = Some(mv.piece);
        match mv.move_type {
            MoveType::Enpassant => {
                let behind = mv.to.add((0, -mv.piece.color.forward()));
                proof {
                    lemma_add_on_board(mv.to, (0, (-mv.piece.color.spec_forward()) as i8));
                }
                match behind.try_as_index() {
                    Some(index) => {
                        self.board[index] = None;
                    },
                    None => {},
                }
            },
            MoveType::LongCastle => match mv.piece.color {
                Color::White => {
                    self.board[Position('a', '1').as_index()] = None;
                    self.board[Position('d', '1').as_index()] = Some(
                        Piece::new(PieceType::Rook, Color::White),
                    );
                },
                Color::Black => {
                    self.board[Position('a', '8').as_index()] = None;
                    self.board[Position('d', '8').as_index()] = Some(
                        Piece::new(PieceType::Rook, Color::Black),
                    );
                },
            },
            MoveType::ShortCastle => match mv.piece.color {
                Color::White => {
                    self.board[Position('h', '1').as_index()] = None;
                    self.board[Position('f', '1').as_index()] = Some(
                        Piece::new(PieceType::Rook, Color::White),
                    );
                },
                Color::Black => {
                    self.board[Position('h', '8').as_index()] = None;
                    self.board[Position('f', '8').as_index()] = Some(
                        Piece::new(PieceType::Rook, Color::Black),
                    );
                },
            },
            _ => {},
        }
        assert(self@.board =~= rules::board_after(old(self)@.board, mv@));
    }

    /// Whether `mv` leaves the king of the moving side free of threats: the
    /// move is tried on a copy of the game, which is then thrown away.
    pub fn piece_is_not_pinned(&self, mv: &Move) -> (r: bool)
        requires
            mv.from.on_board(),
            mv.to.on_board(),
        ensures
            r == rules::keeps_king_safe(self@, mv@),
    {
        let mut game_after_move = self.clone();
        game_after_move.apply_to_board(mv);
        game_after_move.refresh();
        !game_after_move.check(mv.piece.color)
    }

    /// What check leaves of the moves of `piece`.
    fn keep_answers_to_check(&self, piece: Piece, moves: Vec<Move>) -> (kept: Vec<Move>)
        ensures
            view_moves(kept@) == rules::check_filter(self@, piece, view_moves(moves@)),
    {
        let threats = &self.pieces_attacking_king[piece.color.slot()];
        assert(view_threats(threats@) == self@.pieces_attacking_king[piece.color.spec_slot()]);
        if piece.piece_type == PieceType::King || threats.len() == 0 {
            moves
        } else if threats.len() > 1 {
            let kept: Vec<Move> = Vec::new();
            assert(view_moves(kept@) =~= Seq::empty());
            kept
        } else {
            assert(view_threats(threats@)[0].1 == threats@[0].1@);
            keep_ending_on(&moves, &threats[0].1)
        }
    }

    /// The moves of `moves` that leave the own king free of threats.
    fn keep_safe(&self, moves: &Vec<Move>) -> (kept: Vec<Move>)
        requires
            forall|i: int|
                0 <= i < moves.len() ==> (#[trigger] moves@[i]).from.on_board()
                    && moves@[i].to.on_board(),
        ensures
            view_moves(kept@) == view_moves(moves@).filter(rules::safe_in(self@)),
    {
        let mut kept: Vec<Move> = Vec::new();
        let mut i: usize = 0;
        proof {
            lemma_filter_none(view_moves(moves@), rules::safe_in(self@));
            assert(view_moves(kept@) =~= Seq::empty());
        }
        while i < moves.len()
            invariant
                i <= moves.len(),
                forall|i: int|
                    0 <= i < moves.len() ==> (#[trigger] moves@[i]).from.on_board()
                        && moves@[i].to.on_board(),
                view_moves(kept@) == view_moves(moves@).take(i as int).filter(
                    rules::safe_in(self@),
                ),
            decreases moves.len() - i,
        {
            proof {
                lemma_filter_step(view_moves(moves@), rules::safe_in(self@), i as int);
            }
            if self.piece_is_not_pinned(&moves[i]) {
                let mv = moves[i].clone();
                proof {
                    lemma_view_moves_push(kept@, mv);
                }
                kept.push(mv);
            }
            i += 1;
        }
        assert(view_moves(moves@).take(moves.len() as int) =~= view_moves(moves@));
        kept
    }

    /// The moves from `pos` under the engine's two switches. With
    /// `get_protected` the squares the piece attacks; without it its moves,
    /// less those that check forbids. With `filter_pinned`, less those that
    /// leave the own king threatened.
    pub fn possible_moves(&self, pos: Position, get_protected: bool, filter_pinned: bool) -> (moves:
        Vec<Move>)
        ensures
            view_moves(moves@) == rules::possible_moves(
                self@,
                pos,
                get_protected,
                filter_pinned,
            ),
            forall|i: int|
                0 <= i < moves.len() ==> (#[trigger] moves@[i]).from == pos && pos.on_board()
                    && moves@[i].to.on_board() && Some(moves@[i].piece)
                    == self@.board[pos.spec_index()],
    {
        let found = match pos.try_as_index() {
            None => None,
            Some(index) => self.board[index],
        };
        proof {
            lemma_possible_moves_shaped(self@, pos, get_protected, filter_pinned);
            lemma_possible_moves_shaped(self@, pos, get_protected, false);
        }
        let moves = match found {
            None => {
                let moves: Vec<Move> = Vec::new();
                assert(view_moves(moves@) =~= Seq::empty());
                moves
            },
            Some(piece) => {
                let pseudo = self.pseudo_legal_moves(pos, get_protected);
                let checked = if get_protected {
                    pseudo
                } else {
                    self.keep_answers_to_check(piece, pseudo)
                };
                assert(view_moves(checked@) == rules::possible_moves(
                    self@,
                    pos,
                    get_protected,
                    false,
                ));
                if filter_pinned {
                    assert forall|i: int| 0 <= i < checked.len() implies (
                    #[trigger] checked@[i]).from.on_board() && checked@[i].to.on_board() by {
                        assert(well_shaped(view_moves(checked@)[i], piece, pos));
                    }
                    self.keep_safe(&checked)
                } else {
                    checked
                }
            },
        };
        assert forall|i: int| 0 <= i < moves.len() implies (#[trigger] moves@[i]).from == pos
            && pos.on_board() && moves@[i].to.on_board() && Some(moves@[i].piece)
            == self@.board[pos.spec_index()] by {
            assert(view_moves(moves@)[i] == moves@[i]@);
            assert(well_shaped(view_moves(moves@)[i], self@.board[pos.spec_index()]->0, pos));
        }
        moves
    }

    /// The legal moves of the piece on `pos`, whichever side it belongs to.
    #[must_use]
    pub fn get_valid_moves(&self, pos: Position) -> (moves: Vec<Move>)
        ensures
            view_moves(moves@) == rules::legal_moves(self@, pos),
            forall|i: int|
                0 <= i < moves.len() ==> (#[trigger] moves@[i]).from == pos && pos.on_board()
                    && moves@[i].to.on_board() && Some(moves@[i].piece)
                    == self@.board[pos.spec_index()],
    {
        self.possible_moves(pos, false, true)
    }

    /// Every legal move of the side to move, square by square.
    #[must_use]
    pub fn get_all_currently_valid_moves(&self) -> (moves: Vec<Move>)
        ensures
            view_moves(moves@) == rules::all_legal_moves(self@),
    {
        let mut moves: Vec<Move> = Vec::new();
        let mut n: usize = 0;
        assert(view_moves(moves@) =~= rules::turn_moves_upto(self@, 0));
        while n < 64
            invariant
                n <= 64,
                view_moves(moves@) == rules::turn_moves_upto(self@, n as int),
            decreases 64 - n,
        {
            let pos = nth_square(n);
            let ghost before = view_moves(moves@);
            let mine = match self.board[pos.as_index()] {
                Some(piece) => piece.color == self.turn,
                None => false,
            };
            if mine {
                append_moves(&mut moves, self.get_valid_moves(pos));
            } else {
                assert(view_moves(moves@) =~= before + Seq::empty());
            }
            n += 1;
        }
        moves
    }

    /// Whether `color` has no legal move.
    pub fn no_possible_moves(&self, color: Color) -> (r: bool)
        ensures
            r == rules::no_possible_moves(self@, color),
    {
        let mut n: usize = 0;
        while n < 64
            invariant
                n <= 64,
                rules::no_moves_upto(self@, color, n as int),
            decreases 64 - n,
        {
            let pos = nth_square(n);
            let mine = match self.board[pos.as_index()] {
                Some(piece) => piece.color == color,
                None => false,
            };
            if mine {
                let moves = self.get_valid_moves(pos);
                if moves.len() > 0 {
                    assert(view_moves(moves@).len() > 0);
                    assert(!rules::no_moves_upto(self@, color, 64)) by {
                        let i = n as int;
                        assert(self@.board[rules::nth_square(i).spec_index()] is Some);
                    }
                    return false;
                }
            }
            n += 1;
        }
        true
    }

    /// The move that `from` and `to` stand for: the first legal move from
    /// `from` that ends on `to`, where `from` holds a piece of the side to move.
    pub fn get_move_if_valid(&self, from: Position, to: Position) -> (r: Option<Move>)
        ensures
            match r {
                Some(mv) => rules::move_if_valid(self@, from, to) == Some(mv@)
                    && mv.from == from && from.on_board() && mv.to == to && to.on_board()
                    && mv.piece.color == self.turn
                    && self@.board[from.spec_index()] == Some(mv.piece),
                None => rules::move_if_valid(self@, from, to) is None,
            },
    {
        let mine = match from.try_as_index() {
            Some(index) => match self.board[index] {
                Some(piece) => piece.color == self.turn,
                None => false,
            },
            None => false,
        };
        if !mine {
            return None;
        }
        let legal = self.get_valid_moves(from);
        let matching_moves = keep_ending_at(&legal, to);
        if matching_moves.len() == 0 {
            assert(view_moves(matching_moves@).len() == 0);
            None
        } else {
            let mv = matching_moves[0].clone();
            proof {
                let all = view_moves(legal@);
                let kept = all.filter(rules::ends_at(to));
                assert(view_moves(matching_moves@)[0] == matching_moves@[0]@);
                assert(kept.contains(kept[0]));
                all.lemma_filter_contains_rev(rules::ends_at(to), kept[0]);
                let j = choose|j: int| 0 <= j < all.len() && all[j] == kept[0];
                assert(all[j] == legal@[j]@);
                all.lemma_filter_pred(rules::ends_at(to), 0);
            }
            Some(mv)
        }
    }
}

} // verus!

//! Move generation: the pseudo-legal moves of each kind of piece.

use vstd::prelude::*;
use crate::game::Game;
use crate::moves::lemma_view_moves_add;
use crate::moves::lemma_view_moves_push;
use crate::moves::view_moves;
use crate::moves::Move;
use crate::moves::MoveType;
use crate::moves::Obstacle;
use crate::pieces::lemma_add_on_board;
use crate::pieces::lemma_at_file_rank;
use crate::pieces::Color;
use crate::pieces::Piece;
use crate::pieces::PieceType;
use crate::pieces::Position;
use crate::rules;

verus! {

/// `k` steps in the direction of `d`.
fn along(d: i8, k: i8) -> (r: i8)
    requires
        0 <= k <= 8,
    ensures
        r == rules::along(d as int, k as int),
{
    if d > 0 {
        k
    } else if d < 0 {
        -k
    } else {
        0
    }
}

impl Game {
    /// The move of `piece` from `from` to the on-board square `to` that takes
    /// whatever stands there.
    fn plain_move(
        &self,
        piece: Piece,
        from: Position,
        to: Position,
        kind: MoveType,
        path: Vec<Position>,
    ) -> (r: Move)
        requires
            to.on_board(),
        ensures
            r@ == rules::plain_move(self@.board, piece, from, to, kind, path@),
    {
        Move {
            piece,
            move_type: kind,
            from,
            to,
            traversed_squares: path,
            captured_piece: self.board[to.as_index()],
        }
    }

    /// The moves of a sliding piece along one ray.
    pub fn get_moves_in_one_direction(
        &self,
        dx: i8,
        dy: i8,
        pos: Position,
        piece: Piece,
        get_protected: bool,
    ) -> (moves: Vec<Move>)
        requires
            pos.on_board(),
        ensures
            view_moves(moves@) == rules::ray_moves(
                self@.board,
                piece,
                pos,
                dx as int,
                dy as int,
                get_protected,
            ),
    {
        let mut moves: Vec<Move> = Vec::new();
        let mut traversed_squares: Vec<Position> = Vec::new();
        traversed_squares.push(pos);
        let mut k: i8 = 1;
        let mut blocked = false;
        proof {
            lemma_at_file_rank(pos);
            assert(traversed_squares@ =~= rules::ray_path(pos, dx as int, dy as int, 0));
            assert(view_moves(moves@) =~= Seq::empty());
        }
        while k <= 7 && !blocked
            invariant
                pos.on_board(),
                1 <= k <= 8,
                !blocked ==> traversed_squares@ == rules::ray_path(pos, dx as int, dy as int, k - 1),
                view_moves(moves@) + (if blocked {
                    Seq::empty()
                } else {
                    rules::ray_moves_from(
                        self@.board,
                        piece,
                        pos,
                        dx as int,
                        dy as int,
                        get_protected,
                        k as int,
                    )
                }) == rules::ray_moves(
                    self@.board,
                    piece,
                    pos,
                    dx as int,
                    dy as int,
                    get_protected,
                ),
            decreases 8 - k + (if blocked { 0int } else { 1int }),
        {
            let ox = along(dx, k);
            let oy = along(dy, k);
            let new_pos = pos.add((ox, oy));
            let ghost before = view_moves(moves@);
            let ghost rest = rules::ray_moves_from(
                self@.board,
                piece,
                pos,
                dx as int,
                dy as int,
                get_protected,
                k as int,
            );
            proof {
                lemma_add_on_board(pos, (ox, oy));
                assert(new_pos == rules::ray_square(pos, dx as int, dy as int, k as int));
            }
            match self.obstacles_in_one_move(new_pos) {
                Some(Obstacle::OutOfBoundary) => {
                    blocked = true;
                    assert(rest =~= Seq::empty());
                },
                Some(Obstacle::Piece(obstacle_color)) => {
                    if get_protected || obstacle_color != piece.color {
                        traversed_squares.push(new_pos);
                        assert(traversed_squares@ =~= rules::ray_path(
                            pos,
                            dx as int,
                            dy as int,
                            k as int,
                        ));
                        let mv = self.plain_move(
                            piece,
                            pos,
                            new_pos,
                            MoveType::Normal,
                            traversed_squares.clone(),
                        );
                        proof {
                            lemma_view_moves_push(moves@, mv);
                        }
                        moves.push(mv);
                        assert(rest =~= seq![mv@]);
                        assert(view_moves(moves@) =~= before + rest);
                    } else {
                        assert(rest =~= Seq::empty());
                    }
                    blocked = true;
                },
                None => {
                    traversed_squares.push(new_pos);
                    assert(traversed_squares@ =~= rules::ray_path(
                        pos,
                        dx as int,
                        dy as int,
                        k as int,
                    ));
                    let mv = self.plain_move(
                        piece,
                        pos,
                        new_pos,
                        MoveType::Normal,
                        traversed_squares.clone(),
                    );
                    proof {
                        lemma_view_moves_push(moves@, mv);
                    }
                    moves.push(mv);
                    let ghost tail = rules::ray_moves_from(
                        self@.board,
                        piece,
                        pos,
                        dx as int,
                        dy as int,
                        get_protected,
                        k + 1,
                    );
                    assert(rest =~= seq![mv@] + tail);
                    assert(view_moves(moves@) + tail =~= before + rest);
                    k += 1;
                },
            }
        }
        proof {
            if !blocked {
                assert(rules::ray_moves_from(
                    self@.board,
                    piece,
                    pos,
                    dx as int,
                    dy as int,
                    get_protected,
                    k as int,
                ) =~= Seq::empty());
            }
            assert(view_moves(moves@) + Seq::empty() =~= view_moves(moves@));
        }
        moves
    }

    /// A rook's moves from `pos`.
    pub fn possible_horizontal_vertical_moves(
        &self,
        pos: Position,
        piece: Piece,
        get_protected: bool,
    ) -> (moves: Vec<Move>)
        requires
            pos.on_board(),
        ensures
            view_moves(moves@) == rules::straight_moves(self@.board, piece, pos, get_protected),
    {
        let mut moves = self.get_moves_in_one_direction(1, 0, pos, piece, get_protected);
        append_moves(&mut moves, self.get_moves_in_one_direction(-1, 0, pos, piece, get_protected));
        append_moves(&mut moves, self.get_moves_in_one_direction(0, 1, pos, piece, get_protected));
        append_moves(&mut moves, self.get_moves_in_one_direction(0, -1, pos, piece, get_protected));
        moves
    }

    /// A bishop's moves from `pos`.
    pub fn possible_diagonal_moves(&self, pos: Position, piece: Piece, get_protected: bool) -> (moves:
        Vec<Move>)
        requires
            pos.on_board(),
        ensures
            view_moves(moves@) == rules::diagonal_moves(self@.board, piece, pos, get_protected),
    {
        let mut moves = self.get_moves_in_one_direction(1, 1, pos, piece, get_protected);
        append_moves(&mut moves, self.get_moves_in_one_direction(1, -1, pos, piece, get_protected));
        append_moves(&mut moves, self.get_moves_in_one_direction(-1, 1, pos, piece, get_protected));
        append_moves(
            &mut moves,
            self.get_moves_in_one_direction(-1, -1, pos, piece, get_protected),
        );
        moves
    }

    /// A queen's moves from `pos`.
    pub fn possible_queen_moves(&self, pos: Position, piece: Piece, get_protected: bool) -> (moves:
        Vec<Move>)
        requires
            pos.on_board(),
        ensures
            view_moves(moves@) == rules::queen_moves(self@.board, piece, pos, get_protected),
    {
        let mut moves = self.possible_horizontal_vertical_moves(pos, piece, get_protected);
        append_moves(&mut moves, self.possible_diagonal_moves(pos, piece, get_protected));
        moves
    }

    /// Adds to `moves` the step of `piece` by one fixed offset, where it may
    /// land there.
    fn push_step(
        &self,
        moves: &mut Vec<Move>,
        piece: Piece,
        pos: Position,
        dx: i8,
        dy: i8,
        get_protected: bool,
        kind: MoveType,
    )
        requires
            pos.on_board(),
            -2 <= dx <= 2,
            -2 <= dy <= 2,
        ensures
            view_moves(final(moves)@) == view_moves(old(moves)@) + rules::step_move(
                self@.board,
                piece,
                pos,
                dx as int,
                dy as int,
                get_protected,
                kind,
            ),
    {
        let new_pos = pos.add((dx, dy));
        proof {
            lemma_add_on_board(pos, (dx, dy));
        }
        let lands = match self.obstacles_in_one_move(new_pos) {
            None => true,
            Some(Obstacle::Piece(obstacle_color)) => get_protected || piece.color != obstacle_color,
            Some(Obstacle::OutOfBoundary) => false,
        };
        if lands {
            let mv = self.plain_move(piece, pos, new_pos, kind, vec![pos, new_pos]);
            proof {
                lemma_view_moves_push(moves@, mv);
            }
            moves.push(mv);
            assert(view_moves(moves@) =~= view_moves(old(moves)@) + seq![mv@]);
        } else {
            assert(view_moves(moves@) =~= view_moves(old(moves)@) + Seq::empty());
        }
    }

    /// A knight's moves from `pos`.
    pub fn possible_knight_moves(&self, pos: Position, piece: Piece, get_protected: bool) -> (moves:
        Vec<Move>)
        requires
            pos.on_board(),
        ensures
            view_moves(moves@) == rules::knight_moves(self@.board, piece, pos, get_protected),
    {
        let mut moves: Vec<Move> = Vec::new();
        assert(view_moves(moves@) =~= Seq::empty());
        self.push_step(&mut moves, piece, pos, 2, 1, get_protected, MoveType::Jump);
        self.push_step(&mut moves, piece, pos, 2, -1, get_protected, MoveType::Jump);
        self.push_step(&mut moves, piece, pos, -2, 1, get_protected, MoveType::Jump);
        self.push_step(&mut moves, piece, pos, -2, -1, get_protected, MoveType::Jump);
        self.push_step(&mut moves, piece, pos, 1, 2, get_protected, MoveType::Jump);
        self.push_step(&mut moves, piece, pos, -1, 2, get_protected, MoveType::Jump);
        self.push_step(&mut moves, piece, pos, 1, -2, get_protected, MoveType::Jump);
        self.push_step(&mut moves, piece, pos, -1, -2, get_protected, MoveType::Jump);
        assert(view_moves(moves@) =~= rules::knight_moves(
            self@.board,
            piece,
            pos,
            get_protected,
        ));
        moves
    }

    /// Whether the king of `color` stands on its home square.
    pub fn king_at_home(&self, color: Color) -> (r: bool)
        ensures
            r == rules::king_at_home(self@, color),
    {
        let home = match color {
            Color::White => Position('e', '1'),
            Color::Black => Position('e', '8'),
        };
        match self.board[home.as_index()] {
            Some(piece) => piece.piece_type == PieceType::King && piece.color == color,
            None => false,
        }
    }

    /// Whether a rook of `color` stands in the corner of its home rank on the
    /// `a` or the `h` file.
    pub fn rook_in_corner(&self, color: Color, file: char) -> (r: bool)
        requires
            file == 'a' || file == 'h',
        ensures
            r == rules::rook_in_corner(self@, color, file as int - 97),
    {
        let rank = match color {
            Color::White => '1',
            Color::Black => '8',
        };
        match self.board[Position(file, rank).as_index()] {
            Some(piece) => piece.piece_type == PieceType::Rook && piece.color == color,
            None => false,
        }
    }

    /// Whether the square on the given file of the home rank of `color` is
    /// empty.
    fn home_square_empty(&self, color: Color, file: char) -> (r: bool)
        requires
            'a' <= file <= 'h',
        ensures
            r == (self@.board[Position::at(file as int - 97, rules::home_rank(color)).spec_index()]
                is None),
    {
        let rank = match color {
            Color::White => '1',
            Color::Black => '8',
        };
        self.board[Position(file, rank).as_index()].is_none()
    }

    /// Whether the other side attacks the square on the given file of the
    /// home rank of `color`.
    fn home_square_attacked(&self, color: Color, file: char) -> (r: bool)
        requires
            'a' <= file <= 'h',
        ensures
            r == rules::is_protected(
                self@,
                Position::at(file as int - 97, rules::home_rank(color)),
                color.spec_invert(),
            ),
    {
        let rank = match color {
            Color::White => '1',
            Color::Black => '8',
        };
        self.pos_protected(Position(file, rank), color.invert())
    }

    /// Whether `color` may castle to the king's side: king and rook stand on
    /// their home squares, the right is held, the king is not in check, and
    /// the squares between them are empty and free of attack.
    pub fn can_short_castle(&self, color: Color) -> (r: bool)
        ensures
            r == rules::can_short_castle(self@, color),
    {
        !self.check(color) && self.able_to_short_castle[color.slot()] && self.king_at_home(color)
            && self.rook_in_corner(color, 'h') && self.home_square_empty(color, 'f')
            && self.home_square_empty(color, 'g') && !self.home_square_attacked(color, 'f')
            && !self.home_square_attacked(color, 'g')
    }

    /// Whether `color` may castle to the queen's side: king and rook stand on
    /// their home squares, the right is held, the king is not in check, the
    /// squares between them are empty, and those the king crosses are free
    /// of attack.
    pub fn can_long_castle(&self, color: Color) -> (r: bool)
        ensures
            r == rules::can_long_castle(self@, color),
    {
        !self.check(color) && self.able_to_long_castle[color.slot()] && self.king_at_home(color)
            && self.rook_in_corner(color, 'a') && self.home_square_empty(color, 'b')
            && self.home_square_empty(color, 'c') && self.home_square_empty(color, 'd')
            && !self.home_square_attacked(color, 'c') && !self.home_square_attacked(color, 'd')
    }

    /// The castling move of the king on its home square `pos` to the side
    /// `dx` points to.
    fn castle_move(&self, piece: Piece, pos: Position, dx: i8, kind: MoveType) -> (r: Move)
        requires
            pos == rules::king_home(piece.color),
            dx == 1 || dx == -1,
        ensures
            r@ == rules::castle_move(self@.board, piece, pos, dx as int, kind),
    {
        let over = pos.add((dx, 0));
        let to = pos.add((2 * dx, 0));
        proof {
            lemma_add_on_board(pos, (dx, 0));
            lemma_add_on_board(pos, ((2 * dx) as i8, 0));
        }
        self.plain_move(piece, pos, to, kind, vec![pos, over, to])
    }

    /// A king's moves from `pos`.
    pub fn possible_king_moves(&self, pos: Position, piece: Piece, get_protected: bool) -> (moves:
        Vec<Move>)
        requires
            pos.on_board(),
        ensures
            view_moves(moves@) == rules::king_moves(self@, piece, pos, get_protected),
    {
        let mut moves: Vec<Move> = Vec::new();
        assert(view_moves(moves@) =~= Seq::empty());
        self.push_step(&mut moves, piece, pos, -1, 1, get_protected, MoveType::Normal);
        self.push_step(&mut moves, piece, pos, 0, 1, get_protected, MoveType::Normal);
        self.push_step(&mut moves, piece, pos, 1, 1, get_protected, MoveType::Normal);
        self.push_step(&mut moves, piece, pos, 1, 0, get_protected, MoveType::Normal);
        self.push_step(&mut moves, piece, pos, 1, -1, get_protected, MoveType::Normal);
        self.push_step(&mut moves, piece, pos, 0, -1, get_protected, MoveType::Normal);
        self.push_step(&mut moves, piece, pos, -1, -1, get_protected, MoveType::Normal);
        self.push_step(&mut moves, piece, pos, -1, 0, get_protected, MoveType::Normal);
        assert(view_moves(moves@) =~= rules::king_steps(self@.board, piece, pos, get_protected));
        let home = match piece.color {
            Color::White => Position('e', '1'),
            Color::Black => Position('e', '8'),
        };
        let ghost steps = view_moves(moves@);
        let ghost mut long: Seq<crate::moves::MoveView> = Seq::empty();
        let ghost mut short: Seq<crate::moves::MoveView> = Seq::empty();
        if !get_protected && pos == home && self.can_long_castle(piece.color) {
            let mv = self.castle_move(piece, pos, -1, MoveType::LongCastle);
            proof {
                lemma_view_moves_push(moves@, mv);
                long = seq![mv@];
            }
            moves.push(mv);
        }
        if !get_protected && pos == home && self.can_short_castle(piece.color) {
            let mv = self.castle_move(piece, pos, 1, MoveType::ShortCastle);
            proof {
                lemma_view_moves_push(moves@, mv);
                short = seq![mv@];
            }
            moves.push(mv);
        }
        assert(long + short == rules::castle_moves(self@, piece, pos, get_protected));
        assert(view_moves(moves@) =~= steps + (long + short));
        moves
    }

    /// Adds to `moves` the capture of the pawn on `pos` to the side `dx`.
    fn push_pawn_capture(
        &self,
        moves: &mut Vec<Move>,
        piece: Piece,
        pos: Position,
        dx: i8,
        get_protected: bool,
    )
        requires
            pos.on_board(),
            dx == 1 || dx == -1,
        ensures
            view_moves(final(moves)@) == view_moves(old(moves)@) + rules::pawn_capture(
                self@.board,
                piece,
                pos,
                dx as int,
                get_protected,
            ),
    {
        let new_pos = pos.add((dx, piece.color.forward()));
        proof {
            lemma_add_on_board(pos, (dx, piece.color.spec_forward() as i8));
        }
        let lands = match self.obstacles_in_one_move(new_pos) {
            Some(Obstacle::Piece(other_piece_color)) => get_protected || other_piece_color
                != piece.color,
            None => get_protected,
            Some(Obstacle::OutOfBoundary) => false,
        };
        if lands {
            let mv = self.plain_move(piece, pos, new_pos, MoveType::Normal, vec![pos, new_pos]);
            proof {
                lemma_view_moves_push(moves@, mv);
            }
            moves.push(mv);
            assert(view_moves(moves@) =~= view_moves(old(moves)@) + seq![mv@]);
        } else {
            assert(view_moves(moves@) =~= view_moves(old(moves)@) + Seq::empty());
        }
    }

    /// Adds to `moves` the advances of the pawn on `pos`.
    fn push_pawn_pushes(
        &self,
        moves: &mut Vec<Move>,
        piece: Piece,
        pos: Position,
        get_protected: bool,
    )
        requires
            pos.on_board(),
        ensures
            view_moves(final(moves)@) == view_moves(old(moves)@) + rules::pawn_pushes(
                self@.board,
                piece,
                pos,
                get_protected,
            ),
    {
        let direction = piece.color.forward();
        let on_start_rank = match piece.color {
            Color::White => pos.1 == '2',
            Color::Black => pos.1 == '7',
        };
        let one = pos.add((0, direction));
        let two = pos.add((0, 2 * direction));
        proof {
            lemma_add_on_board(pos, (0, direction));
            lemma_add_on_board(pos, (0, (2 * direction) as i8));
        }
        let ghost before = view_moves(moves@);
        if !get_protected && self.obstacles_in_one_move(one).is_none() {
            let mv = self.plain_move(piece, pos, one, MoveType::Normal, vec![pos, one]);
            proof {
                lemma_view_moves_push(moves@, mv);
            }
            moves.push(mv);
            if on_start_rank && self.obstacles_in_one_move(two).is_none() {
                let mv2 = self.plain_move(piece, pos, two, MoveType::Normal, vec![pos, two]);
                proof {
                    lemma_view_moves_push(moves@, mv2);
                }
                moves.push(mv2);
                assert(view_moves(moves@) =~= before + seq![mv@, mv2@]);
            } else {
                assert(view_moves(moves@) =~= before + seq![mv@]);
            }
        } else {
            assert(view_moves(moves@) =~= before + Seq::empty());
        }
    }

    /// The en passant capture of the pawn on `pos` to the side `dx`, if the
    /// rules grant it.
    fn en_passant_to(&self, piece: Piece, pos: Position, dx: i8) -> (r: Option<Move>)
        requires
            pos.on_board(),
            dx == 1 || dx == -1,
        ensures
            match r {
                Some(mv) => rules::en_passant_to(self@, piece, pos, dx as int) == seq![mv@],
                None => rules::en_passant_to(self@, piece, pos, dx as int).len() == 0,
            },
    {
        let n = self.history.len();
        if n == 0 {
            return None;
        }
        let last = &self.history[n - 1];
        assert(self@.history.last() == last@);
        let beside = pos.add((dx, 0));
        let target = pos.add((dx, piece.color.forward()));
        proof {
            lemma_add_on_board(pos, (dx, 0));
            lemma_add_on_board(pos, (dx, piece.color.spec_forward() as i8));
        }
        let from_code: u32 = last.from.1 as u32;
        let to_code: u32 = last.to.1 as u32;
        let double_step = last.piece.piece_type == PieceType::Pawn && (from_code == to_code + 2
            || to_code == from_code + 2) && last.to == beside;
        if !double_step || last.piece.color == piece.color {
            return None;
        }
        match (beside.try_as_index(), target.try_as_index()) {
            (Some(beside_index), Some(target_index)) => {
                let still_there = match self.board[beside_index] {
                    Some(p) => p == last.piece,
                    None => false,
                };
                if still_there && self.board[target_index].is_none() {
                    Some(
                        Move {
                            piece,
                            move_type: MoveType::Enpassant,
                            from: pos,
                            to: target,
                            traversed_squares: vec![pos, target],
                            captured_piece: self.board[beside_index],
                        },
                    )
                } else {
                    None
                }
            },
            _ => None,
        }
    }

    /// A pawn's moves from `pos`.
    pub fn possible_pawn_moves(&self, pos: Position, piece: Piece, get_protected: bool) -> (moves:
        Vec<Move>)
        requires
            pos.on_board(),
        ensures
            view_moves(moves@) == rules::pawn_moves(self@, piece, pos, get_protected),
    {
        let mut moves: Vec<Move> = Vec::new();
        assert(view_moves(moves@) =~= Seq::empty());
        self.push_pawn_pushes(&mut moves, piece, pos, get_protected);
        self.push_pawn_capture(&mut moves, piece, pos, 1, get_protected);
        self.push_pawn_capture(&mut moves, piece, pos, -1, get_protected);
        let ghost before = view_moves(moves@);
        if !get_protected {
            let found = match self.en_passant_to(piece, pos, 1) {
                Some(mv) => Some(mv),
                None => self.en_passant_to(piece, pos, -1),
            };
            match found {
                Some(mv) => {
                    proof {
                        lemma_view_moves_push(moves@, mv);
                    }
                    moves.push(mv);
                    assert(view_moves(moves@) =~= before + seq![mv@]);
                },
                None => {
                    assert(view_moves(moves@) =~= before + Seq::empty());
                },
            }
        } else {
            assert(view_moves(moves@) =~= before + Seq::empty());
        }
        assert(view_moves(moves@) =~= rules::pawn_moves(self@, piece, pos, get_protected));
        moves
    }

    /// The pseudo-legal moves from `pos`: every move of the piece on it that
    /// the board allows, whether or not it leaves the own king attacked. With
    /// `get_protected` set, the squares the piece attacks instead.
    pub fn pseudo_legal_moves(&self, pos: Position, get_protected: bool) -> (moves: Vec<Move>)
        ensures
            view_moves(moves@) == rules::pseudo_moves(self@, pos, get_protected),
    {
        let found = match pos.try_as_index() {
            None => None,
            Some(index) => self.board[index],
        };
        match found {
            None => {
                let moves: Vec<Move> = Vec::new();
                assert(view_moves(moves@) =~= Seq::empty());
                moves
            },
            Some(piece) => match piece.piece_type {
                PieceType::King => self.possible_king_moves(pos, piece, get_protected),
                PieceType::Queen => self.possible_queen_moves(pos, piece, get_protected),
                PieceType::Rook => self.possible_horizontal_vertical_moves(
                    pos,
                    piece,
                    get_protected,
                ),
                PieceType::Bishop => self.possible_diagonal_moves(pos, piece, get_protected),
                PieceType::Knight => self.possible_knight_moves(pos, piece, get_protected),
                PieceType::Pawn => self.possible_pawn_moves(pos, piece, get_protected),
            },
        }
    }
}

/// Moves the moves of `more` to the end of `moves`.
pub fn append_moves(moves: &mut Vec<Move>, more: Vec<Move>)
    ensures
        final(moves)@ == old(moves)@ + more@,
        view_moves(final(moves)@) == view_moves(old(moves)@) + view_moves(more@),
{
    let mut more = more;
    proof {
        lemma_view_moves_add(moves@, more@);
    }
    moves.append(&mut more);
}

} // verus!

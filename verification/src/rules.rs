//! The rules of chess as mathematics: which moves a piece has, which squares
//! a side attacks, which moves are legal, and what an input does to a game.
//!
//! Everything here is a specification over `GameView`, the mathematical
//! value of a game; the executable engine is proved to compute exactly these
//! functions.

use vstd::prelude::*;
use crate::moves::MoveType;
use crate::moves::MoveView;
use crate::moves::Obstacle;
use crate::moves::UserInput;
use crate::moves::UserOutput;
use crate::pieces::Color;
use crate::pieces::Piece;
use crate::pieces::PieceType;
use crate::pieces::Position;

verus! {

/// What identifies a position for the count of repetitions: the side to move,
/// the board, and every move the pieces on it could make.
pub struct PositionKey {
    pub turn: Color,
    pub board: Seq<Option<Piece>>,
    pub moves: Seq<MoveView>,
}

/// The mathematical value of a game.
///
/// The per-side lists have two entries, White's first.
pub struct GameView {
    pub turn: Color,
    pub board: Seq<Option<Piece>>,
    pub captured: Seq<Seq<Piece>>,
    pub history: Seq<MoveView>,
    /// Each position met so far with the number of times it was met, in the
    /// order of first meeting.
    pub number_of_repeated_board_states: Seq<(PositionKey, nat)>,
    pub number_of_moves_without_captures_or_pawn_moves: nat,
    pub able_to_long_castle: Seq<bool>,
    pub able_to_short_castle: Seq<bool>,
    /// The squares each side attacks.
    pub protected_squares: Seq<Seq<Position>>,
    /// For each side, the pieces that threaten its king, each with the path
    /// of its attack.
    pub pieces_attacking_king: Seq<Seq<(Piece, Seq<Position>)>>,
}

// ----------------------------------------------------------------------
// Squares
// ----------------------------------------------------------------------

/// The square `dx` files and `dy` ranks away from `p`.
pub open spec fn shifted(p: Position, dx: int, dy: int) -> Position {
    Position::at(p.file() + dx, p.rank() + dy)
}

/// The `n`-th square in the order in which the engine walks the board:
/// file by file from `a1` up to `a8`, then `b1`, and so on.
pub open spec fn nth_square(n: int) -> Position {
    Position::at(n / 8, n % 8)
}

/// What a step onto `p` meets: the edge, a piece, or nothing.
pub open spec fn obstacle_at(board: Seq<Option<Piece>>, p: Position) -> Option<Obstacle> {
    if !p.on_board() {
        Some(Obstacle::OutOfBoundary)
    } else {
        match board[p.spec_index()] {
            None => None,
            Some(q) => Some(Obstacle::Piece(q.color)),
        }
    }
}

/// Whether `piece` may end a step or a slide on `target`: the square is on
/// the board and empty or held by the other side, or by anyone when attacks
/// are computed.
pub open spec fn may_land(
    board: Seq<Option<Piece>>,
    piece: Piece,
    target: Position,
    attacks: bool,
) -> bool {
    target.on_board() && match board[target.spec_index()] {
        None => true,
        Some(q) => attacks || q.color != piece.color,
    }
}

/// The move of `piece` from `from` to `to` that takes whatever stands on `to`.
pub open spec fn plain_move(
    board: Seq<Option<Piece>>,
    piece: Piece,
    from: Position,
    to: Position,
    kind: MoveType,
    path: Seq<Position>,
) -> MoveView {
    MoveView {
        piece,
        from,
        to,
        captured_piece: board[to.spec_index()],
        move_type: kind,
        traversed_squares: path,
    }
}

// ----------------------------------------------------------------------
// Sliding pieces
// ----------------------------------------------------------------------

/// `k` steps in the direction of `d`, which is read by its sign only.
pub open spec fn along(d: int, k: int) -> int {
    if d > 0 {
        k
    } else if d < 0 {
        -k
    } else {
        0
    }
}

/// The square `k` steps from `pos` along the ray `(dx, dy)`.
pub open spec fn ray_square(pos: Position, dx: int, dy: int, k: int) -> Position {
    shifted(pos, along(dx, k), along(dy, k))
}

/// The squares of a ray from `pos` up to its `k`-th step, origin included.
pub open spec fn ray_path(pos: Position, dx: int, dy: int, k: int) -> Seq<Position> {
    Seq::new((k + 1) as nat, |i: int| ray_square(pos, dx, dy, i))
}

/// The moves along one ray from its `k`-th step on: every empty square up to
/// the first obstacle, and the obstacle's square where the piece may land on it.
pub open spec fn ray_moves_from(
    board: Seq<Option<Piece>>,
    piece: Piece,
    pos: Position,
    dx: int,
    dy: int,
    attacks: bool,
    k: int,
) -> Seq<MoveView>
    decreases 8 - k,
{
    let target = ray_square(pos, dx, dy, k);
    if k < 1 || k > 7 || !target.on_board() {
        Seq::empty()
    } else {
        let mv = plain_move(board, piece, pos, target, MoveType::Normal, ray_path(pos, dx, dy, k));
        match board[target.spec_index()] {
            None => seq![mv] + ray_moves_from(board, piece, pos, dx, dy, attacks, k + 1),
            Some(q) => if attacks || q.color != piece.color {
                seq![mv]
            } else {
                Seq::empty()
            },
        }
    }
}

/// The moves along one ray.
pub open spec fn ray_moves(
    board: Seq<Option<Piece>>,
    piece: Piece,
    pos: Position,
    dx: int,
    dy: int,
    attacks: bool,
) -> Seq<MoveView> {
    ray_moves_from(board, piece, pos, dx, dy, attacks, 1)
}

/// A rook's moves: right, left, up, down.
pub open spec fn straight_moves(
    board: Seq<Option<Piece>>,
    piece: Piece,
    pos: Position,
    attacks: bool,
) -> Seq<MoveView> {
    let ray = |dx: int, dy: int| ray_moves(board, piece, pos, dx, dy, attacks);
    ray(1, 0) + ray(-1, 0) + ray(0, 1) + ray(0, -1)
}

/// A bishop's moves: right up, right down, left up, left down.
pub open spec fn diagonal_moves(
    board: Seq<Option<Piece>>,
    piece: Piece,
    pos: Position,
    attacks: bool,
) -> Seq<MoveView> {
    let ray = |dx: int, dy: int| ray_moves(board, piece, pos, dx, dy, attacks);
    ray(1, 1) + ray(1, -1) + ray(-1, 1) + ray(-1, -1)
}

/// A queen's moves: a rook's, then a bishop's.
pub open spec fn queen_moves(
    board: Seq<Option<Piece>>,
    piece: Piece,
    pos: Position,
    attacks: bool,
) -> Seq<MoveView> {
    straight_moves(board, piece, pos, attacks) + diagonal_moves(board, piece, pos, attacks)
}

// ----------------------------------------------------------------------
// Stepping pieces
// ----------------------------------------------------------------------

/// The move by one fixed offset, where the piece may land there.
pub open spec fn step_move(
    board: Seq<Option<Piece>>,
    piece: Piece,
    pos: Position,
    dx: int,
    dy: int,
    attacks: bool,
    kind: MoveType,
) -> Seq<MoveView> {
    let target = shifted(pos, dx, dy);
    if may_land(board, piece, target, attacks) {
        seq![plain_move(board, piece, pos, target, kind, seq![pos, target])]
    } else {
        Seq::empty()
    }
}

/// A knight's moves, in the order of its eight jumps.
pub open spec fn knight_moves(
    board: Seq<Option<Piece>>,
    piece: Piece,
    pos: Position,
    attacks: bool,
) -> Seq<MoveView> {
    let jump = |dx: int, dy: int| step_move(board, piece, pos, dx, dy, attacks, MoveType::Jump);
    jump(2, 1) + jump(2, -1) + jump(-2, 1) + jump(-2, -1) + jump(1, 2) + jump(-1, 2) + jump(1, -2)
        + jump(-1, -2)
}

/// A king's steps to the eight squares around it, clockwise from upper left.
pub open spec fn king_steps(
    board: Seq<Option<Piece>>,
    piece: Piece,
    pos: Position,
    attacks: bool,
) -> Seq<MoveView> {
    let step = |dx: int, dy: int| step_move(board, piece, pos, dx, dy, attacks, MoveType::Normal);
    step(-1, 1) + step(0, 1) + step(1, 1) + step(1, 0) + step(1, -1) + step(0, -1) + step(-1, -1)
        + step(-1, 0)
}

// ----------------------------------------------------------------------
// Check and castling
// ----------------------------------------------------------------------

/// Whether the game records a threat to `color`'s king.
pub open spec fn in_check(g: GameView, color: Color) -> bool {
    g.pieces_attacking_king[color.spec_slot()].len() > 0
}

/// Whether the game records `p` as attacked by `by`.
pub open spec fn is_protected(g: GameView, p: Position, by: Color) -> bool {
    g.protected_squares[by.spec_slot()].contains(p)
}

/// The rank on which a side's king and rooks start, counted from 0.
pub open spec fn home_rank(color: Color) -> int {
    match color {
        Color::White => 0,
        Color::Black => 7,
    }
}

/// The square on which a side's king starts.
pub open spec fn king_home(color: Color) -> Position {
    Position::at(4, home_rank(color))
}

/// Whether the king of `color` stands on its home square.
pub open spec fn king_at_home(g: GameView, color: Color) -> bool {
    g.board[king_home(color).spec_index()] == Some(Piece { piece_type: PieceType::King, color })
}

/// Whether a rook of `color` stands in the corner of its home rank on the
/// given file.
pub open spec fn rook_in_corner(g: GameView, color: Color, file: int) -> bool {
    g.board[Position::at(file, home_rank(color)).spec_index()] == Some(
        Piece { piece_type: PieceType::Rook, color },
    )
}

/// Whether `color` may castle to the king's side: its king stands on its
/// home square and is not in check, its rook stands in the corner, the right
/// is still held, the two squares between king and rook are empty, and the
/// other side attacks neither of them.
pub open spec fn can_short_castle(g: GameView, color: Color) -> bool {
    let r = home_rank(color);
    &&& !in_check(g, color)
    &&& g.able_to_short_castle[color.spec_slot()]
    &&& king_at_home(g, color)
    &&& rook_in_corner(g, color, 7)
    &&& g.board[Position::at(5, r).spec_index()] is None
    &&& g.board[Position::at(6, r).spec_index()] is None
    &&& !is_protected(g, Position::at(5, r), color.spec_invert())
    &&& !is_protected(g, Position::at(6, r), color.spec_invert())
}

/// Whether `color` may castle to the queen's side: its king stands on its
/// home square and is not in check, its rook stands in the corner, the right
/// is still held, the three squares between king and rook are empty, and the
/// other side attacks neither of the two the king crosses.
pub open spec fn can_long_castle(g: GameView, color: Color) -> bool {
    let r = home_rank(color);
    &&& !in_check(g, color)
    &&& g.able_to_long_castle[color.spec_slot()]
    &&& king_at_home(g, color)
    &&& rook_in_corner(g, color, 0)
    &&& g.board[Position::at(1, r).spec_index()] is None
    &&& g.board[Position::at(2, r).spec_index()] is None
    &&& g.board[Position::at(3, r).spec_index()] is None
    &&& !is_protected(g, Position::at(2, r), color.spec_invert())
    &&& !is_protected(g, Position::at(3, r), color.spec_invert())
}

/// The castling move of a king on `pos`, two files to the side `dx` points to.
pub open spec fn castle_move(
    board: Seq<Option<Piece>>,
    piece: Piece,
    pos: Position,
    dx: int,
    kind: MoveType,
) -> MoveView {
    plain_move(
        board,
        piece,
        pos,
        shifted(pos, 2 * dx, 0),
        kind,
        seq![pos, shifted(pos, dx, 0), shifted(pos, 2 * dx, 0)],
    )
}

/// The castling moves of a king: the long one, then the short one, each where
/// its side may castle that way. Only the king on its home square castles,
/// and none does when attacks are computed.
pub open spec fn castle_moves(g: GameView, piece: Piece, pos: Position, attacks: bool) -> Seq<
    MoveView,
> {
    let long = if !attacks && pos == king_home(piece.color) && can_long_castle(g, piece.color) {
        seq![castle_move(g.board, piece, pos, -1, MoveType::LongCastle)]
    } else {
        Seq::empty()
    };
    let short = if !attacks && pos == king_home(piece.color) && can_short_castle(g, piece.color) {
        seq![castle_move(g.board, piece, pos, 1, MoveType::ShortCastle)]
    } else {
        Seq::empty()
    };
    long + short
}

/// A king's moves: its steps, then its castling moves.
pub open spec fn king_moves(g: GameView, piece: Piece, pos: Position, attacks: bool) -> Seq<
    MoveView,
> {
    king_steps(g.board, piece, pos, attacks) + castle_moves(g, piece, pos, attacks)
}

// ----------------------------------------------------------------------
// Pawns
// ----------------------------------------------------------------------

/// The rank from which a side's pawns may advance two squares, counted from 0.
pub open spec fn pawn_start_rank(color: Color) -> int {
    match color {
        Color::White => 1,
        Color::Black => 6,
    }
}

/// A pawn's advances: one square onto an empty square, and from its start
/// rank a second one onto another empty square. None when attacks are computed.
pub open spec fn pawn_pushes(
    board: Seq<Option<Piece>>,
    piece: Piece,
    pos: Position,
    attacks: bool,
) -> Seq<MoveView> {
    let dir = piece.color.spec_forward();
    let one = shifted(pos, 0, dir);
    let two = shifted(pos, 0, 2 * dir);
    if attacks || !one.on_board() || board[one.spec_index()] is Some {
        Seq::empty()
    } else if pos.rank() == pawn_start_rank(piece.color) && two.on_board()
        && board[two.spec_index()] is None {
        seq![
            plain_move(board, piece, pos, one, MoveType::Normal, seq![pos, one]),
            plain_move(board, piece, pos, two, MoveType::Normal, seq![pos, two]),
        ]
    } else {
        seq![plain_move(board, piece, pos, one, MoveType::Normal, seq![pos, one])]
    }
}

/// A pawn's capture to the side `dx`: onto a piece of the other side, or,
/// when attacks are computed, onto the square whatever it holds.
pub open spec fn pawn_capture(
    board: Seq<Option<Piece>>,
    piece: Piece,
    pos: Position,
    dx: int,
    attacks: bool,
) -> Seq<MoveView> {
    let target = shifted(pos, dx, piece.color.spec_forward());
    if target.on_board() && (attacks || (board[target.spec_index()] matches Some(q) && q.color
        != piece.color)) {
        seq![plain_move(board, piece, pos, target, MoveType::Normal, seq![pos, target])]
    } else {
        Seq::empty()
    }
}

/// Whether `last` was a pawn's advance of two squares that ended on `beside`.
pub open spec fn double_step_onto(last: MoveView, beside: Position) -> bool {
    &&& last.piece.piece_type == PieceType::Pawn
    &&& (last.from.1 as int - last.to.1 as int == 2 || last.to.1 as int - last.from.1 as int == 2)
    &&& last.to == beside
}

/// The en passant capture of the pawn on `pos` to the side `dx`: the move
/// before was the other side's pawn advancing two squares to land beside this
/// pawn, that pawn still stands there, and the square behind it is empty. The
/// captured piece is that pawn.
pub open spec fn en_passant_to(g: GameView, piece: Piece, pos: Position, dx: int) -> Seq<
    MoveView,
> {
    let beside = shifted(pos, dx, 0);
    let target = shifted(pos, dx, piece.color.spec_forward());
    if g.history.len() > 0 && double_step_onto(g.history.last(), beside)
        && g.history.last().piece.color != piece.color && beside.on_board() && target.on_board()
        && g.board[beside.spec_index()] == Some(g.history.last().piece)
        && g.board[target.spec_index()] is None {
        seq![
            MoveView {
                piece,
                from: pos,
                to: target,
                captured_piece: g.board[beside.spec_index()],
                move_type: MoveType::Enpassant,
                traversed_squares: seq![pos, target],
            },
        ]
    } else {
        Seq::empty()
    }
}

/// A pawn's en passant capture, if it has one. None when attacks are computed.
pub open spec fn en_passant(g: GameView, piece: Piece, pos: Position, attacks: bool) -> Seq<
    MoveView,
> {
    if attacks {
        Seq::empty()
    } else if en_passant_to(g, piece, pos, 1).len() > 0 {
        en_passant_to(g, piece, pos, 1)
    } else {
        en_passant_to(g, piece, pos, -1)
    }
}

/// A pawn's moves: advances, the capture to the right, the capture to the
/// left, en passant.
pub open spec fn pawn_moves(g: GameView, piece: Piece, pos: Position, attacks: bool) -> Seq<
    MoveView,
> {
    pawn_pushes(g.board, piece, pos, attacks) + pawn_capture(g.board, piece, pos, 1, attacks)
        + pawn_capture(g.board, piece, pos, -1, attacks) + en_passant(g, piece, pos, attacks)
}

// ----------------------------------------------------------------------
// Pseudo-legal moves, attacked squares, threats to the kings
// ----------------------------------------------------------------------

/// The moves of `piece` standing on `pos`, whether or not they leave its own
/// king attacked.
pub open spec fn piece_moves(g: GameView, piece: Piece, pos: Position, attacks: bool) -> Seq<
    MoveView,
> {
    match piece.piece_type {
        PieceType::King => king_moves(g, piece, pos, attacks),
        PieceType::Queen => queen_moves(g.board, piece, pos, attacks),
        PieceType::Rook => straight_moves(g.board, piece, pos, attacks),
        PieceType::Bishop => diagonal_moves(g.board, piece, pos, attacks),
        PieceType::Knight => knight_moves(g.board, piece, pos, attacks),
        PieceType::Pawn => pawn_moves(g, piece, pos, attacks),
    }
}

/// The pseudo-legal moves from `pos`: those of the piece on it, none from an
/// empty square or from off the board. With `attacks` set these are the
/// squares the piece attacks rather than the moves it may make.
pub open spec fn pseudo_moves(g: GameView, pos: Position, attacks: bool) -> Seq<MoveView> {
    if !pos.on_board() {
        Seq::empty()
    } else {
        match g.board[pos.spec_index()] {
            None => Seq::empty(),
            Some(piece) => piece_moves(g, piece, pos, attacks),
        }
    }
}

/// The pseudo-legal moves from the first `n` squares, in the order of the squares.
pub open spec fn all_pseudo_upto(g: GameView, n: int) -> Seq<MoveView>
    decreases n,
{
    if n <= 0 {
        Seq::empty()
    } else {
        all_pseudo_upto(g, n - 1) + pseudo_moves(g, nth_square(n - 1), false)
    }
}

/// Every pseudo-legal move on the board.
pub open spec fn all_pseudo_moves(g: GameView) -> Seq<MoveView> {
    all_pseudo_upto(g, 64)
}

/// The destinations of a list of moves.
pub open spec fn destinations(moves: Seq<MoveView>) -> Seq<Position> {
    Seq::new(moves.len(), |i: int| moves[i].to)
}

/// The squares that the pieces of `color` on the first `n` squares attack.
pub open spec fn attacked_upto(g: GameView, color: Color, n: int) -> Seq<Position>
    decreases n,
{
    if n <= 0 {
        Seq::empty()
    } else {
        let pos = nth_square(n - 1);
        let here = if g.board[pos.spec_index()] matches Some(p) && p.color == color {
            destinations(pseudo_moves(g, pos, true))
        } else {
            Seq::empty()
        };
        attacked_upto(g, color, n - 1) + here
    }
}

/// The squares that `color` attacks.
pub open spec fn attacked_squares(g: GameView, color: Color) -> Seq<Position> {
    attacked_upto(g, color, 64)
}

/// The threat that a move is to the king of `color`, if it is one: the
/// moving piece with the path it takes to the king.
pub open spec fn threat_of(m: MoveView, color: Color) -> Option<(Piece, Seq<Position>)> {
    if m.piece.color != color && m.captured_piece == Some(
        Piece { piece_type: PieceType::King, color },
    ) {
        Some((m.piece, m.traversed_squares))
    } else {
        None
    }
}

/// The threats to the king of `color` among the first `n` of `moves`.
pub open spec fn threats_among_upto(moves: Seq<MoveView>, color: Color, n: int) -> Seq<
    (Piece, Seq<Position>),
>
    decreases n,
{
    if n <= 0 {
        Seq::empty()
    } else {
        let before = threats_among_upto(moves, color, n - 1);
        match threat_of(moves[n - 1], color) {
            Some(t) => before.push(t),
            None => before,
        }
    }
}

/// The threats to the king of `color` among `moves`, in their order.
pub open spec fn threats_among(moves: Seq<MoveView>, color: Color) -> Seq<(Piece, Seq<Position>)> {
    threats_among_upto(moves, color, moves.len() as int)
}

/// The threats to the king of `color` from the first `n` squares.
pub open spec fn threats_upto(g: GameView, color: Color, n: int) -> Seq<(Piece, Seq<Position>)>
    decreases n,
{
    if n <= 0 {
        Seq::empty()
    } else {
        threats_upto(g, color, n - 1) + threats_among(
            pseudo_moves(g, nth_square(n - 1), false),
            color,
        )
    }
}

/// The threats to the king of `color`: every pseudo-legal capture of that
/// king by a piece of the other side.
pub open spec fn threats_to_king(g: GameView, color: Color) -> Seq<(Piece, Seq<Position>)> {
    threats_upto(g, color, 64)
}

/// The game with its attacked squares recomputed from the board, and then its
/// threats to the kings.
pub open spec fn refreshed(g: GameView) -> GameView {
    let g1 = GameView {
        protected_squares: seq![
            attacked_squares(g, Color::White),
            attacked_squares(g, Color::Black),
        ],
        ..g
    };
    GameView {
        pieces_attacking_king: seq![
            threats_to_king(g1, Color::White),
            threats_to_king(g1, Color::Black),
        ],
        ..g1
    }
}

// ----------------------------------------------------------------------
// Carrying out a move on the board
// ----------------------------------------------------------------------

/// The board after `mv`: its piece leaves `from` and stands on `to`; a pawn
/// taken en passant leaves the square behind `to`; a castling king's rook
/// leaves its corner for the square the king crossed.
pub open spec fn board_after(board: Seq<Option<Piece>>, mv: MoveView) -> Seq<Option<Piece>> {
    let b = board.update(mv.from.spec_index(), None).update(mv.to.spec_index(), Some(mv.piece));
    let r = home_rank(mv.piece.color);
    let rook = Some(Piece { piece_type: PieceType::Rook, color: mv.piece.color });
    match mv.move_type {
        MoveType::Enpassant => {
            let behind = shifted(mv.to, 0, -mv.piece.color.spec_forward());
            if behind.on_board() {
                b.update(behind.spec_index(), None)
            } else {
                b
            }
        },
        MoveType::LongCastle => b.update(Position::at(0, r).spec_index(), None).update(
            Position::at(3, r).spec_index(),
            rook,
        ),
        MoveType::ShortCastle => b.update(Position::at(7, r).spec_index(), None).update(
            Position::at(5, r).spec_index(),
            rook,
        ),
        _ => b,
    }
}

/// The game after `mv` was carried out on its board and its attacked squares
/// and threats were recomputed; nothing else changes.
pub open spec fn after_move(g: GameView, mv: MoveView) -> GameView {
    refreshed(GameView { board: board_after(g.board, mv), ..g })
}

/// Whether `mv` leaves the king of the moving side free of threats.
pub open spec fn keeps_king_safe(g: GameView, mv: MoveView) -> bool {
    !in_check(after_move(g, mv), mv.piece.color)
}

// ----------------------------------------------------------------------
// Legal moves
// ----------------------------------------------------------------------

/// The test whether a move ends on one of the squares of `path`.
pub open spec fn ends_on(path: Seq<Position>) -> spec_fn(MoveView) -> bool {
    |m: MoveView| path.contains(m.to)
}

/// The test whether a move ends on `to`.
pub open spec fn ends_at(to: Position) -> spec_fn(MoveView) -> bool {
    |m: MoveView| m.to == to
}

/// The test whether a move leaves the king of the moving side free of threats.
pub open spec fn safe_in(g: GameView) -> spec_fn(MoveView) -> bool {
    |m: MoveView| keeps_king_safe(g, m)
}

/// What check leaves of a piece's moves. A king keeps all of them. Another
/// piece keeps all where its king is not in check, none where two or more
/// pieces give check, and otherwise those that end on the path of the one
/// piece that gives check.
pub open spec fn check_filter(g: GameView, piece: Piece, moves: Seq<MoveView>) -> Seq<MoveView> {
    let threats = g.pieces_attacking_king[piece.color.spec_slot()];
    if piece.piece_type == PieceType::King || threats.len() == 0 {
        moves
    } else if threats.len() > 1 {
        Seq::empty()
    } else {
        moves.filter(ends_on(threats[0].1))
    }
}

/// The moves from `pos` under the two switches of the engine: `get_protected`
/// asks for attacked squares, to which check makes no difference;
/// `filter_pinned` drops the moves that leave the own king threatened.
pub open spec fn possible_moves(
    g: GameView,
    pos: Position,
    get_protected: bool,
    filter_pinned: bool,
) -> Seq<MoveView> {
    if !pos.on_board() || g.board[pos.spec_index()] is None {
        Seq::empty()
    } else {
        let piece = g.board[pos.spec_index()]->0;
        let moves = pseudo_moves(g, pos, get_protected);
        let checked = if get_protected {
            moves
        } else {
            check_filter(g, piece, moves)
        };
        if filter_pinned {
            checked.filter(safe_in(g))
        } else {
            checked
        }
    }
}

/// The legal moves from `pos`.
pub open spec fn legal_moves(g: GameView, pos: Position) -> Seq<MoveView> {
    possible_moves(g, pos, false, true)
}

/// The legal moves of the side to move from the first `n` squares.
pub open spec fn turn_moves_upto(g: GameView, n: int) -> Seq<MoveView>
    decreases n,
{
    if n <= 0 {
        Seq::empty()
    } else {
        let pos = nth_square(n - 1);
        let here = if g.board[pos.spec_index()] matches Some(p) && p.color == g.turn {
            legal_moves(g, pos)
        } else {
            Seq::empty()
        };
        turn_moves_upto(g, n - 1) + here
    }
}

/// Every legal move of the side to move.
pub open spec fn all_legal_moves(g: GameView) -> Seq<MoveView> {
    turn_moves_upto(g, 64)
}

/// Whether `color` has no legal move from any of the first `n` squares.
pub open spec fn no_moves_upto(g: GameView, color: Color, n: int) -> bool {
    forall|i: int|
        0 <= i < n ==> !(#[trigger] g.board[nth_square(i).spec_index()] matches Some(p) && p.color
            == color && legal_moves(g, nth_square(i)).len() > 0)
}

/// Whether `color` has no legal move at all.
pub open spec fn no_possible_moves(g: GameView, color: Color) -> bool {
    no_moves_upto(g, color, 64)
}

/// The move that an input `Move(from, to)` stands for: the first legal move
/// from `from` that ends on `to`, where `from` holds a piece of the side to move.
pub open spec fn move_if_valid(g: GameView, from: Position, to: Position) -> Option<MoveView> {
    if from.on_board() && (g.board[from.spec_index()] matches Some(p) && p.color == g.turn) {
        let matching = legal_moves(g, from).filter(ends_at(to));
        if matching.len() > 0 {
            Some(matching[0])
        } else {
            None
        }
    } else {
        None
    }
}

// ----------------------------------------------------------------------
// Draws
// ----------------------------------------------------------------------

/// The place of `key` in the count of repetitions, searched from `from` on;
/// the length of the list where it is absent.
pub open spec fn key_place(table: Seq<(PositionKey, nat)>, key: PositionKey, from: int) -> int
    decreases table.len() - from,
{
    if from < 0 || from >= table.len() {
        table.len() as int
    } else if table[from].0 == key {
        from
    } else {
        key_place(table, key, from + 1)
    }
}

/// Whether every position is counted under one entry: no key occurs twice.
pub open spec fn keys_distinct(table: Seq<(PositionKey, nat)>) -> bool {
    forall|i: int, j: int|
        0 <= i < j < table.len() ==> (#[trigger] table[i]).0 != (#[trigger] table[j]).0
}

/// How often `key` was met.
pub open spec fn times_met(table: Seq<(PositionKey, nat)>, key: PositionKey) -> nat {
    let i = key_place(table, key, 0);
    if i < table.len() {
        table[i].1
    } else {
        0
    }
}

/// The count of repetitions after `key` was met once more.
pub open spec fn met_again(table: Seq<(PositionKey, nat)>, key: PositionKey) -> Seq<
    (PositionKey, nat),
> {
    let i = key_place(table, key, 0);
    if i < table.len() {
        table.update(i, (key, table[i].1 + 1))
    } else {
        table.push((key, 1))
    }
}

/// The key under which the game's present position is counted.
pub open spec fn position_key(g: GameView) -> PositionKey {
    PositionKey { turn: g.turn, board: g.board, moves: all_pseudo_moves(g) }
}

/// Whether the game is drawn: fifty moves passed without a capture or a pawn
/// move, or some position was met three times.
pub open spec fn is_a_draw(g: GameView) -> bool {
    g.number_of_moves_without_captures_or_pawn_moves >= 50 || exists|i: int|
        0 <= i < g.number_of_repeated_board_states.len()
            && (#[trigger] g.number_of_repeated_board_states[i]).1 >= 3
}

/// Whether the counts of the game have room for one more move: the count of
/// moves without capture or pawn move and the count of every position lie
/// below 255, the largest number the game can hold.
pub open spec fn can_count(g: GameView) -> bool {
    &&& g.number_of_moves_without_captures_or_pawn_moves < 255
    &&& forall|i: int|
        0 <= i < g.number_of_repeated_board_states.len() ==> (
        #[trigger] g.number_of_repeated_board_states[i]).1 < 255
}

// ----------------------------------------------------------------------
// Inputs
// ----------------------------------------------------------------------

/// Whether `mv` brings a pawn to the first or the last rank, so that the
/// game must next be told what the pawn becomes.
pub open spec fn is_promotion_move(mv: MoveView) -> bool {
    mv.piece.piece_type == PieceType::Pawn && mv.move_type == MoveType::Normal && (mv.to.1 == '8'
        || mv.to.1 == '1')
}

/// The square on which a pawn awaits its promotion, if one does: the last
/// move brought a pawn there and it still stands there.
pub open spec fn pending_promotion(g: GameView) -> Option<Position> {
    if g.history.len() > 0 && is_promotion_move(g.history.last()) && g.history.last().to.on_board()
        && g.board[g.history.last().to.spec_index()] == Some(g.history.last().piece) {
        Some(g.history.last().to)
    } else {
        None
    }
}

/// A list of two lists with the one of `color` replaced.
pub open spec fn with_slot<T>(pair: Seq<T>, color: Color, value: T) -> Seq<T> {
    pair.update(color.spec_slot(), value)
}

/// The pieces taken so far, after `mv`.
pub open spec fn captured_after(captured: Seq<Seq<Piece>>, mv: MoveView) -> Seq<Seq<Piece>> {
    match mv.captured_piece {
        Some(c) => with_slot(
            captured,
            mv.piece.color,
            captured[mv.piece.color.spec_slot()].push(c),
        ),
        None => captured,
    }
}

/// Whether `mv` ends the right of `color` to castle with the rook of the
/// given file: the king of `color` moves, its rook leaves that corner, or a
/// piece lands on that corner.
pub open spec fn ends_castle(mv: MoveView, color: Color, file: int) -> bool {
    let corner = Position::at(file, home_rank(color));
    ||| mv.piece.color == color && mv.piece.piece_type == PieceType::King
    ||| mv.piece.color == color && mv.piece.piece_type == PieceType::Rook && mv.from == corner
    ||| mv.to == corner
}

/// The rights of the two sides to castle with the rook of the given file,
/// after `mv`. A right once lost does not return.
pub open spec fn rights_after(rights: Seq<bool>, mv: MoveView, file: int) -> Seq<bool> {
    seq![
        rights[0] && !ends_castle(mv, Color::White, file),
        rights[1] && !ends_castle(mv, Color::Black, file),
    ]
}

/// The count of moves without capture or pawn move, after `mv`.
pub open spec fn quiet_after(count: nat, mv: MoveView) -> nat {
    if mv.captured_piece is Some || mv.piece.piece_type == PieceType::Pawn {
        0
    } else {
        count + 1
    }
}

/// What the game reports once a move is complete: mate or stalemate where the
/// side to move has no legal move, else a draw where one is due.
pub open spec fn verdict(g: GameView) -> Option<UserOutput> {
    if no_possible_moves(g, g.turn) {
        if in_check(g, g.turn) {
            Some(UserOutput::CheckMate)
        } else {
            Some(UserOutput::StaleMate)
        }
    } else if is_a_draw(g) {
        Some(UserOutput::Draw)
    } else {
        None
    }
}

/// The game after `mv` was applied, the turn aside: the board and the
/// recomputed attacks, the piece taken, the rights to castle, the count of
/// moves without capture or pawn move, and the history with the move at its end.
pub open spec fn after_applied(g: GameView, mv: MoveView) -> GameView {
    GameView {
        captured: captured_after(g.captured, mv),
        able_to_long_castle: rights_after(g.able_to_long_castle, mv, 0),
        able_to_short_castle: rights_after(g.able_to_short_castle, mv, 7),
        number_of_moves_without_captures_or_pawn_moves: quiet_after(
            g.number_of_moves_without_captures_or_pawn_moves,
            mv,
        ),
        history: g.history.push(mv),
        ..after_move(g, mv)
    }
}

/// The game after the move `mv` that awaits a promotion: the move is applied,
/// but the turn stays and the position is not counted until the promotion
/// is complete.
pub open spec fn after_promotion_move(g: GameView, mv: MoveView) -> GameView {
    after_applied(g, mv)
}

/// The game after the complete move `mv`, before the position is counted:
/// the move is applied and the turn passes.
pub open spec fn after_complete_move(g: GameView, mv: MoveView) -> GameView {
    GameView { turn: g.turn.spec_invert(), ..after_applied(g, mv) }
}

/// The game with its present position counted once more.
pub open spec fn counted(g: GameView) -> GameView {
    GameView {
        number_of_repeated_board_states: met_again(
            g.number_of_repeated_board_states,
            position_key(g),
        ),
        ..g
    }
}

/// Whether a promotion to `piece` on `pos` completes the move that is pending:
/// a pawn of the side to move awaits on `pos`, and `piece` is a queen, rook,
/// bishop or knight of that side.
pub open spec fn promotion_accepted(g: GameView, piece: Piece, pos: Position) -> bool {
    &&& pending_promotion(g) == Some(pos)
    &&& g.history.last().piece.color == g.turn
    &&& piece.color == g.turn
    &&& piece.piece_type != PieceType::Pawn
    &&& piece.piece_type != PieceType::King
}

/// The game after the promotion to `piece` on `pos`: the piece stands on the
/// square, the attacks are recomputed, the turn passes, and the position is
/// counted.
pub open spec fn after_promotion(g: GameView, piece: Piece, pos: Position) -> GameView {
    counted(
        GameView {
            turn: g.turn.spec_invert(),
            ..refreshed(GameView { board: g.board.update(pos.spec_index(), Some(piece)), ..g })
        },
    )
}

/// What an input does to a game: the game after it, and what is reported.
///
/// A move is carried out where it is legal for the side to move and no pawn
/// awaits promotion: it is applied in full, and unless it awaits a promotion
/// the turn passes and the position is counted. A promotion is carried out
/// where a pawn awaits it and the choice fits: the piece is placed, the turn
/// passes and the position is counted. Any other move or promotion is
/// reported as invalid and changes nothing.
pub open spec fn process(g: GameView, input: UserInput) -> (GameView, Option<UserOutput>) {
    match input {
        UserInput::Move(from, to) => {
            if pending_promotion(g) is Some {
                (g, Some(UserOutput::InvalidMove))
            } else {
                match move_if_valid(g, from, to) {
                    None => (g, Some(UserOutput::InvalidMove)),
                    Some(mv) => if is_promotion_move(mv) {
                        (after_promotion_move(g, mv), Some(UserOutput::Promotion(mv.to)))
                    } else {
                        let g1 = counted(after_complete_move(g, mv));
                        (g1, verdict(g1))
                    },
                }
            }
        },
        UserInput::Promotion(piece, pos) => {
            if promotion_accepted(g, piece, pos) {
                let g1 = after_promotion(g, piece, pos);
                (g1, verdict(g1))
            } else {
                (g, Some(UserOutput::InvalidMove))
            }
        },
        _ => (g, None),
    }
}

// ----------------------------------------------------------------------
// The start of a game
// ----------------------------------------------------------------------

/// The kind of piece that starts on the given file of a side's home rank.
pub open spec fn home_piece(file: int) -> PieceType {
    if file == 0 || file == 7 {
        PieceType::Rook
    } else if file == 1 || file == 6 {
        PieceType::Knight
    } else if file == 2 || file == 5 {
        PieceType::Bishop
    } else if file == 3 {
        PieceType::Queen
    } else {
        PieceType::King
    }
}

/// What stands on a square when a game starts.
pub open spec fn initial_piece(file: int, rank: int) -> Option<Piece> {
    if rank == 1 {
        Some(Piece { piece_type: PieceType::Pawn, color: Color::White })
    } else if rank == 6 {
        Some(Piece { piece_type: PieceType::Pawn, color: Color::Black })
    } else if rank == 0 {
        Some(Piece { piece_type: home_piece(file), color: Color::White })
    } else if rank == 7 {
        Some(Piece { piece_type: home_piece(file), color: Color::Black })
    } else {
        None
    }
}

/// The board when a game starts.
pub open spec fn initial_board() -> Seq<Option<Piece>> {
    Seq::new(64, |i: int| initial_piece(i % 8, i / 8))
}

/// A game on the starting board of which nothing is computed or counted yet.
pub open spec fn blank_game() -> GameView {
    GameView {
        turn: Color::White,
        board: initial_board(),
        captured: seq![Seq::empty(), Seq::empty()],
        history: Seq::empty(),
        number_of_repeated_board_states: Seq::empty(),
        number_of_moves_without_captures_or_pawn_moves: 0,
        able_to_long_castle: seq![true, true],
        able_to_short_castle: seq![true, true],
        protected_squares: seq![Seq::empty(), Seq::empty()],
        pieces_attacking_king: seq![Seq::empty(), Seq::empty()],
    }
}

/// A new game: the starting board with White to move, every right to castle
/// held, the attacks computed, and the starting position counted once.
pub open spec fn new_game() -> GameView {
    counted(refreshed(blank_game()))
}

} // verus!

//! What every generated move has in common: it starts where its piece
//! stands and ends on the board.

use vstd::prelude::*;
use crate::moves::MoveView;
use crate::pieces::Piece;
use crate::pieces::PieceType;
use crate::pieces::Position;
use crate::rules::castle_moves;
use crate::rules::check_filter;
use crate::rules::diagonal_moves;
use crate::rules::en_passant;
use crate::rules::king_moves;
use crate::rules::king_steps;
use crate::rules::knight_moves;
use crate::rules::pawn_capture;
use crate::rules::pawn_moves;
use crate::rules::pawn_pushes;
use crate::rules::possible_moves;
use crate::rules::pseudo_moves;
use crate::rules::queen_moves;
use crate::rules::ray_moves;
use crate::rules::ray_moves_from;
use crate::rules::step_move;
use crate::rules::straight_moves;
use crate::rules::GameView;

verus! {

/// Whether `m` is a move of `piece` from `pos` to a square of the board.
pub open spec fn well_shaped(m: MoveView, piece: Piece, pos: Position) -> bool {
    m.piece == piece && m.from == pos && m.to.on_board()
}

/// Whether all of `moves` are moves of `piece` from `pos` to squares of the board.
pub open spec fn all_shaped(moves: Seq<MoveView>, piece: Piece, pos: Position) -> bool {
    forall|i: int| 0 <= i < moves.len() ==> well_shaped(#[trigger] moves[i], piece, pos)
}

/// A filter keeps the shape of the moves it keeps.
pub proof fn lemma_filter_shaped(
    moves: Seq<MoveView>,
    pred: spec_fn(MoveView) -> bool,
    piece: Piece,
    pos: Position,
)
    requires
        all_shaped(moves, piece, pos),
    ensures
        all_shaped(moves.filter(pred), piece, pos),
{
    let kept = moves.filter(pred);
    assert forall|i: int| 0 <= i < kept.len() implies well_shaped(
        #[trigger] kept[i],
        piece,
        pos,
    ) by {
        moves.lemma_filter_contains_rev(pred, kept[i]);
        assert(kept.contains(kept[i]));
        assert(moves.contains(kept[i]));
    }
}

proof fn lemma_ray_from_shaped(
    board: Seq<Option<Piece>>,
    piece: Piece,
    pos: Position,
    dx: int,
    dy: int,
    attacks: bool,
    k: int,
)
    ensures
        all_shaped(ray_moves_from(board, piece, pos, dx, dy, attacks, k), piece, pos),
    decreases 8 - k,
{
    if 1 <= k <= 7 {
        lemma_ray_from_shaped(board, piece, pos, dx, dy, attacks, k + 1);
    }
}

proof fn lemma_sliding_shaped(board: Seq<Option<Piece>>, piece: Piece, pos: Position, attacks: bool)
    ensures
        all_shaped(straight_moves(board, piece, pos, attacks), piece, pos),
        all_shaped(diagonal_moves(board, piece, pos, attacks), piece, pos),
        all_shaped(queen_moves(board, piece, pos, attacks), piece, pos),
{
    lemma_ray_from_shaped(board, piece, pos, 1, 0, attacks, 1);
    lemma_ray_from_shaped(board, piece, pos, -1, 0, attacks, 1);
    lemma_ray_from_shaped(board, piece, pos, 0, 1, attacks, 1);
    lemma_ray_from_shaped(board, piece, pos, 0, -1, attacks, 1);
    lemma_ray_from_shaped(board, piece, pos, 1, 1, attacks, 1);
    lemma_ray_from_shaped(board, piece, pos, 1, -1, attacks, 1);
    lemma_ray_from_shaped(board, piece, pos, -1, 1, attacks, 1);
    lemma_ray_from_shaped(board, piece, pos, -1, -1, attacks, 1);
    let r1 = ray_moves(board, piece, pos, 1, 0, attacks);
    let r2 = ray_moves(board, piece, pos, -1, 0, attacks);
    let r3 = ray_moves(board, piece, pos, 0, 1, attacks);
    let r4 = ray_moves(board, piece, pos, 0, -1, attacks);
    lemma_add_shaped(r1, r2, piece, pos);
    lemma_add_shaped(r1 + r2, r3, piece, pos);
    lemma_add_shaped(r1 + r2 + r3, r4, piece, pos);
    let d1 = ray_moves(board, piece, pos, 1, 1, attacks);
    let d2 = ray_moves(board, piece, pos, 1, -1, attacks);
    let d3 = ray_moves(board, piece, pos, -1, 1, attacks);
    let d4 = ray_moves(board, piece, pos, -1, -1, attacks);
    lemma_add_shaped(d1, d2, piece, pos);
    lemma_add_shaped(d1 + d2, d3, piece, pos);
    lemma_add_shaped(d1 + d2 + d3, d4, piece, pos);
    lemma_add_shaped(r1 + r2 + r3 + r4, d1 + d2 + d3 + d4, piece, pos);
}

/// Joining two lists of shaped moves gives shaped moves.
pub proof fn lemma_add_shaped(a: Seq<MoveView>, b: Seq<MoveView>, piece: Piece, pos: Position)
    requires
        all_shaped(a, piece, pos),
        all_shaped(b, piece, pos),
    ensures
        all_shaped(a + b, piece, pos),
{
    assert forall|i: int| 0 <= i < (a + b).len() implies well_shaped(
        #[trigger] (a + b)[i],
        piece,
        pos,
    ) by {
        if i < a.len() {
            assert((a + b)[i] == a[i]);
        } else {
            assert((a + b)[i] == b[i - a.len()]);
        }
    }
}

proof fn lemma_step_shaped(
    board: Seq<Option<Piece>>,
    piece: Piece,
    pos: Position,
    dx: int,
    dy: int,
    attacks: bool,
    kind: crate::moves::MoveType,
)
    ensures
        all_shaped(step_move(board, piece, pos, dx, dy, attacks, kind), piece, pos),
{
}

proof fn lemma_knight_shaped(board: Seq<Option<Piece>>, piece: Piece, pos: Position, attacks: bool)
    ensures
        all_shaped(knight_moves(board, piece, pos, attacks), piece, pos),
{
    let k = crate::moves::MoveType::Jump;
    let s1 = step_move(board, piece, pos, 2, 1, attacks, k);
    let s2 = s1 + step_move(board, piece, pos, 2, -1, attacks, k);
    let s3 = s2 + step_move(board, piece, pos, -2, 1, attacks, k);
    let s4 = s3 + step_move(board, piece, pos, -2, -1, attacks, k);
    let s5 = s4 + step_move(board, piece, pos, 1, 2, attacks, k);
    let s6 = s5 + step_move(board, piece, pos, -1, 2, attacks, k);
    let s7 = s6 + step_move(board, piece, pos, 1, -2, attacks, k);
    lemma_step_shaped(board, piece, pos, 2, 1, attacks, k);
    lemma_step_shaped(board, piece, pos, 2, -1, attacks, k);
    lemma_step_shaped(board, piece, pos, -2, 1, attacks, k);
    lemma_step_shaped(board, piece, pos, -2, -1, attacks, k);
    lemma_step_shaped(board, piece, pos, 1, 2, attacks, k);
    lemma_step_shaped(board, piece, pos, -1, 2, attacks, k);
    lemma_step_shaped(board, piece, pos, 1, -2, attacks, k);
    lemma_step_shaped(board, piece, pos, -1, -2, attacks, k);
    lemma_add_shaped(s1, step_move(board, piece, pos, 2, -1, attacks, k), piece, pos);
    lemma_add_shaped(s2, step_move(board, piece, pos, -2, 1, attacks, k), piece, pos);
    lemma_add_shaped(s3, step_move(board, piece, pos, -2, -1, attacks, k), piece, pos);
    lemma_add_shaped(s4, step_move(board, piece, pos, 1, 2, attacks, k), piece, pos);
    lemma_add_shaped(s5, step_move(board, piece, pos, -1, 2, attacks, k), piece, pos);
    lemma_add_shaped(s6, step_move(board, piece, pos, 1, -2, attacks, k), piece, pos);
    lemma_add_shaped(s7, step_move(board, piece, pos, -1, -2, attacks, k), piece, pos);
}

proof fn lemma_king_steps_shaped(
    board: Seq<Option<Piece>>,
    piece: Piece,
    pos: Position,
    attacks: bool,
)
    ensures
        all_shaped(king_steps(board, piece, pos, attacks), piece, pos),
{
    let k = crate::moves::MoveType::Normal;
    let s1 = step_move(board, piece, pos, -1, 1, attacks, k);
    let s2 = s1 + step_move(board, piece, pos, 0, 1, attacks, k);
    let s3 = s2 + step_move(board, piece, pos, 1, 1, attacks, k);
    let s4 = s3 + step_move(board, piece, pos, 1, 0, attacks, k);
    let s5 = s4 + step_move(board, piece, pos, 1, -1, attacks, k);
    let s6 = s5 + step_move(board, piece, pos, 0, -1, attacks, k);
    let s7 = s6 + step_move(board, piece, pos, -1, -1, attacks, k);
    lemma_step_shaped(board, piece, pos, -1, 1, attacks, k);
    lemma_step_shaped(board, piece, pos, 0, 1, attacks, k);
    lemma_step_shaped(board, piece, pos, 1, 1, attacks, k);
    lemma_step_shaped(board, piece, pos, 1, 0, attacks, k);
    lemma_step_shaped(board, piece, pos, 1, -1, attacks, k);
    lemma_step_shaped(board, piece, pos, 0, -1, attacks, k);
    lemma_step_shaped(board, piece, pos, -1, -1, attacks, k);
    lemma_step_shaped(board, piece, pos, -1, 0, attacks, k);
    lemma_add_shaped(s1, step_move(board, piece, pos, 0, 1, attacks, k), piece, pos);
    lemma_add_shaped(s2, step_move(board, piece, pos, 1, 1, attacks, k), piece, pos);
    lemma_add_shaped(s3, step_move(board, piece, pos, 1, 0, attacks, k), piece, pos);
    lemma_add_shaped(s4, step_move(board, piece, pos, 1, -1, attacks, k), piece, pos);
    lemma_add_shaped(s5, step_move(board, piece, pos, 0, -1, attacks, k), piece, pos);
    lemma_add_shaped(s6, step_move(board, piece, pos, -1, -1, attacks, k), piece, pos);
    lemma_add_shaped(s7, step_move(board, piece, pos, -1, 0, attacks, k), piece, pos);
}

proof fn lemma_king_shaped(g: GameView, piece: Piece, pos: Position, attacks: bool)
    ensures
        all_shaped(king_moves(g, piece, pos, attacks), piece, pos),
{
    lemma_king_steps_shaped(g.board, piece, pos, attacks);
    assert(all_shaped(castle_moves(g, piece, pos, attacks), piece, pos));
    lemma_add_shaped(
        king_steps(g.board, piece, pos, attacks),
        castle_moves(g, piece, pos, attacks),
        piece,
        pos,
    );
}

proof fn lemma_pawn_shaped(g: GameView, piece: Piece, pos: Position, attacks: bool)
    ensures
        all_shaped(pawn_moves(g, piece, pos, attacks), piece, pos),
{
    let a = pawn_pushes(g.board, piece, pos, attacks);
    let b = pawn_capture(g.board, piece, pos, 1, attacks);
    let c = pawn_capture(g.board, piece, pos, -1, attacks);
    let d = en_passant(g, piece, pos, attacks);
    assert(all_shaped(a, piece, pos));
    assert(all_shaped(b, piece, pos));
    assert(all_shaped(c, piece, pos));
    assert(all_shaped(d, piece, pos));
    lemma_add_shaped(a, b, piece, pos);
    lemma_add_shaped(a + b, c, piece, pos);
    lemma_add_shaped(a + b + c, d, piece, pos);
}

/// Every pseudo-legal move from a square is a move of the piece on it, from
/// that square, to a square of the board.
pub proof fn lemma_pseudo_moves_shaped(g: GameView, pos: Position, attacks: bool)
    ensures
        pos.on_board() && g.board[pos.spec_index()] is Some ==> all_shaped(
            pseudo_moves(g, pos, attacks),
            g.board[pos.spec_index()]->0,
            pos,
        ),
        !(pos.on_board() && g.board[pos.spec_index()] is Some) ==> pseudo_moves(
            g,
            pos,
            attacks,
        ).len() == 0,
{
    if pos.on_board() && g.board[pos.spec_index()] is Some {
        let piece = g.board[pos.spec_index()]->0;
        match piece.piece_type {
            PieceType::King => lemma_king_shaped(g, piece, pos, attacks),
            PieceType::Knight => lemma_knight_shaped(g.board, piece, pos, attacks),
            PieceType::Pawn => lemma_pawn_shaped(g, piece, pos, attacks),
            _ => lemma_sliding_shaped(g.board, piece, pos, attacks),
        }
    }
}

/// Every move that the engine's switches leave is a move of the piece on the
/// square, from that square, to a square of the board.
pub proof fn lemma_possible_moves_shaped(
    g: GameView,
    pos: Position,
    get_protected: bool,
    filter_pinned: bool,
)
    ensures
        pos.on_board() && g.board[pos.spec_index()] is Some ==> all_shaped(
            possible_moves(g, pos, get_protected, filter_pinned),
            g.board[pos.spec_index()]->0,
            pos,
        ),
        !(pos.on_board() && g.board[pos.spec_index()] is Some) ==> possible_moves(
            g,
            pos,
            get_protected,
            filter_pinned,
        ).len() == 0,
{
    if pos.on_board() && g.board[pos.spec_index()] is Some {
        let piece = g.board[pos.spec_index()]->0;
        lemma_pseudo_moves_shaped(g, pos, get_protected);
        let moves = pseudo_moves(g, pos, get_protected);
        let threats = g.pieces_attacking_king[piece.color.spec_slot()];
        lemma_filter_shaped(moves, crate::rules::ends_on(threats[0].1), piece, pos);
        let checked = if get_protected {
            moves
        } else {
            check_filter(g, piece, moves)
        };
        assert(all_shaped(checked, piece, pos));
        lemma_filter_shaped(checked, crate::rules::safe_in(g), piece, pos);
    }
}

/// Whether `m`, if it is a castling move, is one that the rules grant in `g`:
/// a king's move from its home square, two files to the side, where its side
/// may castle that way.
pub open spec fn castles_by_right(g: GameView, m: MoveView) -> bool {
    &&& m.move_type == crate::moves::MoveType::ShortCastle ==> m.piece.piece_type
        == PieceType::King && m.from == crate::rules::king_home(m.piece.color)
        && crate::rules::can_short_castle(g, m.piece.color) && m.to == crate::rules::shifted(
        m.from,
        2,
        0,
    )
    &&& m.move_type == crate::moves::MoveType::LongCastle ==> m.piece.piece_type
        == PieceType::King && m.from == crate::rules::king_home(m.piece.color)
        && crate::rules::can_long_castle(g, m.piece.color) && m.to == crate::rules::shifted(
        m.from,
        -2,
        0,
    )
}

/// Whether every castling move among `moves` is one that the rules grant in `g`.
pub open spec fn all_by_right(g: GameView, moves: Seq<MoveView>) -> bool {
    forall|i: int| 0 <= i < moves.len() ==> castles_by_right(g, #[trigger] moves[i])
}

proof fn lemma_add_by_right(g: GameView, a: Seq<MoveView>, b: Seq<MoveView>)
    requires
        all_by_right(g, a),
        all_by_right(g, b),
    ensures
        all_by_right(g, a + b),
{
    assert forall|i: int| 0 <= i < (a + b).len() implies castles_by_right(
        g,
        #[trigger] (a + b)[i],
    ) by {
        if i < a.len() {
            assert((a + b)[i] == a[i]);
        } else {
            assert((a + b)[i] == b[i - a.len()]);
        }
    }
}

proof fn lemma_filter_by_right(g: GameView, moves: Seq<MoveView>, pred: spec_fn(MoveView) -> bool)
    requires
        all_by_right(g, moves),
    ensures
        all_by_right(g, moves.filter(pred)),
{
    let kept = moves.filter(pred);
    assert forall|i: int| 0 <= i < kept.len() implies castles_by_right(g, #[trigger] kept[i]) by {
        assert(kept.contains(kept[i]));
        moves.lemma_filter_contains_rev(pred, kept[i]);
    }
}

proof fn lemma_ray_from_by_right(
    g: GameView,
    piece: Piece,
    pos: Position,
    dx: int,
    dy: int,
    attacks: bool,
    k: int,
)
    ensures
        all_by_right(g, ray_moves_from(g.board, piece, pos, dx, dy, attacks, k)),
    decreases 8 - k,
{
    if 1 <= k <= 7 {
        lemma_ray_from_by_right(g, piece, pos, dx, dy, attacks, k + 1);
    }
}

proof fn lemma_sliding_by_right(g: GameView, piece: Piece, pos: Position, attacks: bool)
    ensures
        all_by_right(g, straight_moves(g.board, piece, pos, attacks)),
        all_by_right(g, diagonal_moves(g.board, piece, pos, attacks)),
        all_by_right(g, queen_moves(g.board, piece, pos, attacks)),
{
    let b = g.board;
    lemma_ray_from_by_right(g, piece, pos, 1, 0, attacks, 1);
    lemma_ray_from_by_right(g, piece, pos, -1, 0, attacks, 1);
    lemma_ray_from_by_right(g, piece, pos, 0, 1, attacks, 1);
    lemma_ray_from_by_right(g, piece, pos, 0, -1, attacks, 1);
    lemma_ray_from_by_right(g, piece, pos, 1, 1, attacks, 1);
    lemma_ray_from_by_right(g, piece, pos, 1, -1, attacks, 1);
    lemma_ray_from_by_right(g, piece, pos, -1, 1, attacks, 1);
    lemma_ray_from_by_right(g, piece, pos, -1, -1, attacks, 1);
    let r1 = ray_moves(b, piece, pos, 1, 0, attacks);
    let r2 = ray_moves(b, piece, pos, -1, 0, attacks);
    let r3 = ray_moves(b, piece, pos, 0, 1, attacks);
    let r4 = ray_moves(b, piece, pos, 0, -1, attacks);
    lemma_add_by_right(g, r1, r2);
    lemma_add_by_right(g, r1 + r2, r3);
    lemma_add_by_right(g, r1 + r2 + r3, r4);
    let d1 = ray_moves(b, piece, pos, 1, 1, attacks);
    let d2 = ray_moves(b, piece, pos, 1, -1, attacks);
    let d3 = ray_moves(b, piece, pos, -1, 1, attacks);
    let d4 = ray_moves(b, piece, pos, -1, -1, attacks);
    lemma_add_by_right(g, d1, d2);
    lemma_add_by_right(g, d1 + d2, d3);
    lemma_add_by_right(g, d1 + d2 + d3, d4);
    lemma_add_by_right(g, r1 + r2 + r3 + r4, d1 + d2 + d3 + d4);
}

proof fn lemma_knight_by_right(g: GameView, piece: Piece, pos: Position, attacks: bool)
    ensures
        all_by_right(g, knight_moves(g.board, piece, pos, attacks)),
{
    let b = g.board;
    let k = crate::moves::MoveType::Jump;
    let s1 = step_move(b, piece, pos, 2, 1, attacks, k);
    let s2 = s1 + step_move(b, piece, pos, 2, -1, attacks, k);
    let s3 = s2 + step_move(b, piece, pos, -2, 1, attacks, k);
    let s4 = s3 + step_move(b, piece, pos, -2, -1, attacks, k);
    let s5 = s4 + step_move(b, piece, pos, 1, 2, attacks, k);
    let s6 = s5 + step_move(b, piece, pos, -1, 2, attacks, k);
    let s7 = s6 + step_move(b, piece, pos, 1, -2, attacks, k);
    lemma_add_by_right(g, s1, step_move(b, piece, pos, 2, -1, attacks, k));
    lemma_add_by_right(g, s2, step_move(b, piece, pos, -2, 1, attacks, k));
    lemma_add_by_right(g, s3, step_move(b, piece, pos, -2, -1, attacks, k));
    lemma_add_by_right(g, s4, step_move(b, piece, pos, 1, 2, attacks, k));
    lemma_add_by_right(g, s5, step_move(b, piece, pos, -1, 2, attacks, k));
    lemma_add_by_right(g, s6, step_move(b, piece, pos, 1, -2, attacks, k));
    lemma_add_by_right(g, s7, step_move(b, piece, pos, -1, -2, attacks, k));
}

proof fn lemma_king_by_right(g: GameView, piece: Piece, pos: Position, attacks: bool)
    requires
        piece.piece_type == PieceType::King,
    ensures
        all_by_right(g, king_moves(g, piece, pos, attacks)),
{
    let b = g.board;
    let k = crate::moves::MoveType::Normal;
    let s1 = step_move(b, piece, pos, -1, 1, attacks, k);
    let s2 = s1 + step_move(b, piece, pos, 0, 1, attacks, k);
    let s3 = s2 + step_move(b, piece, pos, 1, 1, attacks, k);
    let s4 = s3 + step_move(b, piece, pos, 1, 0, attacks, k);
    let s5 = s4 + step_move(b, piece, pos, 1, -1, attacks, k);
    let s6 = s5 + step_move(b, piece, pos, 0, -1, attacks, k);
    let s7 = s6 + step_move(b, piece, pos, -1, -1, attacks, k);
    lemma_add_by_right(g, s1, step_move(b, piece, pos, 0, 1, attacks, k));
    lemma_add_by_right(g, s2, step_move(b, piece, pos, 1, 1, attacks, k));
    lemma_add_by_right(g, s3, step_move(b, piece, pos, 1, 0, attacks, k));
    lemma_add_by_right(g, s4, step_move(b, piece, pos, 1, -1, attacks, k));
    lemma_add_by_right(g, s5, step_move(b, piece, pos, 0, -1, attacks, k));
    lemma_add_by_right(g, s6, step_move(b, piece, pos, -1, -1, attacks, k));
    lemma_add_by_right(g, s7, step_move(b, piece, pos, -1, 0, attacks, k));
    assert(all_by_right(g, castle_moves(g, piece, pos, attacks)));
    lemma_add_by_right(g, king_steps(b, piece, pos, attacks), castle_moves(g, piece, pos, attacks));
}

proof fn lemma_pawn_by_right(g: GameView, piece: Piece, pos: Position, attacks: bool)
    ensures
        all_by_right(g, pawn_moves(g, piece, pos, attacks)),
{
    let a = pawn_pushes(g.board, piece, pos, attacks);
    let b = pawn_capture(g.board, piece, pos, 1, attacks);
    let c = pawn_capture(g.board, piece, pos, -1, attacks);
    let d = en_passant(g, piece, pos, attacks);
    assert(all_by_right(g, a));
    assert(all_by_right(g, b));
    assert(all_by_right(g, c));
    assert(all_by_right(g, d));
    lemma_add_by_right(g, a, b);
    lemma_add_by_right(g, a + b, c);
    lemma_add_by_right(g, a + b + c, d);
}

/// Every castling move that the engine's switches leave is one that the
/// rules grant.
pub proof fn lemma_possible_moves_by_right(
    g: GameView,
    pos: Position,
    get_protected: bool,
    filter_pinned: bool,
)
    ensures
        all_by_right(g, possible_moves(g, pos, get_protected, filter_pinned)),
{
    if pos.on_board() && g.board[pos.spec_index()] is Some {
        let piece = g.board[pos.spec_index()]->0;
        match piece.piece_type {
            PieceType::King => lemma_king_by_right(g, piece, pos, get_protected),
            PieceType::Knight => lemma_knight_by_right(g, piece, pos, get_protected),
            PieceType::Pawn => lemma_pawn_by_right(g, piece, pos, get_protected),
            _ => lemma_sliding_by_right(g, piece, pos, get_protected),
        }
        let moves = pseudo_moves(g, pos, get_protected);
        assert(all_by_right(g, moves));
        let threats = g.pieces_attacking_king[piece.color.spec_slot()];
        lemma_filter_by_right(g, moves, crate::rules::ends_on(threats[0].1));
        let checked = if get_protected {
            moves
        } else {
            check_filter(g, piece, moves)
        };
        assert(all_by_right(g, checked));
        lemma_filter_by_right(g, checked, crate::rules::safe_in(g));
    }
}

} // verus!

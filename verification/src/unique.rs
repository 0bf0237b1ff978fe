//! One move per destination: the moves of a piece end on different squares,
//! so that an origin and a destination name at most one move.

use vstd::prelude::*;
use crate::moves::MoveType;
use crate::moves::MoveView;
use crate::pieces::Piece;
use crate::pieces::PieceType;
use crate::pieces::Position;
use crate::rules::along;
use crate::rules::castle_moves;
use crate::rules::check_filter;
use crate::rules::diagonal_moves;
use crate::rules::en_passant;
use crate::rules::en_passant_to;
use crate::rules::ends_at;
use crate::rules::ends_on;
use crate::rules::king_moves;
use crate::rules::king_steps;
use crate::rules::knight_moves;
use crate::rules::legal_moves;
use crate::rules::pawn_capture;
use crate::rules::pawn_moves;
use crate::rules::pawn_pushes;
use crate::rules::pseudo_moves;
use crate::rules::queen_moves;
use crate::rules::ray_moves;
use crate::rules::ray_moves_from;
use crate::rules::safe_in;
use crate::rules::step_move;
use crate::rules::straight_moves;
use crate::rules::GameView;

verus! {

/// The place of a ray among the eight rays of a queen, in the order in which
/// her moves are listed.
pub open spec fn ray_rank(dx: int, dy: int) -> int {
    if dy == 0 && dx > 0 {
        0
    } else if dy == 0 && dx < 0 {
        1
    } else if dx == 0 && dy > 0 {
        2
    } else if dx == 0 && dy < 0 {
        3
    } else if dx > 0 && dy > 0 {
        4
    } else if dx > 0 && dy < 0 {
        5
    } else if dx < 0 && dy > 0 {
        6
    } else {
        7
    }
}

/// The place of a destination in the list of a sliding piece's moves: ray by
/// ray, and along a ray step by step.
pub open spec fn slide_key(dx: int, dy: int) -> int {
    let step = if dx > 0 {
        dx
    } else if dx < 0 {
        -dx
    } else if dy > 0 {
        dy
    } else {
        -dy
    };
    ray_rank(dx, dy) * 8 + step
}

/// The place of a destination in the list of a knight's moves.
pub open spec fn knight_key(dx: int, dy: int) -> int {
    if dx == 2 && dy == 1 {
        0
    } else if dx == 2 && dy == -1 {
        1
    } else if dx == -2 && dy == 1 {
        2
    } else if dx == -2 && dy == -1 {
        3
    } else if dx == 1 && dy == 2 {
        4
    } else if dx == -1 && dy == 2 {
        5
    } else if dx == 1 && dy == -2 {
        6
    } else {
        7
    }
}

/// The place of a destination in the list of a king's moves.
pub open spec fn king_key(dx: int, dy: int) -> int {
    if dx == -1 && dy == 1 {
        0
    } else if dx == 0 && dy == 1 {
        1
    } else if dx == 1 && dy == 1 {
        2
    } else if dx == 1 && dy == 0 {
        3
    } else if dx == 1 && dy == -1 {
        4
    } else if dx == 0 && dy == -1 {
        5
    } else if dx == -1 && dy == -1 {
        6
    } else if dx == -1 && dy == 0 {
        7
    } else if dx == -2 {
        8
    } else {
        9
    }
}

/// The place of a destination in the list of a pawn's moves: the advances,
/// the captures onto taken squares, en passant onto an empty one.
pub open spec fn pawn_key(dx: int, dy: int, forward: int, taken: bool) -> int {
    if dx == 0 && dy == forward {
        0
    } else if dx == 0 {
        1
    } else if dx == 1 && taken {
        2
    } else if dx == -1 && taken {
        3
    } else if dx == 1 {
        4
    } else {
        5
    }
}

/// The place of the destination `to` in the list of the moves of `piece`
/// from `pos`.
pub open spec fn place_of(board: Seq<Option<Piece>>, piece: Piece, pos: Position, to: Position) -> int {
    let dx = to.file() - pos.file();
    let dy = to.rank() - pos.rank();
    match piece.piece_type {
        PieceType::King => king_key(dx, dy),
        PieceType::Knight => knight_key(dx, dy),
        PieceType::Pawn => pawn_key(
            dx,
            dy,
            piece.color.spec_forward(),
            board[to.spec_index()] is Some,
        ),
        _ => slide_key(dx, dy),
    }
}

/// Whether `moves` are listed by strictly rising place of their destination,
/// every place lying from `lo` up to but not including `hi`.
pub open spec fn rising(
    moves: Seq<MoveView>,
    board: Seq<Option<Piece>>,
    piece: Piece,
    pos: Position,
    lo: int,
    hi: int,
) -> bool {
    &&& forall|i: int|
        0 <= i < moves.len() ==> lo <= place_of(board, piece, pos, (#[trigger] moves[i]).to) < hi
    &&& forall|i: int, j: int|
        0 <= i < j < moves.len() ==> place_of(board, piece, pos, (#[trigger] moves[i]).to)
            < place_of(board, piece, pos, (#[trigger] moves[j]).to)
}

proof fn lemma_rising_add(
    a: Seq<MoveView>,
    b: Seq<MoveView>,
    board: Seq<Option<Piece>>,
    piece: Piece,
    pos: Position,
    lo: int,
    mid: int,
    hi: int,
)
    requires
        rising(a, board, piece, pos, lo, mid),
        rising(b, board, piece, pos, mid, hi),
        lo <= mid <= hi,
    ensures
        rising(a + b, board, piece, pos, lo, hi),
{
    let s = a + b;
    assert forall|i: int| 0 <= i < s.len() implies lo <= place_of(
        board,
        piece,
        pos,
        (#[trigger] s[i]).to,
    ) < hi by {
        if i < a.len() {
            assert(s[i] == a[i]);
        } else {
            assert(s[i] == b[i - a.len()]);
        }
    }
    assert forall|i: int, j: int| 0 <= i < j < s.len() implies place_of(
        board,
        piece,
        pos,
        (#[trigger] s[i]).to,
    ) < place_of(board, piece, pos, (#[trigger] s[j]).to) by {
        if j < a.len() {
            assert(s[i] == a[i] && s[j] == a[j]);
        } else if i < a.len() {
            assert(s[i] == a[i] && s[j] == b[j - a.len()]);
        } else {
            assert(s[i] == b[i - a.len()] && s[j] == b[j - a.len()]);
        }
    }
}

proof fn lemma_rising_widen(
    a: Seq<MoveView>,
    board: Seq<Option<Piece>>,
    piece: Piece,
    pos: Position,
    lo: int,
    hi: int,
    lo2: int,
    hi2: int,
)
    requires
        rising(a, board, piece, pos, lo, hi),
        lo2 <= lo,
        hi <= hi2,
    ensures
        rising(a, board, piece, pos, lo2, hi2),
{
}

proof fn lemma_rising_filter(
    a: Seq<MoveView>,
    pred: spec_fn(MoveView) -> bool,
    board: Seq<Option<Piece>>,
    piece: Piece,
    pos: Position,
    lo: int,
    hi: int,
)
    requires
        rising(a, board, piece, pos, lo, hi),
    ensures
        rising(a.filter(pred), board, piece, pos, lo, hi),
        a.len() > 0 ==> forall|i: int|
            0 <= i < a.filter(pred).len() ==> place_of(
                board,
                piece,
                pos,
                (#[trigger] a.filter(pred)[i]).to,
            ) <= place_of(board, piece, pos, a.last().to),
    decreases a.len(),
{
    reveal(Seq::filter);
    if a.len() > 0 {
        let rest = a.drop_last();
        assert(rising(rest, board, piece, pos, lo, hi)) by {
            assert forall|i: int| 0 <= i < rest.len() implies lo <= place_of(
                board,
                piece,
                pos,
                (#[trigger] rest[i]).to,
            ) < hi by {
                assert(rest[i] == a[i]);
            }
            assert forall|i: int, j: int| 0 <= i < j < rest.len() implies place_of(
                board,
                piece,
                pos,
                (#[trigger] rest[i]).to,
            ) < place_of(board, piece, pos, (#[trigger] rest[j]).to) by {
                assert(rest[i] == a[i] && rest[j] == a[j]);
            }
        }
        lemma_rising_filter(rest, pred, board, piece, pos, lo, hi);
        let kept = rest.filter(pred);
        if rest.len() > 0 {
            assert(rest.last() == a[a.len() - 2]);
            assert(place_of(board, piece, pos, rest.last().to) < place_of(
                board,
                piece,
                pos,
                a.last().to,
            ));
        }
        let out = a.filter(pred);
        assert forall|i: int, j: int| 0 <= i < j < out.len() implies place_of(
            board,
            piece,
            pos,
            (#[trigger] out[i]).to,
        ) < place_of(board, piece, pos, (#[trigger] out[j]).to) by {
            if j < kept.len() {
                assert(out[i] == kept[i] && out[j] == kept[j]);
            } else {
                assert(out[i] == kept[i]);
                assert(out[j] == a.last());
            }
        }
        assert forall|i: int| 0 <= i < out.len() implies lo <= place_of(
            board,
            piece,
            pos,
            (#[trigger] out[i]).to,
        ) < hi && place_of(board, piece, pos, out[i].to) <= place_of(
            board,
            piece,
            pos,
            a.last().to,
        ) by {
            if i < kept.len() {
                assert(out[i] == kept[i]);
            } else {
                assert(out[i] == a.last());
            }
        }
    }
}

proof fn lemma_ray_rising(
    board: Seq<Option<Piece>>,
    piece: Piece,
    pos: Position,
    dx: int,
    dy: int,
    k: int,
)
    requires
        pos.on_board(),
        -1 <= dx <= 1,
        -1 <= dy <= 1,
        dx != 0 || dy != 0,
        piece.piece_type != PieceType::King,
        piece.piece_type != PieceType::Knight,
        piece.piece_type != PieceType::Pawn,
        1 <= k <= 8,
    ensures
        rising(
            ray_moves_from(board, piece, pos, dx, dy, false, k),
            board,
            piece,
            pos,
            ray_rank(dx, dy) * 8 + k,
            ray_rank(dx, dy) * 8 + 8,
        ),
    decreases 8 - k,
{
    let moves = ray_moves_from(board, piece, pos, dx, dy, false, k);
    let target = crate::rules::ray_square(pos, dx, dy, k);
    if k <= 7 && target.on_board() {
        assert(target.file() - pos.file() == along(dx, k));
        assert(target.rank() - pos.rank() == along(dy, k));
        assert(place_of(board, piece, pos, target) == ray_rank(dx, dy) * 8 + k);
        if board[target.spec_index()] is None {
            lemma_ray_rising(board, piece, pos, dx, dy, k + 1);
            let rest = ray_moves_from(board, piece, pos, dx, dy, false, k + 1);
            let first = seq![moves[0]];
            assert(moves =~= first + rest);
            assert(rising(
                first,
                board,
                piece,
                pos,
                ray_rank(dx, dy) * 8 + k,
                ray_rank(dx, dy) * 8 + k + 1,
            ));
            lemma_rising_add(
                first,
                rest,
                board,
                piece,
                pos,
                ray_rank(dx, dy) * 8 + k,
                ray_rank(dx, dy) * 8 + k + 1,
                ray_rank(dx, dy) * 8 + 8,
            );
        }
    }
}

proof fn lemma_sliding_rising(board: Seq<Option<Piece>>, piece: Piece, pos: Position)
    requires
        pos.on_board(),
        piece.piece_type != PieceType::King,
        piece.piece_type != PieceType::Knight,
        piece.piece_type != PieceType::Pawn,
    ensures
        rising(straight_moves(board, piece, pos, false), board, piece, pos, 0, 32),
        rising(diagonal_moves(board, piece, pos, false), board, piece, pos, 32, 64),
        rising(queen_moves(board, piece, pos, false), board, piece, pos, 0, 64),
{
    lemma_ray_rising(board, piece, pos, 1, 0, 1);
    lemma_ray_rising(board, piece, pos, -1, 0, 1);
    lemma_ray_rising(board, piece, pos, 0, 1, 1);
    lemma_ray_rising(board, piece, pos, 0, -1, 1);
    lemma_ray_rising(board, piece, pos, 1, 1, 1);
    lemma_ray_rising(board, piece, pos, 1, -1, 1);
    lemma_ray_rising(board, piece, pos, -1, 1, 1);
    lemma_ray_rising(board, piece, pos, -1, -1, 1);
    let r1 = ray_moves(board, piece, pos, 1, 0, false);
    let r2 = ray_moves(board, piece, pos, -1, 0, false);
    let r3 = ray_moves(board, piece, pos, 0, 1, false);
    let r4 = ray_moves(board, piece, pos, 0, -1, false);
    lemma_rising_add(r1, r2, board, piece, pos, 1, 9, 16);
    lemma_rising_add(r1 + r2, r3, board, piece, pos, 1, 17, 24);
    lemma_rising_add(r1 + r2 + r3, r4, board, piece, pos, 1, 25, 32);
    let d1 = ray_moves(board, piece, pos, 1, 1, false);
    let d2 = ray_moves(board, piece, pos, 1, -1, false);
    let d3 = ray_moves(board, piece, pos, -1, 1, false);
    let d4 = ray_moves(board, piece, pos, -1, -1, false);
    lemma_rising_add(d1, d2, board, piece, pos, 33, 41, 48);
    lemma_rising_add(d1 + d2, d3, board, piece, pos, 33, 49, 56);
    lemma_rising_add(d1 + d2 + d3, d4, board, piece, pos, 33, 57, 64);
    lemma_rising_add(r1 + r2 + r3 + r4, d1 + d2 + d3 + d4, board, piece, pos, 1, 33, 64);
}

proof fn lemma_step_rising(
    board: Seq<Option<Piece>>,
    piece: Piece,
    pos: Position,
    dx: int,
    dy: int,
    kind: MoveType,
)
    requires
        pos.on_board(),
        -2 <= dx <= 2,
        -2 <= dy <= 2,
        piece.piece_type == PieceType::King || piece.piece_type == PieceType::Knight,
    ensures
        ({
            let key = if piece.piece_type == PieceType::King {
                king_key(dx, dy)
            } else {
                knight_key(dx, dy)
            };
            rising(step_move(board, piece, pos, dx, dy, false, kind), board, piece, pos, key, key + 1)
        }),
{
    let target = crate::rules::shifted(pos, dx, dy);
    if target.on_board() {
        assert(target.file() - pos.file() == dx);
        assert(target.rank() - pos.rank() == dy);
    }
}

proof fn lemma_knight_rising(board: Seq<Option<Piece>>, piece: Piece, pos: Position)
    requires
        pos.on_board(),
        piece.piece_type == PieceType::Knight,
    ensures
        rising(knight_moves(board, piece, pos, false), board, piece, pos, 0, 8),
{
    let k = MoveType::Jump;
    let s1 = step_move(board, piece, pos, 2, 1, false, k);
    let s2 = s1 + step_move(board, piece, pos, 2, -1, false, k);
    let s3 = s2 + step_move(board, piece, pos, -2, 1, false, k);
    let s4 = s3 + step_move(board, piece, pos, -2, -1, false, k);
    let s5 = s4 + step_move(board, piece, pos, 1, 2, false, k);
    let s6 = s5 + step_move(board, piece, pos, -1, 2, false, k);
    let s7 = s6 + step_move(board, piece, pos, 1, -2, false, k);
    lemma_step_rising(board, piece, pos, 2, 1, k);
    lemma_step_rising(board, piece, pos, 2, -1, k);
    lemma_step_rising(board, piece, pos, -2, 1, k);
    lemma_step_rising(board, piece, pos, -2, -1, k);
    lemma_step_rising(board, piece, pos, 1, 2, k);
    lemma_step_rising(board, piece, pos, -1, 2, k);
    lemma_step_rising(board, piece, pos, 1, -2, k);
    lemma_step_rising(board, piece, pos, -1, -2, k);
    lemma_rising_add(s1, step_move(board, piece, pos, 2, -1, false, k), board, piece, pos, 0, 1, 2);
    lemma_rising_add(s2, step_move(board, piece, pos, -2, 1, false, k), board, piece, pos, 0, 2, 3);
    lemma_rising_add(s3, step_move(board, piece, pos, -2, -1, false, k), board, piece, pos, 0, 3, 4);
    lemma_rising_add(s4, step_move(board, piece, pos, 1, 2, false, k), board, piece, pos, 0, 4, 5);
    lemma_rising_add(s5, step_move(board, piece, pos, -1, 2, false, k), board, piece, pos, 0, 5, 6);
    lemma_rising_add(s6, step_move(board, piece, pos, 1, -2, false, k), board, piece, pos, 0, 6, 7);
    lemma_rising_add(s7, step_move(board, piece, pos, -1, -2, false, k), board, piece, pos, 0, 7, 8);
}

proof fn lemma_king_rising(g: GameView, piece: Piece, pos: Position)
    requires
        pos.on_board(),
        piece.piece_type == PieceType::King,
    ensures
        rising(king_moves(g, piece, pos, false), g.board, piece, pos, 0, 10),
{
    let board = g.board;
    let k = MoveType::Normal;
    let s1 = step_move(board, piece, pos, -1, 1, false, k);
    let s2 = s1 + step_move(board, piece, pos, 0, 1, false, k);
    let s3 = s2 + step_move(board, piece, pos, 1, 1, false, k);
    let s4 = s3 + step_move(board, piece, pos, 1, 0, false, k);
    let s5 = s4 + step_move(board, piece, pos, 1, -1, false, k);
    let s6 = s5 + step_move(board, piece, pos, 0, -1, false, k);
    let s7 = s6 + step_move(board, piece, pos, -1, -1, false, k);
    lemma_step_rising(board, piece, pos, -1, 1, k);
    lemma_step_rising(board, piece, pos, 0, 1, k);
    lemma_step_rising(board, piece, pos, 1, 1, k);
    lemma_step_rising(board, piece, pos, 1, 0, k);
    lemma_step_rising(board, piece, pos, 1, -1, k);
    lemma_step_rising(board, piece, pos, 0, -1, k);
    lemma_step_rising(board, piece, pos, -1, -1, k);
    lemma_step_rising(board, piece, pos, -1, 0, k);
    lemma_rising_add(s1, step_move(board, piece, pos, 0, 1, false, k), board, piece, pos, 0, 1, 2);
    lemma_rising_add(s2, step_move(board, piece, pos, 1, 1, false, k), board, piece, pos, 0, 2, 3);
    lemma_rising_add(s3, step_move(board, piece, pos, 1, 0, false, k), board, piece, pos, 0, 3, 4);
    lemma_rising_add(s4, step_move(board, piece, pos, 1, -1, false, k), board, piece, pos, 0, 4, 5);
    lemma_rising_add(s5, step_move(board, piece, pos, 0, -1, false, k), board, piece, pos, 0, 5, 6);
    lemma_rising_add(s6, step_move(board, piece, pos, -1, -1, false, k), board, piece, pos, 0, 6, 7);
    lemma_rising_add(s7, step_move(board, piece, pos, -1, 0, false, k), board, piece, pos, 0, 7, 8);
    let castles = castle_moves(g, piece, pos, false);
    assert(rising(castles, board, piece, pos, 8, 10)) by {
        if pos == crate::rules::king_home(piece.color) {
            let left = crate::rules::shifted(pos, -2, 0);
            let right = crate::rules::shifted(pos, 2, 0);
            assert(left.file() - pos.file() == -2 && left.rank() - pos.rank() == 0);
            assert(right.file() - pos.file() == 2 && right.rank() - pos.rank() == 0);
        }
    }
    lemma_rising_add(king_steps(board, piece, pos, false), castles, board, piece, pos, 0, 8, 10);
}

proof fn lemma_pawn_rising(g: GameView, piece: Piece, pos: Position)
    requires
        pos.on_board(),
        piece.piece_type == PieceType::Pawn,
    ensures
        rising(pawn_moves(g, piece, pos, false), g.board, piece, pos, 0, 6),
{
    let board = g.board;
    let d = piece.color.spec_forward();
    let a = pawn_pushes(board, piece, pos, false);
    let b = pawn_capture(board, piece, pos, 1, false);
    let c = pawn_capture(board, piece, pos, -1, false);
    let e = en_passant(g, piece, pos, false);
    let one = crate::rules::shifted(pos, 0, d);
    let two = crate::rules::shifted(pos, 0, 2 * d);
    let right = crate::rules::shifted(pos, 1, d);
    let left = crate::rules::shifted(pos, -1, d);
    assert(one.on_board() ==> one.file() - pos.file() == 0 && one.rank() - pos.rank() == d);
    assert(two.on_board() ==> two.file() - pos.file() == 0 && two.rank() - pos.rank() == 2 * d);
    assert(right.on_board() ==> right.file() - pos.file() == 1 && right.rank() - pos.rank() == d);
    assert(left.on_board() ==> left.file() - pos.file() == -1 && left.rank() - pos.rank() == d);
    assert(rising(a, board, piece, pos, 0, 2));
    assert(rising(b, board, piece, pos, 2, 3));
    assert(rising(c, board, piece, pos, 3, 4));
    assert(rising(en_passant_to(g, piece, pos, 1), board, piece, pos, 4, 5));
    assert(rising(en_passant_to(g, piece, pos, -1), board, piece, pos, 5, 6));
    assert(rising(e, board, piece, pos, 4, 6));
    lemma_rising_add(a, b, board, piece, pos, 0, 2, 3);
    lemma_rising_add(a + b, c, board, piece, pos, 0, 3, 4);
    lemma_rising_add(a + b + c, e, board, piece, pos, 0, 4, 6);
}

/// The legal moves from a square are listed by strictly rising place of
/// their destination.
pub proof fn lemma_legal_moves_rising(g: GameView, pos: Position)
    requires
        pos.on_board(),
        g.board[pos.spec_index()] is Some,
    ensures
        rising(legal_moves(g, pos), g.board, g.board[pos.spec_index()]->0, pos, 0, 64),
{
    let piece = g.board[pos.spec_index()]->0;
    let moves = pseudo_moves(g, pos, false);
    match piece.piece_type {
        PieceType::King => {
            lemma_king_rising(g, piece, pos);
            lemma_rising_widen(moves, g.board, piece, pos, 0, 10, 0, 64);
        },
        PieceType::Knight => {
            lemma_knight_rising(g.board, piece, pos);
            lemma_rising_widen(moves, g.board, piece, pos, 0, 8, 0, 64);
        },
        PieceType::Pawn => {
            lemma_pawn_rising(g, piece, pos);
            lemma_rising_widen(moves, g.board, piece, pos, 0, 6, 0, 64);
        },
        PieceType::Rook => {
            lemma_sliding_rising(g.board, piece, pos);
            lemma_rising_widen(moves, g.board, piece, pos, 0, 32, 0, 64);
        },
        PieceType::Bishop => {
            lemma_sliding_rising(g.board, piece, pos);
            lemma_rising_widen(moves, g.board, piece, pos, 32, 64, 0, 64);
        },
        PieceType::Queen => {
            lemma_sliding_rising(g.board, piece, pos);
        },
    }
    let threats = g.pieces_attacking_king[piece.color.spec_slot()];
    lemma_rising_filter(moves, ends_on(threats[0].1), g.board, piece, pos, 0, 64);
    let checked = check_filter(g, piece, moves);
    assert(rising(checked, g.board, piece, pos, 0, 64));
    lemma_rising_filter(checked, safe_in(g), g.board, piece, pos, 0, 64);
}

/// No two legal moves of one piece end on the same square.
pub proof fn law_one_move_per_destination(g: GameView, pos: Position, i: int, j: int)
    requires
        0 <= i < legal_moves(g, pos).len(),
        0 <= j < legal_moves(g, pos).len(),
        legal_moves(g, pos)[i].to == legal_moves(g, pos)[j].to,
    ensures
        i == j,
{
    crate::shape::lemma_possible_moves_shaped(g, pos, false, true);
    lemma_legal_moves_rising(g, pos);
}

/// An origin and a destination name at most one legal move: among the legal
/// moves from a square, at most one ends on a given square.
pub proof fn law_input_names_one_move(g: GameView, from: Position, to: Position)
    ensures
        legal_moves(g, from).filter(ends_at(to)).len() <= 1,
{
    let legal = legal_moves(g, from);
    let matching = legal.filter(ends_at(to));
    crate::shape::lemma_possible_moves_shaped(g, from, false, true);
    if matching.len() > 1 {
        lemma_legal_moves_rising(g, from);
        let piece = g.board[from.spec_index()]->0;
        lemma_rising_filter(legal, ends_at(to), g.board, piece, from, 0, 64);
        legal.lemma_filter_pred(ends_at(to), 0);
        legal.lemma_filter_pred(ends_at(to), 1);
        assert(matching[0].to == matching[1].to);
    }
}

} // verus!

//! How far a sliding piece reaches: up to the first obstacle along each ray.

use vstd::prelude::*;
use crate::pieces::Piece;
use crate::pieces::Position;
use crate::rules::may_land;
use crate::rules::ray_moves;
use crate::rules::ray_moves_from;
use crate::rules::ray_square;

verus! {

/// Whether the squares of a ray from its `from`-th step up to but not
/// including its `k`-th lie on the board and are empty.
pub open spec fn clear_between(
    board: Seq<Option<Piece>>,
    pos: Position,
    dx: int,
    dy: int,
    from: int,
    k: int,
) -> bool {
    forall|j: int|
        from <= j < k ==> (#[trigger] ray_square(pos, dx, dy, j)).on_board() && board[ray_square(
            pos,
            dx,
            dy,
            j,
        ).spec_index()] is None
}

proof fn lemma_ray_reach_from(
    board: Seq<Option<Piece>>,
    piece: Piece,
    pos: Position,
    dx: int,
    dy: int,
    attacks: bool,
    from: int,
    k: int,
)
    requires
        1 <= from <= k <= 7,
    ensures
        (k - from < ray_moves_from(board, piece, pos, dx, dy, attacks, from).len()) == (
        clear_between(board, pos, dx, dy, from, k) && may_land(
            board,
            piece,
            ray_square(pos, dx, dy, k),
            attacks,
        )),
        k - from < ray_moves_from(board, piece, pos, dx, dy, attacks, from).len()
            ==> ray_moves_from(board, piece, pos, dx, dy, attacks, from)[k - from].to
            == ray_square(pos, dx, dy, k),
    decreases k - from,
{
    let moves = ray_moves_from(board, piece, pos, dx, dy, attacks, from);
    let target = ray_square(pos, dx, dy, from);
    if from < k {
        if target.on_board() && board[target.spec_index()] is None {
            lemma_ray_reach_from(board, piece, pos, dx, dy, attacks, from + 1, k);
            let rest = ray_moves_from(board, piece, pos, dx, dy, attacks, from + 1);
            assert(moves.len() == rest.len() + 1);
            if k - from < moves.len() {
                assert(moves[k - from] == rest[k - from - 1]);
            }
            assert(clear_between(board, pos, dx, dy, from, k) == clear_between(
                board,
                pos,
                dx,
                dy,
                from + 1,
                k,
            )) by {
                if clear_between(board, pos, dx, dy, from + 1, k) {
                    assert forall|j: int| from <= j < k implies (#[trigger] ray_square(
                        pos,
                        dx,
                        dy,
                        j,
                    )).on_board() && board[ray_square(pos, dx, dy, j).spec_index()] is None by {
                        if j > from {
                        }
                    }
                }
            }
        } else {
            assert(moves.len() <= 1);
            assert(!clear_between(board, pos, dx, dy, from, k)) by {
                if clear_between(board, pos, dx, dy, from, k) {
                    assert(ray_square(pos, dx, dy, from).on_board());
                }
            }
        }
    }
}

/// A sliding piece reaches the `k`-th square of a ray exactly when every
/// square before it on the ray is empty and the piece may land on it; the
/// move to it is then the `k`-th move along the ray.
pub proof fn law_sliding_reach(
    board: Seq<Option<Piece>>,
    piece: Piece,
    pos: Position,
    dx: int,
    dy: int,
    attacks: bool,
    k: int,
)
    requires
        1 <= k <= 7,
    ensures
        (k <= ray_moves(board, piece, pos, dx, dy, attacks).len()) == (clear_between(
            board,
            pos,
            dx,
            dy,
            1,
            k,
        ) && may_land(board, piece, ray_square(pos, dx, dy, k), attacks)),
        k <= ray_moves(board, piece, pos, dx, dy, attacks).len() ==> ray_moves(
            board,
            piece,
            pos,
            dx,
            dy,
            attacks,
        )[k - 1].to == ray_square(pos, dx, dy, k),
        ray_moves(board, piece, pos, dx, dy, attacks).len() <= 7,
{
    lemma_ray_reach_from(board, piece, pos, dx, dy, attacks, 1, k);
    lemma_ray_length(board, piece, pos, dx, dy, attacks, 1);
}

proof fn lemma_ray_length(
    board: Seq<Option<Piece>>,
    piece: Piece,
    pos: Position,
    dx: int,
    dy: int,
    attacks: bool,
    from: int,
)
    requires
        1 <= from <= 8,
    ensures
        ray_moves_from(board, piece, pos, dx, dy, attacks, from).len() <= 8 - from,
    decreases 8 - from,
{
    if from <= 7 {
        lemma_ray_length(board, piece, pos, dx, dy, attacks, from + 1);
    }
}

} // verus!

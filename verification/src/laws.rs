//! Laws of the game: what holds of the rules on every game and every input.

use vstd::prelude::*;
use crate::moves::MoveType;
use crate::moves::MoveView;
use crate::moves::UserInput;
use crate::moves::UserOutput;
use crate::pieces::Color;
use crate::pieces::Position;
use crate::rules::after_move;
use crate::rules::all_legal_moves;
use crate::rules::can_long_castle;
use crate::rules::can_short_castle;
use crate::rules::ends_at;
use crate::rules::in_check;
use crate::rules::is_promotion_move;
use crate::rules::keeps_king_safe;
use crate::rules::legal_moves;
use crate::rules::move_if_valid;
use crate::rules::pending_promotion;
use crate::rules::process;
use crate::rules::safe_in;
use crate::rules::GameView;
use crate::shape::lemma_possible_moves_shaped;

verus! {

/// No legal move leaves the king of the side that makes it under threat:
/// once the move is carried out on the board and the threats are recomputed,
/// that king is not in check.
pub proof fn law_legal_moves_keep_king_safe(g: GameView, pos: Position, i: int)
    requires
        0 <= i < legal_moves(g, pos).len(),
    ensures
        keeps_king_safe(g, legal_moves(g, pos)[i]),
        !in_check(after_move(g, legal_moves(g, pos)[i]), legal_moves(g, pos)[i].piece.color),
{
    let piece = g.board[pos.spec_index()]->0;
    let moves = crate::rules::pseudo_moves(g, pos, false);
    let checked = crate::rules::check_filter(g, piece, moves);
    assert(legal_moves(g, pos) == checked.filter(safe_in(g)));
    checked.lemma_filter_pred(safe_in(g), i);
}

/// The move that an input stands for is a legal move of a piece of the side
/// to move, from the square and to the square that the input names.
pub proof fn law_move_if_valid_is_legal(g: GameView, from: Position, to: Position)
    requires
        move_if_valid(g, from, to) is Some,
    ensures
        legal_moves(g, from).contains(move_if_valid(g, from, to)->0),
        move_if_valid(g, from, to)->0.from == from,
        move_if_valid(g, from, to)->0.to == to,
        move_if_valid(g, from, to)->0.piece.color == g.turn,
        from.on_board(),
        to.on_board(),
{
    let legal = legal_moves(g, from);
    let matching = legal.filter(ends_at(to));
    let mv = matching[0];
    assert(matching.contains(mv));
    legal.lemma_filter_contains_rev(ends_at(to), mv);
    legal.lemma_filter_pred(ends_at(to), 0);
    lemma_possible_moves_shaped(g, from, false, true);
    let j = choose|j: int| 0 <= j < legal.len() && legal[j] == mv;
    assert(crate::shape::well_shaped(legal[j], g.board[from.spec_index()]->0, from));
}

/// A move that an input brings about never leaves the mover's king in check:
/// whenever a `Move` is not reported as invalid, the king of the side that
/// was to move is free of threats in the game that results.
pub proof fn law_legal_move_keeps_king_safe(g: GameView, from: Position, to: Position)
    ensures
        process(g, UserInput::Move(from, to)).1 != Some(UserOutput::InvalidMove) ==> !in_check(
            process(g, UserInput::Move(from, to)).0,
            g.turn,
        ),
        pending_promotion(g) is None && move_if_valid(g, from, to) is Some ==> !in_check(
            after_move(g, move_if_valid(g, from, to)->0),
            g.turn,
        ),
{
    if pending_promotion(g) is None && move_if_valid(g, from, to) is Some {
        let mv = move_if_valid(g, from, to)->0;
        law_move_if_valid_is_legal(g, from, to);
        let legal = legal_moves(g, from);
        let j = choose|j: int| 0 <= j < legal.len() && legal[j] == mv;
        law_legal_moves_keep_king_safe(g, from, j);
    }
}

/// A castling move is legal only when every condition of castling holds: the
/// king is not in check, its side still holds the right, the squares between
/// king and rook are empty, the other side attacks none of the squares the
/// king crosses or lands on, king and rook stand on their home squares, and
/// the king ends free of threats. Where any one of them fails, the legal
/// moves hold no such castling move.
pub proof fn law_castling_needs_every_condition(g: GameView, pos: Position, i: int)
    requires
        0 <= i < legal_moves(g, pos).len(),
    ensures
        legal_moves(g, pos)[i].move_type == MoveType::ShortCastle ==> {
            let color = legal_moves(g, pos)[i].piece.color;
            let r = crate::rules::home_rank(color);
            &&& !in_check(g, color)
            &&& g.able_to_short_castle[color.spec_slot()]
            &&& g.board[Position::at(5, r).spec_index()] is None
            &&& g.board[Position::at(6, r).spec_index()] is None
            &&& !crate::rules::is_protected(g, Position::at(5, r), color.spec_invert())
            &&& !crate::rules::is_protected(g, Position::at(6, r), color.spec_invert())
            &&& can_short_castle(g, color)
            &&& crate::rules::king_at_home(g, color)
            &&& crate::rules::rook_in_corner(g, color, 7)
            &&& pos == crate::rules::king_home(color)
            &&& legal_moves(g, pos)[i].to == Position::at(6, r)
            &&& keeps_king_safe(g, legal_moves(g, pos)[i])
        },
        legal_moves(g, pos)[i].move_type == MoveType::LongCastle ==> {
            let color = legal_moves(g, pos)[i].piece.color;
            let r = crate::rules::home_rank(color);
            &&& !in_check(g, color)
            &&& g.able_to_long_castle[color.spec_slot()]
            &&& g.board[Position::at(1, r).spec_index()] is None
            &&& g.board[Position::at(2, r).spec_index()] is None
            &&& g.board[Position::at(3, r).spec_index()] is None
            &&& !crate::rules::is_protected(g, Position::at(2, r), color.spec_invert())
            &&& !crate::rules::is_protected(g, Position::at(3, r), color.spec_invert())
            &&& can_long_castle(g, color)
            &&& crate::rules::king_at_home(g, color)
            &&& crate::rules::rook_in_corner(g, color, 0)
            &&& pos == crate::rules::king_home(color)
            &&& legal_moves(g, pos)[i].to == Position::at(2, r)
            &&& keeps_king_safe(g, legal_moves(g, pos)[i])
        },
{
    crate::shape::lemma_possible_moves_by_right(g, pos, false, true);
    lemma_possible_moves_shaped(g, pos, false, true);
    law_legal_moves_keep_king_safe(g, pos, i);
    let m = legal_moves(g, pos)[i];
    assert(crate::shape::castles_by_right(g, m));
    assert(crate::shape::well_shaped(m, g.board[pos.spec_index()]->0, pos));
}

/// A king on its home square is offered a castling move exactly when its
/// side may castle that way: the move is then among its pseudo-legal moves,
/// and otherwise it is not.
pub proof fn law_castling_is_offered(g: GameView, color: Color)
    requires
        g.board[crate::rules::king_home(color).spec_index()] == Some(
            crate::pieces::Piece { piece_type: crate::pieces::PieceType::King, color },
        ),
    ensures
        (exists|i: int|
            0 <= i < crate::rules::pseudo_moves(g, crate::rules::king_home(color), false).len() && (
            #[trigger] crate::rules::pseudo_moves(
                g,
                crate::rules::king_home(color),
                false,
            )[i]).move_type == MoveType::ShortCastle) == can_short_castle(g, color),
        (exists|i: int|
            0 <= i < crate::rules::pseudo_moves(g, crate::rules::king_home(color), false).len() && (
            #[trigger] crate::rules::pseudo_moves(
                g,
                crate::rules::king_home(color),
                false,
            )[i]).move_type == MoveType::LongCastle) == can_long_castle(g, color),
{
    let home = crate::rules::king_home(color);
    let piece = crate::pieces::Piece { piece_type: crate::pieces::PieceType::King, color };
    let moves = crate::rules::pseudo_moves(g, home, false);
    let steps = crate::rules::king_steps(g.board, piece, home, false);
    let castles = crate::rules::castle_moves(g, piece, home, false);
    assert(moves == steps + castles);
    crate::shape::lemma_possible_moves_by_right(g, home, false, false);
    assert(crate::rules::possible_moves(g, home, false, false) == moves);
    assert forall|i: int| 0 <= i < moves.len() implies crate::shape::castles_by_right(
        g,
        #[trigger] moves[i],
    ) by {}
    lemma_possible_moves_shaped(g, home, false, false);
    assert forall|i: int| 0 <= i < moves.len() implies (#[trigger] moves[i]).piece == piece by {
        assert(crate::shape::well_shaped(moves[i], piece, home));
    }
    if can_short_castle(g, color) {
        assert(moves[moves.len() - 1] == castles[castles.len() - 1]);
        assert(moves[moves.len() - 1].move_type == MoveType::ShortCastle);
    }
    if can_long_castle(g, color) {
        assert(moves[steps.len() as int] == castles[0]);
        assert(moves[steps.len() as int].move_type == MoveType::LongCastle);
    }
}

/// A move that is carried out enters the history, and nothing else does: the
/// history after it is the history before with that one move at its end.
pub proof fn law_history_grows_by_the_move(g: GameView, from: Position, to: Position)
    requires
        process(g, UserInput::Move(from, to)).1 != Some(UserOutput::InvalidMove),
    ensures
        move_if_valid(g, from, to) is Some,
        process(g, UserInput::Move(from, to)).0.history == g.history.push(
            move_if_valid(g, from, to)->0,
        ),
        process(g, UserInput::Move(from, to)).0.history.last().from == from,
        process(g, UserInput::Move(from, to)).0.history.last().to == to,
{
    law_move_if_valid_is_legal(g, from, to);
}

/// An input that is reported as invalid changes nothing.
pub proof fn law_invalid_input_changes_nothing(g: GameView, input: UserInput)
    requires
        process(g, input).1 == Some(UserOutput::InvalidMove),
    ensures
        process(g, input).0 == g,
{
}

/// Mate and stalemate are told apart by check alone: both are reported
/// exactly where the side to move has no legal move, mate where its king is
/// in check and stalemate where it is not.
pub proof fn law_mate_is_check_without_moves(g: GameView, input: UserInput)
    ensures
        process(g, input).1 == Some(UserOutput::CheckMate) ==> all_legal_moves(
            process(g, input).0,
        ).len() == 0 && in_check(process(g, input).0, process(g, input).0.turn),
        process(g, input).1 == Some(UserOutput::StaleMate) ==> all_legal_moves(
            process(g, input).0,
        ).len() == 0 && !in_check(process(g, input).0, process(g, input).0.turn),
        process(g, input).1 is None && (input is Move || input is Promotion) ==> all_legal_moves(
            process(g, input).0,
        ).len() > 0,
        process(g, input).1 == Some(UserOutput::Draw) ==> all_legal_moves(
            process(g, input).0,
        ).len() > 0 && crate::rules::is_a_draw(process(g, input).0),
{
    let after = process(g, input).0;
    law_no_moves_means_none_listed(after);
}

/// The side to move has no legal move exactly when the list of all its legal
/// moves is empty.
pub proof fn law_no_moves_means_none_listed(g: GameView)
    ensures
        crate::rules::no_possible_moves(g, g.turn) == (all_legal_moves(g).len() == 0),
{
    lemma_turn_moves_empty(g, 64);
}

proof fn lemma_turn_moves_empty(g: GameView, n: int)
    requires
        0 <= n,
    ensures
        crate::rules::no_moves_upto(g, g.turn, n) == (crate::rules::turn_moves_upto(g, n).len()
            == 0),
    decreases n,
{
    if n > 0 {
        lemma_turn_moves_empty(g, n - 1);
        let pos = crate::rules::nth_square(n - 1);
        if crate::rules::no_moves_upto(g, g.turn, n) {
            assert(crate::rules::no_moves_upto(g, g.turn, n - 1));
            assert(!(g.board[crate::rules::nth_square(n - 1).spec_index()] matches Some(p)
                && p.color == g.turn && legal_moves(g, crate::rules::nth_square(n - 1)).len()
                > 0));
        } else {
            if crate::rules::no_moves_upto(g, g.turn, n - 1) {
                assert(g.board[pos.spec_index()] matches Some(p) && p.color == g.turn
                    && legal_moves(g, pos).len() > 0);
            }
        }
    }
}

/// Fifty moves without capture or pawn move end the game: a move that brings
/// the count to fifty is answered by a draw, unless it mates or stalemates.
pub proof fn law_fifty_quiet_moves_draw(g: GameView, from: Position, to: Position)
    requires
        pending_promotion(g) is None,
        move_if_valid(g, from, to) is Some,
        !is_promotion_move(move_if_valid(g, from, to)->0),
        crate::rules::quiet_after(
            g.number_of_moves_without_captures_or_pawn_moves,
            move_if_valid(g, from, to)->0,
        ) >= 50,
    ensures
        process(g, UserInput::Move(from, to)).1 is Some,
        process(g, UserInput::Move(from, to)).1 != Some(UserOutput::InvalidMove),
        all_legal_moves(process(g, UserInput::Move(from, to)).0).len() > 0 ==> process(
            g,
            UserInput::Move(from, to),
        ).1 == Some(UserOutput::Draw),
{
    law_no_moves_means_none_listed(process(g, UserInput::Move(from, to)).0);
}

/// A position met for the third time ends the game: a move after which the
/// position on the board was met three times is answered by a draw, unless
/// it mates or stalemates.
pub proof fn law_third_meeting_draws(g: GameView, from: Position, to: Position)
    requires
        pending_promotion(g) is None,
        move_if_valid(g, from, to) is Some,
        !is_promotion_move(move_if_valid(g, from, to)->0),
        crate::rules::times_met(
            g.number_of_repeated_board_states,
            crate::rules::position_key(
                crate::rules::after_complete_move(g, move_if_valid(g, from, to)->0),
            ),
        ) >= 2,
    ensures
        all_legal_moves(process(g, UserInput::Move(from, to)).0).len() > 0 ==> process(
            g,
            UserInput::Move(from, to),
        ).1 == Some(UserOutput::Draw),
{
    let mv = move_if_valid(g, from, to)->0;
    let g1 = crate::rules::after_complete_move(g, mv);
    let key = crate::rules::position_key(g1);
    let table = g.number_of_repeated_board_states;
    let i = crate::rules::key_place(table, key, 0);
    lemma_key_place_in_range(table, key, 0);
    let after = crate::rules::counted(g1);
    assert(crate::rules::position_key(g1) == key);
    assert(after.number_of_repeated_board_states[i].1 >= 3);
    law_no_moves_means_none_listed(process(g, UserInput::Move(from, to)).0);
}

proof fn lemma_key_place_in_range(
    table: Seq<(crate::rules::PositionKey, nat)>,
    key: crate::rules::PositionKey,
    from: int,
)
    requires
        0 <= from,
    ensures
        from <= crate::rules::key_place(table, key, from) || from > table.len(),
        crate::rules::key_place(table, key, from) <= table.len(),
        crate::rules::key_place(table, key, from) < table.len() ==> table[crate::rules::key_place(
            table,
            key,
            from,
        )].0 == key,
    decreases table.len() - from,
{
    if from < table.len() && table[from].0 != key {
        lemma_key_place_in_range(table, key, from + 1);
    }
}

/// Check limits what the other pieces may do: a legal move of a piece that
/// is no king exists only where at most one piece gives check, and where one
/// does, the move ends on the path of that piece's attack.
pub proof fn law_check_limits_moves(g: GameView, pos: Position, i: int)
    requires
        0 <= i < legal_moves(g, pos).len(),
        legal_moves(g, pos)[i].piece.piece_type != crate::pieces::PieceType::King,
    ensures
        g.pieces_attacking_king[legal_moves(g, pos)[i].piece.color.spec_slot()].len() <= 1,
        g.pieces_attacking_king[legal_moves(g, pos)[i].piece.color.spec_slot()].len() == 1
            ==> g.pieces_attacking_king[legal_moves(
            g,
            pos,
        )[i].piece.color.spec_slot()][0].1.contains(legal_moves(g, pos)[i].to),
{
    let m = legal_moves(g, pos)[i];
    lemma_possible_moves_shaped(g, pos, false, true);
    assert(crate::shape::well_shaped(m, g.board[pos.spec_index()]->0, pos));
    let piece = g.board[pos.spec_index()]->0;
    let moves = crate::rules::pseudo_moves(g, pos, false);
    let checked = crate::rules::check_filter(g, piece, moves);
    let threats = g.pieces_attacking_king[piece.color.spec_slot()];
    assert(legal_moves(g, pos).contains(m));
    checked.lemma_filter_contains_rev(safe_in(g), m);
    if threats.len() == 1 {
        let kept = moves.filter(crate::rules::ends_on(threats[0].1));
        let j = choose|j: int| 0 <= j < kept.len() && kept[j] == m;
        moves.lemma_filter_pred(crate::rules::ends_on(threats[0].1), j);
    }
}

/// Every legal move is a pseudo-legal move of the piece on its square.
pub proof fn law_legal_moves_are_pseudo_legal(g: GameView, pos: Position, i: int)
    requires
        0 <= i < legal_moves(g, pos).len(),
    ensures
        crate::rules::pseudo_moves(g, pos, false).contains(legal_moves(g, pos)[i]),
        pos.on_board(),
        g.board[pos.spec_index()] == Some(legal_moves(g, pos)[i].piece),
        legal_moves(g, pos)[i].from == pos,
        legal_moves(g, pos)[i].to.on_board(),
{
    let m = legal_moves(g, pos)[i];
    lemma_possible_moves_shaped(g, pos, false, true);
    assert(crate::shape::well_shaped(m, g.board[pos.spec_index()]->0, pos));
    let piece = g.board[pos.spec_index()]->0;
    let moves = crate::rules::pseudo_moves(g, pos, false);
    let checked = crate::rules::check_filter(g, piece, moves);
    let threats = g.pieces_attacking_king[piece.color.spec_slot()];
    assert(legal_moves(g, pos).contains(m));
    checked.lemma_filter_contains_rev(safe_in(g), m);
    if !(piece.piece_type == crate::pieces::PieceType::King || threats.len() == 0) {
        if threats.len() == 1 {
            moves.lemma_filter_contains_rev(crate::rules::ends_on(threats[0].1), m);
        }
    }
}

/// The list of all legal moves holds the legal moves of the pieces of the
/// side to move and nothing else: each move in it is a legal move from its
/// own square, made by a piece of the side to move.
pub proof fn law_all_legal_moves_are_the_movers(g: GameView, i: int)
    requires
        0 <= i < all_legal_moves(g).len(),
    ensures
        all_legal_moves(g)[i].piece.color == g.turn,
        legal_moves(g, all_legal_moves(g)[i].from).contains(all_legal_moves(g)[i]),
        keeps_king_safe(g, all_legal_moves(g)[i]),
{
    lemma_turn_moves_listed(g, 64, i);
    let m = all_legal_moves(g)[i];
    let j = choose|j: int| 0 <= j < legal_moves(g, m.from).len() && legal_moves(g, m.from)[j] == m;
    law_legal_moves_keep_king_safe(g, m.from, j);
}

proof fn lemma_turn_moves_listed(g: GameView, n: int, i: int)
    requires
        0 <= n,
        0 <= i < crate::rules::turn_moves_upto(g, n).len(),
    ensures
        crate::rules::turn_moves_upto(g, n)[i].piece.color == g.turn,
        legal_moves(g, crate::rules::turn_moves_upto(g, n)[i].from).contains(
            crate::rules::turn_moves_upto(g, n)[i],
        ),
    decreases n,
{
    if n > 0 {
        let before = crate::rules::turn_moves_upto(g, n - 1);
        if i < before.len() {
            lemma_turn_moves_listed(g, n - 1, i);
        } else {
            let pos = crate::rules::nth_square(n - 1);
            let k = i - before.len();
            let m = legal_moves(g, pos)[k];
            assert(crate::rules::turn_moves_upto(g, n)[i] == m);
            lemma_possible_moves_shaped(g, pos, false, true);
            assert(crate::shape::well_shaped(m, g.board[pos.spec_index()]->0, pos));
            assert(legal_moves(g, pos).contains(m));
        }
    }
}

/// The list of all legal moves leaves none out: every legal move of a piece
/// of the side to move is in it.
pub proof fn law_all_legal_moves_are_complete(g: GameView, pos: Position, i: int)
    requires
        0 <= i < legal_moves(g, pos).len(),
        legal_moves(g, pos)[i].piece.color == g.turn,
    ensures
        all_legal_moves(g).contains(legal_moves(g, pos)[i]),
{
    lemma_possible_moves_shaped(g, pos, false, true);
    let m = legal_moves(g, pos)[i];
    assert(crate::shape::well_shaped(m, g.board[pos.spec_index()]->0, pos));
    let n = pos.file() * 8 + pos.rank();
    assert(crate::rules::nth_square(n) == pos);
    lemma_turn_moves_hold(g, 64, n, i);
}

proof fn lemma_turn_moves_hold(g: GameView, upto: int, n: int, i: int)
    requires
        0 <= n < upto,
        0 <= i < legal_moves(g, crate::rules::nth_square(n)).len(),
        g.board[crate::rules::nth_square(n).spec_index()] matches Some(p) && p.color == g.turn,
    ensures
        crate::rules::turn_moves_upto(g, upto).contains(
            legal_moves(g, crate::rules::nth_square(n))[i],
        ),
    decreases upto,
{
    let m = legal_moves(g, crate::rules::nth_square(n))[i];
    let before = crate::rules::turn_moves_upto(g, upto - 1);
    let all = crate::rules::turn_moves_upto(g, upto);
    if n == upto - 1 {
        assert(all[before.len() + i] == m);
    } else {
        lemma_turn_moves_hold(g, upto - 1, n, i);
        let j = choose|j: int| 0 <= j < before.len() && before[j] == m;
        assert(all[j] == m);
    }
}

/// A game that is not drawn has room to count one more move.
pub proof fn law_undrawn_game_can_count(g: GameView)
    requires
        !crate::rules::is_a_draw(g),
    ensures
        crate::rules::can_count(g),
{
}

/// Whether the `i`-th pseudo-legal move from the `n`-th square is a capture
/// of the king of `color` by a piece of the other side.
pub open spec fn is_capture_of_king(g: GameView, color: Color, n: int, i: int) -> bool {
    &&& 0 <= n < 64
    &&& 0 <= i < crate::rules::pseudo_moves(g, crate::rules::nth_square(n), false).len()
    &&& crate::rules::threat_of(
        crate::rules::pseudo_moves(g, crate::rules::nth_square(n), false)[i],
        color,
    ) is Some
}

proof fn lemma_threats_among_nonempty(moves: Seq<MoveView>, color: Color, n: int)
    requires
        0 <= n <= moves.len(),
    ensures
        (crate::rules::threats_among_upto(moves, color, n).len() > 0) == (exists|i: int|
            0 <= i < n && crate::rules::threat_of(#[trigger] moves[i], color) is Some),
    decreases n,
{
    if n > 0 {
        lemma_threats_among_nonempty(moves, color, n - 1);
        if crate::rules::threat_of(moves[n - 1], color) is Some {
        } else if exists|i: int|
            0 <= i < n && crate::rules::threat_of(#[trigger] moves[i], color) is Some {
            let i = choose|i: int|
                0 <= i < n && crate::rules::threat_of(#[trigger] moves[i], color) is Some;
            assert(i < n - 1);
        }
    }
}

proof fn lemma_threats_nonempty(g: GameView, color: Color, upto: int)
    requires
        0 <= upto <= 64,
    ensures
        (crate::rules::threats_upto(g, color, upto).len() > 0) == (exists|n: int, i: int|
            n < upto && #[trigger] is_capture_of_king(g, color, n, i)),
    decreases upto,
{
    if upto > 0 {
        lemma_threats_nonempty(g, color, upto - 1);
        let moves = crate::rules::pseudo_moves(g, crate::rules::nth_square(upto - 1), false);
        lemma_threats_among_nonempty(moves, color, moves.len() as int);
        if crate::rules::threats_among(moves, color).len() > 0 {
            let i = choose|i: int|
                0 <= i < moves.len() && crate::rules::threat_of(#[trigger] moves[i], color) is Some;
            assert(is_capture_of_king(g, color, upto - 1, i));
        } else if exists|n: int, i: int| n < upto && #[trigger] is_capture_of_king(g, color, n, i) {
            let (n, i) = choose|n: int, i: int|
                n < upto && #[trigger] is_capture_of_king(g, color, n, i);
            if n == upto - 1 {
                assert(crate::rules::threat_of(moves[i], color) is Some);
            } else {
                assert(n < upto - 1 && is_capture_of_king(g, color, n, i));
            }
        }
    }
}

/// What check means: once the threats are recomputed, a king is in check
/// exactly when some piece of the other side has a pseudo-legal move that
/// takes it.
pub proof fn law_check_is_a_capture_of_the_king(g: GameView, color: Color)
    ensures
        in_check(crate::rules::refreshed(g), color) == (exists|n: int, i: int| #[trigger]
            is_capture_of_king(
                GameView {
                    protected_squares: crate::rules::refreshed(g).protected_squares,
                    ..g
                },
                color,
                n,
                i,
            )),
{
    let g1 = GameView { protected_squares: crate::rules::refreshed(g).protected_squares, ..g };
    lemma_threats_nonempty(g1, color, 64);
    match color {
        Color::White => {},
        Color::Black => {},
    }
    if exists|n: int, i: int| #[trigger] is_capture_of_king(g1, color, n, i) {
        let (n, i) = choose|n: int, i: int| #[trigger] is_capture_of_king(g1, color, n, i);
        assert(n < 64 && is_capture_of_king(g1, color, n, i));
    }
}

/// Whether the `i`-th attack from the `n`-th square is an attack of a piece
/// of `color` on `p`.
pub open spec fn is_attack_on(g: GameView, color: Color, p: Position, n: int, i: int) -> bool {
    &&& 0 <= n < 64
    &&& g.board[crate::rules::nth_square(n).spec_index()] matches Some(q) && q.color == color
    &&& 0 <= i < crate::rules::pseudo_moves(g, crate::rules::nth_square(n), true).len()
    &&& crate::rules::pseudo_moves(g, crate::rules::nth_square(n), true)[i].to == p
}

proof fn lemma_attacked_contains(g: GameView, color: Color, p: Position, upto: int)
    requires
        0 <= upto <= 64,
    ensures
        crate::rules::attacked_upto(g, color, upto).contains(p) == (exists|n: int, i: int|
            n < upto && #[trigger] is_attack_on(g, color, p, n, i)),
    decreases upto,
{
    if upto > 0 {
        lemma_attacked_contains(g, color, p, upto - 1);
        let pos = crate::rules::nth_square(upto - 1);
        let before = crate::rules::attacked_upto(g, color, upto - 1);
        let all = crate::rules::attacked_upto(g, color, upto);
        let mine = g.board[pos.spec_index()] matches Some(q) && q.color == color;
        let moves = crate::rules::pseudo_moves(g, pos, true);
        let here = if mine {
            crate::rules::destinations(moves)
        } else {
            Seq::empty()
        };
        assert(all == before + here);
        if all.contains(p) {
            let k = choose|k: int| 0 <= k < all.len() && all[k] == p;
            if k < before.len() {
                assert(before[k] == p);
                assert(before.contains(p));
                let (n, i) = choose|n: int, i: int|
                    n < upto - 1 && #[trigger] is_attack_on(g, color, p, n, i);
                assert(n < upto && is_attack_on(g, color, p, n, i));
            } else {
                assert(here[k - before.len()] == p);
                assert(is_attack_on(g, color, p, upto - 1, k - before.len()));
            }
        }
        if exists|n: int, i: int| n < upto && #[trigger] is_attack_on(g, color, p, n, i) {
            let (n, i) = choose|n: int, i: int|
                n < upto && #[trigger] is_attack_on(g, color, p, n, i);
            if n == upto - 1 {
                assert(here[i] == p);
                assert(all[before.len() + i] == p);
            } else {
                assert(n < upto - 1 && is_attack_on(g, color, p, n, i));
                assert(before.contains(p));
                let k = choose|k: int| 0 <= k < before.len() && before[k] == p;
                assert(all[k] == p);
            }
        }
    }
}

/// What attack means: once the attacks are recomputed, a side attacks a
/// square exactly when one of its pieces could move there if it were allowed
/// to land on any piece.
pub proof fn law_attack_is_a_move_onto_the_square(g: GameView, color: Color, p: Position)
    ensures
        crate::rules::is_protected(crate::rules::refreshed(g), p, color) == (exists|
            n: int,
            i: int,
        | #[trigger] is_attack_on(g, color, p, n, i)),
{
    lemma_attacked_contains(g, color, p, 64);
    match color {
        Color::White => {},
        Color::Black => {},
    }
    if exists|n: int, i: int| #[trigger] is_attack_on(g, color, p, n, i) {
        let (n, i) = choose|n: int, i: int| #[trigger] is_attack_on(g, color, p, n, i);
        assert(n < 64 && is_attack_on(g, color, p, n, i));
    }
}

/// A side without legal moves is not moved for: where the side to move has no
/// legal move, every `Move` is reported as invalid and changes nothing. Mate
/// and stalemate are the end of the game.
pub proof fn law_no_move_after_the_end(g: GameView, from: Position, to: Position)
    requires
        crate::rules::no_possible_moves(g, g.turn),
    ensures
        process(g, UserInput::Move(from, to)) == (g, Some(UserOutput::InvalidMove)),
{
    if move_if_valid(g, from, to) is Some {
        law_move_if_valid_is_legal(g, from, to);
        let n = from.file() * 8 + from.rank();
        assert(crate::rules::nth_square(n) == from);
        assert(g.board[crate::rules::nth_square(n).spec_index()] is Some);
    }
}

/// A pawn that reaches the last rank waits there: after a move that is
/// answered by `Promotion`, a promotion is pending on the square reported,
/// the turn has not passed, and any further `Move` is reported as invalid.
pub proof fn law_promotion_is_awaited(g: GameView, from: Position, to: Position, next: UserInput)
    requires
        process(g, UserInput::Move(from, to)).1 is Some,
        process(g, UserInput::Move(from, to)).1->0 is Promotion,
        next is Move,
        g.board.len() == 64,
    ensures
        process(g, UserInput::Move(from, to)).1 == Some(UserOutput::Promotion(to)),
        pending_promotion(process(g, UserInput::Move(from, to)).0) == Some(to),
        process(g, UserInput::Move(from, to)).0.turn == g.turn,
        process(process(g, UserInput::Move(from, to)).0, next) == (
            process(g, UserInput::Move(from, to)).0,
            Some(UserOutput::InvalidMove),
        ),
{
    law_move_if_valid_is_legal(g, from, to);
    let mv = move_if_valid(g, from, to)->0;
    let after = process(g, UserInput::Move(from, to)).0;
    assert(after.history.last() == mv);
    assert(after.board == crate::rules::board_after(g.board, mv));
    assert(after.board[mv.to.spec_index()] == Some(mv.piece));
}

/// A promotion ends the waiting and passes the turn: after a promotion that
/// is carried out, the chosen piece stands on the square, no promotion is
/// pending, and the other side is to move.
pub proof fn law_promotion_passes_the_turn(
    g: GameView,
    piece: crate::pieces::Piece,
    pos: Position,
)
    requires
        process(g, UserInput::Promotion(piece, pos)).1 != Some(UserOutput::InvalidMove),
        g.board.len() == 64,
    ensures
        process(g, UserInput::Promotion(piece, pos)).0.board == g.board.update(
            pos.spec_index(),
            Some(piece),
        ),
        process(g, UserInput::Promotion(piece, pos)).0.turn == g.turn.spec_invert(),
        process(g, UserInput::Promotion(piece, pos)).0.history == g.history,
        pending_promotion(process(g, UserInput::Promotion(piece, pos)).0) is None,
{
}

/// A complete move passes the turn: after a move that is carried out and
/// does not await a promotion, the other side is to move.
pub proof fn law_move_passes_the_turn(g: GameView, from: Position, to: Position)
    requires
        process(g, UserInput::Move(from, to)).1 != Some(UserOutput::InvalidMove),
        !(process(g, UserInput::Move(from, to)).1 is Some && process(
            g,
            UserInput::Move(from, to),
        ).1->0 is Promotion),
    ensures
        process(g, UserInput::Move(from, to)).0.turn == g.turn.spec_invert(),
        process(g, UserInput::Move(from, to)).0.board == crate::rules::board_after(
            g.board,
            move_if_valid(g, from, to)->0,
        ),
{
}

proof fn lemma_key_absent(
    table: Seq<(crate::rules::PositionKey, nat)>,
    key: crate::rules::PositionKey,
    from: int,
)
    requires
        0 <= from <= table.len(),
        crate::rules::key_place(table, key, from) == table.len(),
    ensures
        forall|j: int| from <= j < table.len() ==> (#[trigger] table[j]).0 != key,
    decreases table.len() - from,
{
    if from < table.len() {
        lemma_key_place_in_range(table, key, from + 1);
        lemma_key_absent(table, key, from + 1);
    }
}

/// Counting a position keeps every position under one entry: where no key
/// occurs twice, none does after a position was counted once more.
pub proof fn law_counting_keeps_keys_distinct(
    table: Seq<(crate::rules::PositionKey, nat)>,
    key: crate::rules::PositionKey,
)
    ensures
        crate::rules::keys_distinct(table) ==> crate::rules::keys_distinct(
            crate::rules::met_again(table, key),
        ),
        crate::rules::times_met(crate::rules::met_again(table, key), key)
            == crate::rules::times_met(table, key) + 1,
{
    let place = crate::rules::key_place(table, key, 0);
    let after = crate::rules::met_again(table, key);
    lemma_key_place_in_range(table, key, 0);
    if place < table.len() {
        assert forall|j: int| 0 <= j < place implies (#[trigger] after[j]).0 != key by {
            lemma_first_is_first(table, key, 0, j);
        }
        crate::play::lemma_key_place(after, key, 0, place);
    } else {
        lemma_key_absent(table, key, 0);
        crate::play::lemma_key_place(after, key, 0, table.len() as int);
    }
    if crate::rules::keys_distinct(table) {
        assert forall|i: int, j: int| 0 <= i < j < after.len() implies (#[trigger] after[i]).0 != (
        #[trigger] after[j]).0 by {
            if place < table.len() {
                assert(after[i].0 == table[i].0 && after[j].0 == table[j].0);
            } else if j < table.len() {
                assert(after[i] == table[i] && after[j] == table[j]);
            } else {
                assert(after[i] == table[i]);
            }
        }
    }
}

proof fn lemma_first_is_first(
    table: Seq<(crate::rules::PositionKey, nat)>,
    key: crate::rules::PositionKey,
    from: int,
    j: int,
)
    requires
        0 <= from <= j < crate::rules::key_place(table, key, from),
    ensures
        table[j].0 != key,
    decreases j - from,
{
    lemma_key_place_in_range(table, key, from);
    if from < j {
        lemma_first_is_first(table, key, from + 1, j);
    }
}

/// Every move that is carried out is recorded in full, a move that awaits a
/// promotion as much as any other: the piece it takes joins the pieces taken
/// by its side, the count of moves without capture or pawn move is reset by
/// a capture or a pawn move and grows by one otherwise, and the rights to
/// castle that it ends are lost.
pub proof fn law_every_move_is_recorded(g: GameView, from: Position, to: Position)
    requires
        process(g, UserInput::Move(from, to)).1 != Some(UserOutput::InvalidMove),
    ensures
        ({
            let mv = move_if_valid(g, from, to)->0;
            let after = process(g, UserInput::Move(from, to)).0;
            &&& move_if_valid(g, from, to) is Some
            &&& after.captured == crate::rules::captured_after(g.captured, mv)
            &&& after.number_of_moves_without_captures_or_pawn_moves == crate::rules::quiet_after(
                g.number_of_moves_without_captures_or_pawn_moves,
                mv,
            )
            &&& after.able_to_long_castle == crate::rules::rights_after(
                g.able_to_long_castle,
                mv,
                0,
            )
            &&& after.able_to_short_castle == crate::rules::rights_after(
                g.able_to_short_castle,
                mv,
                7,
            )
            &&& is_promotion_move(mv) ==> after.number_of_moves_without_captures_or_pawn_moves == 0
                && after.number_of_repeated_board_states == g.number_of_repeated_board_states
        }),
{
}

/// A promotion completes the move that awaited it and loses nothing of it:
/// what the move recorded stays as it is, and the position that results is
/// counted once more.
pub proof fn law_promotion_completes_the_move(
    g: GameView,
    piece: crate::pieces::Piece,
    pos: Position,
)
    requires
        process(g, UserInput::Promotion(piece, pos)).1 != Some(UserOutput::InvalidMove),
    ensures
        ({
            let after = process(g, UserInput::Promotion(piece, pos)).0;
            &&& after.captured == g.captured
            &&& after.number_of_moves_without_captures_or_pawn_moves
                == g.number_of_moves_without_captures_or_pawn_moves
            &&& after.able_to_long_castle == g.able_to_long_castle
            &&& after.able_to_short_castle == g.able_to_short_castle
            &&& after.history == g.history
            &&& after.number_of_repeated_board_states == crate::rules::met_again(
                g.number_of_repeated_board_states,
                crate::rules::position_key(after),
            )
            &&& crate::rules::times_met(
                after.number_of_repeated_board_states,
                crate::rules::position_key(after),
            ) == crate::rules::times_met(
                g.number_of_repeated_board_states,
                crate::rules::position_key(after),
            ) + 1
        }),
{
    let after = process(g, UserInput::Promotion(piece, pos)).0;
    let before = GameView {
        turn: g.turn.spec_invert(),
        ..crate::rules::refreshed(
            GameView { board: g.board.update(pos.spec_index(), Some(piece)), ..g },
        )
    };
    assert(after == crate::rules::counted(before));
    lemma_key_ignores_the_count(before);
    law_counting_keeps_keys_distinct(
        g.number_of_repeated_board_states,
        crate::rules::position_key(after),
    );
}

/// The key of a position does not depend on how often positions were met.
proof fn lemma_key_ignores_the_count(g: GameView)
    ensures
        crate::rules::position_key(crate::rules::counted(g)) == crate::rules::position_key(g),
{
    lemma_pseudo_ignores_the_count(g, 64);
}

proof fn lemma_pseudo_ignores_the_count(g: GameView, n: int)
    requires
        0 <= n,
    ensures
        crate::rules::all_pseudo_upto(crate::rules::counted(g), n)
            == crate::rules::all_pseudo_upto(g, n),
    decreases n,
{
    if n > 0 {
        lemma_pseudo_ignores_the_count(g, n - 1);
        let c = crate::rules::counted(g);
        let pos = crate::rules::nth_square(n - 1);
        assert(crate::rules::pseudo_moves(c, pos, false) == crate::rules::pseudo_moves(
            g,
            pos,
            false,
        )) by {
            lemma_piece_moves_ignore_the_count(g, pos);
        }
    }
}

proof fn lemma_piece_moves_ignore_the_count(g: GameView, pos: Position)
    ensures
        crate::rules::pseudo_moves(crate::rules::counted(g), pos, false)
            == crate::rules::pseudo_moves(g, pos, false),
{
    let c = crate::rules::counted(g);
    assert(c.board == g.board && c.history == g.history && c.able_to_long_castle
        == g.able_to_long_castle && c.able_to_short_castle == g.able_to_short_castle
        && c.protected_squares == g.protected_squares && c.pieces_attacking_king
        == g.pieces_attacking_king);
    if pos.on_board() && g.board[pos.spec_index()] is Some {
        let piece = g.board[pos.spec_index()]->0;
        assert(can_short_castle(c, piece.color) == can_short_castle(g, piece.color));
        assert(can_long_castle(c, piece.color) == can_long_castle(g, piece.color));
        assert(crate::rules::castle_moves(c, piece, pos, false) == crate::rules::castle_moves(
            g,
            piece,
            pos,
            false,
        ));
        assert(crate::rules::en_passant_to(c, piece, pos, 1) == crate::rules::en_passant_to(
            g,
            piece,
            pos,
            1,
        ));
        assert(crate::rules::en_passant_to(c, piece, pos, -1) == crate::rules::en_passant_to(
            g,
            piece,
            pos,
            -1,
        ));
    }
}

/// A right to castle that is lost stays lost: no move brings it back, and a
/// side castles only with its king on its home square and its rook in the
/// corner.
pub proof fn law_castling_rights_only_end(g: GameView, input: UserInput, color: Color)
    requires
        g.able_to_long_castle.len() == 2,
        g.able_to_short_castle.len() == 2,
    ensures
        process(g, input).0.able_to_long_castle[color.spec_slot()]
            ==> g.able_to_long_castle[color.spec_slot()],
        process(g, input).0.able_to_short_castle[color.spec_slot()]
            ==> g.able_to_short_castle[color.spec_slot()],
        can_short_castle(g, color) ==> crate::rules::king_at_home(g, color)
            && crate::rules::rook_in_corner(g, color, 7),
        can_long_castle(g, color) ==> crate::rules::king_at_home(g, color)
            && crate::rules::rook_in_corner(g, color, 0),
{
}

/// A piece that lands on the corner of a side ends that side's right to
/// castle with the rook of that corner, whatever stood there.
pub proof fn law_taken_corner_ends_the_right(g: GameView, from: Position, to: Position, color: Color)
    requires
        process(g, UserInput::Move(from, to)).1 != Some(UserOutput::InvalidMove),
    ensures
        to == Position::at(0, crate::rules::home_rank(color)) ==> !process(
            g,
            UserInput::Move(from, to),
        ).0.able_to_long_castle[color.spec_slot()],
        to == Position::at(7, crate::rules::home_rank(color)) ==> !process(
            g,
            UserInput::Move(from, to),
        ).0.able_to_short_castle[color.spec_slot()],
{
    law_move_if_valid_is_legal(g, from, to);
}

} // verus!

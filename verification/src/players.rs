//! Two simple players that choose a move for the side to move: one that goes
//! for the king, one that takes what it can.

use vstd::prelude::*;
use rand::seq::SliceRandom;
use rand::Rng;
use crate::game::Game;
use crate::moves::view_moves;
use crate::moves::Move;
use crate::moves::MoveView;
use crate::moves::UserInput;
use crate::moves::UserOutput;
use crate::pieces::Piece;
use crate::pieces::PieceType;
use crate::pieces::Position;
use crate::rules;
use crate::rules::GameView;

verus! {

/// Puts a list of moves into a random order.
///
/// Not verified: calls `SliceRandom::shuffle` of the rand crate with the
/// generator that `rand::thread_rng` gives. The crate shuffles by swapping
/// items of the slice in place, so the contract claims that the same moves
/// come out, each as often as it went in; of their order it claims nothing.
#[verifier::external_body]
fn shuffle_moves(moves: &mut Vec<Move>)
    ensures
        view_moves(final(moves)@).to_multiset() == view_moves(old(moves)@).to_multiset(),
{
    moves.shuffle(&mut rand::thread_rng());
}

/// Draws a random index below `len`.
///
/// Not verified: calls `Rng::gen_range` of the rand crate on the range from 0
/// up to but not including `len`, with the generator that `rand::thread_rng`
/// gives. The crate documents that the value lies in the range and that an
/// empty range panics, so `len` must not be 0; which value comes is left open.
#[verifier::external_body]
fn random_index(len: usize) -> (r: usize)
    requires
        len > 0,
    ensures
        r < len,
{
    rand::thread_rng().gen_range(0..len)
}

/// The test whether a move takes a piece.
pub open spec fn takes() -> spec_fn(MoveView) -> bool {
    |m: MoveView| m.captured_piece is Some
}

/// Whether playing `mv` in `g` mates the other side or leaves its king in check.
pub open spec fn gives_check(g: GameView, mv: MoveView) -> bool {
    let played = rules::process(g, UserInput::Move(mv.from, mv.to));
    played.1 == Some(UserOutput::CheckMate) || rules::in_check(played.0, g.turn.spec_invert())
}

/// The test whether playing a move in `g` gives check.
pub open spec fn checks_in(g: GameView) -> spec_fn(MoveView) -> bool {
    |m: MoveView| gives_check(g, m)
}

/// The place of the first of `moves` from `from` on that passes `test`; the
/// length of the list where none does.
pub open spec fn first_where(moves: Seq<MoveView>, test: spec_fn(MoveView) -> bool, from: int) -> int
    decreases moves.len() - from,
{
    if from < 0 || from >= moves.len() {
        moves.len() as int
    } else if test(moves[from]) {
        from
    } else {
        first_where(moves, test, from + 1)
    }
}

/// The first place is the first that passes.
pub proof fn lemma_first_where(
    moves: Seq<MoveView>,
    test: spec_fn(MoveView) -> bool,
    from: int,
    i: int,
)
    requires
        0 <= from <= i <= moves.len(),
        forall|j: int| from <= j < i ==> !test(#[trigger] moves[j]),
        i < moves.len() ==> test(moves[i]),
    ensures
        first_where(moves, test, from) == i,
    decreases i - from,
{
    if from < i {
        lemma_first_where(moves, test, from + 1, i);
    }
}

/// The choice of the player that takes what it can: the first move that
/// takes a piece, or the move at `fallback` where none does.
pub open spec fn aggressive_choice(moves: Seq<MoveView>, fallback: int) -> int {
    let capture = first_where(moves, takes(), 0);
    if capture < moves.len() {
        capture
    } else {
        fallback
    }
}

/// The choice of the player that goes for the king: the first move that
/// gives check, else the first that takes a piece, else the move at `fallback`.
pub open spec fn attacking_choice(g: GameView, moves: Seq<MoveView>, fallback: int) -> int {
    let check = first_where(moves, checks_in(g), 0);
    if check < moves.len() {
        check
    } else {
        aggressive_choice(moves, fallback)
    }
}

/// What playing `mv` does to `g` when a pawn that reaches the last rank
/// becomes a queen at once.
pub open spec fn play_with_queen(g: GameView, mv: MoveView) -> (GameView, Option<UserOutput>) {
    let played = rules::process(g, UserInput::Move(mv.from, mv.to));
    match played.1 {
        Some(UserOutput::Promotion(pos)) => rules::process(
            played.0,
            UserInput::Promotion(
                Piece { piece_type: PieceType::Queen, color: played.0.turn },
                pos,
            ),
        ),
        _ => played,
    }
}

/// Chooses among `moves` the first that takes a piece, or the one at
/// `fallback` where none does.
pub fn choose_aggressive(moves: &Vec<Move>, fallback: usize) -> (r: usize)
    requires
        fallback < moves.len(),
    ensures
        r == aggressive_choice(view_moves(moves@), fallback as int),
        r < moves.len(),
{
    let mut i: usize = 0;
    while i < moves.len()
        invariant
            i <= moves.len(),
            forall|j: int| 0 <= j < i ==> !takes()(#[trigger] view_moves(moves@)[j]),
        decreases moves.len() - i,
    {
        if moves[i].captured_piece.is_some() {
            proof {
                lemma_first_where(view_moves(moves@), takes(), 0, i as int);
            }
            return i;
        }
        i += 1;
    }
    proof {
        lemma_first_where(view_moves(moves@), takes(), 0, moves.len() as int);
    }
    fallback
}

/// Whether playing `mv` mates the other side or leaves its king in check.
pub fn move_gives_check(game: &Game, mv: &Move) -> (r: bool)
    requires
        rules::can_count(game@),
    ensures
        r == gives_check(game@, mv@),
{
    let mut game_after_move = game.clone();
    match game_after_move.process_input(&UserInput::Move(mv.from, mv.to)) {
        Some(UserOutput::CheckMate) => true,
        _ => game_after_move.check(game.turn.invert()),
    }
}

/// Chooses among `moves` the first that gives check, else the first that
/// takes a piece, else the one at `fallback`.
pub fn choose_attacking_king(game: &Game, moves: &Vec<Move>, fallback: usize) -> (r: usize)
    requires
        fallback < moves.len(),
        rules::can_count(game@),
    ensures
        r == attacking_choice(game@, view_moves(moves@), fallback as int),
        r < moves.len(),
{
    let mut i: usize = 0;
    while i < moves.len()
        invariant
            i <= moves.len(),
            rules::can_count(game@),
            forall|j: int| 0 <= j < i ==> !checks_in(game@)(#[trigger] view_moves(moves@)[j]),
        decreases moves.len() - i,
    {
        if move_gives_check(game, &moves[i]) {
            proof {
                lemma_first_where(view_moves(moves@), checks_in(game@), 0, i as int);
            }
            return i;
        }
        i += 1;
    }
    proof {
        lemma_first_where(view_moves(moves@), checks_in(game@), 0, moves.len() as int);
    }
    choose_aggressive(moves, fallback)
}

/// Completes a pending promotion with a piece of the given kind for the side
/// to move.
pub fn promote_to_piece(game: &mut Game, pos: Position, piece_type: PieceType) -> (r: Option<
    UserOutput,
>)
    requires
        rules::can_count(old(game)@),
    ensures
        (final(game)@, r) == rules::process(
            old(game)@,
            UserInput::Promotion(Piece { piece_type, color: old(game)@.turn }, pos),
        ),
{
    let color = game.turn;
    let piece = Piece { piece_type, color };
    game.process_input(&UserInput::Promotion(piece, pos))
}

/// Plays `mv`; a pawn that reaches the last rank becomes a queen at once.
pub fn play_move(game: &mut Game, mv: &Move) -> (r: Option<UserOutput>)
    requires
        rules::can_count(old(game)@),
    ensures
        (final(game)@, r) == play_with_queen(old(game)@, mv@),
{
    let user_output = game.process_input(&UserInput::Move(mv.from, mv.to));
    match user_output {
        Some(UserOutput::Promotion(pos)) => promote_to_piece(game, pos, PieceType::Queen),
        _ => user_output,
    }
}

/// A shuffled list holds the moves of the list it was shuffled from.
proof fn lemma_shuffled_move_is_listed(before: Seq<MoveView>, after: Seq<MoveView>, i: int)
    requires
        before.to_multiset() == after.to_multiset(),
        0 <= i < after.len(),
    ensures
        before.contains(after[i]),
{
    assert(after.contains(after[i]));
    vstd::seq_lib::to_multiset_contains(after, after[i]);
    vstd::seq_lib::to_multiset_contains(before, after[i]);
}

/// A shuffled list is as long as the list it was shuffled from.
proof fn lemma_shuffled_length(before: Seq<MoveView>, after: Seq<MoveView>)
    requires
        before.to_multiset() == after.to_multiset(),
    ensures
        before.len() == after.len(),
{
    vstd::seq_lib::to_multiset_len(after);
    vstd::seq_lib::to_multiset_len(before);
}

/// Lets the player that goes for the king make a move for the side to move.
///
/// Among the legal moves in a random order it plays the first that gives
/// check, else the first that takes a piece, else one drawn at random; a pawn
/// that reaches the last rank becomes a queen. Whatever the order and the
/// draw, the move played is one of the legal moves. Where the side to move
/// has none, `InvalidMove` is reported and nothing changes.
pub fn play_attacking_king(game: &mut Game) -> (r: Option<UserOutput>)
    requires
        rules::can_count(old(game)@),
    ensures
        rules::all_legal_moves(old(game)@).len() == 0 ==> r == Some(UserOutput::InvalidMove)
            && final(game)@ == old(game)@,
        rules::all_legal_moves(old(game)@).len() > 0 ==> exists|i: int|
            0 <= i < rules::all_legal_moves(old(game)@).len() && (final(game)@, r)
                == play_with_queen(old(game)@, #[trigger] rules::all_legal_moves(old(game)@)[i]),
{
    let mut possible_moves = game.get_all_currently_valid_moves();
    if possible_moves.len() == 0 {
        return Some(UserOutput::InvalidMove);
    }
    let ghost legal = view_moves(possible_moves@);
    shuffle_moves(&mut possible_moves);
    proof {
        lemma_shuffled_length(legal, view_moves(possible_moves@));
    }
    let random = random_index(possible_moves.len());
    let chosen = choose_attacking_king(game, &possible_moves, random);
    proof {
        lemma_shuffled_move_is_listed(legal, view_moves(possible_moves@), chosen as int);
        let i = choose|i: int| 0 <= i < legal.len() && legal[i] == possible_moves@[chosen as int]@;
        assert(legal[i] == possible_moves@[chosen as int]@);
    }
    play_move(game, &possible_moves[chosen])
}

/// Lets the player that takes what it can make a move for the side to move.
///
/// Among the legal moves in a random order it plays the first that takes a
/// piece, else one drawn at random; a pawn that reaches the last rank becomes
/// a queen. Whatever the order and the draw, the move played is one of the
/// legal moves.
pub fn play_randomly_aggressive(game: &mut Game) -> (r: Option<UserOutput>)
    requires
        rules::can_count(old(game)@),
        rules::all_legal_moves(old(game)@).len() > 0,
    ensures
        exists|i: int|
            0 <= i < rules::all_legal_moves(old(game)@).len() && (final(game)@, r)
                == play_with_queen(old(game)@, #[trigger] rules::all_legal_moves(old(game)@)[i]),
{
    let mut possible_moves = game.get_all_currently_valid_moves();
    let ghost legal = view_moves(possible_moves@);
    shuffle_moves(&mut possible_moves);
    proof {
        lemma_shuffled_length(legal, view_moves(possible_moves@));
    }
    let random = random_index(possible_moves.len());
    let chosen = choose_aggressive(&possible_moves, random);
    proof {
        lemma_shuffled_move_is_listed(legal, view_moves(possible_moves@), chosen as int);
        let i = choose|i: int| 0 <= i < legal.len() && legal[i] == possible_moves@[chosen as int]@;
        assert(legal[i] == possible_moves@[chosen as int]@);
    }
    play_move(game, &possible_moves[chosen])
}

} // verus!

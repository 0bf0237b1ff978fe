//! Moves, and what a caller hands to a game and gets back from it.

use vstd::prelude::*;
use vstd::std_specs::cmp::PartialEqSpecImpl;
use crate::pieces::Color;
use crate::pieces::Piece;
use crate::pieces::Position;

verus! {

/// What stands in the way of a step onto a square.
#[derive(Debug, Copy, Clone, PartialEq, Eq, Hash, Structural)]
pub enum Obstacle {
    OutOfBoundary,
    Piece(Color),
}

/// How a move changes the board beyond carrying one piece to its destination.
#[derive(Debug, Copy, Clone, PartialEq, Eq, Hash, Structural)]
pub enum MoveType {
    Normal,
    Jump,
    Enpassant,
    LongCastle,
    ShortCastle,
}

/// A move as the rules produce it.
#[derive(Debug)]
pub struct Move {
    pub piece: Piece,
    pub from: Position,
    pub to: Position,
    pub captured_piece: Option<Piece>,
    pub move_type: MoveType,
    pub traversed_squares: Vec<Position>,
}

/// The mathematical value of a `Move`.
pub struct MoveView {
    pub piece: Piece,
    pub from: Position,
    pub to: Position,
    pub captured_piece: Option<Piece>,
    pub move_type: MoveType,
    /// The squares passed over, origin first and destination last.
    pub traversed_squares: Seq<Position>,
}

impl View for Move {
    type V = MoveView;

    open spec fn view(&self) -> MoveView {
        MoveView {
            piece: self.piece,
            from: self.from,
            to: self.to,
            captured_piece: self.captured_piece,
            move_type: self.move_type,
            traversed_squares: self.traversed_squares@,
        }
    }
}

impl Clone for Move {
    fn clone(&self) -> (r: Self)
        ensures
            r@ == self@,
    {
        Move {
            piece: self.piece,
            from: self.from,
            to: self.to,
            captured_piece: self.captured_piece,
            move_type: self.move_type,
            traversed_squares: self.traversed_squares.clone(),
        }
    }
}

/// Whether two lists of squares hold the same squares in the same order.
pub fn same_squares(a: &Vec<Position>, b: &Vec<Position>) -> (r: bool)
    ensures
        r == (a@ == b@),
{
    if a.len() != b.len() {
        return false;
    }
    let mut i: usize = 0;
    while i < a.len()
        invariant
            i <= a.len(),
            a.len() == b.len(),
            forall|j: int| 0 <= j < i ==> a@[j] == b@[j],
        decreases a.len() - i,
    {
        if a[i] != b[i] {
            return false;
        }
        i += 1;
    }
    assert(a@ =~= b@);
    true
}

impl PartialEq for Move {
    fn eq(&self, other: &Self) -> (r: bool) {
        self.piece == other.piece && self.from == other.from && self.to == other.to
            && self.captured_piece == other.captured_piece && self.move_type == other.move_type
            && same_squares(&self.traversed_squares, &other.traversed_squares)
    }
}

impl PartialEqSpecImpl for Move {
    open spec fn obeys_eq_spec() -> bool {
        true
    }

    open spec fn eq_spec(&self, other: &Self) -> bool {
        self@ == other@
    }
}

impl Eq for Move {

}

/// The values of a list of moves, in order.
pub open spec fn view_moves(moves: Seq<Move>) -> Seq<MoveView> {
    moves.map_values(|m: Move| m@)
}

/// Viewing a list after a push is pushing the view.
pub proof fn lemma_view_moves_push(moves: Seq<Move>, m: Move)
    ensures
        view_moves(moves.push(m)) == view_moves(moves).push(m@),
{
    assert(view_moves(moves.push(m)) =~= view_moves(moves).push(m@));
}

/// Viewing two lists joined is joining the views.
pub proof fn lemma_view_moves_add(a: Seq<Move>, b: Seq<Move>)
    ensures
        view_moves(a + b) == view_moves(a) + view_moves(b),
{
    assert(view_moves(a + b) =~= view_moves(a) + view_moves(b));
}

/// Copies a list of moves.
pub fn clone_moves(moves: &Vec<Move>) -> (r: Vec<Move>)
    ensures
        view_moves(r@) == view_moves(moves@),
{
    let mut out: Vec<Move> = Vec::new();
    let mut i: usize = 0;
    while i < moves.len()
        invariant
            i <= moves.len(),
            out.len() == i,
            forall|j: int| 0 <= j < i ==> out@[j]@ == moves@[j]@,
        decreases moves.len() - i,
    {
        out.push(moves[i].clone());
        i += 1;
    }
    assert(view_moves(out@) =~= view_moves(moves@));
    out
}

/// Whether two lists hold the same moves in the same order.
pub fn same_moves(a: &Vec<Move>, b: &Vec<Move>) -> (r: bool)
    ensures
        r == (view_moves(a@) == view_moves(b@)),
{
    if a.len() != b.len() {
        assert(view_moves(a@).len() != view_moves(b@).len());
        return false;
    }
    let mut i: usize = 0;
    while i < a.len()
        invariant
            i <= a.len(),
            a.len() == b.len(),
            forall|j: int| 0 <= j < i ==> a@[j]@ == b@[j]@,
        decreases a.len() - i,
    {
        if !(a[i] == b[i]) {
            assert(view_moves(a@)[i as int] != view_moves(b@)[i as int]);
            return false;
        }
        i += 1;
    }
    assert(view_moves(a@) =~= view_moves(b@));
    true
}

/// What a caller asks of a game.
#[derive(Debug, Clone, Copy, PartialEq, Eq, Structural)]
pub enum UserInput {
    /// Move the piece on the first square to the second.
    Move(Position, Position),
    /// Put the chosen piece on the square where a pawn awaits promotion.
    Promotion(Piece, Position),
    Draw,
    Resign,
}

/// What a game reports after an input, where it reports anything.
#[derive(Debug, Clone, Copy, PartialEq, Eq, Structural)]
pub enum UserOutput {
    CheckMate,
    StaleMate,
    InvalidMove,
    /// A pawn reached the last rank on this square and awaits its promotion.
    Promotion(Position),
    Draw,
}

} // verus!

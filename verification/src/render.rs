//! Text for pieces, moves and boards.

use vstd::prelude::*;
use crate::game::Game;
use crate::moves::Move;
use crate::moves::MoveView;
use crate::pieces::Color;
use crate::pieces::Piece;
use crate::pieces::PieceType;
use crate::pieces::Position;

verus! {

/// Appends one character to a string.
///
/// Not verified: calls `String::push` of the standard library, which is
/// documented to append the given character to the end of the string.
#[verifier::external_body]
pub(crate) fn push_char(text: &mut String, c: char)
    ensures
        final(text)@ == old(text)@.push(c),
{
    text.push(c);
}

impl PieceType {
    /// The name of a kind of piece.
    pub open spec fn spec_name(&self) -> Seq<char> {
        match self {
            PieceType::Pawn => "Pawn"@,
            PieceType::Bishop => "Bishop"@,
            PieceType::Knight => "Knight"@,
            PieceType::King => "King"@,
            PieceType::Rook => "Rook"@,
            PieceType::Queen => "Queen"@,
        }
    }

    /// Returns the name of a kind of piece.
    pub fn name(&self) -> (r: &'static str)
        ensures
            r@ == self.spec_name(),
    {
        match self {
            PieceType::Pawn => "Pawn",
            PieceType::Bishop => "Bishop",
            PieceType::Knight => "Knight",
            PieceType::King => "King",
            PieceType::Rook => "Rook",
            PieceType::Queen => "Queen",
        }
    }
}

impl Piece {
    /// The chess symbol of a piece.
    pub open spec fn spec_symbol(&self) -> Seq<char> {
        match (self.piece_type, self.color) {
            (PieceType::Pawn, Color::White) => "\u{265F}"@,
            (PieceType::Pawn, Color::Black) => "\u{2659}"@,
            (PieceType::Bishop, Color::White) => "\u{265D}"@,
            (PieceType::Bishop, Color::Black) => "\u{2657}"@,
            (PieceType::Knight, Color::White) => "\u{265E}"@,
            (PieceType::Knight, Color::Black) => "\u{2658}"@,
            (PieceType::King, Color::White) => "\u{265A}"@,
            (PieceType::King, Color::Black) => "\u{2654}"@,
            (PieceType::Rook, Color::White) => "\u{265C}"@,
            (PieceType::Rook, Color::Black) => "\u{2656}"@,
            (PieceType::Queen, Color::White) => "\u{265B}"@,
            (PieceType::Queen, Color::Black) => "\u{2655}"@,
        }
    }

    /// Returns the chess symbol of a piece.
    pub fn symbol(&self) -> (r: &'static str)
        ensures
            r@ == self.spec_symbol(),
    {
        match (self.piece_type, self.color) {
            (PieceType::Pawn, Color::White) => "\u{265F}",
            (PieceType::Pawn, Color::Black) => "\u{2659}",
            (PieceType::Bishop, Color::White) => "\u{265D}",
            (PieceType::Bishop, Color::Black) => "\u{2657}",
            (PieceType::Knight, Color::White) => "\u{265E}",
            (PieceType::Knight, Color::Black) => "\u{2658}",
            (PieceType::King, Color::White) => "\u{265A}",
            (PieceType::King, Color::Black) => "\u{2654}",
            (PieceType::Rook, Color::White) => "\u{265C}",
            (PieceType::Rook, Color::Black) => "\u{2656}",
            (PieceType::Queen, Color::White) => "\u{265B}",
            (PieceType::Queen, Color::Black) => "\u{2655}",
        }
    }

    /// Returns the chess symbol of a piece as a string of its own.
    pub fn to_string(&self) -> (r: String)
        ensures
            r@ == self.spec_symbol(),
    {
        String::from_str(self.symbol())
    }
}

/// The text of a square: `Position('e', '2')` for `e2`.
pub open spec fn position_text(p: Position) -> Seq<char> {
    "Position('"@.push(p.0) + "', '"@.push(p.1) + "')"@
}

/// The text of a move: the kind of its piece, its origin and its destination.
pub open spec fn move_text(mv: MoveView) -> Seq<char> {
    mv.piece.piece_type.spec_name() + ": "@ + position_text(mv.from) + " -> "@ + position_text(
        mv.to,
    )
}

fn append_position(text: &mut String, p: Position)
    ensures
        final(text)@ == old(text)@ + position_text(p),
{
    text.append("Position('");
    push_char(text, p.0);
    text.append("', '");
    push_char(text, p.1);
    text.append("')");
    assert(text@ =~= old(text)@ + position_text(p));
}

impl Move {
    /// Returns the text of a move.
    pub fn to_string(&self) -> (r: String)
        ensures
            r@ == move_text(self@),
    {
        let mut text = String::from_str(self.piece.piece_type.name());
        text.append(": ");
        append_position(&mut text, self.from);
        text.append(" -> ");
        append_position(&mut text, self.to);
        assert(text@ =~= move_text(self@));
        text
    }
}

/// The line that parts two ranks of a drawn board.
pub open spec fn rule_text() -> Seq<char> {
    "  ---------------------------------\n"@
}

/// The label in front of a drawn rank, counted from 0.
pub open spec fn rank_label(rank: int) -> Seq<char> {
    if rank == 0 {
        "1 | "@
    } else if rank == 1 {
        "2 | "@
    } else if rank == 2 {
        "3 | "@
    } else if rank == 3 {
        "4 | "@
    } else if rank == 4 {
        "5 | "@
    } else if rank == 5 {
        "6 | "@
    } else if rank == 6 {
        "7 | "@
    } else {
        "8 | "@
    }
}

/// The text of one square of a drawn board.
pub open spec fn cell_text(cell: Option<Piece>) -> Seq<char> {
    match cell {
        None => "  | "@,
        Some(piece) => piece.spec_symbol() + " | "@,
    }
}

/// The squares of a drawn rank up to file `n`.
pub open spec fn cells_text(board: Seq<Option<Piece>>, rank: int, n: int) -> Seq<char>
    decreases n,
{
    if n <= 0 {
        Seq::empty()
    } else {
        cells_text(board, rank, n - 1) + cell_text(board[rank * 8 + n - 1])
    }
}

/// One drawn rank with the line below it.
pub open spec fn rank_text(board: Seq<Option<Piece>>, rank: int) -> Seq<char> {
    rank_label(rank) + cells_text(board, rank, 8) + "\n"@ + rule_text()
}

/// The topmost `n` ranks of a drawn board, the eighth first.
pub open spec fn ranks_text(board: Seq<Option<Piece>>, n: int) -> Seq<char>
    decreases n,
{
    if n <= 0 {
        Seq::empty()
    } else {
        ranks_text(board, n - 1) + rank_text(board, 8 - n)
    }
}

/// The line of file letters below a drawn board.
pub open spec fn files_text() -> Seq<char> {
    "    a   b   c   d   e   f   g   h   \n"@
}

/// A board drawn as text: eight ranks from the eighth down, each square with
/// the symbol of its piece, framed by lines and labelled with ranks and files.
pub open spec fn board_text(board: Seq<Option<Piece>>) -> Seq<char> {
    rule_text() + ranks_text(board, 8) + files_text()
}

fn rank_label_of(rank: usize) -> (r: &'static str)
    requires
        rank < 8,
    ensures
        r@ == rank_label(rank as int),
{
    if rank == 0 {
        "1 | "
    } else if rank == 1 {
        "2 | "
    } else if rank == 2 {
        "3 | "
    } else if rank == 3 {
        "4 | "
    } else if rank == 4 {
        "5 | "
    } else if rank == 5 {
        "6 | "
    } else if rank == 6 {
        "7 | "
    } else {
        "8 | "
    }
}

impl Game {
    /// Draws the board as text.
    pub fn to_string(&self) -> (r: String)
        ensures
            r@ == board_text(self@.board),
    {
        let mut res = String::from_str("  ---------------------------------\n");
        let ghost top = rule_text();
        let mut n: usize = 0;
        assert(res@ =~= top + ranks_text(self@.board, 0));
        while n < 8
            invariant
                n <= 8,
                top == rule_text(),
                res@ == top + ranks_text(self@.board, n as int),
            decreases 8 - n,
        {
            let rank: usize = 7 - n;
            let ghost before = res@;
            res.append(rank_label_of(rank));
            let ghost labelled = res@;
            let mut file: usize = 0;
            assert(res@ =~= labelled + cells_text(self@.board, rank as int, 0));
            while file < 8
                invariant
                    file <= 8,
                    rank < 8,
                    res@ == labelled + cells_text(self@.board, rank as int, file as int),
                decreases 8 - file,
            {
                let ghost row = res@;
                match self.board[rank * 8 + file] {
                    None => {
                        res.append("  | ");
                    },
                    Some(piece) => {
                        res.append(piece.symbol());
                        res.append(" | ");
                    },
                }
                assert(res@ =~= row + cell_text(self@.board[rank * 8 + file]));
                assert(res@ =~= labelled + cells_text(self@.board, rank as int, file + 1));
                file += 1;
            }
            res.append("\n");
            res.append("  ---------------------------------\n");
            assert(res@ =~= before + rank_text(self@.board, rank as int));
            assert(res@ =~= top + ranks_text(self@.board, n + 1));
            n += 1;
        }
        res.append("    a   b   c   d   e   f   g   h   \n");
        res
    }
}

} // verus!

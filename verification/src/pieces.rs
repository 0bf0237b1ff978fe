//! Colours, pieces, squares and the board they stand on.

use vstd::prelude::*;
use vstd::std_specs::convert::FromSpecImpl;
use vstd::std_specs::convert::TryFromSpecImpl;

verus! {

/// Number of squares along one edge of the board.
pub const BOARD_SIZE: usize = 8;

/// Number of squares of the board.
pub const TOTAL_SQUARES: usize = 64;

/// Number of sides.
pub const COLOR_COUNT: usize = 2;

/// The board: one optional piece per square, rank by rank from `a1`.
pub type Board = [Option<Piece>; 64];

/// The two sides of a game.
#[derive(Debug, Copy, Clone, PartialEq, Eq, Hash, Structural)]
pub enum Color {
    White,
    Black,
}

impl Color {
    /// The opposing side.
    pub open spec fn spec_invert(&self) -> Color {
        match self {
            Color::White => Color::Black,
            Color::Black => Color::White,
        }
    }

    /// Returns the opposing side.
    #[must_use]
    #[verifier::when_used_as_spec(spec_invert)]
    pub fn invert(&self) -> (r: Color)
        ensures
            r == self.spec_invert(),
    {
        match self {
            Color::White => Color::Black,
            Color::Black => Color::White,
        }
    }

    /// Position of this side in per-side tables: 0 for White, 1 for Black.
    pub open spec fn spec_slot(&self) -> int {
        match self {
            Color::White => 0,
            Color::Black => 1,
        }
    }

    /// Returns the position of this side in per-side tables.
    pub fn slot(&self) -> (r: usize)
        ensures
            r == self.spec_slot(),
    {
        match self {
            Color::White => 0,
            Color::Black => 1,
        }
    }

    /// Rank step of this side's pawns: up the board for White, down for Black.
    pub open spec fn spec_forward(&self) -> int {
        match self {
            Color::White => 1,
            Color::Black => -1,
        }
    }

    /// Returns the rank step of this side's pawns.
    pub fn forward(&self) -> (r: i8)
        ensures
            r == self.spec_forward(),
    {
        match self {
            Color::White => 1,
            Color::Black => -1,
        }
    }
}

/// The six kinds of chess piece.
#[derive(Debug, Copy, Clone, PartialEq, Eq, Hash, Structural)]
pub enum PieceType {
    Pawn,
    Bishop,
    Knight,
    King,
    Rook,
    Queen,
}

impl PieceType {
    /// Material value of a kind of piece.
    pub open spec fn spec_value(&self) -> u8 {
        match self {
            PieceType::Pawn => 1,
            PieceType::Knight => 3,
            PieceType::Bishop => 3,
            PieceType::Rook => 5,
            PieceType::Queen => 8,
            PieceType::King => 0,
        }
    }

    /// Returns the material value, used for display and move choice only.
    #[verifier::when_used_as_spec(spec_value)]
    pub fn value(&self) -> (r: u8)
        ensures
            r == self.spec_value(),
    {
        match self {
            PieceType::Pawn => 1,
            PieceType::Knight | PieceType::Bishop => 3,
            PieceType::Rook => 5,
            PieceType::Queen => 8,
            PieceType::King => 0,
        }
    }
}

/// A piece: its kind and its side.
#[derive(Debug, Copy, Clone, PartialEq, Eq, Hash, Structural)]
pub struct Piece {
    pub piece_type: PieceType,
    pub color: Color,
}

impl Piece {
    /// Makes the piece of the given kind and side.
    #[must_use]
    pub fn new(piece_type: PieceType, color: Color) -> (r: Piece)
        ensures
            r == (Piece { piece_type, color }),
    {
        Piece { piece_type, color }
    }
}

/// A square named by its file letter (`a` to `h`) and its rank digit (`1` to `8`).
///
/// Any pair of characters is a `Position`; only those that `on_board` accepts
/// name a square.
#[derive(Debug, Clone, Copy, PartialEq, Eq, Hash, Structural)]
pub struct Position(pub char, pub char);

/// The character whose code is that of `c`, moved by `d` and held within one byte.
pub open spec fn spec_shift_code(c: char, d: i8) -> char {
    let v = (c as u8) as int + d as int;
    if v < 0 {
        0u8 as char
    } else if v > 255 {
        255u8 as char
    } else {
        (v as u8) as char
    }
}

fn shift_code(c: char, d: i8) -> (r: char)
    ensures
        r == spec_shift_code(c, d),
{
    let code: u8 = #[verifier::truncate] (c as u8);
    let v: i16 = code as i16 + d as i16;
    if v < 0 {
        0u8 as char
    } else if v > 255 {
        255u8 as char
    } else {
        (v as u8) as char
    }
}

impl Position {
    /// File of the square, counted from 0 at `a`.
    pub open spec fn file(self) -> int {
        self.0 as int - 97
    }

    /// Rank of the square, counted from 0 at `1`.
    pub open spec fn rank(self) -> int {
        self.1 as int - 49
    }

    /// Whether the pair names one of the 64 squares.
    pub open spec fn on_board(self) -> bool {
        0 <= self.file() < 8 && 0 <= self.rank() < 8
    }

    /// Place of the square in a `Board`.
    pub open spec fn spec_index(self) -> int {
        self.rank() * 8 + self.file()
    }

    /// The square with the given file and rank, both counted from 0.
    pub open spec fn at(file: int, rank: int) -> Position {
        Position((97 + file) as char, (49 + rank) as char)
    }

    /// The pair reached by moving `to_add.0` files and `to_add.1` ranks.
    pub open spec fn spec_add(self, to_add: (i8, i8)) -> Position {
        Position(spec_shift_code(self.0, to_add.0), spec_shift_code(self.1, to_add.1))
    }

    /// Moves a pair by a number of files and ranks. The result may lie off
    /// the board: test it before it is used as an index.
    pub fn add(self, to_add: (i8, i8)) -> (r: Position)
        ensures
            r == self.spec_add(to_add),
    {
        Position(shift_code(self.0, to_add.0), shift_code(self.1, to_add.1))
    }

    /// Place of an on-board square in a `Board`.
    pub fn as_index(self: Position) -> (r: usize)
        requires
            self.on_board(),
        ensures
            r == self.spec_index(),
            r < 64,
    {
        let x: u8 = self.0 as u8 - 97u8;
        let y: u8 = self.1 as u8 - 49u8;
        (y as usize) * BOARD_SIZE + (x as usize)
    }

    /// Place of the square in a `Board`, or `None` off the board.
    pub fn try_as_index(self: Position) -> (r: Option<usize>)
        ensures
            r == (if self.on_board() {
                Some(self.spec_index() as usize)
            } else {
                None
            }),
            self.on_board() ==> 0 <= self.spec_index() < 64,
    {
        if self.0 < 'a' || self.0 > 'h' || self.1 < '1' || self.1 > '8' {
            return None;
        }
        Some(self.as_index())
    }
}

/// On the board, moving by a few squares adds to file and rank and nothing else.
pub proof fn lemma_add_on_board(p: Position, d: (i8, i8))
    requires
        p.on_board(),
        -8 <= d.0 <= 8,
        -8 <= d.1 <= 8,
    ensures
        p.spec_add(d).0 as int == p.0 as int + d.0,
        p.spec_add(d).1 as int == p.1 as int + d.1,
        p.spec_add(d).file() == p.file() + d.0,
        p.spec_add(d).rank() == p.rank() + d.1,
        p.spec_add(d) == Position::at(p.file() + d.0, p.rank() + d.1),
{
}

/// A square is the one at its own file and rank.
pub proof fn lemma_at_file_rank(p: Position)
    requires
        p.on_board(),
    ensures
        Position::at(p.file(), p.rank()) == p,
{
}

/// Squares and places correspond one to one: every square of the board has a
/// place from 0 to 63, and two squares with the same place are the same square.
pub proof fn law_squares_have_their_own_places(p: Position, q: Position)
    requires
        p.on_board(),
        q.on_board(),
    ensures
        0 <= p.spec_index() < 64,
        (p.spec_index() == q.spec_index()) == (p == q),
{
}

/// Every place from 0 to 63 is the place of a square of the board, the one
/// that `try_from` gives for it.
pub proof fn law_places_have_their_squares(index: int)
    requires
        0 <= index < 64,
    ensures
        Position::at(index % 8, index / 8).on_board(),
        Position::at(index % 8, index / 8).spec_index() == index,
{
}

impl From<(char, char)> for Position {
    fn from(val: (char, char)) -> (r: Self) {
        Position(val.0, val.1)
    }
}

impl FromSpecImpl<(char, char)> for Position {
    open spec fn obeys_from_spec() -> bool {
        true
    }

    open spec fn from_spec(val: (char, char)) -> Self {
        Position(val.0, val.1)
    }
}

impl<'a, 'b> From<(&'a char, &'b char)> for Position {
    fn from(val: (&'a char, &'b char)) -> (r: Self) {
        Position(*val.0, *val.1)
    }
}

impl<'a, 'b> FromSpecImpl<(&'a char, &'b char)> for Position {
    open spec fn obeys_from_spec() -> bool {
        true
    }

    open spec fn from_spec(val: (&'a char, &'b char)) -> Self {
        Position(*val.0, *val.1)
    }
}

impl TryFrom<usize> for Position {
    type Error = ();

    fn try_from(val: usize) -> (r: Result<Self, Self::Error>) {
        if val >= TOTAL_SQUARES {
            return Err(());
        }
        let x: u8 = (val % BOARD_SIZE) as u8 + 97u8;
        let y: u8 = (val / BOARD_SIZE) as u8 + 49u8;
        Ok(Position(x as char, y as char))
    }
}

impl TryFromSpecImpl<usize> for Position {
    open spec fn obeys_try_from_spec() -> bool {
        true
    }

    open spec fn try_from_spec(val: usize) -> Result<Self, Self::Error> {
        if val >= 64 {
            Err(())
        } else {
            Ok(Position::at(val as int % 8, val as int / 8))
        }
    }
}

} // verus!

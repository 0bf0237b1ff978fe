//! Where the squares of the board lie in a square window, the eighth rank
//! at the top.

use vstd::prelude::*;
use crate::moves::UserInput;
use crate::moves::UserOutput;
use crate::pieces::Board;
use crate::pieces::Piece;
use crate::pieces::Position;

verus! {

/// Width and height of the window in pixels.
pub const WINDOW_SIZE: i32 = 640;

/// Width and height of one square in pixels.
pub const RECT_SIZE: i32 = 80;

/// The place on the board of the square in column `i` and row `j` of the
/// window, both counted from 0 at the upper left.
pub fn to_game_index(i: usize, j: usize) -> (r: usize)
    requires
        i < 8,
        j < 8,
    ensures
        r == (7 - j) * 8 + i,
        r < 64,
{
    (8 - 1 - j) * 8 + i
}

/// The place on the board of the square under the pixel `(x, y)`, or `None`
/// for a pixel outside the window.
pub fn coord_to_game_index(x: i32, y: i32) -> (r: Option<usize>)
    ensures
        r == (if 0 <= x < 640 && 0 <= y < 640 {
            Some(((7 - y / 80) * 8 + x / 80) as usize)
        } else {
            None
        }),
        r.is_some() == (0 <= x < 640 && 0 <= y < 640),
        r matches Some(index) ==> index < 64,
{
    if x < 0 || y < 0 || x >= WINDOW_SIZE || y >= WINDOW_SIZE {
        return None;
    }
    let i = x / RECT_SIZE;
    let j = y / RECT_SIZE;
    Some(to_game_index(i as usize, j as usize))
}

/// The pixel at the upper left corner of the square at a place on the board.
pub fn game_index_to_coord(index: usize) -> (r: (i32, i32))
    requires
        index < 64,
    ensures
        r.0 == (index % 8) * 80,
        r.1 == (7 - index / 8) * 80,
{
    let i = index % 8;
    let j = 8 - 1 - index / 8;
    (i as i32 * RECT_SIZE, j as i32 * RECT_SIZE)
}

/// The corner of a square lies in the square: the pixel that
/// `game_index_to_coord` gives for a place leads back to that place.
pub proof fn law_corner_leads_back(index: int)
    requires
        0 <= index < 64,
    ensures
        ({
            let x = (index % 8) * 80;
            let y = (7 - index / 8) * 80;
            0 <= x < 640 && 0 <= y < 640 && (7 - y / 80) * 8 + x / 80 == index
        }),
{
}

/// A piece held by the mouse.
#[derive(Debug, Clone, Copy, PartialEq, Eq, Structural)]
pub struct SelectedPiece {
    pub piece: Piece,
    /// The place on the board from which the piece was picked up.
    pub game_index: usize,
    /// Where in its square the piece was grabbed.
    pub square_x: i32,
    pub square_y: i32,
    /// Where the mouse holds it now.
    pub x: i32,
    pub y: i32,
}

/// The place on the board under the pixel `(x, y)`, or `None` outside the window.
pub open spec fn index_under(x: int, y: int) -> Option<int> {
    if 0 <= x < 640 && 0 <= y < 640 {
        Some((7 - y / 80) * 8 + x / 80)
    } else {
        None
    }
}

/// The square at a place on the board.
pub open spec fn square_at(index: int) -> Position {
    Position::at(index % 8, index / 8)
}

/// What the mouse does to the piece it holds.
///
/// While the button is down, a held piece follows the mouse, and with none
/// held the piece under the mouse is picked up. When the button is up, a held
/// piece is dropped: over a square of the board that asks for the move from
/// the square where it was picked up to the square where it was dropped.
pub open spec fn after_mouse(
    board: Seq<Option<Piece>>,
    selected: Option<SelectedPiece>,
    down: bool,
    x: int,
    y: int,
) -> (Option<SelectedPiece>, Option<UserInput>) {
    if down {
        match selected {
            Some(held) => (
                Some(SelectedPiece { x: x as i32, y: y as i32, ..held }),
                None,
            ),
            None => match index_under(x, y) {
                Some(index) => match board[index] {
                    Some(piece) => (
                        Some(
                            SelectedPiece {
                                piece,
                                game_index: index as usize,
                                square_x: (x % 80) as i32,
                                square_y: (y % 80) as i32,
                                x: x as i32,
                                y: y as i32,
                            },
                        ),
                        None,
                    ),
                    None => (None, None),
                },
                None => (None, None),
            },
        }
    } else {
        match selected {
            Some(held) => match index_under(x, y) {
                Some(index) => if held.game_index < 64 {
                    (
                        None,
                        Some(
                            UserInput::Move(square_at(held.game_index as int), square_at(index)),
                        ),
                    )
                } else {
                    (None, None)
                },
                None => (None, None),
            },
            None => (None, None),
        }
    }
}

/// The square at a place on the board.
fn square_of(index: usize) -> (r: Position)
    requires
        index < 64,
    ensures
        r == square_at(index as int),
        r.on_board(),
        r.spec_index() == index,
{
    let file: u8 = (index % 8) as u8 + 97u8;
    let rank: u8 = (index / 8) as u8 + 49u8;
    Position(file as char, rank as char)
}

/// Follows the mouse: returns the piece it holds after the event, and the
/// move that dropping a piece asks for.
pub fn update_selection(
    board: &Board,
    selected: Option<SelectedPiece>,
    down: bool,
    x: i32,
    y: i32,
) -> (r: (Option<SelectedPiece>, Option<UserInput>))
    ensures
        r == after_mouse(board@, selected, down, x as int, y as int),
{
    if down {
        match selected {
            Some(held) => (
                Some(
                    SelectedPiece {
                        piece: held.piece,
                        game_index: held.game_index,
                        square_x: held.square_x,
                        square_y: held.square_y,
                        x,
                        y,
                    },
                ),
                None,
            ),
            None => match coord_to_game_index(x, y) {
                Some(game_index) => match board[game_index] {
                    Some(piece) => (
                        Some(
                            SelectedPiece {
                                piece,
                                game_index,
                                square_x: x % RECT_SIZE,
                                square_y: y % RECT_SIZE,
                                x,
                                y,
                            },
                        ),
                        None,
                    ),
                    None => (None, None),
                },
                None => (None, None),
            },
        }
    } else {
        match selected {
            Some(held) => match coord_to_game_index(x, y) {
                Some(index) => if held.game_index < 64 {
                    (None, Some(UserInput::Move(square_of(held.game_index), square_of(index))))
                } else {
                    (None, None)
                },
                None => (None, None),
            },
            None => (None, None),
        }
    }
}

/// What the window writes over the board for an output.
pub open spec fn spec_message(output: UserOutput) -> Seq<char> {
    match output {
        UserOutput::CheckMate => "Checkmate!"@,
        UserOutput::StaleMate => "Stalemate!"@,
        UserOutput::Draw => "Draw!"@,
        UserOutput::InvalidMove => "Invalid move!"@,
        UserOutput::Promotion(_) => "Press Q, R, B or K."@,
    }
}

/// Returns what the window writes over the board for an output.
pub fn message(output: &UserOutput) -> (r: &'static str)
    ensures
        r@ == spec_message(*output),
{
    match output {
        UserOutput::CheckMate => "Checkmate!",
        UserOutput::StaleMate => "Stalemate!",
        UserOutput::Draw => "Draw!",
        UserOutput::InvalidMove => "Invalid move!",
        UserOutput::Promotion(_) => "Press Q, R, B or K.",
    }
}

/// Whether an output ends the game.
pub fn ends_game(output: &Option<UserOutput>) -> (r: bool)
    ensures
        r == (*output == Some(UserOutput::CheckMate) || *output == Some(UserOutput::StaleMate)
            || *output == Some(UserOutput::Draw)),
{
    matches!(output, Some(UserOutput::CheckMate | UserOutput::StaleMate | UserOutput::Draw))
}

} // verus!

//! Reading what a player typed: a move such as `e2e4`, `e2-e4` or `e2 -> e4`,
//! or the words `resign` and `draw`.

use vstd::prelude::*;
use crate::moves::UserInput;
use crate::pieces::PieceType;
use crate::pieces::Position;

verus! {

/// The pattern of a typed move: a letter and a digit for the origin, a letter
/// and a digit for the destination, with optional blanks around each and an
/// optional `-`, `->` or `to` between the two squares.
pub const MOVE_PATTERN: &'static str =
    r"(?:\s*)?([a-zA-Z])(?:\s*)?(\d)(?:\s*)?(?:-|->|to)?(?:\s*)?([a-zA-Z])(?:\s*)?(\d)(?:\s*)?";

/// What is answered to a line that is neither a move nor `resign` nor `draw`.
pub const WRONG_FORMAT: &'static str = "Wrong input format, please input a move.";

/// What the regular expression `pattern` captures in `text`: `None` where the
/// pattern does not compile or matches nowhere, else the groups of its
/// leftmost match, the whole match first, each group with the text it
/// captured or `None` where it took no part in the match.
pub uninterp spec fn regex_captures(pattern: Seq<char>, text: Seq<char>) -> Option<
    Seq<Option<Seq<char>>>,
>;

/// The values of a list of captured groups.
pub open spec fn view_groups(groups: Option<Vec<Option<String>>>) -> Option<
    Seq<Option<Seq<char>>>,
> {
    match groups {
        None => None,
        Some(v) => Some(
            v@.map_values(
                |g: Option<String>|
                    match g {
                        None => None,
                        Some(s) => Some(s@),
                    },
            ),
        ),
    }
}

/// Searches `text` for the regular expression `pattern`.
///
/// Not verified: calls `Regex::new` and `Regex::captures` of the regex crate
/// and copies the groups out with `Captures::iter` and `Match::as_str`. What
/// the crate finds is given a name, `regex_captures`, and not described: the
/// contract claims only that the result depends on the pattern and the text
/// alone.
#[verifier::external_body]
fn captures(pattern: &str, text: &str) -> (r: Option<Vec<Option<String>>>)
    ensures
        view_groups(r) == regex_captures(pattern@, text@),
{
    let re = regex::Regex::new(pattern).ok()?;
    let caps = re.captures(text)?;
    Some(caps.iter().map(|m| m.map(|m| m.as_str().to_string())).collect())
}

/// Whether `needle` occurs in `text` at place `i`.
pub open spec fn occurs_at(text: Seq<char>, needle: Seq<char>, i: int) -> bool {
    0 <= i && i + needle.len() <= text.len() && text.subrange(i, i + needle.len()) == needle
}

/// Whether `needle` occurs somewhere in `text`.
pub open spec fn occurs_in(text: Seq<char>, needle: Seq<char>) -> bool {
    exists|i: int| occurs_at(text, needle, i)
}

/// A letter of the Latin alphabet in lower case; any other character as it is.
pub open spec fn spec_lower(c: char) -> char {
    if 'A' <= c <= 'Z' {
        ((c as u8) + 32) as char
    } else {
        c
    }
}

/// Returns a letter of the Latin alphabet in lower case, and any other
/// character as it is.
#[verifier::when_used_as_spec(spec_lower)]
pub fn lower(c: char) -> (r: char)
    ensures
        r == spec_lower(c),
{
    if 'A' <= c && c <= 'Z' {
        ((c as u8) + 32) as char
    } else {
        c
    }
}

/// A text with its Latin letters in lower case.
pub open spec fn lowered(text: Seq<char>) -> Seq<char> {
    Seq::new(text.len(), |i: int| spec_lower(text[i]))
}

/// Whether `word` occurs somewhere in `text`, capitals and small letters
/// counting as the same.
pub open spec fn mentions(text: Seq<char>, word: Seq<char>) -> bool {
    occurs_in(lowered(text), lowered(word))
}

/// Whether `word` occurs somewhere in `text`, capitals and small letters
/// counting as the same.
pub fn contains_text(text: &str, word: &str) -> (r: bool)
    ensures
        r == mentions(text@, word@),
{
    let n = text.unicode_len();
    let m = word.unicode_len();
    let ghost hay = lowered(text@);
    let ghost needle = lowered(word@);
    if m > n {
        assert forall|i: int| !occurs_at(hay, needle, i) by {}
        return false;
    }
    let mut i: usize = 0;
    while i <= n - m
        invariant
            m <= n,
            n == text@.len(),
            m == word@.len(),
            hay == lowered(text@),
            needle == lowered(word@),
            i <= n - m + 1,
            forall|j: int| 0 <= j < i ==> !occurs_at(hay, needle, j),
        decreases n - m + 1 - i,
    {
        let mut k: usize = 0;
        let mut same = true;
        while k < m && same
            invariant
                m <= n,
                n == text@.len(),
                m == word@.len(),
                hay == lowered(text@),
                needle == lowered(word@),
                i <= n - m,
                k <= m,
                same ==> forall|j: int| 0 <= j < k ==> hay[i + j] == needle[j],
                !same ==> exists|j: int| 0 <= j < m && hay[i + j] != needle[j],
            decreases m - k + (if same { 1int } else { 0int }),
        {
            if lower(text.get_char(i + k)) != lower(word.get_char(k)) {
                same = false;
                assert(hay[i + k] != needle[k as int]);
            } else {
                k += 1;
            }
        }
        if same {
            assert(hay.subrange(i as int, i + m) =~= needle);
            assert(occurs_at(hay, needle, i as int));
            return true;
        }
        assert(!occurs_at(hay, needle, i as int)) by {
            let j = choose|j: int| 0 <= j < m && hay[i + j] != needle[j];
            if occurs_at(hay, needle, i as int) {
                assert(hay.subrange(i as int, i + m)[j] == needle[j]);
            }
        }
        i += 1;
    }
    assert forall|j: int| !occurs_at(hay, needle, j) by {}
    false
}

/// Whether the captured groups hold the four one-character parts of a move.
pub open spec fn holds_a_move(groups: Seq<Option<Seq<char>>>) -> bool {
    &&& groups.len() >= 5
    &&& forall|i: int| 1 <= i <= 4 ==> (#[trigger] groups[i] matches Some(g) && g.len() > 0)
}

/// What a typed line means, given what the pattern of a move captured in it.
///
/// Where the pattern matched, the move from the square of the first two
/// groups to the square of the last two. Where it did not, resignation for a
/// line that mentions `resign`, an offer of a draw for one that mentions
/// `draw`, and otherwise the complaint about the format.
pub open spec fn meaning(captured: Option<Seq<Option<Seq<char>>>>, line: Seq<char>) -> Result<
    UserInput,
    Seq<char>,
> {
    match captured {
        Some(groups) => if holds_a_move(groups) {
            Ok(
                UserInput::Move(
                    Position(groups[1]->0[0], groups[2]->0[0]),
                    Position(groups[3]->0[0], groups[4]->0[0]),
                ),
            )
        } else {
            Err(WRONG_FORMAT@)
        },
        None => if mentions(line, "resign"@) {
            Ok(UserInput::Resign)
        } else if mentions(line, "draw"@) {
            Ok(UserInput::Draw)
        } else {
            Err(WRONG_FORMAT@)
        },
    }
}

/// The value of a reading: the input, or the text of the complaint.
pub open spec fn view_reading(r: Result<UserInput, String>) -> Result<UserInput, Seq<char>> {
    match r {
        Ok(input) => Ok(input),
        Err(text) => Err(text@),
    }
}

/// The first character of a captured group, where it has one.
fn first_char(group: &Option<String>) -> (r: Option<char>)
    ensures
        r == match *group {
            Some(s) => if s@.len() > 0 {
                Some(s@[0])
            } else {
                None
            },
            None => None,
        },
{
    match group {
        Some(s) => {
            let text = s.as_str();
            if text.unicode_len() > 0 {
                Some(text.get_char(0))
            } else {
                None
            }
        },
        None => None,
    }
}

/// Reads a typed line, given what the pattern of a move captured in it.
pub fn input_from_captures(captured: &Option<Vec<Option<String>>>, std_input: &str) -> (r: Result<
    UserInput,
    String,
>)
    ensures
        view_reading(r) == meaning(view_groups(*captured), std_input@),
{
    match captured {
        None => {
            if contains_text(std_input, "resign") {
                Ok(UserInput::Resign)
            } else if contains_text(std_input, "draw") {
                Ok(UserInput::Draw)
            } else {
                Err(String::from_str(WRONG_FORMAT))
            }
        },
        Some(groups) => {
            let ghost seen = view_groups(*captured)->0;
            if groups.len() < 5 {
                return Err(String::from_str(WRONG_FORMAT));
            }
            assert(forall|i: int| 0 <= i < 5 ==> seen[i] == match groups@[i] {
                None => None::<Seq<char>>,
                Some(s) => Some(s@),
            });
            match (
                first_char(&groups[1]),
                first_char(&groups[2]),
                first_char(&groups[3]),
                first_char(&groups[4]),
            ) {
                (Some(a), Some(b), Some(c), Some(d)) => {
                    assert(holds_a_move(seen));
                    Ok(UserInput::Move(Position(a, b), Position(c, d)))
                },
                _ => {
                    assert(!holds_a_move(seen)) by {
                        if holds_a_move(seen) {
                            assert(seen[1] is Some && seen[2] is Some && seen[3] is Some
                                && seen[4] is Some);
                        }
                    }
                    Err(String::from_str(WRONG_FORMAT))
                },
            }
        },
    }
}

/// Reads a typed line: a move, a resignation, an offer of a draw, or a
/// complaint about the format.
pub fn parse_input_move(std_input: &str) -> (r: Result<UserInput, String>)
    ensures
        view_reading(r) == meaning(regex_captures(MOVE_PATTERN@, std_input@), std_input@),
{
    let captured = captures(MOVE_PATTERN, std_input);
    input_from_captures(&captured, std_input)
}

/// The kind of piece that an answer to the question of promotion names: the
/// first of queen, rook, knight and bishop that the answer mentions.
pub open spec fn promotion_named(answer: Seq<char>) -> Option<PieceType> {
    if mentions(answer, "queen"@) {
        Some(PieceType::Queen)
    } else if mentions(answer, "rook"@) {
        Some(PieceType::Rook)
    } else if mentions(answer, "knight"@) {
        Some(PieceType::Knight)
    } else if mentions(answer, "bishop"@) {
        Some(PieceType::Bishop)
    } else {
        None
    }
}

/// Reads the answer to the question what a pawn shall become.
pub fn parse_promotion_choice(answer: &str) -> (r: Option<PieceType>)
    ensures
        r == promotion_named(answer@),
{
    if contains_text(answer, "queen") {
        Some(PieceType::Queen)
    } else if contains_text(answer, "rook") {
        Some(PieceType::Rook)
    } else if contains_text(answer, "knight") {
        Some(PieceType::Knight)
    } else if contains_text(answer, "bishop") {
        Some(PieceType::Bishop)
    } else {
        None
    }
}

/// Reads the answer to an offer of a draw: it is accepted by any answer that
/// holds the letter `y`.
pub fn accepts_draw(answer: &str) -> (r: bool)
    ensures
        r == answer@.contains('y'),
{
    let n = answer.unicode_len();
    let mut i: usize = 0;
    while i < n
        invariant
            i <= n,
            n == answer@.len(),
            forall|j: int| 0 <= j < i ==> answer@[j] != 'y',
        decreases n - i,
    {
        if answer.get_char(i) == 'y' {
            assert(answer@[i as int] == 'y');
            return true;
        }
        i += 1;
    }
    false
}

} // verus!

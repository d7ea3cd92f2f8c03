//! The text form of a pattern.
//!
//! A pattern is plain text. Lines are separated by a newline character; the
//! line number, from zero at the top, is the row, and the number of
//! characters before a character on its line is its column. A `#` marks a
//! live cell; every other character, a carriage return included, marks a
//! dead one.
use crate::conway::cells::CellSet;
use crate::Pos;
use vstd::prelude::*;

verus! {

/// The character that marks a live cell.
pub const LIVE_MARK: char = '#';

/// The row of the character at index `i`: the number of newlines before it.
pub open spec fn row_of(text: Seq<char>, i: int) -> int
    decreases i,
{
    if i <= 0 {
        0
    } else {
        row_of(text, i - 1) + if text[i - 1] == '\n' {
            1int
        } else {
            0int
        }
    }
}

/// The column of the character at index `i`: the number of characters
/// between it and the start of its line.
pub open spec fn col_of(text: Seq<char>, i: int) -> int
    decreases i,
{
    if i <= 0 {
        0
    } else if text[i - 1] == '\n' {
        0
    } else {
        col_of(text, i - 1) + 1
    }
}

/// The cells marked live among the first `n` characters of `text`.
pub open spec fn marks_within(text: Seq<char>, n: int) -> Set<Pos> {
    Set::new(
        |p: Pos|
            exists|i: int|
                0 <= i < n && #[trigger] text[i] == LIVE_MARK && col_of(text, i) == p.0 && row_of(
                    text,
                    i,
                ) == p.1,
    )
}

/// The cells that `text` marks live.
pub open spec fn marks(text: Seq<char>) -> Set<Pos> {
    marks_within(text, text.len() as int)
}

/// Rows and columns never exceed the index.
pub proof fn lemma_position_bounds(text: Seq<char>, i: int)
    requires
        0 <= i,
    ensures
        0 <= row_of(text, i) <= i,
        0 <= col_of(text, i) <= i,
    decreases i,
{
    if i > 0 {
        lemma_position_bounds(text, i - 1);
    }
}

/// Reads a pattern. A text of more than `i32::MAX` characters cannot be
/// addressed by coordinates and gives `None`.
pub fn parse_pattern(text: &str) -> (parsed: Option<CellSet>)
    ensures
        parsed is None <==> text@.len() > i32::MAX,
        parsed matches Some(cells) ==> cells@ == marks(text@),
{
    let mut cells = CellSet::new();
    let mut row: i32 = 0;
    let mut col: i32 = 0;
    let mut seen: i32 = 0;
    for c in it: text.chars()
        invariant
            it.seq() == text@,
            seen == it.index(),
            row == row_of(text@, seen as int),
            col == col_of(text@, seen as int),
            cells@ == marks_within(text@, seen as int),
    {
        if seen == i32::MAX {
            return None;
        }
        proof {
            lemma_position_bounds(text@, seen as int);
        }
        if c == LIVE_MARK {
            cells.insert(Pos(col, row));
        }
        if c == '\n' {
            row += 1;
            col = 0;
        } else {
            col += 1;
        }
        proof {
            assert(text@[seen as int] == c);
            assert(cells@ =~= marks_within(text@, seen + 1));
        }
        seen += 1;
    }
    Some(cells)
}

} // verus!

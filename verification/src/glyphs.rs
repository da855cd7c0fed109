//! The big-digit font: a seven-row glyph for each of the characters that a
//! clock reading is written with.
//!
//! A digit is four columns wide and the colon two. Every glyph is drawn with
//! full blocks on blanks.

use vstd::prelude::*;

verus! {

/// Number of rows of every glyph.
pub const GLYPH_ROWS: usize = 7;

/// The seven rows of the glyph of `c`, top row first. A character that the
/// font does not know is drawn as a blank digit.
pub open spec fn glyph_rows(c: char) -> Seq<Seq<char>> {
    match c {
        '0' => seq!["████"@, "█  █"@, "█  █"@, "█  █"@, "█  █"@, "█  █"@, "████"@],
        '1' => seq!["  █ "@, " ██ "@, "  █ "@, "  █ "@, "  █ "@, "  █ "@, "████"@],
        '2' => seq!["████"@, "   █"@, "   █"@, "████"@, "█   "@, "█   "@, "████"@],
        '3' => seq!["████"@, "   █"@, "   █"@, "████"@, "   █"@, "   █"@, "████"@],
        '4' => seq!["█  █"@, "█  █"@, "█  █"@, "████"@, "   █"@, "   █"@, "   █"@],
        '5' => seq!["████"@, "█   "@, "█   "@, "████"@, "   █"@, "   █"@, "████"@],
        '6' => seq!["████"@, "█   "@, "█   "@, "████"@, "█  █"@, "█  █"@, "████"@],
        '7' => seq!["████"@, "   █"@, "   █"@, "  █ "@, "  █ "@, " █  "@, " █  "@],
        '8' => seq!["████"@, "█  █"@, "█  █"@, "████"@, "█  █"@, "█  █"@, "████"@],
        '9' => seq!["████"@, "█  █"@, "█  █"@, "████"@, "   █"@, "   █"@, "████"@],
        ':' => seq!["  "@, "  "@, "██"@, "  "@, "██"@, "  "@, "  "@],
        _ => seq!["    "@, "    "@, "    "@, "    "@, "    "@, "    "@, "    "@],
    }
}

/// Width of the glyph of `c`, in columns.
pub open spec fn glyph_width(c: char) -> nat {
    if c == ':' {
        2
    } else {
        4
    }
}

/// Row `row` of the glyph of `c`. Below the seventh row a glyph goes on as
/// blank padding of its own width.
pub open spec fn glyph(c: char, row: int) -> Seq<char> {
    if 0 <= row < GLYPH_ROWS {
        glyph_rows(c)[row]
    } else if c == ':' {
        "  "@
    } else {
        "    "@
    }
}

/// Whether the font knows `c`: the ten digits and the colon.
pub open spec fn has_glyph(c: char) -> bool {
    ('0' <= c && c <= '9') || c == ':'
}

/// Whether `c` is one of the two characters that glyphs are drawn with.
pub open spec fn is_ink(c: char) -> bool {
    c == '█' || c == ' '
}

/// Looks up row `row` of the glyph of `digit`.
pub fn get_large_digit(digit: char, row: usize) -> (cells: &'static str)
    ensures
        cells@ == glyph(digit, row as int),
{
    match digit {
        '0' => match row {
            0 => "████",
            1 => "█  █",
            2 => "█  █",
            3 => "█  █",
            4 => "█  █",
            5 => "█  █",
            6 => "████",
            _ => "    ",
        },
        '1' => match row {
            0 => "  █ ",
            1 => " ██ ",
            2 => "  █ ",
            3 => "  █ ",
            4 => "  █ ",
            5 => "  █ ",
            6 => "████",
            _ => "    ",
        },
        '2' => match row {
            0 => "████",
            1 => "   █",
            2 => "   █",
            3 => "████",
            4 => "█   ",
            5 => "█   ",
            6 => "████",
            _ => "    ",
        },
        '3' => match row {
            0 => "████",
            1 => "   █",
            2 => "   █",
            3 => "████",
            4 => "   █",
            5 => "   █",
            6 => "████",
            _ => "    ",
        },
        '4' => match row {
            0 => "█  █",
            1 => "█  █",
            2 => "█  █",
            3 => "████",
            4 => "   █",
            5 => "   █",
            6 => "   █",
            _ => "    ",
        },
        '5' => match row {
            0 => "████",
            1 => "█   ",
            2 => "█   ",
            3 => "████",
            4 => "   █",
            5 => "   █",
            6 => "████",
            _ => "    ",
        },
        '6' => match row {
            0 => "████",
            1 => "█   ",
            2 => "█   ",
            3 => "████",
            4 => "█  █",
            5 => "█  █",
            6 => "████",
            _ => "    ",
        },
        '7' => match row {
            0 => "████",
            1 => "   █",
            2 => "   █",
            3 => "  █ ",
            4 => "  █ ",
            5 => " █  ",
            6 => " █  ",
            _ => "    ",
        },
        '8' => match row {
            0 => "████",
            1 => "█  █",
            2 => "█  █",
            3 => "████",
            4 => "█  █",
            5 => "█  █",
            6 => "████",
            _ => "    ",
        },
        '9' => match row {
            0 => "████",
            1 => "█  █",
            2 => "█  █",
            3 => "████",
            4 => "   █",
            5 => "   █",
            6 => "████",
            _ => "    ",
        },
        ':' => match row {
            0 => "  ",
            1 => "  ",
            2 => "██",
            3 => "  ",
            4 => "██",
            5 => "  ",
            6 => "  ",
            _ => "  ",
        },
        _ => "    ",
    }
}

/// Every row of a glyph is as wide as the glyph, and holds blocks and blanks
/// only.
pub proof fn lemma_glyph_shape(c: char, row: int)
    ensures
        glyph(c, row).len() == glyph_width(c),
        forall|i: int| 0 <= i < glyph(c, row).len() ==> is_ink(#[trigger] glyph(c, row)[i]),
{
    reveal_strlit("  ");
    reveal_strlit("    ");
    reveal_strlit("   █");
    reveal_strlit("  █ ");
    reveal_strlit(" █  ");
    reveal_strlit(" ██ ");
    reveal_strlit("█   ");
    reveal_strlit("█  █");
    reveal_strlit("██");
    reveal_strlit("████");
}

/// The font draws no two characters alike: two characters that it knows and
/// whose glyphs agree in every row are the same character.
pub proof fn lemma_glyphs_differ(a: char, b: char)
    requires
        has_glyph(a),
        has_glyph(b),
        forall|row: int| 0 <= row < GLYPH_ROWS ==> #[trigger] glyph(a, row) == glyph(b, row),
    ensures
        a == b,
{
    reveal_strlit("  ");
    reveal_strlit("   █");
    reveal_strlit("  █ ");
    reveal_strlit("█   ");
    reveal_strlit("█  █");
    reveal_strlit("████");
    // The width tells the colon from the digits, and three cells are enough
    // to set the solver on the way to telling the digits apart.
    assert(glyph(a, 0).len() == glyph(b, 0).len());
    assert(glyph(a, 1)[3] == glyph(b, 1)[3]);
    assert(glyph(a, 3)[1] == glyph(b, 3)[1]);
    assert(glyph(a, 4)[0] == glyph(b, 4)[0]);
}

/// The right half of the top row of a digit holds a block, and the top row
/// of the colon is blank: the end of a row tells a digit from a colon.
pub proof fn lemma_digit_top_row(digit: char)
    requires
        '0' <= digit <= '9',
    ensures
        glyph(digit, 0)[2] == '█' || glyph(digit, 0)[3] == '█',
        glyph(':', 0)[0] == ' ',
        glyph(':', 0)[1] == ' ',
{
    reveal_strlit("  ");
    reveal_strlit("  █ ");
    reveal_strlit("█  █");
    reveal_strlit("████");
}

} // verus!

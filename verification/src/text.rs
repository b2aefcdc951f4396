//! The 5x7 bitmap font used for every on-screen text, and the text-grid
//! layout helpers for text cells and centred lines.

use vstd::prelude::*;
use vstd::string::*;

use crate::canvas::{shade, Canvas};

verus! {

/// The ASCII upper-case form of `c`: `'a'..='z'` map to `'A'..='Z'`, every
/// other character is unchanged.
pub open spec fn ascii_upper(c: char) -> char {
    if 'a' <= c && c <= 'z' {
        ((c as u32) - 32) as char
    } else {
        c
    }
}

/// The seven 5-bit rows of the glyph for an upper-case character, or `None`
/// for a character the font does not cover.
pub open spec fn glyph_of(c: char) -> Option<[u8; 7]> {
    match c {
        ' ' => Some([0, 0, 0, 0, 0, 0, 0]),
        '0' => Some([0b01110, 0b10001, 0b10011, 0b10101, 0b11001, 0b10001, 0b01110]),
        '1' => Some([0b00100, 0b01100, 0b00100, 0b00100, 0b00100, 0b00100, 0b01110]),
        '2' => Some([0b01110, 0b10001, 0b00001, 0b00010, 0b00100, 0b01000, 0b11111]),
        '3' => Some([0b11110, 0b00001, 0b00001, 0b01110, 0b00001, 0b00001, 0b11110]),
        '4' => Some([0b00010, 0b00110, 0b01010, 0b10010, 0b11111, 0b00010, 0b00010]),
        '5' => Some([0b11111, 0b10000, 0b10000, 0b11110, 0b00001, 0b00001, 0b11110]),
        '6' => Some([0b00110, 0b01000, 0b10000, 0b11110, 0b10001, 0b10001, 0b01110]),
        '7' => Some([0b11111, 0b00001, 0b00010, 0b00100, 0b01000, 0b01000, 0b01000]),
        '8' => Some([0b01110, 0b10001, 0b10001, 0b01110, 0b10001, 0b10001, 0b01110]),
        '9' => Some([0b01110, 0b10001, 0b10001, 0b01111, 0b00001, 0b00010, 0b11100]),
        'A' => Some([0b01110, 0b10001, 0b10001, 0b11111, 0b10001, 0b10001, 0b10001]),
        'B' => Some([0b11110, 0b10001, 0b10001, 0b11110, 0b10001, 0b10001, 0b11110]),
        'C' => Some([0b01110, 0b10001, 0b10000, 0b10000, 0b10000, 0b10001, 0b01110]),
        'D' => Some([0b11110, 0b10001, 0b10001, 0b10001, 0b10001, 0b10001, 0b11110]),
        'E' => Some([0b11111, 0b10000, 0b10000, 0b11110, 0b10000, 0b10000, 0b11111]),
        'F' => Some([0b11111, 0b10000, 0b10000, 0b11110, 0b10000, 0b10000, 0b10000]),
        'G' => Some([0b01110, 0b10001, 0b10000, 0b10111, 0b10001, 0b10001, 0b01110]),
        'H' => Some([0b10001, 0b10001, 0b10001, 0b11111, 0b10001, 0b10001, 0b10001]),
        'I' => Some([0b01110, 0b00100, 0b00100, 0b00100, 0b00100, 0b00100, 0b01110]),
        'J' => Some([0b00111, 0b00010, 0b00010, 0b00010, 0b00010, 0b10010, 0b01100]),
        'K' => Some([0b10001, 0b10010, 0b10100, 0b11000, 0b10100, 0b10010, 0b10001]),
        'L' => Some([0b10000, 0b10000, 0b10000, 0b10000, 0b10000, 0b10000, 0b11111]),
        'M' => Some([0b10001, 0b11011, 0b10101, 0b10001, 0b10001, 0b10001, 0b10001]),
        'N' => Some([0b10001, 0b11001, 0b10101, 0b10011, 0b10001, 0b10001, 0b10001]),
        'O' => Some([0b01110, 0b10001, 0b10001, 0b10001, 0b10001, 0b10001, 0b01110]),
        'P' => Some([0b11110, 0b10001, 0b10001, 0b11110, 0b10000, 0b10000, 0b10000]),
        'Q' => Some([0b01110, 0b10001, 0b10001, 0b10001, 0b10101, 0b10010, 0b01101]),
        'R' => Some([0b11110, 0b10001, 0b10001, 0b11110, 0b10100, 0b10010, 0b10001]),
        'S' => Some([0b01111, 0b10000, 0b10000, 0b01110, 0b00001, 0b00001, 0b11110]),
        'T' => Some([0b11111, 0b00100, 0b00100, 0b00100, 0b00100, 0b00100, 0b00100]),
        'U' => Some([0b10001, 0b10001, 0b10001, 0b10001, 0b10001, 0b10001, 0b01110]),
        'V' => Some([0b10001, 0b10001, 0b10001, 0b10001, 0b10001, 0b01010, 0b00100]),
        'W' => Some([0b10001, 0b10001, 0b10001, 0b10101, 0b10101, 0b11011, 0b10001]),
        'X' => Some([0b10001, 0b10001, 0b01010, 0b00100, 0b01010, 0b10001, 0b10001]),
        'Y' => Some([0b10001, 0b10001, 0b01010, 0b00100, 0b00100, 0b00100, 0b00100]),
        'Z' => Some([0b11111, 0b00001, 0b00010, 0b00100, 0b01000, 0b10000, 0b11111]),
        '\'' => Some([0b00100, 0b00100, 0, 0, 0, 0, 0]),
        '(' => Some([0b00010, 0b00100, 0b01000, 0b01000, 0b01000, 0b00100, 0b00010]),
        ')' => Some([0b01000, 0b00100, 0b00010, 0b00010, 0b00010, 0b00100, 0b01000]),
        '/' => Some([0b00001, 0b00010, 0b00010, 0b00100, 0b01000, 0b01000, 0b10000]),
        '=' => Some([0, 0, 0b11111, 0, 0b11111, 0, 0]),
        ':' => Some([0, 0b00100, 0b00100, 0, 0b00100, 0b00100, 0]),
        '.' => Some([0, 0, 0, 0, 0, 0b00100, 0b00100]),
        '-' => Some([0, 0, 0, 0b11111, 0, 0, 0]),
        '_' => Some([0, 0, 0, 0, 0, 0, 0b11111]),
        '<' => Some([0b00010, 0b00100, 0b01000, 0b10000, 0b01000, 0b00100, 0b00010]),
        '>' => Some([0b01000, 0b00100, 0b00010, 0b00001, 0b00010, 0b00100, 0b01000]),
        _ => None,
    }
}

/// No two characters of the font share a glyph: every covered character is
/// drawn with a bitmap of its own, so each digit, letter and sign can be told
/// apart on screen.
pub proof fn lemma_glyphs_distinct(c1: char, c2: char)
    requires
        glyph_of(c1) is Some,
        glyph_of(c1) == glyph_of(c2),
    ensures
        c1 == c2,
{
}

/// The font covers every digit and upper-case letter, and the signs that
/// the game's texts use; every glyph is at most five pixels wide, and every
/// covered character but the space lights at least one pixel.
pub proof fn lemma_glyph_coverage(c: char)
    ensures
        ('0' <= c && c <= '9') || ('A' <= c && c <= 'Z') || c == ' ' || c == '\'' || c == '('
            || c == ')' || c == '/' || c == '=' || c == ':' || c == '.' || c == '-' || c == '_'
            || c == '<' || c == '>' ==> glyph_of(c) is Some,
        glyph_of(c) is Some ==> forall|r: int| 0 <= r < 7 ==> #[trigger] glyph_of(c)->0[r] < 32,
        glyph_of(c) is Some && c != ' ' ==> exists|r: int| 0 <= r < 7 && #[trigger] glyph_of(c)->0[r] != 0,
{
    if glyph_of(c) is Some && c != ' ' {
        assert(glyph_of(c)->0[0] != 0 || glyph_of(c)->0[1] != 0 || glyph_of(c)->0[2] != 0
            || glyph_of(c)->0[3] != 0 || glyph_of(c)->0[5] != 0 || glyph_of(c)->0[6] != 0);
    }
}

/// Bitmap rows of the glyph for `ch`; letters are drawn in upper case.
pub fn glyph_rows(ch: char) -> (rows: Option<[u8; 7]>)
    ensures
        rows == glyph_of(ascii_upper(ch)),
{
    match ch {
        ' ' => Some([0, 0, 0, 0, 0, 0, 0]),
        '0' => Some([0b01110, 0b10001, 0b10011, 0b10101, 0b11001, 0b10001, 0b01110]),
        '1' => Some([0b00100, 0b01100, 0b00100, 0b00100, 0b00100, 0b00100, 0b01110]),
        '2' => Some([0b01110, 0b10001, 0b00001, 0b00010, 0b00100, 0b01000, 0b11111]),
        '3' => Some([0b11110, 0b00001, 0b00001, 0b01110, 0b00001, 0b00001, 0b11110]),
        '4' => Some([0b00010, 0b00110, 0b01010, 0b10010, 0b11111, 0b00010, 0b00010]),
        '5' => Some([0b11111, 0b10000, 0b10000, 0b11110, 0b00001, 0b00001, 0b11110]),
        '6' => Some([0b00110, 0b01000, 0b10000, 0b11110, 0b10001, 0b10001, 0b01110]),
        '7' => Some([0b11111, 0b00001, 0b00010, 0b00100, 0b01000, 0b01000, 0b01000]),
        '8' => Some([0b01110, 0b10001, 0b10001, 0b01110, 0b10001, 0b10001, 0b01110]),
        '9' => Some([0b01110, 0b10001, 0b10001, 0b01111, 0b00001, 0b00010, 0b11100]),
        'A' | 'a' => Some([0b01110, 0b10001, 0b10001, 0b11111, 0b10001, 0b10001, 0b10001]),
        'B' | 'b' => Some([0b11110, 0b10001, 0b10001, 0b11110, 0b10001, 0b10001, 0b11110]),
        'C' | 'c' => Some([0b01110, 0b10001, 0b10000, 0b10000, 0b10000, 0b10001, 0b01110]),
        'D' | 'd' => Some([0b11110, 0b10001, 0b10001, 0b10001, 0b10001, 0b10001, 0b11110]),
        'E' | 'e' => Some([0b11111, 0b10000, 0b10000, 0b11110, 0b10000, 0b10000, 0b11111]),
        'F' | 'f' => Some([0b11111, 0b10000, 0b10000, 0b11110, 0b10000, 0b10000, 0b10000]),
        'G' | 'g' => Some([0b01110, 0b10001, 0b10000, 0b10111, 0b10001, 0b10001, 0b01110]),
        'H' | 'h' => Some([0b10001, 0b10001, 0b10001, 0b11111, 0b10001, 0b10001, 0b10001]),
        'I' | 'i' => Some([0b01110, 0b00100, 0b00100, 0b00100, 0b00100, 0b00100, 0b01110]),
        'J' | 'j' => Some([0b00111, 0b00010, 0b00010, 0b00010, 0b00010, 0b10010, 0b01100]),
        'K' | 'k' => Some([0b10001, 0b10010, 0b10100, 0b11000, 0b10100, 0b10010, 0b10001]),
        'L' | 'l' => Some([0b10000, 0b10000, 0b10000, 0b10000, 0b10000, 0b10000, 0b11111]),
        'M' | 'm' => Some([0b10001, 0b11011, 0b10101, 0b10001, 0b10001, 0b10001, 0b10001]),
        'N' | 'n' => Some([0b10001, 0b11001, 0b10101, 0b10011, 0b10001, 0b10001, 0b10001]),
        'O' | 'o' => Some([0b01110, 0b10001, 0b10001, 0b10001, 0b10001, 0b10001, 0b01110]),
        'P' | 'p' => Some([0b11110, 0b10001, 0b10001, 0b11110, 0b10000, 0b10000, 0b10000]),
        'Q' | 'q' => Some([0b01110, 0b10001, 0b10001, 0b10001, 0b10101, 0b10010, 0b01101]),
        'R' | 'r' => Some([0b11110, 0b10001, 0b10001, 0b11110, 0b10100, 0b10010, 0b10001]),
        'S' | 's' => Some([0b01111, 0b10000, 0b10000, 0b01110, 0b00001, 0b00001, 0b11110]),
        'T' | 't' => Some([0b11111, 0b00100, 0b00100, 0b00100, 0b00100, 0b00100, 0b00100]),
        'U' | 'u' => Some([0b10001, 0b10001, 0b10001, 0b10001, 0b10001, 0b10001, 0b01110]),
        'V' | 'v' => Some([0b10001, 0b10001, 0b10001, 0b10001, 0b10001, 0b01010, 0b00100]),
        'W' | 'w' => Some([0b10001, 0b10001, 0b10001, 0b10101, 0b10101, 0b11011, 0b10001]),
        'X' | 'x' => Some([0b10001, 0b10001, 0b01010, 0b00100, 0b01010, 0b10001, 0b10001]),
        'Y' | 'y' => Some([0b10001, 0b10001, 0b01010, 0b00100, 0b00100, 0b00100, 0b00100]),
        'Z' | 'z' => Some([0b11111, 0b00001, 0b00010, 0b00100, 0b01000, 0b10000, 0b11111]),
        '\'' => Some([0b00100, 0b00100, 0, 0, 0, 0, 0]),
        '(' => Some([0b00010, 0b00100, 0b01000, 0b01000, 0b01000, 0b00100, 0b00010]),
        ')' => Some([0b01000, 0b00100, 0b00010, 0b00010, 0b00010, 0b00100, 0b01000]),
        '/' => Some([0b00001, 0b00010, 0b00010, 0b00100, 0b01000, 0b01000, 0b10000]),
        '=' => Some([0, 0, 0b11111, 0, 0b11111, 0, 0]),
        ':' => Some([0, 0b00100, 0b00100, 0, 0b00100, 0b00100, 0]),
        '.' => Some([0, 0, 0, 0, 0, 0b00100, 0b00100]),
        '-' => Some([0, 0, 0, 0b11111, 0, 0, 0]),
        '_' => Some([0, 0, 0, 0, 0, 0, 0b11111]),
        '<' => Some([0b00010, 0b00100, 0b01000, 0b10000, 0b01000, 0b00100, 0b00010]),
        '>' => Some([0b01000, 0b00100, 0b00010, 0b00001, 0b00010, 0b00100, 0b01000]),
        _ => None,
    }
}

/// The column at which a text of `len` characters starts when centred on an
/// 80-column line (never left of column 1).
pub open spec fn spec_centered_col(len: int) -> int {
    if 40 - len / 2 >= 1 {
        40 - len / 2
    } else {
        1
    }
}

/// Start column that centres a text of `len` characters on an 80-column line.
pub fn centered_col_for_len(len: usize) -> (col: usize)
    requires
        len <= i32::MAX,
    ensures
        col == spec_centered_col(len as int),
        1 <= col <= 40,
{
    if len / 2 <= 39 {
        40 - len / 2
    } else {
        1
    }
}

/// Start column that centres `text` on an 80-column line.
pub fn centered_col(text: &str) -> (col: usize)
    requires
        text@.len() <= i32::MAX,
    ensures
        col == spec_centered_col(text@.len() as int),
        1 <= col <= 40,
{
    centered_col_for_len(text.unicode_len())
}

/// Width of a text cell in pixels.
pub const TEXT_CELL_WIDTH: i32 = 8;
/// Height of a text cell in pixels.
pub const TEXT_CELL_HEIGHT: i32 = 14;

/// Bit `4 - dx` of glyph row `rows[dy / 2]` is set: glyphs are five pixels
/// wide and each glyph row is drawn two pixels high.
pub open spec fn glyph_lit(rows: [u8; 7], dx: int, dy: int) -> bool {
    &&& 0 <= dx < 5
    &&& 0 <= dy < 14
    &&& (rows[dy / 2] >> ((4 - dx) as u8)) & 1 == 1
}

/// The pixel at offset `(dx, dy)` from a glyph's top-left corner is lit for `ch`.
pub open spec fn glyph_pixel(ch: char, dx: int, dy: int) -> bool {
    match glyph_of(ascii_upper(ch)) {
        Some(rows) => glyph_lit(rows, dx, dy),
        None => false,
    }
}

/// The pixel `(px, py)` is lit by the text `text` drawn with its first cell's
/// top-left corner at `(bx, by)`: cells are eight pixels apart.
pub open spec fn text_pixel(text: Seq<char>, bx: int, by: int, px: int, py: int) -> bool {
    exists|i: int|
        0 <= i < text.len() && #[trigger] glyph_pixel(text[i], px - (bx + 8 * i), py - by)
}

/// Pixel origin of the text cell at 1-based `row`, `col` (clamped to the raster).
pub open spec fn cell_origin(row: int, col: int) -> (int, int) {
    (
        if col >= 1 { (col - 1) * 8 } else { 0 },
        if row >= 1 { (row - 1) * 14 } else { 0 },
    )
}

/// Draws the glyph for `ch` with its top-left corner at `(x, y)`; characters
/// that the font does not cover draw nothing.
pub fn draw_char(canvas: &mut Canvas, x: i32, y: i32, ch: char, attr: u8)
    requires
        old(canvas).wf(),
        x <= i32::MAX - 4,
        y <= i32::MAX - 13,
    ensures
        final(canvas).painted_over(
            *old(canvas),
            |px: int, py: int| glyph_pixel(ch, px - x, py - y),
            attr,
        ),
{
    let rows = match glyph_rows(ch) {
        Some(rows) => rows,
        None => {
            return;
        },
    };
    let ghost start = *canvas;
    let mut row_index: usize = 0;
    while row_index < 7
        invariant
            0 <= row_index <= 7,
            x <= i32::MAX - 4,
            y <= i32::MAX - 13,
            glyph_of(ascii_upper(ch)) == Some(rows),
            canvas.painted_over(
                start,
                |px: int, py: int| glyph_lit(rows, px - x, py - y) && py - y < 2 * row_index,
                attr,
            ),
        decreases 7 - row_index,
    {
        let bits = rows[row_index];
        let mut col_index: i32 = 0;
        while col_index < 5
            invariant
                0 <= row_index < 7,
                0 <= col_index <= 5,
                x <= i32::MAX - 4,
                y <= i32::MAX - 13,
                bits == rows[row_index as int],
                canvas.painted_over(
                    start,
                    |px: int, py: int|
                        glyph_upto(rows, px - x, py - y, row_index as int, col_index as int),
                    attr,
                ),
            decreases 5 - col_index,
        {
            let ghost before = *canvas;
            let lit = (bits >> ((4 - col_index) as u8)) & 1 == 1;
            if lit {
                let px = x + col_index;
                let py = y + row_index as i32 * 2;
                canvas.pixel(px, py, attr);
                canvas.pixel(px, py + 1, attr);
            }
            proof {
                assert forall|px: int, py: int| #![trigger canvas.at(px, py)] canvas.in_bounds(px, py) implies canvas.at(px, py)
                    == shade(glyph_upto(rows, px - x, py - y, row_index as int, col_index + 1), attr, start.at(px, py)) by {
                    let dx = px - x;
                    let dy = py - y;
                    if dx == col_index && (dy == 2 * row_index || dy == 2 * row_index + 1) {
                        assert(dy / 2 == row_index);
                    }
                    assert(before.at(px, py) == shade(glyph_upto(rows, px - x, py - y, row_index as int, col_index as int), attr, start.at(px, py)));
                }
            }
            col_index = col_index + 1;
        }
        proof {
            assert forall|px: int, py: int| #![trigger canvas.at(px, py)] canvas.in_bounds(px, py) implies canvas.at(px, py)
                == shade(glyph_lit(rows, px - x, py - y) && py - y < 2 * (row_index + 1), attr, start.at(px, py)) by {
                assert(canvas.at(px, py) == shade(glyph_upto(rows, px - x, py - y, row_index as int, 5), attr, start.at(px, py)));
            }
        }
        row_index = row_index + 1;
    }
}

/// Glyph pixels of rows before `r`, and of row `r` left of column `c`.
pub open spec fn glyph_upto(rows: [u8; 7], dx: int, dy: int, r: int, c: int) -> bool {
    glyph_lit(rows, dx, dy) && (dy < 2 * r || (dy < 2 * r + 2 && dx < c))
}

proof fn lemma_text_step(s: Seq<char>, bx: int, by: int, index: int, px: int, py: int)
    requires
        0 <= index < s.len(),
    ensures
        text_pixel(s.subrange(0, index + 1), bx, by, px, py) == (text_pixel(
            s.subrange(0, index),
            bx,
            by,
            px,
            py,
        ) || glyph_pixel(s[index], px - (bx + 8 * index), py - by)),
{
    let t1 = s.subrange(0, index + 1);
    let t0 = s.subrange(0, index);
    if glyph_pixel(s[index], px - (bx + 8 * index), py - by) {
        assert(glyph_pixel(t1[index], px - (bx + 8 * index), py - by));
    }
    if text_pixel(t1, bx, by, px, py) && !glyph_pixel(s[index], px - (bx + 8 * index), py - by) {
        let j = choose|j: int| 0 <= j < t1.len() && #[trigger] glyph_pixel(t1[j], px - (bx + 8 * j), py - by);
        assert(t0[j] == t1[j]);
    }
    if text_pixel(t0, bx, by, px, py) {
        let j = choose|j: int| 0 <= j < t0.len() && #[trigger] glyph_pixel(t0[j], px - (bx + 8 * j), py - by);
        assert(t0[j] == t1[j]);
    }
}

/// The characters of `text`, in order.
pub fn str_chars(text: &str) -> (chars: Vec<char>)
    ensures
        chars@ == text@,
{
    let len = text.unicode_len();
    let mut chars: Vec<char> = Vec::new();
    let mut index: usize = 0;
    while index < len
        invariant
            len == text@.len(),
            index <= len,
            chars@ == text@.subrange(0, index as int),
        decreases len - index,
    {
        chars.push(text.get_char(index));
        index = index + 1;
    }
    proof {
        assert(text@.subrange(0, len as int) =~= text@);
    }
    chars
}

/// The text `text` drawn at the 1-based text cell (`row`, `col`) lights the
/// pixel `(px, py)`.
pub open spec fn text_at(text: Seq<char>, row: int, col: int, px: int, py: int) -> bool {
    text_pixel(text, cell_origin(row, col).0, cell_origin(row, col).1, px, py)
}

/// A text of `len` characters placed at (`row`, `col`) stays within the
/// pixel coordinates that the drawing code computes with.
pub open spec fn text_fits(row: int, col: int, len: int) -> bool {
    8 * (col + len) <= i32::MAX && 14 * row <= i32::MAX
}

/// Draws the characters `text` starting at the 1-based text cell (`row`,
/// `col`), one glyph per eight-pixel cell.
pub fn draw_chars(canvas: &mut Canvas, row: usize, col: usize, text: &[char], attr: u8)
    requires
        old(canvas).wf(),
        text_fits(row as int, col as int, text@.len() as int),
    ensures
        final(canvas).painted_over(
            *old(canvas),
            |px: int, py: int| text_at(text@, row as int, col as int, px, py),
            attr,
        ),
{
    let base_x: i32 = if col >= 1 { (col as i32 - 1) * TEXT_CELL_WIDTH } else { 0 };
    let base_y: i32 = if row >= 1 { (row as i32 - 1) * TEXT_CELL_HEIGHT } else { 0 };
    let len = text.len();
    let ghost start = *canvas;
    let ghost s = text@;
    let mut index: usize = 0;
    while index < len
        invariant
            len == s.len(),
            s == text@,
            index <= len,
            base_x == cell_origin(row as int, col as int).0,
            base_y == cell_origin(row as int, col as int).1,
            0 <= base_x,
            base_x + 8 * len <= i32::MAX,
            0 <= base_y <= i32::MAX - 14,
            canvas.painted_over(
                start,
                |px: int, py: int| text_pixel(s.subrange(0, index as int), base_x as int, base_y as int, px, py),
                attr,
            ),
        decreases len - index,
    {
        let ch = text[index];
        draw_char(canvas, base_x + index as i32 * TEXT_CELL_WIDTH, base_y, ch, attr);
        proof {
            let t1 = s.subrange(0, index as int + 1);
            assert forall|px: int, py: int| #![trigger canvas.at(px, py)] canvas.in_bounds(px, py) implies canvas.at(px, py)
                == shade(text_pixel(t1, base_x as int, base_y as int, px, py), attr, start.at(px, py)) by {
                lemma_text_step(s, base_x as int, base_y as int, index as int, px, py);
            }
        }
        index = index + 1;
    }
    proof {
        assert(s.subrange(0, len as int) =~= s);
    }
}

/// Draws `text` starting at the 1-based text cell (`row`, `col`).
pub fn draw_text(canvas: &mut Canvas, row: usize, col: usize, text: &str, attr: u8)
    requires
        old(canvas).wf(),
        text_fits(row as int, col as int, text@.len() as int),
    ensures
        final(canvas).painted_over(
            *old(canvas),
            |px: int, py: int| text_at(text@, row as int, col as int, px, py),
            attr,
        ),
{
    let chars = str_chars(text);
    draw_chars(canvas, row, col, chars.as_slice(), attr);
}

} // verus!

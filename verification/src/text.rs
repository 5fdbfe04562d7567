//! Tiles written as text: one row per line, one cell per character.

use vstd::prelude::*;
use crate::square::{invalid_input_text, parse_square, square_of, Square};
use crate::strings::chars_of;
use crate::tile::Tile;

verus! {

/// Where the line that starts at `start` ends: the place of the next line
/// feed, or the end of the text.
pub open spec fn line_end(s: Seq<char>, start: int) -> int
    decreases s.len() - start,
{
    if start < 0 || start >= s.len() || s[start] == '\n' {
        start
    } else {
        line_end(s, start + 1)
    }
}

/// The line that starts at `start`, without what ends it: a line feed, or a
/// carriage return and a line feed.
pub open spec fn line_at(s: Seq<char>, start: int) -> Seq<char> {
    let end = line_end(s, start);
    if end < s.len() && start < end && s[end - 1] == '\r' {
        s.subrange(start, end - 1)
    } else {
        s.subrange(start, end)
    }
}

/// The lines of the text from `start` on. A text that ends with a line
/// ending has no empty line after it.
pub open spec fn lines_from(s: Seq<char>, start: int) -> Seq<Seq<char>>
    decreases s.len() - start + 1,
{
    if start < 0 || start >= s.len() {
        Seq::empty()
    } else {
        proof {
            lemma_line_end_bounds(s, start);
        }
        seq![line_at(s, start)] + lines_from(s, line_end(s, start) + 1)
    }
}

/// A line ends at or after its start, within the text, and no line feed
/// stands before its end.
pub proof fn lemma_line_end_bounds(s: Seq<char>, start: int)
    requires
        0 <= start <= s.len(),
    ensures
        start <= line_end(s, start) <= s.len(),
        line_end(s, start) < s.len() ==> s[line_end(s, start)] == '\n',
        forall|k: int| start <= k < line_end(s, start) ==> s[k] != '\n',
    decreases s.len() - start,
{
    if start < s.len() && s[start] != '\n' {
        lemma_line_end_bounds(s, start + 1);
    }
}

/// The lines of a text, top to bottom.
pub open spec fn lines_of(s: Seq<char>) -> Seq<Seq<char>> {
    lines_from(s, 0)
}

/// The lines fit into a tile: at most seven of them, of at most three
/// characters each.
pub open spec fn fits_window(lines: Seq<Seq<char>>) -> bool {
    &&& lines.len() <= 7
    &&& forall|y: int| 0 <= y < lines.len() ==> (#[trigger] lines[y]).len() <= 3
}

/// Character `x` of line `y` exists.
pub open spec fn in_text(lines: Seq<Seq<char>>, x: int, y: int) -> bool {
    0 <= y < lines.len() && 0 <= x < lines[y].len()
}

/// Every character of the first `y` lines, and of the first `x` characters of
/// line `y`, stands for a cell state.
pub open spec fn valid_before(lines: Seq<Seq<char>>, x: int, y: int) -> bool {
    forall|i: int, j: int|
        #![trigger lines[j][i]]
        in_text(lines, i, j) && (j < y || (j == y && i < x)) ==> square_of(lines[j][i]) is Some
}

/// Every character of the lines stands for a cell state.
pub open spec fn all_valid(lines: Seq<Seq<char>>) -> bool {
    valid_before(lines, 0, lines.len() as int)
}

/// Character `x` of line `y` is the first, reading line by line, that stands
/// for no cell state.
pub open spec fn first_invalid_at(lines: Seq<Seq<char>>, x: int, y: int) -> bool {
    &&& in_text(lines, x, y)
    &&& square_of(lines[y][x]) is None
    &&& valid_before(lines, x, y)
}

/// The cell in column `x` of row `y` of the tile that the lines describe:
/// what the character there stands for, and not occupied where the lines
/// have no character.
pub open spec fn cell_of_lines(lines: Seq<Seq<char>>, x: int, y: int) -> Square {
    if in_text(lines, x, y) {
        match square_of(lines[y][x]) {
            Some(s) => s,
            None => Square::False,
        }
    } else {
        Square::False
    }
}

/// The tile that the lines describe.
pub open spec fn window_of_lines(lines: Seq<Seq<char>>) -> Seq<Seq<Square>> {
    Seq::new(7, |y: int| Seq::new(3, |x: int| cell_of_lines(lines, x, y)))
}

/// The tile filled as far as reading has come: the rows above `y` and the
/// first `x` cells of row `y` are those of the lines, the rest is not
/// occupied.
pub open spec fn window_up_to(lines: Seq<Seq<char>>, x: int, y: int) -> Seq<Seq<Square>> {
    Seq::new(
        7,
        |j: int|
            Seq::new(
                3,
                |i: int|
                    if j < y || (j == y && i < x) {
                        cell_of_lines(lines, i, j)
                    } else {
                        Square::False
                    },
            ),
    )
}

/// The end of the line that starts at `start`.
fn find_line_end(chars: &Vec<char>, start: usize) -> (end: usize)
    requires
        start <= chars@.len(),
    ensures
        end == line_end(chars@, start as int),
        start <= end <= chars@.len(),
{
    let mut end: usize = start;
    while end < chars.len() && chars[end] != '\n'
        invariant
            start <= end <= chars@.len(),
            line_end(chars@, start as int) == line_end(chars@, end as int),
        decreases chars@.len() - end,
    {
        end = end + 1;
    }
    end
}

/// Where the content of the line from `start` to `end` stops: before a
/// carriage return that the line feed at `end` follows.
fn content_stop(chars: &Vec<char>, start: usize, end: usize) -> (stop: usize)
    requires
        start <= chars@.len(),
        end == line_end(chars@, start as int),
    ensures
        start <= stop <= end,
        chars@.subrange(start as int, stop as int) == line_at(chars@, start as int),
{
    proof {
        lemma_line_end_bounds(chars@, start as int);
    }
    if end < chars.len() && start < end && chars[end - 1] == '\r' {
        end - 1
    } else {
        end
    }
}

/// Tells whether the lines of `contents` fit into a tile, which is what
/// [`load_tile`] asks of its input.
pub fn fits_tile(contents: &str) -> (r: bool)
    ensures
        r == fits_window(lines_of(contents@)),
{
    let chars = chars_of(contents);
    let ghost lines = lines_of(chars@);
    let mut start: usize = 0;
    let mut y: usize = 0;
    while start < chars.len()
        invariant
            chars@ == contents@,
            lines == lines_of(chars@),
            start <= chars@.len(),
            y <= lines.len(),
            y <= 7,
            lines_from(chars@, start as int) == lines.skip(y as int),
            forall|j: int| 0 <= j < y ==> (#[trigger] lines[j]).len() <= 3,
        decreases chars@.len() - start,
    {
        let end = find_line_end(&chars, start);
        let stop = content_stop(&chars, start, end);
        proof {
            lemma_next_line(chars@, start as int, lines, y as int);
        }
        if y >= 7 || stop - start > 3 {
            assert(lines[y as int].len() == stop - start);
            return false;
        }
        start = if end < chars.len() { end + 1 } else { end };
        y = y + 1;
    }
    proof {
        lemma_last_line(chars@, start as int, lines, y as int);
    }
    true
}

/// While text is left, the next line is line `y`, and the lines after it
/// start behind its end.
proof fn lemma_next_line(s: Seq<char>, start: int, lines: Seq<Seq<char>>, y: int)
    requires
        0 <= start < s.len(),
        0 <= y <= lines.len(),
        lines_from(s, start) == lines.skip(y),
    ensures
        y < lines.len(),
        lines[y] == line_at(s, start),
        lines_from(s, line_end(s, start) + 1) == lines.skip(y + 1),
        line_end(s, start) >= s.len() ==> lines_from(s, line_end(s, start)) == lines.skip(y + 1),
{
    lemma_line_end_bounds(s, start);
    let rest = lines_from(s, line_end(s, start) + 1);
    assert(lines.skip(y) == seq![line_at(s, start)] + rest);
    assert(lines.skip(y).len() == 1 + rest.len());
    assert(lines.skip(y)[0] == line_at(s, start));
    assert(lines.skip(y + 1) =~= lines.skip(y).skip(1));
    assert((seq![line_at(s, start)] + rest).skip(1) =~= rest);
}

/// Where no text is left, every line has been read.
proof fn lemma_last_line(s: Seq<char>, start: int, lines: Seq<Seq<char>>, y: int)
    requires
        start >= s.len(),
        0 <= y <= lines.len(),
        lines_from(s, start) == lines.skip(y),
    ensures
        y == lines.len(),
{
    assert(lines.skip(y).len() == 0);
}

/// Reads a tile from text. Each line is a row, from the top, and each
/// character of a line a cell, from the left: `#`, `.` or `?`. Cells that the
/// text does not reach are not occupied. The first character that stands for
/// no cell state makes the call fail, with a text that names it.
pub fn load_tile(contents: String) -> (r: Result<Tile, String>)
    requires
        fits_window(lines_of(contents@)),
    ensures
        r is Ok <==> all_valid(lines_of(contents@)),
        match r {
            Ok(tile) => tile@ == window_of_lines(lines_of(contents@)),
            Err(text) => exists|x: int, y: int|
                #[trigger] first_invalid_at(lines_of(contents@), x, y) && text@
                    == invalid_input_text(lines_of(contents@)[y][x]),
        },
{
    let chars = chars_of(contents.as_str());
    let ghost lines = lines_of(chars@);
    let mut tile = Tile::new();
    let mut start: usize = 0;
    let mut y: usize = 0;
    assert(tile@ =~~= window_up_to(lines, 0, 0));
    while start < chars.len()
        invariant
            chars@ == contents@,
            lines == lines_of(chars@),
            fits_window(lines),
            start <= chars@.len(),
            y <= lines.len(),
            lines_from(chars@, start as int) == lines.skip(y as int),
            valid_before(lines, 0, y as int),
            tile@ == window_up_to(lines, 0, y as int),
        decreases chars@.len() - start,
    {
        let end = find_line_end(&chars, start);
        let stop = content_stop(&chars, start, end);
        proof {
            lemma_next_line(chars@, start as int, lines, y as int);
        }
        let mut x: usize = 0;
        while x < stop - start
            invariant
                chars@ == contents@,
                lines == lines_of(chars@),
                fits_window(lines),
                start <= stop <= chars@.len(),
                y < lines.len(),
                lines[y as int] == chars@.subrange(start as int, stop as int),
                x <= stop - start,
                valid_before(lines, x as int, y as int),
                tile@ == window_up_to(lines, x as int, y as int),
            decreases stop - start - x,
        {
            let c: char = chars[start + x];
            assert(lines[y as int][x as int] == c);
            match parse_square(&c) {
                Ok(square) => {
                    tile.set((x, y), square);
                    assert(tile@ =~~= window_up_to(lines, x + 1, y as int));
                },
                Err(e) => {
                    assert(first_invalid_at(lines, x as int, y as int));
                    return Err(e.message());
                },
            }
            x = x + 1;
        }
        assert(tile@ =~~= window_up_to(lines, 0, y + 1));
        start = if end < chars.len() { end + 1 } else { end };
        y = y + 1;
    }
    proof {
        lemma_last_line(chars@, start as int, lines, y as int);
        assert(tile@ =~~= window_of_lines(lines));
    }
    Ok(tile)
}

} // verus!

//! What holds of the decision rule and of the symbols, for every tile.

use vstd::prelude::*;
use crate::rules::{clear_span, falsy_streak, three_run, verdict, Status};
use crate::packed::packed_square_of;
use crate::square::{invalid_input_text, square_of, symbol_of, Square};
use crate::text::{all_valid, fits_window, line_at, line_end, lines_from, lines_of, window_of_lines};
use crate::tile::{is_window, window_text, Tile};

verus! {

/// The verdict is a function of the cells: two tiles with the same cells get
/// the same verdict, so judging a tile twice gives the same answer.
pub proof fn lemma_same_cells_same_verdict(a: Tile, b: Tile)
    requires
        a@ == b@,
    ensures
        verdict(a@) == verdict(b@),
{
}

/// The verdict reads the middle column and the right neighbour of the centre,
/// and nothing else: two tiles that agree there get the same verdict.
pub proof fn lemma_verdict_is_local(a: Tile, b: Tile)
    requires
        forall|y: int| 0 <= y < 7 ==> (#[trigger] a@[y])[1] == b@[y][1],
        a@[3][2] == b@[3][2],
    ensures
        verdict(a@) == verdict(b@),
{
    assert forall|y: int| 0 <= y < 7 implies a@[y][1] == (#[trigger] b@[y])[1] by {}
    assert forall|shift: int| 0 <= shift < 4 implies clear_span(a@, shift) == clear_span(
        b@,
        shift,
    ) by {}
    assert(falsy_streak(a@) == falsy_streak(b@));
}

/// A tile whose centre is occupied is included, whatever its other twenty
/// cells hold.
pub proof fn lemma_occupied_centre_is_included(tile: Tile)
    requires
        tile@[3][1] == Square::True,
    ensures
        verdict(tile@) == Status::True,
{
}

/// A tile whose middle column is a run of exactly three occupied cells
/// around the centre, between two cells that are not occupied on either
/// side, is included.
pub proof fn lemma_three_run_is_included(tile: Tile)
    requires
        three_run(tile@),
    ensures
        verdict(tile@) == Status::True,
{
}

/// A cell of the middle column is free: it is not occupied.
pub open spec fn free(tile: Tile, y: int) -> bool {
    tile@[y][1] != Square::True
}

/// The middle column has a span of four rows without an occupied cell
/// exactly if the centre is free together with the three rows above it, or
/// with two above and one below, or one above and two below, or the three
/// below.
pub proof fn lemma_streak_by_cells(tile: Tile)
    ensures
        falsy_streak(tile@) <==> free(tile, 3) && {
            ||| free(tile, 0) && free(tile, 1) && free(tile, 2)
            ||| free(tile, 1) && free(tile, 2) && free(tile, 4)
            ||| free(tile, 2) && free(tile, 4) && free(tile, 5)
            ||| free(tile, 4) && free(tile, 5) && free(tile, 6)
        },
{
    let g = tile@;
    if falsy_streak(g) {
        let shift = choose|shift: int| 0 <= shift < 4 && #[trigger] clear_span(g, shift);
        assert(g[shift + 0][1] != Square::True);
        assert(g[shift + 1][1] != Square::True);
        assert(g[shift + 2][1] != Square::True);
        assert(g[shift + 3][1] != Square::True);
    }
    if free(tile, 3) {
        if free(tile, 0) && free(tile, 1) && free(tile, 2) {
            lemma_clear_span(g, 0);
        }
        if free(tile, 1) && free(tile, 2) && free(tile, 4) {
            lemma_clear_span(g, 1);
        }
        if free(tile, 2) && free(tile, 4) && free(tile, 5) {
            lemma_clear_span(g, 2);
        }
        if free(tile, 4) && free(tile, 5) && free(tile, 6) {
            lemma_clear_span(g, 3);
        }
    }
}

/// Four free cells in a row make a span without an occupied cell.
proof fn lemma_clear_span(g: Seq<Seq<Square>>, shift: int)
    requires
        g[shift][1] != Square::True,
        g[shift + 1][1] != Square::True,
        g[shift + 2][1] != Square::True,
        g[shift + 3][1] != Square::True,
    ensures
        clear_span(g, shift),
{
    assert forall|row: int| 0 <= row < 4 implies (#[trigger] g[shift + row])[1]
        != Square::True by {
        if row == 0 {
        } else if row == 1 {
        } else if row == 2 {
        } else {
        }
    }
}

/// Every span of four rows holds the centre row, so a tile whose centre is
/// occupied has no span without an occupied cell.
pub proof fn lemma_streak_needs_free_centre(tile: Tile)
    requires
        tile@[3][1] == Square::True,
    ensures
        !falsy_streak(tile@),
{
    assert forall|shift: int| 0 <= shift < 4 implies !clear_span(tile@, shift) by {
        assert(tile@[shift + (3 - shift)][1] == Square::True);
    }
}

/// A middle column whose rows 3 to 6 hold no occupied cell has a span of
/// four rows without one, whatever rows 0 to 2 hold.
pub proof fn lemma_streak_below_centre(tile: Tile)
    requires
        forall|y: int| 3 <= y < 7 ==> (#[trigger] tile@[y])[1] != Square::True,
    ensures
        falsy_streak(tile@),
{
    assert(clear_span(tile@, 3));
}

/// A tile is excluded exactly if none of the three rules holds of it.
pub proof fn lemma_excluded_iff_no_rule(tile: Tile)
    ensures
        verdict(tile@) == Status::False <==> {
            &&& tile@[3][1] != Square::True
            &&& !three_run(tile@)
            &&& !(tile@[3][2] == Square::True && falsy_streak(tile@))
        },
{
}

/// The text of a failure ends with the symbol that was refused, as it was
/// read.
pub proof fn lemma_failure_text_names_symbol(c: char)
    ensures
        invalid_input_text(c).len() > 0,
        invalid_input_text(c).last() == c,
        invalid_input_text(c).contains(c),
{
    let text = invalid_input_text(c);
    assert(text[text.len() - 1] == c);
}

/// In packed form the digit `1` means what `#` means, the digit `0` what `.`
/// means, and every symbol of a text grid what it means there.
pub proof fn lemma_packed_agrees_with_symbols(c: char)
    ensures
        packed_square_of('1') == square_of('#'),
        packed_square_of('0') == square_of('.'),
        square_of(c) is Some ==> packed_square_of(c) == square_of(c),
        packed_square_of(c) is Some <==> (c == '1' || c == '0' || square_of(c) is Some),
{
}

/// Reading the symbol that is written for a cell state gives that state
/// back.
pub proof fn lemma_symbol_round_trip(s: Square)
    ensures
        square_of(symbol_of(s)) == Some(s),
{
}

/// Writing the state that a symbol stands for gives that symbol back, and
/// the symbols that stand for a state are `#`, `.` and `?` alone.
pub proof fn lemma_parse_round_trip(c: char)
    ensures
        square_of(c) is Some <==> (c == '#' || c == '.' || c == '?'),
        square_of(c) is Some ==> symbol_of(square_of(c)->Some_0) == c,
{
}

/// The rows of a grid from row `k` on, each as the symbols of its cells.
spec fn symbol_rows(g: Seq<Seq<Square>>, k: int) -> Seq<Seq<char>> {
    Seq::new((7 - k) as nat, |j: int| Seq::new(3, |x: int| symbol_of(g[k + j][x])))
}

/// In the text of a grid, the line of row `k` starts at character `4 * k`
/// and holds the symbols of that row.
proof fn lemma_text_line(g: Seq<Seq<Square>>, k: int)
    requires
        is_window(g),
        0 <= k < 7,
    ensures
        line_end(window_text(g), 4 * k) == 4 * k + 3,
        line_at(window_text(g), 4 * k) == Seq::new(3, |x: int| symbol_of(g[k][x])),
{
    let s = window_text(g);
    assert(s[4 * k] == symbol_of(g[k][0]));
    assert(s[4 * k + 1] == symbol_of(g[k][1]));
    assert(s[4 * k + 2] == symbol_of(g[k][2]));
    assert(s[4 * k + 3] == '\n');
    assert(line_end(s, 4 * k + 3) == 4 * k + 3);
    assert(line_end(s, 4 * k + 2) == 4 * k + 3);
    assert(line_end(s, 4 * k + 1) == 4 * k + 3);
    assert(line_end(s, 4 * k) == 4 * k + 3);
    assert(s[4 * k + 2] != '\r');
    assert(line_at(s, 4 * k) =~= Seq::new(3, |x: int| symbol_of(g[k][x])));
}

/// The lines of the text of a grid from row `k` on are the rows of symbols
/// from row `k` on.
proof fn lemma_text_lines_from(g: Seq<Seq<Square>>, k: int)
    requires
        is_window(g),
        0 <= k <= 7,
    ensures
        lines_from(window_text(g), 4 * k) == symbol_rows(g, k),
    decreases 7 - k,
{
    let s = window_text(g);
    if k < 7 {
        lemma_text_line(g, k);
        lemma_text_lines_from(g, k + 1);
        assert(lines_from(s, 4 * k) == seq![line_at(s, 4 * k)] + lines_from(s, 4 * (k + 1)));
        assert(lines_from(s, 4 * k) =~= symbol_rows(g, k));
    } else {
        assert(lines_from(s, 4 * k) =~= symbol_rows(g, k));
    }
}

/// The text of a tile reads back as the same tile: its lines fit into a
/// tile, each of its symbols stands for a cell state, and the tile that the
/// lines describe has the cells of the tile that was written.
pub proof fn lemma_text_round_trip(tile: Tile)
    ensures
        fits_window(lines_of(window_text(tile@))),
        all_valid(lines_of(window_text(tile@))),
        window_of_lines(lines_of(window_text(tile@))) == tile@,
{
    let g = tile@;
    tile.lemma_shape();
    lemma_text_lines_from(g, 0);
    let lines = lines_of(window_text(g));
    assert(lines == symbol_rows(g, 0));
    assert forall|x: int, y: int| 0 <= y < 7 && 0 <= x < 3 implies #[trigger] lines[y][x]
        == symbol_of(g[y][x]) by {}
    assert(window_of_lines(lines) =~~= g);
}

} // verus!

//! Tiles written in packed form: the 21 cells in one row of symbols, the
//! rows of the tile one after another.

use vstd::prelude::*;
use crate::square::{parse_square, square_of, InvalidInput, Square};
use crate::strings::chars_of;
use crate::tile::{is_window, Tile};

verus! {

/// What a symbol of the packed form stands for: the digit `1` is an occupied
/// cell like `#`, the digit `0` a cell that is not occupied like `.`, and the
/// symbols of a text grid keep their meaning.
pub open spec fn packed_square_of(c: char) -> Option<Square> {
    if c == '1' {
        Some(Square::True)
    } else if c == '0' {
        Some(Square::False)
    } else {
        square_of(c)
    }
}

/// Every symbol of `s` stands for a cell state.
pub open spec fn all_valid_packed(s: Seq<char>) -> bool {
    forall|i: int| 0 <= i < s.len() ==> packed_square_of(#[trigger] s[i]) is Some
}

/// Symbol `k` is the first of `s` that stands for no cell state.
pub open spec fn first_invalid_packed(s: Seq<char>, k: int) -> bool {
    &&& 0 <= k < s.len()
    &&& packed_square_of(s[k]) is None
    &&& forall|i: int| 0 <= i < k ==> packed_square_of(#[trigger] s[i]) is Some
}

/// The grid `grid` after the first `n` symbols of `s` were written into it:
/// symbol `i` goes to column `i % 3` of row `i / 3`, the other cells stay.
pub open spec fn packed_fill(grid: Seq<Seq<Square>>, s: Seq<char>, n: int) -> Seq<Seq<Square>> {
    Seq::new(
        7,
        |y: int|
            Seq::new(
                3,
                |x: int|
                    if 3 * y + x < n {
                        match packed_square_of(s[3 * y + x]) {
                            Some(square) => square,
                            None => Square::False,
                        }
                    } else {
                        grid[y][x]
                    },
            ),
    )
}

/// Reads one symbol of the packed form.
fn parse_packed_square(c: char) -> (r: Result<Square, InvalidInput>)
    ensures
        r == match packed_square_of(c) {
            Some(s) => Ok::<Square, InvalidInput>(s),
            None => Err(InvalidInput { symbol: c }),
        },
{
    if c == '1' {
        Ok(Square::True)
    } else if c == '0' {
        Ok(Square::False)
    } else {
        parse_square(&c)
    }
}

/// Writes the symbols of `contents` into `tile`, row by row, and returns the
/// tile as it is afterwards. Cells that `contents` does not reach keep their
/// state. At the first symbol that stands for no cell state the call fails
/// with that symbol, and the tile keeps what was written before it.
pub fn load_tile_binarystring(tile: &mut Tile, contents: &str) -> (r: Result<Tile, InvalidInput>)
    requires
        contents@.len() <= 21,
    ensures
        r is Ok <==> all_valid_packed(contents@),
        match r {
            Ok(loaded) => {
                &&& loaded == *final(tile)
                &&& final(tile)@ == packed_fill(old(tile)@, contents@, contents@.len() as int)
            },
            Err(e) => exists|k: int|
                {
                    &&& #[trigger] first_invalid_packed(contents@, k)
                    &&& e.symbol == contents@[k]
                    &&& final(tile)@ == packed_fill(old(tile)@, contents@, k)
                },
        },
{
    let chars = chars_of(contents);
    let mut index: usize = 0;
    proof {
        tile.lemma_shape();
        assert(tile@ =~~= packed_fill(old(tile)@, contents@, 0));
    }
    while index < chars.len()
        invariant
            chars@ == contents@,
            chars@.len() <= 21,
            index <= chars@.len(),
            is_window(old(tile)@),
            forall|i: int| 0 <= i < index ==> packed_square_of(#[trigger] contents@[i]) is Some,
            tile@ == packed_fill(old(tile)@, contents@, index as int),
        decreases chars@.len() - index,
    {
        let y: usize = index / 3;
        let x: usize = index % 3;
        match parse_packed_square(chars[index]) {
            Ok(square) => {
                tile.set((x, y), square);
                assert(tile@ =~~= packed_fill(old(tile)@, contents@, index + 1));
            },
            Err(e) => {
                assert(first_invalid_packed(contents@, index as int));
                return Err(e);
            },
        }
        index = index + 1;
    }
    Ok(*tile)
}

} // verus!

//! The window of cells that the decision rule looks at.

use vstd::prelude::*;
use crate::square::{symbol_of, Square};
use crate::strings::push_char;

verus! {

/// Number of columns of a tile.
pub const WIDTH: usize = 3;

/// Number of rows of a tile.
pub const HEIGHT: usize = 7;

/// A grid of cell states has the shape of a tile: seven rows of three cells.
pub open spec fn is_window(grid: Seq<Seq<Square>>) -> bool {
    &&& grid.len() == 7
    &&& forall|y: int| 0 <= y < 7 ==> (#[trigger] grid[y]).len() == 3
}

/// The grid of seven rows by three columns in which no cell is occupied.
pub open spec fn empty_window() -> Seq<Seq<Square>> {
    Seq::new(7, |y: int| Seq::new(3, |x: int| Square::False))
}

/// The grid `grid` with the cell in column `x` of row `y` replaced by `value`.
pub open spec fn with_cell(grid: Seq<Seq<Square>>, x: int, y: int, value: Square) -> Seq<
    Seq<Square>,
> {
    grid.update(y, grid[y].update(x, value))
}

/// The text of a grid: its rows from the top, each as the three symbols of
/// its cells and a line feed.
pub open spec fn window_text(grid: Seq<Seq<Square>>) -> Seq<char> {
    Seq::new(
        28,
        |i: int|
            if i % 4 == 3 {
                '\n'
            } else {
                symbol_of(grid[i / 4][i % 4])
            },
    )
}

/// A window of three columns by seven rows, cut out of the grid around the
/// cell in its centre. Every cell of it has a state.
#[derive(Clone, Copy, Debug)]
pub struct Tile {
    squares: [[Square; 3]; 7],
}

impl View for Tile {
    type V = Seq<Seq<Square>>;

    /// The rows of the tile from top to bottom, each from left to right:
    /// `tile@[y][x]` is the cell in column `x` of row `y`.
    closed spec fn view(&self) -> Seq<Seq<Square>> {
        Seq::new(7, |y: int| Seq::new(3, |x: int| self.squares[y][x]))
    }
}

impl Tile {
    /// The view of every tile has the shape of a tile.
    pub proof fn lemma_shape(&self)
        ensures
            is_window(self@),
    {
    }

    /// A tile in which no cell is occupied.
    pub fn new() -> (tile: Tile)
        ensures
            tile@ == empty_window(),
    {
        let tile = Tile {
            squares: [
                [Square::False, Square::False, Square::False],
                [Square::False, Square::False, Square::False],
                [Square::False, Square::False, Square::False],
                [Square::False, Square::False, Square::False],
                [Square::False, Square::False, Square::False],
                [Square::False, Square::False, Square::False],
                [Square::False, Square::False, Square::False],
            ],
        };
        assert(tile@ =~~= empty_window());
        tile
    }

    /// The cell in column `pos.0` of row `pos.1`, where the tile has one.
    pub fn get(&self, pos: (usize, usize)) -> (r: Option<&Square>)
        ensures
            pos.0 < 3 && pos.1 < 7 ==> r == Some(&self@[pos.1 as int][pos.0 as int]),
            !(pos.0 < 3 && pos.1 < 7) ==> r is None,
    {
        let (x, y) = pos;
        if x < WIDTH && y < HEIGHT {
            Some(&self.squares[y][x])
        } else {
            None
        }
    }

    /// The tile as text, one line for each row.
    pub fn to_text(&self) -> (text: String)
        ensures
            text@ == window_text(self@),
    {
        let mut text = String::new();
        let mut y: usize = 0;
        while y < HEIGHT
            invariant
                y <= 7,
                text@ == window_text(self@).take(4 * y),
            decreases 7 - y,
        {
            let mut x: usize = 0;
            while x < WIDTH
                invariant
                    y < 7,
                    x <= 3,
                    text@ == window_text(self@).take(4 * y + x),
                decreases 3 - x,
            {
                push_char(&mut text, self.squares[y][x].symbol());
                assert(text@ =~= window_text(self@).take(4 * y + x + 1));
                x = x + 1;
            }
            push_char(&mut text, '\n');
            assert(text@ =~= window_text(self@).take(4 * (y + 1)));
            y = y + 1;
        }
        assert(text@ =~= window_text(self@));
        text
    }

    /// Puts `value` into column `pos.0` of row `pos.1` and leaves every other
    /// cell as it was.
    pub fn set(&mut self, pos: (usize, usize), value: Square)
        requires
            pos.0 < 3,
            pos.1 < 7,
        ensures
            final(self)@ == with_cell(old(self)@, pos.0 as int, pos.1 as int, value),
            is_window(final(self)@),
    {
        let (x, y) = pos;
        self.squares[y][x] = value;
        assert(self@ =~~= with_cell(old(self)@, x as int, y as int, value));
    }
}

} // verus!

//! The decision rule: three signatures in the middle column of a tile, each
//! of which puts the centre cell into the set.

use vstd::prelude::*;
use crate::square::{InvalidInput, Square};
use crate::tile::Tile;

verus! {

/// The verdict on the centre cell of a tile.
#[derive(PartialEq, Eq, Clone, Copy, Debug, Structural)]
pub enum Status {
    /// The centre cell stays out of the set; written `0`.
    False,
    /// The centre cell belongs to the set; written `1`.
    True,
}

/// The middle column reads, from the top: two cells that are not occupied,
/// three occupied ones, two that are not occupied.
pub open spec fn three_run(grid: Seq<Seq<Square>>) -> bool {
    &&& grid[0][1] == Square::False
    &&& grid[1][1] == Square::False
    &&& grid[2][1] == Square::True
    &&& grid[3][1] == Square::True
    &&& grid[4][1] == Square::True
    &&& grid[5][1] == Square::False
    &&& grid[6][1] == Square::False
}

/// None of the four cells of the middle column in rows `shift` to
/// `shift + 3` is occupied.
pub open spec fn clear_span(grid: Seq<Seq<Square>>, shift: int) -> bool {
    forall|row: int| 0 <= row < 4 ==> (#[trigger] grid[shift + row])[1] != Square::True
}

/// One of the four spans of four rows that fit into the middle column holds
/// no occupied cell.
pub open spec fn falsy_streak(grid: Seq<Seq<Square>>) -> bool {
    exists|shift: int| 0 <= shift < 4 && #[trigger] clear_span(grid, shift)
}

/// The verdict on the centre cell, which is in column 1 of row 3. The cell
/// belongs to the set if it is occupied, or if it is the middle of a run of
/// three, or if its right neighbour is occupied and the middle column has a
/// span of four rows without an occupied cell.
pub open spec fn verdict(grid: Seq<Seq<Square>>) -> Status {
    if grid[3][1] == Square::True {
        Status::True
    } else if three_run(grid) {
        Status::True
    } else if grid[3][2] == Square::True && falsy_streak(grid) {
        Status::True
    } else {
        Status::False
    }
}

/// The cell of `tile` in column `x` of row `y`.
fn cell(tile: &Tile, x: usize, y: usize) -> (s: Square)
    requires
        x < 3,
        y < 7,
    ensures
        s == tile@[y as int][x as int],
{
    match tile.get((x, y)) {
        Some(s) => *s,
        None => Square::Unknown,
    }
}

/// Tells whether the middle column of `tile` is a run of exactly three
/// occupied cells around the centre, with two cells that are not occupied on
/// either side.
pub fn center_of_three_trues_column(tile: &Tile) -> (r: bool)
    ensures
        r == three_run(tile@),
{
    cell(tile, 1, 0) == Square::False
        && cell(tile, 1, 1) == Square::False
        && cell(tile, 1, 2) == Square::True
        && cell(tile, 1, 3) == Square::True
        && cell(tile, 1, 4) == Square::True
        && cell(tile, 1, 5) == Square::False
        && cell(tile, 1, 6) == Square::False
}

/// Tells whether the middle column of `tile` has four rows in a row without
/// an occupied cell. Each such span holds the centre row.
pub fn part_of_falsy_streak(tile: &Tile) -> (r: bool)
    ensures
        r == falsy_streak(tile@),
{
    let mut shift: usize = 0;
    while shift < 4
        invariant
            shift <= 4,
            forall|s: int| 0 <= s < shift ==> !#[trigger] clear_span(tile@, s),
        decreases 4 - shift,
    {
        let mut streak: bool = true;
        let mut row: usize = 0;
        while row < 4 && streak
            invariant
                shift < 4,
                row <= 4,
                streak ==> forall|k: int|
                    0 <= k < row ==> (#[trigger] tile@[shift + k])[1] != Square::True,
                !streak ==> !clear_span(tile@, shift as int),
            decreases 4 - row + (if streak { 1int } else { 0int }),
        {
            if cell(tile, 1, row + shift) == Square::True {
                assert(tile@[shift + row][1] == Square::True);
                streak = false;
            } else {
                row = row + 1;
            }
        }
        if streak {
            assert(clear_span(tile@, shift as int));
            return true;
        }
        shift = shift + 1;
    }
    false
}

/// Decides whether the centre cell of `tile` belongs to the set. The rules
/// are tried in a fixed order and the first that holds decides; the call
/// never fails.
pub fn validate_tile(tile: &Tile) -> (r: Result<Status, InvalidInput>)
    ensures
        r == Ok::<Status, InvalidInput>(verdict(tile@)),
{
    if cell(tile, 1, 3) == Square::True {
        Ok(Status::True)
    } else if center_of_three_trues_column(tile) {
        Ok(Status::True)
    } else if cell(tile, 2, 3) == Square::True && part_of_falsy_streak(tile) {
        Ok(Status::True)
    } else {
        Ok(Status::False)
    }
}

impl Status {
    /// The digit that is printed for this verdict.
    pub fn symbol(&self) -> (c: char)
        ensures
            c == (if *self == Status::True { '1' } else { '0' }),
    {
        match self {
            Status::True => '1',
            Status::False => '0',
        }
    }
}

} // verus!

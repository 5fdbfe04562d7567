//! Local decision rule for a maximal independent set on an infinite grid.
//!
//! A [`Tile`] is the 3 x 7 neighbourhood visible around one cell. From it
//! alone, [`validate_tile`] decides whether the cell in the centre belongs to
//! the set.

pub mod laws;
pub mod packed;
pub mod rules;
pub mod square;
mod strings;
pub mod tally;
pub mod text;
pub mod tile;

pub use packed::load_tile_binarystring;
pub use rules::{center_of_three_trues_column, part_of_falsy_streak, validate_tile, Status};
pub use square::{parse_square, InvalidInput, Square};
pub use tally::{packed_string, tally_verdicts, Tally, CONFIGURATIONS};
pub use text::{fits_tile, load_tile};
pub use tile::Tile;

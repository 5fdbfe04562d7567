//! Counting the verdicts over the tiles that 21 binary digits describe.

use vstd::prelude::*;
use vstd::arithmetic::power2::{lemma2_to64, lemma_pow2_pos, lemma_pow2_unfold, pow2};
use crate::packed::{all_valid_packed, load_tile_binarystring, packed_fill};
use crate::rules::{validate_tile, verdict, Status};
use crate::square::Square;
use crate::strings::push_char;
use crate::tile::{empty_window, Tile};

verus! {

/// The number of tiles without an undetermined cell: two to the power 21.
pub const CONFIGURATIONS: u32 = 2097152;

/// Digit `i` of the 21 binary digits of `n`, the most significant first.
pub open spec fn packed_digit(n: nat, i: int) -> char {
    if (n / pow2((20 - i) as nat)) % 2 == 1 {
        '1'
    } else {
        '0'
    }
}

/// The 21 binary digits of `n`, the most significant first.
pub open spec fn packed_digits(n: nat) -> Seq<char> {
    Seq::new(21, |i: int| packed_digit(n, i))
}

/// The tile that the 21 binary digits of `n` describe in packed form.
pub open spec fn packed_window(n: nat) -> Seq<Seq<Square>> {
    packed_fill(empty_window(), packed_digits(n), 21)
}

/// How many of the numbers below `limit` describe a tile that is included.
pub open spec fn included_below(limit: nat) -> nat
    decreases limit,
{
    if limit == 0 {
        0
    } else {
        let n = (limit - 1) as nat;
        included_below(n) + if verdict(packed_window(n)) == Status::True {
            1nat
        } else {
            0nat
        }
    }
}

/// The verdicts counted over a range of tiles.
#[derive(PartialEq, Eq, Clone, Copy, Debug, Structural)]
pub struct Tally {
    /// How many tiles were included.
    pub trues: u32,
    /// How many tiles were excluded.
    pub falses: u32,
}

/// The number `n` in packed form: its 21 binary digits, the most significant
/// first.
pub fn packed_string(n: u32) -> (text: String)
    requires
        n < 2097152,
    ensures
        text@ == packed_digits(n as nat),
{
    let mut text = String::new();
    let mut divisor: u32 = 1048576;
    let mut i: usize = 0;
    proof {
        lemma2_to64();
    }
    while i < 21
        invariant
            i <= 21,
            i < 21 ==> divisor == pow2((20 - i) as nat),
            text@ == packed_digits(n as nat).take(i as int),
        decreases 21 - i,
    {
        proof {
            lemma_pow2_pos((20 - i) as nat);
            if i < 20 {
                lemma_pow2_unfold((20 - i) as nat);
            }
        }
        let digit: char = if (n / divisor) % 2 == 1 {
            '1'
        } else {
            '0'
        };
        push_char(&mut text, digit);
        assert(text@ =~= packed_digits(n as nat).take(i + 1));
        divisor = divisor / 2;
        i = i + 1;
    }
    assert(text@ =~= packed_digits(n as nat));
    text
}

/// Judges the tile of every number below `limit` and counts the verdicts.
/// Every tile gets one verdict, so the two counts add up to `limit`.
pub fn tally_verdicts(limit: u32) -> (tally: Tally)
    requires
        limit <= 2097152,
    ensures
        tally.trues == included_below(limit as nat),
        tally.trues + tally.falses == limit,
{
    let mut tally = Tally { trues: 0, falses: 0 };
    let mut tile = Tile::new();
    let mut n: u32 = 0;
    while n < limit
        invariant
            n <= limit <= 2097152,
            tally.trues == included_below(n as nat),
            tally.trues + tally.falses == n,
        decreases limit - n,
    {
        let text = packed_string(n);
        let loaded = load_tile_binarystring(&mut tile, text.as_str());
        proof {
            tile.lemma_shape();
            assert(all_valid_packed(text@));
            assert(loaded is Ok);
            assert(tile@ =~~= packed_window(n as nat));
        }
        match validate_tile(&tile) {
            Ok(Status::True) => {
                tally.trues = tally.trues + 1;
            },
            _ => {
                tally.falses = tally.falses + 1;
            },
        }
        n = n + 1;
    }
    tally
}

} // verus!

//! Digit glyphs for rendering the score: each decimal digit is a three
//! pixel wide, five row tall figure placed in the high nibble of its rows.

use vstd::prelude::*;

verus! {

/// The glyph of decimal digit `n`.
pub open spec fn num_map_spec(n: u8) -> Seq<u8>
    recommends
        n < 10,
{
    if n == 0 {
        seq![0b11100000u8, 0b10100000u8, 0b10100000u8, 0b10100000u8, 0b11100000u8, 0u8, 0u8, 0u8]
    } else if n == 1 {
        seq![0b01000000u8, 0b11000000u8, 0b01000000u8, 0b01000000u8, 0b11100000u8, 0u8, 0u8, 0u8]
    } else if n == 2 {
        seq![0b11100000u8, 0b00100000u8, 0b11100000u8, 0b10000000u8, 0b11100000u8, 0u8, 0u8, 0u8]
    } else if n == 3 {
        seq![0b11100000u8, 0b00100000u8, 0b11100000u8, 0b00100000u8, 0b11100000u8, 0u8, 0u8, 0u8]
    } else if n == 4 {
        seq![0b10100000u8, 0b10100000u8, 0b11100000u8, 0b00100000u8, 0b00100000u8, 0u8, 0u8, 0u8]
    } else if n == 5 {
        seq![0b11100000u8, 0b10000000u8, 0b11100000u8, 0b00100000u8, 0b11100000u8, 0u8, 0u8, 0u8]
    } else if n == 6 {
        seq![0b11100000u8, 0b10000000u8, 0b11100000u8, 0b10100000u8, 0b11100000u8, 0u8, 0u8, 0u8]
    } else if n == 7 {
        seq![0b11100000u8, 0b00100000u8, 0b01000000u8, 0b01000000u8, 0b01000000u8, 0u8, 0u8, 0u8]
    } else if n == 8 {
        seq![0b11100000u8, 0b10100000u8, 0b11100000u8, 0b10100000u8, 0b11100000u8, 0u8, 0u8, 0u8]
    } else {
        seq![0b11100000u8, 0b10100000u8, 0b11100000u8, 0b00100000u8, 0b11100000u8, 0u8, 0u8, 0u8]
    }
}

/// The glyph of decimal digit `n`, as eight rows.
pub fn num_map(n: u8) -> (r: [u8; 8])
    requires
        n < 10,
    ensures
        r@ == num_map_spec(n),
{
    let r: [u8; 8] = if n == 0 {
        [0b11100000, 0b10100000, 0b10100000, 0b10100000, 0b11100000, 0, 0, 0]
    } else if n == 1 {
        [0b01000000, 0b11000000, 0b01000000, 0b01000000, 0b11100000, 0, 0, 0]
    } else if n == 2 {
        [0b11100000, 0b00100000, 0b11100000, 0b10000000, 0b11100000, 0, 0, 0]
    } else if n == 3 {
        [0b11100000, 0b00100000, 0b11100000, 0b00100000, 0b11100000, 0, 0, 0]
    } else if n == 4 {
        [0b10100000, 0b10100000, 0b11100000, 0b00100000, 0b00100000, 0, 0, 0]
    } else if n == 5 {
        [0b11100000, 0b10000000, 0b11100000, 0b00100000, 0b11100000, 0, 0, 0]
    } else if n == 6 {
        [0b11100000, 0b10000000, 0b11100000, 0b10100000, 0b11100000, 0, 0, 0]
    } else if n == 7 {
        [0b11100000, 0b00100000, 0b01000000, 0b01000000, 0b01000000, 0, 0, 0]
    } else if n == 8 {
        [0b11100000, 0b10100000, 0b11100000, 0b10100000, 0b11100000, 0, 0, 0]
    } else {
        [0b11100000, 0b10100000, 0b11100000, 0b00100000, 0b11100000, 0, 0, 0]
    };
    proof {
        assert(r@ =~= num_map_spec(n));
    }
    r
}

} // verus!

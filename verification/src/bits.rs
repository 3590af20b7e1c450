//! Packed-card helpers: a card byte carries a visibility flag in bit six.

use vstd::prelude::*;

verus! {

/// The bit that marks a packed card as face down.
pub const BIT_FLAG: u8 = 0x40;

/// Mark a packed card as face down.
pub fn conceal(card: u8) -> (r: u8)
    ensures
        r == card | 0x40u8,
{
    card | BIT_FLAG
}

/// Mark a packed card as face up.
pub fn show(card: u8) -> (r: u8)
    ensures
        r == card & !0x40u8,
{
    card & !BIT_FLAG
}

/// Whether a packed card is face down.
pub fn is_hidden(card: u8) -> (r: bool)
    ensures
        r == (card & 0x40u8 == 0x40u8),
{
    card & BIT_FLAG == BIT_FLAG
}

/// Whether a packed card is face up.
pub fn is_visible(card: u8) -> (r: bool)
    ensures
        r == (card & 0x40u8 != 0x40u8),
{
    !is_hidden(card)
}

} // verus!

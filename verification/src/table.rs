//! Tables: the seats around one game and its pot.

use vstd::prelude::*;

use crate::player::Player;
use crate::seat::Seat;

verus! {

/// The pot a table plays for.
#[derive(Debug)]
pub struct Pot {}

/// A table: its size, the dealer button position, its seats, and its pot.
#[derive(Debug)]
pub struct Table {
    pub size: u8,
    pub button: u8,
    pub seats: Vec<Seat>,
    pub pot: Pot,
}

impl Table {
    /// An empty table for `size` seats, with the button at the first
    /// seat.
    pub fn new(size: u8) -> (r: Table)
        ensures
            r.size == size,
            r.button == 0,
            r.seats@.len() == 0,
    {
        Table { size, button: 0, seats: Vec::new(), pot: Pot {  } }
    }

    /// Seat a player. Seating is owned by the surrounding table layer;
    /// the engine records nothing for it yet.
    pub fn join(&self, player: Player, position: u8, amount: u16) {
    }
}

} // verus!

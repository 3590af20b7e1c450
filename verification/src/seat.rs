//! Seats at a table: a seat's lifecycle state and the per-seat slot
//! bookkeeping.

use vstd::prelude::*;

use crate::bet::{AutoPlay, Bet};
use crate::player::Player;

verus! {

/// Whether the player behind a seat is connected.
#[derive(Debug, PartialEq, Eq, Structural)]
pub enum NetworkStatus {
    Offline,
    Online,
}

/// The live bookkeeping of an occupied seat.
#[derive(Debug)]
pub struct Slot {
    pub player: Player,
    pub network_status: NetworkStatus,
    pub current_stack_amount: u16,
    pub amount_put: u16,
    pub rebuy_amount: u16,
    pub clock_millis: u64,
    pub auto_play: AutoPlay,
}

impl Slot {
    /// Mark the seat's player as disconnected.
    pub fn offline(&mut self)
        ensures
            final(self).network_status == NetworkStatus::Offline,
            final(self).player == old(self).player,
            final(self).current_stack_amount == old(self).current_stack_amount,
            final(self).amount_put == old(self).amount_put,
            final(self).rebuy_amount == old(self).rebuy_amount,
            final(self).clock_millis == old(self).clock_millis,
            final(self).auto_play == old(self).auto_play,
    {
        self.network_status = NetworkStatus::Offline;
    }

    /// Mark the seat's player as connected.
    pub fn online(&mut self)
        ensures
            final(self).network_status == NetworkStatus::Online,
            final(self).player == old(self).player,
            final(self).current_stack_amount == old(self).current_stack_amount,
            final(self).amount_put == old(self).amount_put,
            final(self).rebuy_amount == old(self).rebuy_amount,
            final(self).clock_millis == old(self).clock_millis,
            final(self).auto_play == old(self).auto_play,
    {
        self.network_status = NetworkStatus::Online;
    }

    /// Flip the seat's connection status.
    pub fn toggle_network_status(&mut self)
        ensures
            final(self).network_status == (if old(self).network_status == NetworkStatus::Offline {
                NetworkStatus::Online
            } else {
                NetworkStatus::Offline
            }),
            final(self).player == old(self).player,
            final(self).current_stack_amount == old(self).current_stack_amount,
            final(self).amount_put == old(self).amount_put,
            final(self).rebuy_amount == old(self).rebuy_amount,
            final(self).clock_millis == old(self).clock_millis,
            final(self).auto_play == old(self).auto_play,
    {
        self.network_status = if self.network_status == NetworkStatus::Offline {
            NetworkStatus::Online
        } else {
            NetworkStatus::Offline
        };
    }
}

/// The lifecycle state of a seat over a hand.
#[derive(Debug)]
pub enum State {
    Empty,
    Reserved(Player),
    Ready(Slot),
    WaitBigBlind(Slot),
    PostBigBlind(Slot, u16),
    Playing(Slot, Bet),
    AutoPlaying(Slot, AutoPlay),
    AllIn(Slot, Bet),
    Betting(Slot, Bet),
    Folding(Slot),
    SittingOut(Slot),
    Idle(Slot),
    Away(Slot),
    Gone(Slot),
}

/// A check by a seat that is in turn: the seat moves to betting with a
/// check; any other state is unchanged.
pub open spec fn spec_check(s: State) -> State {
    match s {
        State::Playing(slot, _) => State::Betting(slot, Bet::Check),
        _ => s,
    }
}

/// A fold by a seat that is in turn; any other state is unchanged.
pub open spec fn spec_fold(s: State) -> State {
    match s {
        State::Playing(slot, _) => State::Folding(slot),
        _ => s,
    }
}

/// A raise by a seat that is in turn; any other state is unchanged.
pub open spec fn spec_raise(s: State, amount: u32) -> State {
    match s {
        State::Playing(slot, _) => State::Betting(slot, Bet::Raise(amount)),
        _ => s,
    }
}

/// A call by a seat that is in turn; any other state is unchanged.
pub open spec fn spec_call(s: State, amount: u32) -> State {
    match s {
        State::Playing(slot, _) => State::Betting(slot, Bet::Call(amount)),
        _ => s,
    }
}

impl State {
    /// The seat checks if it is in turn; otherwise nothing changes.
    pub fn check(self) -> (r: Self)
        ensures
            r == spec_check(self),
    {
        match self {
            State::Playing(slot, _bet) => State::Betting(slot, Bet::Check),
            other => other,
        }
    }

    /// The seat folds if it is in turn; otherwise nothing changes.
    pub fn fold(self) -> (r: Self)
        ensures
            r == spec_fold(self),
    {
        match self {
            State::Playing(slot, _bet) => State::Folding(slot),
            other => other,
        }
    }

    /// The seat raises by `amount` if it is in turn; otherwise nothing
    /// changes.
    pub fn raise(self, amount: u32) -> (r: Self)
        ensures
            r == spec_raise(self, amount),
    {
        match self {
            State::Playing(slot, _bet) => State::Betting(slot, Bet::Raise(amount)),
            other => other,
        }
    }

    /// The seat calls `amount` if it is in turn; otherwise nothing
    /// changes.
    pub fn call(self, amount: u32) -> (r: Self)
        ensures
            r == spec_call(self, amount),
    {
        match self {
            State::Playing(slot, _bet) => State::Betting(slot, Bet::Call(amount)),
            other => other,
        }
    }
}

/// One seat of a table.
#[derive(Debug)]
pub struct Seat {
    pub state: State,
}

} // verus!

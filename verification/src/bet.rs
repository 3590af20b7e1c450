//! Betting actions and their bookkeeping.

use vstd::prelude::*;

use crate::player::Player;

verus! {

/// A betting move a seat can make, with its amount where one applies.
#[derive(Debug)]
pub enum Bet {
    Check,
    Fold,
    Raise(u32),
    Call(u32),
    SmallBlind(u32),
    BigBlind(u32),
    Straddle(u32),
    Ante(u32),
    BringIn(u32),
    GuestBlind(u32),
}

/// A standing instruction a seat can leave for when action reaches it.
#[derive(Debug)]
pub enum AutoPlay {
    Fold,
    Check,
    CallAny,
    CheckFold,
    FoldAnyBet,
}

/// One recorded betting action: who acted, what they did, when (as
/// milliseconds since an epoch the caller picks), and how.
#[derive(Debug)]
pub struct Action {
    pub player: Player,
    pub bet: Bet,
    pub time_millis: u64,
    pub all_in: bool,
    pub forced_bet: bool,
    pub timed_out: bool,
}

} // verus!

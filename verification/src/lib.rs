//! Hand-evaluation and deck-management engine for a multi-variant poker
//! platform: card model, deck lifecycle (draw, burn, discard-and-replace,
//! reshuffle), hand-category classification under several ranking
//! disciplines (high, lowball variants, badugi), and a total-order
//! comparator over classified hands.

pub mod bet;
pub mod bits;
pub mod card;
pub mod classify;
pub mod compare;
pub mod dealer;
pub mod deck;
pub mod error;
pub mod game;
pub mod groups;
pub mod hand;
pub mod kind;
pub mod locale;
pub mod player;
pub mod rank;
pub mod seat;
pub mod suit;
pub mod table;

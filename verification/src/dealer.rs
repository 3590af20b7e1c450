//! The dealer: the sole mutator of a deck during a hand. It draws pocket
//! cards for seats, burns and deals board cards, and processes discards
//! by delegating to the deck's discard-and-replace.

use vstd::prelude::*;

use crate::card::{Card, Cards};
use crate::deck::Deck;
use crate::error::EngineError;

verus! {

broadcast use vstd::multiset::group_multiset_axioms, vstd::seq_lib::group_to_multiset_ensures;

/// A dealer: the deck it deals from, the shared board, and one pocket
/// card slot per seat.
#[derive(Debug)]
pub struct Dealer {
    pub deck: Deck,
    pub board_cards: Cards,
    pub pocket_cards: Vec<Cards>,
}

impl Dealer {
    /// A dealer over a fresh shuffled deck, with an empty board and one
    /// empty pocket slot per seat.
    pub fn new(seats: usize) -> (r: Dealer)
        ensures
            r.deck.wf(),
            r.board_cards@.len() == 0,
            r.pocket_cards@.len() == seats,
            forall|i: int| 0 <= i < seats ==> (#[trigger] r.pocket_cards@[i])@.len() == 0,
    {
        let mut pockets: Vec<Cards> = Vec::new();
        let mut i: usize = 0;
        while i < seats
            invariant
                i <= seats,
                pockets@.len() == i,
                forall|j: int| 0 <= j < i ==> (#[trigger] pockets@[j])@.len() == 0,
            decreases seats - i,
        {
            pockets.push(Vec::new());
            i += 1;
        }
        Dealer { deck: Deck::new(), board_cards: Vec::new(), pocket_cards: pockets }
    }

    /// Draw `cards_num` cards and append them to the pocket slot of the
    /// seat at `position`, returning them. Fails with
    /// `InsufficientCards`, changing nothing, exactly when the deck
    /// cannot supply that many cards.
    pub fn deal_pocket_cards(&mut self, position: usize, cards_num: usize) -> (r: Result<
        Cards,
        EngineError,
    >)
        requires
            old(self).deck.wf(),
            position < old(self).pocket_cards@.len(),
        ensures
            final(self).deck.wf(),
            final(self).board_cards == old(self).board_cards,
            final(self).pocket_cards@.len() == old(self).pocket_cards@.len(),
            match r {
                Ok(cs) => {
                    &&& cs@.len() == cards_num
                    &&& final(self).pocket_cards@[position as int]@ == old(
                        self,
                    ).pocket_cards@[position as int]@ + cs@
                    &&& forall|i: int|
                        0 <= i < old(self).pocket_cards@.len() && i != position
                            ==> final(self).pocket_cards@[i] == old(self).pocket_cards@[i]
                    &&& forall|c: Card|
                        cs@.to_multiset().count(c) > 0 ==> old(
                            self,
                        ).deck.dealt@.to_multiset().count(c) == 0
                },
                Err(e) => {
                    &&& e == EngineError::InsufficientCards
                    &&& cards_num > old(self).deck.cards@.len() + old(self).deck.burned@.len()
                    &&& *final(self) == *old(self)
                },
            },
    {
        let cs = match self.deck.deal(cards_num) {
            Ok(cs) => cs,
            Err(e) => {
                return Err(e);
            },
        };
        let ghost mid = *self;
        let mut slot = self.pocket_cards.remove(position);
        let ghost pre_slot = slot@;
        let mut i: usize = 0;
        while i < cs.len()
            invariant
                i <= cs@.len(),
                slot@ == pre_slot + cs@.take(i as int),
            decreases cs@.len() - i,
        {
            slot.push(cs[i]);
            proof {
                assert(slot@ =~= pre_slot + cs@.take(i + 1));
            }
            i += 1;
        }
        proof {
            assert(cs@.take(cs@.len() as int) =~= cs@);
        }
        self.pocket_cards.insert(position, slot);
        proof {
            assert forall|i2: int|
                0 <= i2 < mid.pocket_cards@.len() && i2 != position implies self.pocket_cards@[i2]
                == mid.pocket_cards@[i2] by {
                if i2 < position {
                    assert(self.pocket_cards@[i2] == mid.pocket_cards@.remove(
                        position as int,
                    )[i2]);
                } else {
                    assert(self.pocket_cards@[i2] == mid.pocket_cards@.remove(
                        position as int,
                    )[i2 - 1]);
                }
            }
        }
        Ok(cs)
    }

    /// Burn one card, then draw `cards_num` cards onto the shared board,
    /// returning them. Fails with `InsufficientCards`, changing nothing,
    /// exactly when the deck cannot supply the burn card and that many
    /// board cards.
    pub fn deal_board_cards(&mut self, cards_num: usize) -> (r: Result<Cards, EngineError>)
        requires
            old(self).deck.wf(),
        ensures
            final(self).deck.wf(),
            final(self).pocket_cards == old(self).pocket_cards,
            match r {
                Ok(cs) => {
                    &&& cs@.len() == cards_num
                    &&& final(self).board_cards@ == old(self).board_cards@ + cs@
                    &&& forall|c: Card|
                        cs@.to_multiset().count(c) > 0 ==> old(
                            self,
                        ).deck.dealt@.to_multiset().count(c) == 0
                },
                Err(e) => {
                    &&& e == EngineError::InsufficientCards
                    &&& (old(self).deck.cards@.len() == 0 || cards_num > old(
                        self,
                    ).deck.cards@.len() - 1 + old(self).deck.burned@.len())
                    &&& *final(self) == *old(self)
                },
            },
    {
        let live = self.deck.cards.len();
        let burned = self.deck.burned.len();
        if live == 0 || (cards_num > live - 1 && cards_num - (live - 1) > burned) {
            return Err(EngineError::InsufficientCards);
        }
        self.deck.burn(1);
        let cs = match self.deck.deal(cards_num) {
            Ok(cs) => cs,
            Err(_) => {
                proof {
                    assert(false);
                }
                vstd::pervasive::unreached()
            },
        };
        let ghost pre_board = self.board_cards@;
        let ghost mid = *self;
        let mut i: usize = 0;
        while i < cs.len()
            invariant
                i <= cs@.len(),
                self.board_cards@ == pre_board + cs@.take(i as int),
                self.deck == mid.deck,
                self.pocket_cards == mid.pocket_cards,
            decreases cs@.len() - i,
        {
            self.board_cards.push(cs[i]);
            proof {
                assert(self.board_cards@ =~= pre_board + cs@.take(i + 1));
            }
            i += 1;
        }
        proof {
            assert(cs@.take(cs@.len() as int) =~= cs@);
        }
        Ok(cs)
    }

    /// Exchange the given cards of the seat at `position` for fresh ones:
    /// the deck discards and replaces them, and the pocket slot swaps the
    /// old cards for the replacements. Fails with `InsufficientCards`,
    /// changing nothing, exactly when the deck cannot supply that many
    /// replacements.
    pub fn discard_cards(&mut self, cards: &Cards, position: usize) -> (r: Result<
        Cards,
        EngineError,
    >)
        requires
            old(self).deck.wf(),
            position < old(self).pocket_cards@.len(),
            cards@.to_multiset().subset_of(old(self).deck.dealt@.to_multiset()),
            cards@.to_multiset().subset_of(old(self).pocket_cards@[position as int]@.to_multiset()),
        ensures
            final(self).deck.wf(),
            final(self).board_cards == old(self).board_cards,
            final(self).pocket_cards@.len() == old(self).pocket_cards@.len(),
            match r {
                Ok(repl) => {
                    &&& repl@.len() == cards@.len()
                    &&& forall|c: Card|
                        repl@.to_multiset().count(c) > 0 ==> old(
                            self,
                        ).deck.dealt@.to_multiset().count(c) == 0
                    &&& final(self).pocket_cards@[position as int]@.to_multiset() == old(
                        self,
                    ).pocket_cards@[position as int]@.to_multiset().sub(
                        cards@.to_multiset(),
                    ).add(repl@.to_multiset())
                    &&& forall|i: int|
                        0 <= i < old(self).pocket_cards@.len() && i != position
                            ==> final(self).pocket_cards@[i] == old(self).pocket_cards@[i]
                },
                Err(e) => {
                    &&& e == EngineError::InsufficientCards
                    &&& cards@.len() > old(self).deck.cards@.len() + old(self).deck.burned@.len()
                    &&& *final(self) == *old(self)
                },
            },
    {
        let repl = match self.deck.discard(cards) {
            Ok(repl) => repl,
            Err(e) => {
                return Err(e);
            },
        };
        let ghost mid = *self;
        let mut slot = self.pocket_cards.remove(position);
        let ghost pre_slot = slot@;
        proof {
            assert(cards@.skip(0) =~= cards@);
            assert(pre_slot.to_multiset().sub(cards@.take(0).to_multiset())
                =~= pre_slot.to_multiset());
        }
        // Remove the discarded cards from the seat's pocket slot.
        let mut i: usize = 0;
        while i < cards.len()
            invariant
                i <= cards@.len(),
                slot@.to_multiset() == pre_slot.to_multiset().sub(
                    cards@.take(i as int).to_multiset(),
                ),
                cards@.skip(i as int).to_multiset().subset_of(slot@.to_multiset()),
            decreases cards@.len() - i,
        {
            let c = cards[i];
            proof {
                assert(cards@.skip(i as int)[0] == cards@[i as int]);
                assert(cards@.skip(i as int).to_multiset().count(c) > 0);
                assert(slot@.to_multiset().count(c) > 0);
                assert(slot@.contains(c));
            }
            let found = crate::deck::remove_first(&mut slot, c);
            proof {
                assert(found);
                assert(cards@.take(i + 1) =~= cards@.take(i as int).push(c));
                assert(cards@.take(i + 1).to_multiset() == cards@.take(
                    i as int,
                ).to_multiset().insert(c));
                assert(slot@.to_multiset() =~= pre_slot.to_multiset().sub(
                    cards@.take(i + 1).to_multiset(),
                ));
                assert(cards@.skip(i as int).remove(0) =~= cards@.skip(i + 1));
                assert(cards@.skip(i + 1).to_multiset() == cards@.skip(
                    i as int,
                ).to_multiset().remove(c));
            }
            i += 1;
        }
        proof {
            assert(cards@.take(cards@.len() as int) =~= cards@);
        }
        // Append the replacements.
        let ghost pre_slot2 = slot@;
        let mut i: usize = 0;
        while i < repl.len()
            invariant
                i <= repl@.len(),
                slot@ == pre_slot2 + repl@.take(i as int),
            decreases repl@.len() - i,
        {
            slot.push(repl[i]);
            proof {
                assert(slot@ =~= pre_slot2 + repl@.take(i + 1));
            }
            i += 1;
        }
        proof {
            assert(repl@.take(repl@.len() as int) =~= repl@);
            vstd::seq_lib::lemma_multiset_commutative(pre_slot2, repl@);
        }
        self.pocket_cards.insert(position, slot);
        proof {
            assert forall|i2: int|
                0 <= i2 < mid.pocket_cards@.len() && i2 != position implies self.pocket_cards@[i2]
                == mid.pocket_cards@[i2] by {
                if i2 < position {
                    assert(self.pocket_cards@[i2] == mid.pocket_cards@.remove(
                        position as int,
                    )[i2]);
                } else {
                    assert(self.pocket_cards@[i2] == mid.pocket_cards@.remove(
                        position as int,
                    )[i2 - 1]);
                }
            }
        }
        Ok(repl)
    }
}

} // verus!

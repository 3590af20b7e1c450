//! The deck and its card pools. A deck owns four disjoint pools — `cards`
//! (live, drawable), `dealt`, `discarded` and `burned` — whose union is the
//! full 52-card set at all times: cards are only ever moved between pools,
//! never created or destroyed.

use vstd::prelude::*;
use vstd::multiset::Multiset;

use rand::seq::SliceRandom;

use crate::card::{Card, Cards};
use crate::error::EngineError;
use crate::kind::{Kind, kind_index, kind_of_index};
use crate::suit::{Suit, suit_index, suit_of_index};

verus! {

broadcast use vstd::multiset::group_multiset_axioms, vstd::seq_lib::group_to_multiset_ensures;

/// The canonical 52-card sequence: suits in canonical order, and within
/// each suit the thirteen kinds in canonical order.
pub open spec fn full_deck_seq() -> Seq<Card> {
    Seq::new(
        52,
        |i: int| Card { kind: kind_of_index(i % 13), suit: suit_of_index(i / 13) },
    )
}

/// The canonical 52-card set, as a multiset.
pub open spec fn full_deck_ms() -> Multiset<Card> {
    full_deck_seq().to_multiset()
}

/// The canonical deck has no duplicates.
pub proof fn lemma_full_deck_no_duplicates()
    ensures
        full_deck_seq().no_duplicates(),
{
    let s = full_deck_seq();
    assert forall|i: int, j: int| 0 <= i < s.len() && 0 <= j < s.len() && i != j implies s[i]
        != s[j] by {
        if s[i] == s[j] {
            assert(kind_index(kind_of_index(i % 13)) == i % 13);
            assert(kind_index(kind_of_index(j % 13)) == j % 13);
            assert(suit_index(suit_of_index(i / 13)) == i / 13);
            assert(suit_index(suit_of_index(j / 13)) == j / 13);
            assert(i == 13 * (i / 13) + i % 13);
            assert(j == 13 * (j / 13) + j % 13);
        }
    }
}

/// Every card value occurs exactly once in the canonical deck.
pub proof fn lemma_full_deck_count(c: Card)
    ensures
        full_deck_ms().count(c) == 1,
{
    let s = full_deck_seq();
    let idx = 13 * suit_index(c.suit) + kind_index(c.kind);
    assert(idx % 13 == kind_index(c.kind) && idx / 13 == suit_index(c.suit)) by (nonlinear_arith)
        requires
            0 <= kind_index(c.kind) < 13,
            0 <= suit_index(c.suit) < 4,
            idx == 13 * suit_index(c.suit) + kind_index(c.kind),
    ;
    assert(s[idx] == c);
    assert(s.contains(c));
    assert(s.to_multiset().count(c) > 0);
    lemma_full_deck_no_duplicates();
    s.lemma_multiset_has_no_duplicates();
}

/// A fresh, unshuffled deck: the canonical 52-card sequence.
pub fn new() -> (r: Cards)
    ensures
        r@ == full_deck_seq(),
{
    let mut result: Cards = Vec::new();
    let mut i: usize = 0;
    while i < 52
        invariant
            i <= 52,
            result@ =~= full_deck_seq().take(i as int),
        decreases 52 - i,
    {
        let kind = Kind::from_index((i % 13) as u8);
        let suit = Suit::from_index((i / 13) as u8);
        result.push(Card { kind, suit });
        proof {
            assert(result@ =~= full_deck_seq().take(i + 1));
        }
        i += 1;
    }
    proof {
        assert(result@ =~= full_deck_seq());
    }
    result
}

/// Relies on rand's `SliceRandom::shuffle`: an in-place permutation of the
/// slice, picked uniformly at random. Whatever permutation comes out, the
/// multiset of elements is unchanged.
#[verifier::external_body]
fn shuffle_in_place(cards: &mut Cards)
    ensures
        final(cards)@.to_multiset() == old(cards)@.to_multiset(),
{
    cards.shuffle(&mut rand::rng());
}

/// A uniformly random permutation of the given cards.
pub fn shuffle(cards: Cards) -> (r: Cards)
    ensures
        r@.to_multiset() == cards@.to_multiset(),
        r@.len() == cards@.len(),
{
    let mut shuffled = cards;
    shuffle_in_place(&mut shuffled);
    proof {
        assert(cards@.to_multiset().len() == cards@.len());
        assert(shuffled@.to_multiset().len() == shuffled@.len());
    }
    shuffled
}

/// A full 52-card deck in uniformly random order.
pub fn default() -> (r: Cards)
    ensures
        r@.to_multiset() == full_deck_ms(),
        r@.len() == 52,
{
    shuffle(new())
}

/// A deck and its four card pools. `cards` holds the live (drawable)
/// cards in draw order; `dealt` the cards currently in play; `discarded`
/// and `burned` the cards out of play. See [`Deck::wf`].
#[derive(Debug)]
pub struct Deck {
    pub cards: Cards,
    pub dealt: Cards,
    pub discarded: Cards,
    pub burned: Cards,
}

impl Deck {
    /// The multiset union of the four pools.
    pub open spec fn pool_union(self) -> Multiset<Card> {
        self.cards@.to_multiset().add(self.dealt@.to_multiset()).add(
            self.discarded@.to_multiset(),
        ).add(self.burned@.to_multiset())
    }

    /// Well-formedness: the pools together hold exactly the canonical
    /// 52-card set — each card value exactly once, split across the pools.
    pub open spec fn wf(self) -> bool {
        self.pool_union() == full_deck_ms()
    }

    /// A fresh deck: all 52 cards live and shuffled, the other pools
    /// empty.
    pub fn new() -> (r: Deck)
        ensures
            r.wf(),
            r.cards@.len() == 52,
            r.dealt@ == Seq::<Card>::empty(),
            r.discarded@ == Seq::<Card>::empty(),
            r.burned@ == Seq::<Card>::empty(),
    {
        let deck = Deck {
            cards: default(),
            dealt: Vec::new(),
            discarded: Vec::new(),
            burned: Vec::new(),
        };
        proof {
            assert(deck.pool_union() =~= full_deck_ms());
        }
        deck
    }

    /// Remove and return the first `n` live cards, in order.
    pub fn drop(&mut self, n: usize) -> (r: Cards)
        requires
            n <= old(self).cards@.len(),
        ensures
            r@ == old(self).cards@.take(n as int),
            final(self).cards@ == old(self).cards@.skip(n as int),
            final(self).dealt == old(self).dealt,
            final(self).discarded == old(self).discarded,
            final(self).burned == old(self).burned,
            old(self).cards@.to_multiset() == r@.to_multiset().add(
                final(self).cards@.to_multiset(),
            ),
    {
        let mut tail = self.cards.split_off(n);
        core::mem::swap(&mut self.cards, &mut tail);
        proof {
            assert(tail@ == old(self).cards@.take(n as int));
            assert(old(self).cards@ =~= tail@ + final(self).cards@);
            vstd::seq_lib::lemma_multiset_commutative(tail@, final(self).cards@);
        }
        tail
    }

    /// Fold the burn pile back into the live pool and reshuffle the live
    /// pool. The dealt and discarded pools are never touched.
    pub fn reshuffle(&mut self)
        ensures
            final(self).cards@.to_multiset() == old(self).cards@.to_multiset().add(
                old(self).burned@.to_multiset(),
            ),
            final(self).cards@.len() == old(self).cards@.len() + old(self).burned@.len(),
            final(self).burned@ == Seq::<Card>::empty(),
            final(self).dealt == old(self).dealt,
            final(self).discarded == old(self).discarded,
            final(self).pool_union() == old(self).pool_union(),
            old(self).wf() ==> final(self).wf(),
    {
        self.cards.append(&mut self.burned);
        proof {
            vstd::seq_lib::lemma_multiset_commutative(old(self).cards@, old(self).burned@);
        }
        shuffle_in_place(&mut self.cards);
        proof {
            assert((old(self).cards@ + old(self).burned@).to_multiset().len() == (old(self).cards@
                + old(self).burned@).len());
            assert(final(self).cards@.to_multiset().len() == final(self).cards@.len());
            assert(final(self).pool_union() =~= old(self).pool_union());
        }
    }

    /// Draw `n` cards: remove the first `n` live cards and move them to
    /// the dealt pool, reshuffling the burn pile back in first if the live
    /// pool alone is too small. Fails with `InsufficientCards`, leaving
    /// the deck unchanged, exactly when `n` exceeds live plus burned.
    pub fn deal(&mut self, n: usize) -> (r: Result<Cards, EngineError>)
        requires
            old(self).wf(),
        ensures
            final(self).wf(),
            final(self).pool_union() == old(self).pool_union(),
            match r {
                Ok(cs) => {
                    &&& n <= old(self).cards@.len() + old(self).burned@.len()
                    &&& cs@.len() == n
                    &&& final(self).dealt@ == old(self).dealt@ + cs@
                    &&& final(self).discarded == old(self).discarded
                    &&& final(self).cards@.to_multiset().add(final(self).burned@.to_multiset()).add(
                        cs@.to_multiset(),
                    ) == old(self).cards@.to_multiset().add(old(self).burned@.to_multiset())
                    &&& forall|c: Card|
                        cs@.to_multiset().count(c) > 0 ==> old(self).dealt@.to_multiset().count(c)
                            == 0
                },
                Err(e) => {
                    &&& e == EngineError::InsufficientCards
                    &&& n > old(self).cards@.len() + old(self).burned@.len()
                    &&& *final(self) == *old(self)
                },
            },
    {
        let n_live = self.cards.len();
        if n > n_live && n - n_live > self.burned.len() {
            return Err(EngineError::InsufficientCards);
        }
        if n > n_live {
            self.reshuffle();
        }
        let ghost pre = *self;
        let cs = self.drop(n);
        let mut i: usize = 0;
        while i < cs.len()
            invariant
                i <= cs.len(),
                self.cards@ == pre.cards@.skip(n as int),
                self.discarded == pre.discarded,
                self.burned == pre.burned,
                self.dealt@ == pre.dealt@ + cs@.take(i as int),
                cs@ == pre.cards@.take(n as int),
                n <= pre.cards@.len(),
            decreases cs.len() - i,
        {
            let c = cs[i];
            self.dealt.push(c);
            proof {
                assert(self.dealt@ =~= pre.dealt@ + cs@.take(i + 1));
            }
            i += 1;
        }
        proof {
            assert(cs@ =~= cs@.take(cs@.len() as int));
            assert(self.dealt@ =~= pre.dealt@ + cs@);
            vstd::seq_lib::lemma_multiset_commutative(pre.dealt@, cs@);
            assert(final(self).pool_union() =~= old(self).pool_union());
            assert forall|c: Card| cs@.to_multiset().count(c) > 0 implies old(
                self,
            ).dealt@.to_multiset().count(c) == 0 by {
                lemma_full_deck_count(c);
            }
        }
        Ok(cs)
    }

    /// Move the first `n` live cards to the burn pile without returning
    /// them.
    pub fn burn(&mut self, n: usize)
        requires
            n <= old(self).cards@.len(),
        ensures
            final(self).cards@ == old(self).cards@.skip(n as int),
            final(self).burned@ == old(self).burned@ + old(self).cards@.take(n as int),
            final(self).dealt == old(self).dealt,
            final(self).discarded == old(self).discarded,
            final(self).pool_union() == old(self).pool_union(),
            old(self).wf() ==> final(self).wf(),
    {
        let ghost pre = *self;
        let mut dropped = self.drop(n);
        let ghost taken = dropped@;
        self.burned.append(&mut dropped);
        proof {
            vstd::seq_lib::lemma_multiset_commutative(pre.burned@, taken);
            assert(final(self).pool_union() =~= old(self).pool_union());
        }
    }

    /// Discard-and-replace: draw `len(old_cards)` replacements (folding
    /// the burn pile back in first if the live pool alone is too small),
    /// move `old_cards` out of the dealt pool into the burn pile, and
    /// return the replacements. The discarded cards are appended to the
    /// burn pile only after the draw, so they are never redrawable within
    /// the same call; more strongly, no replacement card was in any dealt
    /// hand when the call started.
    pub fn discard(&mut self, old_cards: &Cards) -> (r: Result<Cards, EngineError>)
        requires
            old(self).wf(),
            old_cards@.to_multiset().subset_of(old(self).dealt@.to_multiset()),
        ensures
            final(self).wf(),
            final(self).pool_union() == old(self).pool_union(),
            match r {
                Ok(repl) => {
                    &&& old_cards@.len() <= old(self).cards@.len() + old(self).burned@.len()
                    &&& repl@.len() == old_cards@.len()
                    &&& forall|c: Card|
                        repl@.to_multiset().count(c) > 0 ==> old(
                            self,
                        ).dealt@.to_multiset().count(c) == 0
                    &&& final(self).dealt@.to_multiset() == old(self).dealt@.to_multiset().add(
                        repl@.to_multiset(),
                    ).sub(old_cards@.to_multiset())
                    &&& old_cards@.to_multiset().subset_of(final(self).burned@.to_multiset())
                    &&& final(self).discarded == old(self).discarded
                },
                Err(e) => {
                    &&& e == EngineError::InsufficientCards
                    &&& old_cards@.len() > old(self).cards@.len() + old(self).burned@.len()
                    &&& *final(self) == *old(self)
                },
            },
    {
        let n = old_cards.len();
        let n_live = self.cards.len();
        if n > n_live && n - n_live > self.burned.len() {
            return Err(EngineError::InsufficientCards);
        }
        let repl = match self.deal(n) {
            Ok(cs) => cs,
            Err(_) => {
                return Err(EngineError::InsufficientCards);
            },
        };
        let ghost mid = *self;
        proof {
            assert(mid.burned@ + old_cards@.take(0) =~= mid.burned@);
        }
        // Move the discarded cards into the burn pile.
        let mut i: usize = 0;
        while i < old_cards.len()
            invariant
                i <= old_cards.len(),
                self.cards == mid.cards,
                self.dealt == mid.dealt,
                self.discarded == mid.discarded,
                self.burned@ == mid.burned@ + old_cards@.take(i as int),
            decreases old_cards.len() - i,
        {
            let c = old_cards[i];
            self.burned.push(c);
            proof {
                assert(self.burned@ =~= mid.burned@ + old_cards@.take(i + 1));
            }
            i += 1;
        }
        proof {
            assert(old_cards@.take(old_cards@.len() as int) =~= old_cards@);
            vstd::seq_lib::lemma_multiset_commutative(mid.burned@, old_cards@);
        }
        let ghost mid2 = *self;
        proof {
            assert(old_cards@.skip(0) =~= old_cards@);
            vstd::seq_lib::lemma_multiset_commutative(old(self).dealt@, repl@);
            assert(mid2.dealt@.to_multiset() == old(self).dealt@.to_multiset().add(
                repl@.to_multiset(),
            ));
            assert(old_cards@.to_multiset().subset_of(mid2.dealt@.to_multiset()));
            assert(mid2.dealt@.to_multiset().sub(old_cards@.take(0).to_multiset())
                =~= mid2.dealt@.to_multiset());
        }
        // Remove each discarded card from the dealt pool.
        let mut i: usize = 0;
        while i < old_cards.len()
            invariant
                i <= old_cards.len(),
                self.cards == mid2.cards,
                self.discarded == mid2.discarded,
                self.burned == mid2.burned,
                self.dealt@.to_multiset() == mid2.dealt@.to_multiset().sub(
                    old_cards@.take(i as int).to_multiset(),
                ),
                old_cards@.skip(i as int).to_multiset().subset_of(self.dealt@.to_multiset()),
            decreases old_cards.len() - i,
        {
            let ghost before = *self;
            let c = old_cards[i];
            proof {
                assert(old_cards@.skip(i as int)[0] == old_cards@[i as int]);
                assert(old_cards@.skip(i as int).to_multiset().count(c) > 0);
                assert(self.dealt@.to_multiset().count(c) > 0);
                assert(self.dealt@.contains(c));
            }
            let found = remove_first(&mut self.dealt, c);
            proof {
                assert(found);
                assert(old_cards@.take(i + 1) =~= old_cards@.take(i as int).push(c));
                assert(old_cards@.take(i + 1).to_multiset() == old_cards@.take(
                    i as int,
                ).to_multiset().insert(c));
                assert(self.dealt@.to_multiset() =~= mid2.dealt@.to_multiset().sub(
                    old_cards@.take(i + 1).to_multiset(),
                ));
                assert(old_cards@.skip(i as int).remove(0) =~= old_cards@.skip(i + 1));
                assert(old_cards@.skip(i + 1).to_multiset() == old_cards@.skip(
                    i as int,
                ).to_multiset().remove(c));
            }
            i += 1;
        }
        proof {
            assert(old_cards@.take(old_cards@.len() as int) =~= old_cards@);
            assert(final(self).dealt@.to_multiset() == mid2.dealt@.to_multiset().sub(
                old_cards@.to_multiset(),
            ));
            assert(old_cards@.to_multiset().subset_of(mid2.dealt@.to_multiset()));
            assert(final(self).pool_union() =~= old(self).pool_union());
        }
        Ok(repl)
    }
}

/// Remove the first occurrence of `target` from `cards`, if any.
pub(crate) fn remove_first(cards: &mut Cards, target: Card) -> (found: bool)
    ensures
        found == old(cards)@.contains(target),
        found ==> final(cards)@.to_multiset() == old(cards)@.to_multiset().remove(target),
        !found ==> final(cards)@ == old(cards)@,
{
    let mut i: usize = 0;
    while i < cards.len()
        invariant
            i <= cards@.len(),
            cards@ == old(cards)@,
            forall|j: int| 0 <= j < i ==> cards@[j] != target,
        decreases cards@.len() - i,
    {
        if cards[i] == target {
            cards.remove(i);
            return true;
        }
        i += 1;
    }
    false
}

} // verus!

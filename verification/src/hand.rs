//! Classified hands and their total order. A `Hand` is an owned snapshot
//! produced by a classifier: the card set it was built from, the value cards that
//! define its category, the kicker cards that break remaining ties, and
//! the category tag. Hands of one discipline are compared first by
//! category, then value cards, then kickers.

use vstd::prelude::*;
use core::cmp::Ordering;

use crate::card::{Card, Cards};
use crate::compare::{compare_keys, key_ints, lex_cmp};
use crate::compare;
use crate::game::AceRanking;
use crate::kind::spec_kind_key;
use crate::rank::{Rank, cat_index, same_discipline};

verus! {

/// A classified hand: an owned snapshot of the card set it was built
/// from, its category-defining value cards, its tie-breaking kickers, the
/// category tag, and the discipline it was classified under.
#[derive(Clone, Debug)]
pub struct Hand {
    pub cards: Cards,
    pub value: Cards,
    pub kicker: Cards,
    pub rank: Rank,
    pub ranking: AceRanking,
}

/// Strength contribution of one card under a hand's discipline: for the
/// high discipline a higher order key is stronger; for the lowball and
/// badugi disciplines a lower order key is stronger, so the key is
/// mirrored.
pub open spec fn strength_key(c: Card, r: Rank, rk: AceRanking) -> int {
    match r {
        Rank::High(_) => spec_kind_key(c.kind, rk),
        _ => 12 - spec_kind_key(c.kind, rk),
    }
}

/// The comparison key of a hand: category strength first, then the value
/// cards' strengths in order, then the kickers' strengths in order. Two
/// hands of one discipline compare exactly as their keys compare
/// lexicographically.
pub open spec fn hand_key(h: Hand) -> Seq<int> {
    seq![cat_index(h.rank)] + h.value@.map_values(|c: Card| strength_key(c, h.rank, h.ranking))
        + h.kicker@.map_values(|c: Card| strength_key(c, h.rank, h.ranking))
}

impl Hand {
    /// The value cards: the cards that earned the hand its category,
    /// strongest group first.
    pub fn meaningful_high(&self) -> (r: &Cards)
        ensures
            r == &self.value,
    {
        &self.value
    }

    /// The kicker cards: the cards outside the value set, compared only
    /// when the value cards tie.
    pub fn meaningful_kicker(&self) -> (r: &Cards)
        ensures
            r == &self.kicker,
    {
        &self.kicker
    }
}

/// Append the strength keys of the given cards to a key vector.
fn push_strength_keys(out: &mut Vec<u8>, cards: &Cards, rank: &Rank, ranking: AceRanking)
    ensures
        key_ints(final(out)@) == key_ints(old(out)@) + cards@.map_values(
            (|c: Card| strength_key(c, *rank, ranking)),
        ),
{
    let high = match rank {
        Rank::High(_) => true,
        _ => false,
    };
    let mut i: usize = 0;
    while i < cards.len()
        invariant
            i <= cards@.len(),
            out@.len() == old(out)@.len() + i,
            high == (*rank matches Rank::High(_)),
            forall|j: int| 0 <= j < old(out)@.len() ==> out@[j] == old(out)@[j],
            forall|j: int|
                0 <= j < i ==> #[trigger] out@[old(out)@.len() + j] as int == strength_key(
                    cards@[j],
                    *rank,
                    ranking,
                ),
        decreases cards@.len() - i,
    {
        let k = cards[i].order_key(ranking);
        if high {
            out.push(k);
        } else {
            out.push(12 - k);
        }
        i += 1;
    }
    proof {
        let m = cards@.map_values(|c: Card| strength_key(c, *rank, ranking));
        assert forall|idx: int|
            0 <= idx < out@.len() implies key_ints(out@)[idx] == (key_ints(old(out)@) + m)[
            idx] by {
            if idx >= old(out)@.len() {
                let j = idx - old(out)@.len();
                assert(out@[old(out)@.len() + j] as int == strength_key(cards@[j], *rank, ranking));
            }
        }
        assert(key_ints(out@) =~= key_ints(old(out)@) + m);
    }
}

/// The comparison key of a hand, as a key vector.
fn hand_key_vec(h: &Hand) -> (r: Vec<u8>)
    ensures
        key_ints(r@) == hand_key(*h),
{
    let mut out: Vec<u8> = Vec::new();
    out.push(h.rank.category_index());
    proof {
        assert(key_ints(out@) =~= seq![cat_index(h.rank)]);
    }
    push_strength_keys(&mut out, &h.value, &h.rank, h.ranking);
    push_strength_keys(&mut out, &h.kicker, &h.rank, h.ranking);
    out
}

/// Compare two hands classified under the same discipline: by category
/// strength, then value cards, then kickers; `Equal` is a genuine tie.
pub fn compare_hands(a: &Hand, b: &Hand) -> (r: Ordering)
    requires
        same_discipline(a.rank, b.rank),
        a.ranking == b.ranking,
    ensures
        r == lex_cmp(hand_key(*a), hand_key(*b)),
{
    let ka = hand_key_vec(a);
    let kb = hand_key_vec(b);
    compare_keys(&ka, &kb)
}

/// The hand order is transitive: under one discipline, if `a` beats `b`
/// and `b` beats `c`, then `a` beats `c`.
pub proof fn lemma_hand_order_transitive(a: Hand, b: Hand, c: Hand)
    requires
        lex_cmp(hand_key(a), hand_key(b)) == Ordering::Greater,
        lex_cmp(hand_key(b), hand_key(c)) == Ordering::Greater,
    ensures
        lex_cmp(hand_key(a), hand_key(c)) == Ordering::Greater,
{
    compare::lemma_lex_cmp_transitive(hand_key(a), hand_key(b), hand_key(c));
}

/// The hand order is total and antisymmetric: swapping the operands
/// reverses the outcome, and two hands compare equal exactly when their
/// comparison keys coincide.
pub proof fn lemma_hand_order_total(a: Hand, b: Hand)
    ensures
        (lex_cmp(hand_key(a), hand_key(b)) == Ordering::Less) <==> (lex_cmp(
            hand_key(b),
            hand_key(a),
        ) == Ordering::Greater),
        (lex_cmp(hand_key(a), hand_key(b)) == Ordering::Equal) <==> hand_key(a) == hand_key(b),
        lex_cmp(hand_key(a), hand_key(b)) == Ordering::Less || lex_cmp(hand_key(a), hand_key(b))
            == Ordering::Equal || lex_cmp(hand_key(a), hand_key(b)) == Ordering::Greater,
{
    compare::lemma_lex_cmp_flip(hand_key(a), hand_key(b));
    compare::lemma_lex_cmp_equal(hand_key(a), hand_key(b));
}

} // verus!

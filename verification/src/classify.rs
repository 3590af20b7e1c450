//! Hand-category classifiers. Each discipline evaluates an ordered list
//! of category detectors from strongest to weakest and takes the first
//! match, producing the value cards and kickers that its comparator
//! needs.

use vstd::prelude::*;

use core::cmp::Ordering;

use crate::card::{Card, Cards};
use crate::compare::{compare_keys, key_ints, lemma_lex_cmp_equal, lemma_lex_cmp_flip,
    lemma_lex_cmp_transitive, lex_cmp};
use crate::error::EngineError;
use crate::game::AceRanking;
use crate::groups::{
    count_kind, kind_counts, lemma_select_kind_step, select_kind, select_other,
};
use crate::hand::Hand;
use crate::kind::{kind_index, spec_kind_key};
use crate::rank::{Badugi, High, Low, Rank};

verus! {

broadcast use vstd::multiset::group_multiset_axioms, vstd::seq_lib::group_to_multiset_ensures;

/// All cards share one suit.
pub open spec fn spec_is_flush(s: Seq<Card>) -> bool {
    forall|i: int| 0 <= i < s.len() ==> (#[trigger] s[i]).suit == s[0].suit
}

/// No two cards share a face value.
pub open spec fn spec_distinct_kinds(s: Seq<Card>) -> bool {
    forall|i: int, j: int| 0 <= i < j < s.len() ==> s[i].kind != s[j].kind
}

/// Some face value occurs exactly `n` times.
pub open spec fn has_count(s: Seq<Card>, n: int) -> bool {
    exists|k: int| 0 <= k < 13 && #[trigger] count_kind(s, k) == n
}

/// A three-of-a-kind and a pair of another face value.
pub open spec fn spec_full_house(s: Seq<Card>) -> bool {
    exists|t: int, p: int|
        #![trigger count_kind(s, t), count_kind(s, p)]
        0 <= t < 13 && 0 <= p < 13 && t != p && count_kind(s, t) == 3 && count_kind(s, p) == 2
}

/// Pairs of two different face values.
pub open spec fn spec_two_pair(s: Seq<Card>) -> bool {
    exists|a: int, b: int|
        #![trigger count_kind(s, a), count_kind(s, b)]
        0 <= a < 13 && 0 <= b < 13 && a != b && count_kind(s, a) == 2 && count_kind(s, b) == 2
}

/// Five consecutive face values ending at canonical index `top`, one card
/// each.
pub open spec fn run5(s: Seq<Card>, top: int) -> bool {
    &&& count_kind(s, top) == 1
    &&& count_kind(s, top - 1) == 1
    &&& count_kind(s, top - 2) == 1
    &&& count_kind(s, top - 3) == 1
    &&& count_kind(s, top - 4) == 1
}

/// The wheel: ace, deuce, three, four, five — the ace plays low, and the
/// straight ranks as five-high, the lowest possible straight.
pub open spec fn spec_wheel(s: Seq<Card>) -> bool {
    &&& count_kind(s, 12) == 1
    &&& count_kind(s, 0) == 1
    &&& count_kind(s, 1) == 1
    &&& count_kind(s, 2) == 1
    &&& count_kind(s, 3) == 1
}

/// Five consecutive face values, with the ace allowed to complete the
/// low-end wheel.
pub open spec fn spec_is_straight(s: Seq<Card>) -> bool {
    spec_wheel(s) || exists|top: int| 4 <= top <= 12 && #[trigger] run5(s, top)
}

/// The high-hand category of a five-card set: the detectors are tried
/// from strongest to weakest and the first match decides.
pub open spec fn spec_high_category(s: Seq<Card>) -> High {
    if spec_is_flush(s) && spec_is_straight(s) {
        High::StraightFlush
    } else if has_count(s, 4) {
        High::FourKind
    } else if spec_full_house(s) {
        High::FullHouse
    } else if spec_is_flush(s) {
        High::Flush
    } else if spec_is_straight(s) {
        High::Straight
    } else if has_count(s, 3) {
        High::ThreeKind
    } else if spec_two_pair(s) {
        High::TwoPair
    } else if has_count(s, 2) {
        High::OnePair
    } else {
        High::HighCard
    }
}

/// Cards in weakly decreasing order of their order key under a
/// discipline.
pub open spec fn sorted_desc_by(q: Seq<Card>, rk: AceRanking) -> bool {
    forall|i: int, j: int|
        0 <= i < j < q.len() ==> spec_kind_key(q[i].kind, rk) >= spec_kind_key(q[j].kind, rk)
}

/// The kind keys of a card list under the default high convention.
pub open spec fn high_keys(q: Seq<Card>) -> Seq<int> {
    q.map_values(|c: Card| kind_index(c.kind))
}

/// An owned copy of a card list.
pub fn copy_cards(cards: &Cards) -> (r: Cards)
    ensures
        r@ == cards@,
{
    let mut r: Cards = Vec::new();
    let mut i: usize = 0;
    while i < cards.len()
        invariant
            i <= cards@.len(),
            r@ == cards@.take(i as int),
        decreases cards@.len() - i,
    {
        r.push(cards[i]);
        proof {
            assert(r@ =~= cards@.take(i + 1));
        }
        i += 1;
    }
    proof {
        assert(cards@.take(cards@.len() as int) =~= cards@);
    }
    r
}

/// Whether all cards share one suit.
fn is_flush(cards: &Cards) -> (b: bool)
    ensures
        b == spec_is_flush(cards@),
{
    if cards.len() == 0 {
        return true;
    }
    let first = cards[0].suit;
    let mut i: usize = 0;
    while i < cards.len()
        invariant
            i <= cards@.len(),
            cards@.len() > 0,
            first == cards@[0].suit,
            forall|j: int| 0 <= j < i ==> (#[trigger] cards@[j]).suit == cards@[0].suit,
        decreases cards@.len() - i,
    {
        if !(cards[i].suit == first) {
            return false;
        }
        i += 1;
    }
    true
}

/// Whether no two cards share a face value.
fn distinct_kinds(cards: &Cards) -> (b: bool)
    ensures
        b == spec_distinct_kinds(cards@),
{
    let mut i: usize = 0;
    while i < cards.len()
        invariant
            i <= cards@.len(),
            forall|a: int, b_: int| 0 <= a < b_ < cards@.len() && a < i ==> cards@[a].kind != cards@[b_].kind,
        decreases cards@.len() - i,
    {
        let mut j: usize = i + 1;
        while j < cards.len()
            invariant
                i < j <= cards@.len() || (i as int == cards@.len() && j == i + 1),
                i < cards@.len(),
                forall|a: int, b_: int|
                    0 <= a < b_ < cards@.len() && a < i ==> cards@[a].kind != cards@[b_].kind,
                forall|b_: int| i < b_ < j ==> cards@[i as int].kind != cards@[b_].kind,
            decreases cards@.len() - j,
        {
            if cards[i].kind == cards[j].kind {
                return false;
            }
            j += 1;
        }
        i += 1;
    }
    true
}

/// The highest kind index whose count equals `n`, scanning below `upper`.
fn find_count_below(counts: &Vec<u8>, n: u8, upper: usize) -> (r: Option<usize>)
    requires
        counts@.len() == 13,
        upper <= 13,
    ensures
        match r {
            Some(k) => k < upper && counts@[k as int] == n && forall|j: int|
                k < j < upper ==> counts@[j] != n,
            None => forall|j: int| 0 <= j < upper ==> counts@[j] != n,
        },
{
    let mut k: usize = upper;
    while k > 0
        invariant
            k <= upper <= 13,
            counts@.len() == 13,
            forall|j: int| k <= j < upper ==> counts@[j] != n,
        decreases k,
    {
        k -= 1;
        if counts[k] == n {
            return Some(k);
        }
    }
    None
}

/// The highest kind index whose count equals `n`, if any.
fn find_count(counts: &Vec<u8>, n: u8) -> (r: Option<usize>)
    requires
        counts@.len() == 13,
    ensures
        match r {
            Some(k) => k < 13 && counts@[k as int] == n && forall|j: int|
                k < j < 13 ==> counts@[j] != n,
            None => forall|j: int| 0 <= j < 13 ==> counts@[j] != n,
        },
{
    find_count_below(counts, n, 13)
}

/// The cards whose kind has canonical index `k`, in input order.
fn collect_kind(cards: &Cards, k: u8) -> (r: Cards)
    ensures
        r@ == select_kind(cards@, k as int),
{
    let mut r: Cards = Vec::new();
    let mut i: usize = 0;
    while i < cards.len()
        invariant
            i <= cards@.len(),
            r@ == select_kind(cards@.take(i as int), k as int),
        decreases cards@.len() - i,
    {
        proof {
            lemma_select_kind_step(cards@, i as int, k as int);
        }
        if cards[i].kind.index() == k {
            r.push(cards[i]);
        }
        i += 1;
    }
    proof {
        assert(cards@.take(cards@.len() as int) =~= cards@);
    }
    r
}

/// The cards whose kind does not have canonical index `k`, in input
/// order.
fn collect_other(cards: &Cards, k: u8) -> (r: Cards)
    ensures
        r@ == select_other(cards@, k as int),
{
    let mut r: Cards = Vec::new();
    let mut i: usize = 0;
    while i < cards.len()
        invariant
            i <= cards@.len(),
            r@ == select_other(cards@.take(i as int), k as int),
        decreases cards@.len() - i,
    {
        proof {
            lemma_select_kind_step(cards@, i as int, k as int);
        }
        if cards[i].kind.index() != k {
            r.push(cards[i]);
        }
        i += 1;
    }
    proof {
        assert(cards@.take(cards@.len() as int) =~= cards@);
    }
    r
}

/// The first card of the kind with canonical index `k`; the count of that
/// kind must be positive.
fn find_kind_card(cards: &Cards, k: u8) -> (r: Card)
    requires
        count_kind(cards@, k as int) >= 1,
    ensures
        kind_index(r.kind) == k as int,
        cards@.contains(r),
{
    let mut i: usize = 0;
    while i < cards.len()
        invariant
            i <= cards@.len(),
            count_kind(cards@, k as int) >= 1,
            forall|j: int| 0 <= j < i ==> kind_index((#[trigger] cards@[j]).kind) != k as int,
        decreases cards@.len() - i,
    {
        if cards[i].kind.index() == k {
            return cards[i];
        }
        i += 1;
    }
    proof {
        lemma_select_contains(cards@, k as int);
        assert(false);
    }
    vstd::pervasive::unreached()
}

/// If a kind's count is positive, some card of that kind stands at an
/// index of the set.
proof fn lemma_select_contains(s: Seq<Card>, k: int)
    requires
        count_kind(s, k) >= 1,
    ensures
        exists|j: int| 0 <= j < s.len() && kind_index((#[trigger] s[j]).kind) == k,
    decreases s.len(),
{
    if s.len() > 0 {
        if kind_index(s.last().kind) == k {
            assert(0 <= s.len() - 1 < s.len() && kind_index(s[s.len() - 1].kind) == k);
        } else {
            lemma_select_contains(s.drop_last(), k);
            let j = choose|j: int|
                0 <= j < s.drop_last().len() && kind_index((#[trigger] s.drop_last()[j]).kind)
                    == k;
            assert(0 <= j < s.len() && kind_index(s[j].kind) == k);
        }
    }
}

/// The index of a card with the greatest order key under a discipline.
fn find_max_idx(v: &Cards, rk: AceRanking) -> (idx: usize)
    requires
        v@.len() > 0,
    ensures
        idx < v@.len(),
        forall|j: int|
            0 <= j < v@.len() ==> spec_kind_key(v@[idx as int].kind, rk) >= spec_kind_key(
                (#[trigger] v@[j]).kind,
                rk,
            ),
{
    let mut idx: usize = 0;
    let mut best = v[0].order_key(rk);
    let mut i: usize = 1;
    while i < v.len()
        invariant
            idx < i <= v@.len(),
            best as int == spec_kind_key(v@[idx as int].kind, rk),
            forall|j: int|
                0 <= j < i ==> best as int >= spec_kind_key((#[trigger] v@[j]).kind, rk),
        decreases v@.len() - i,
    {
        let k = v[i].order_key(rk);
        if k > best {
            best = k;
            idx = i;
        }
        i += 1;
    }
    idx
}

/// The cards in weakly decreasing order of their order key under a
/// discipline; the multiset of cards is unchanged.
pub fn sort_desc(cards: &Cards, rk: AceRanking) -> (r: Cards)
    ensures
        r@.to_multiset() == cards@.to_multiset(),
        r@.len() == cards@.len(),
        sorted_desc_by(r@, rk),
{
    let mut rest = copy_cards(cards);
    let mut out: Cards = Vec::new();
    while rest.len() > 0
        invariant
            out@.to_multiset().add(rest@.to_multiset()) == cards@.to_multiset(),
            out@.len() + rest@.len() == cards@.len(),
            sorted_desc_by(out@, rk),
            forall|i: int, j: int|
                0 <= i < out@.len() && 0 <= j < rest@.len() ==> spec_kind_key(
                    (#[trigger] out@[i]).kind,
                    rk,
                ) >= spec_kind_key((#[trigger] rest@[j]).kind, rk),
        decreases rest@.len(),
    {
        let ghost pre_out = out@;
        let ghost pre_rest = rest@;
        let idx = find_max_idx(&rest, rk);
        let c = rest.remove(idx);
        out.push(c);
        proof {
            assert(c == pre_rest[idx as int]);
            assert(rest@.to_multiset() == pre_rest.to_multiset().remove(c));
            assert(out@.to_multiset() == pre_out.to_multiset().insert(c));
            assert(out@.to_multiset().add(rest@.to_multiset()) =~= cards@.to_multiset());
            assert(forall|j: int|
                0 <= j < rest@.len() ==> (#[trigger] rest@[j]) == (if j < idx as int {
                    pre_rest[j]
                } else {
                    pre_rest[j + 1]
                }));
        }
    }
    proof {
        assert(rest@.to_multiset().len() == 0);
    }
    out
}

/// Whether the set is the wheel.
fn is_wheel(cards: &Cards, counts: &Vec<u8>) -> (b: bool)
    requires
        counts@.len() == 13,
        forall|k: int| 0 <= k < 13 ==> #[trigger] counts@[k] as int == count_kind(cards@, k),
    ensures
        b == spec_wheel(cards@),
{
    counts[12] == 1 && counts[0] == 1 && counts[1] == 1 && counts[2] == 1 && counts[3] == 1
}

/// The top kind index of a five-card run, if the set holds one.
fn straight_top(cards: &Cards, counts: &Vec<u8>) -> (r: Option<u8>)
    requires
        counts@.len() == 13,
        forall|k: int| 0 <= k < 13 ==> #[trigger] counts@[k] as int == count_kind(cards@, k),
    ensures
        match r {
            Some(top) => 4 <= top <= 12 && run5(cards@, top as int),
            None => forall|t: int| 4 <= t <= 12 ==> !(#[trigger] run5(cards@, t)),
        },
{
    let mut t: usize = 13;
    while t > 4
        invariant
            4 <= t <= 13,
            counts@.len() == 13,
            forall|k: int| 0 <= k < 13 ==> #[trigger] counts@[k] as int == count_kind(cards@, k),
            forall|u: int| t <= u <= 12 ==> !(#[trigger] run5(cards@, u)),
        decreases t,
    {
        t -= 1;
        if counts[t] == 1 && counts[t - 1] == 1 && counts[t - 2] == 1 && counts[t - 3] == 1
            && counts[t - 4] == 1 {
            return Some(t as u8);
        }
        proof {
            assert(!run5(cards@, t as int));
        }
    }
    None
}

/// The value cards of a straight: one card per face value of the run, top
/// first; for the wheel the ace comes last and the straight is five-high.
fn straight_value(cards: &Cards, wheel: bool, top: u8) -> (v: Cards)
    requires
        wheel == spec_wheel(cards@),
        !wheel ==> 4 <= top <= 12 && run5(cards@, top as int),
    ensures
        straight_value_ok(cards@, v@),
{
    let mut v: Cards = Vec::new();
    if wheel {
        v.push(find_kind_card(cards, 3));
        v.push(find_kind_card(cards, 2));
        v.push(find_kind_card(cards, 1));
        v.push(find_kind_card(cards, 0));
        v.push(find_kind_card(cards, 12));
        proof {
            assert(high_keys(v@) =~= seq![3int, 2, 1, 0, 12]);
        }
    } else {
        v.push(find_kind_card(cards, top));
        v.push(find_kind_card(cards, top - 1));
        v.push(find_kind_card(cards, top - 2));
        v.push(find_kind_card(cards, top - 3));
        v.push(find_kind_card(cards, top - 4));
        proof {
            assert(high_keys(v@) =~= seq![
                top as int,
                top as int - 1,
                top as int - 2,
                top as int - 3,
                top as int - 4,
            ]);
        }
    }
    v
}

/// What the value cards of a straight or straight flush look like: one
/// card from the set per face value of the run, strongest first, with the
/// wheel ranked five-high.
pub open spec fn straight_value_ok(s: Seq<Card>, v: Seq<Card>) -> bool {
    &&& v.len() == 5
    &&& forall|i: int| 0 <= i < 5 ==> s.contains(#[trigger] v[i])
    &&& if spec_wheel(s) {
        high_keys(v) == seq![3int, 2, 1, 0, 12]
    } else {
        exists|top: int|
            4 <= top <= 12 && #[trigger] run5(s, top) && high_keys(v) == seq![
                top,
                top - 1,
                top - 2,
                top - 3,
                top - 4,
            ]
    }
}

/// What the value and kicker cards of a classified high hand must be,
/// given its category: the category-defining cards in strongest-group
/// order, and the remaining cards, strongest first, as kickers.
pub open spec fn high_value_ok(s: Seq<Card>, cat: High, v: Seq<Card>, kick: Seq<Card>) -> bool {
    match cat {
        High::StraightFlush => straight_value_ok(s, v) && kick.len() == 0,
        High::FourKind => exists|k: int|
            #![trigger count_kind(s, k)]
            0 <= k < 13 && count_kind(s, k) == 4 && v == select_kind(s, k) && kick == select_other(
                s,
                k,
            ),
        High::FullHouse => exists|t: int, p: int|
            #![trigger count_kind(s, t), count_kind(s, p)]
            0 <= t < 13 && 0 <= p < 13 && t != p && count_kind(s, t) == 3 && count_kind(s, p) == 2
                && v == select_kind(s, t) + select_kind(s, p) && kick.len() == 0,
        High::Flush => sorted_desc_by(v, AceRanking::High) && v.to_multiset() == s.to_multiset()
            && kick.len() == 0,
        High::Straight => straight_value_ok(s, v) && kick.len() == 0,
        High::ThreeKind => exists|t: int|
            #![trigger count_kind(s, t)]
            0 <= t < 13 && count_kind(s, t) == 3 && v == select_kind(s, t) && sorted_desc_by(
                kick,
                AceRanking::High,
            ) && kick.to_multiset() == select_other(s, t).to_multiset(),
        High::TwoPair => exists|a: int, b: int|
            #![trigger count_kind(s, a), count_kind(s, b)]
            0 <= b < a < 13 && count_kind(s, a) == 2 && count_kind(s, b) == 2 && v == select_kind(
                s,
                a,
            ) + select_kind(s, b) && kick == select_other(select_other(s, a), b),
        High::OnePair => exists|p: int|
            #![trigger count_kind(s, p)]
            0 <= p < 13 && count_kind(s, p) == 2 && v == select_kind(s, p) && sorted_desc_by(
                kick,
                AceRanking::High,
            ) && kick.to_multiset() == select_other(s, p).to_multiset(),
        High::HighCard => v.len() == 1 && sorted_desc_by(v + kick, AceRanking::High) && (v
            + kick).to_multiset() == s.to_multiset(),
    }
}

/// Classify a five-card set under the high discipline: the strongest
/// matching category wins, the value cards carry the category and the
/// kickers break remaining ties. Any set that is not exactly five cards
/// is an `InsufficientCards` non-match.
pub fn classify_high(cards: &Cards) -> (r: Result<Hand, EngineError>)
    ensures
        match r {
            Ok(h) => {
                &&& cards@.len() == 5
                &&& h.cards@ == cards@
                &&& h.ranking == AceRanking::High
                &&& h.rank == Rank::High(spec_high_category(cards@))
                &&& high_value_ok(cards@, spec_high_category(cards@), h.value@, h.kicker@)
            },
            Err(e) => e == EngineError::InsufficientCards && cards@.len() != 5,
        },
{
    let ghost s = cards@;
    if cards.len() != 5 {
        return Err(EngineError::InsufficientCards);
    }
    let counts = kind_counts(cards);
    let flush = is_flush(cards);
    let wheel = is_wheel(cards, &counts);
    let top = straight_top(cards, &counts);
    let straight = wheel || top.is_some();
    proof {
        assert(straight == spec_is_straight(s));
    }
    if flush && straight {
        let v = straight_value(cards, wheel, if wheel { 0 } else { top.unwrap() });
        proof {
            assert(spec_high_category(s) == High::StraightFlush);
        }
        return Ok(
            Hand {
                cards: copy_cards(cards),
                value: v,
                kicker: Vec::new(),
                rank: Rank::High(High::StraightFlush),
                ranking: AceRanking::High,
            },
        );
    }
    let quad = find_count(&counts, 4);
    match quad {
        Some(k) => {
            let v = collect_kind(cards, k as u8);
            let kick = collect_other(cards, k as u8);
            proof {
                assert(count_kind(s, k as int) == 4);
                assert(spec_high_category(s) == High::FourKind);
            }
            return Ok(
                Hand {
                    cards: copy_cards(cards),
                    value: v,
                    kicker: kick,
                    rank: Rank::High(High::FourKind),
                    ranking: AceRanking::High,
                },
            );
        },
        None => {
            proof {
                assert forall|k: int| 0 <= k < 13 implies count_kind(s, k) != 4 by {
                    assert(counts@[k] as int == count_kind(s, k));
                }
            }
        },
    }
    let trips = find_count(&counts, 3);
    let pair_hi = find_count(&counts, 2);
    if let (Some(t), Some(p)) = (trips, pair_hi) {
        let mut v = collect_kind(cards, t as u8);
        let mut vp = collect_kind(cards, p as u8);
        v.append(&mut vp);
        proof {
            assert(count_kind(s, t as int) == 3 && count_kind(s, p as int) == 2);
            assert(spec_high_category(s) == High::FullHouse);
        }
        return Ok(
            Hand {
                cards: copy_cards(cards),
                value: v,
                kicker: Vec::new(),
                rank: Rank::High(High::FullHouse),
                ranking: AceRanking::High,
            },
        );
    }
    proof {
        if trips is Some {
            assert(forall|j: int| 0 <= j < 13 ==> counts@[j] != 2);
            assert forall|p_: int| 0 <= p_ < 13 implies count_kind(s, p_) != 2 by {
                assert(counts@[p_] as int == count_kind(s, p_));
            }
            assert(!spec_full_house(s));
            assert(!spec_two_pair(s));
            assert(!has_count(s, 2));
        } else {
            assert forall|t_: int| 0 <= t_ < 13 implies count_kind(s, t_) != 3 by {
                assert(counts@[t_] as int == count_kind(s, t_));
            }
            assert(!spec_full_house(s));
            assert(!has_count(s, 3));
        }
    }
    if flush {
        let v = sort_desc(cards, AceRanking::High);
        proof {
            assert(spec_high_category(s) == High::Flush);
        }
        return Ok(
            Hand {
                cards: copy_cards(cards),
                value: v,
                kicker: Vec::new(),
                rank: Rank::High(High::Flush),
                ranking: AceRanking::High,
            },
        );
    }
    if straight {
        let v = straight_value(cards, wheel, if wheel { 0 } else { top.unwrap() });
        proof {
            assert(spec_high_category(s) == High::Straight);
        }
        return Ok(
            Hand {
                cards: copy_cards(cards),
                value: v,
                kicker: Vec::new(),
                rank: Rank::High(High::Straight),
                ranking: AceRanking::High,
            },
        );
    }
    if let Some(t) = trips {
        let v = collect_kind(cards, t as u8);
        let others = collect_other(cards, t as u8);
        let kick = sort_desc(&others, AceRanking::High);
        proof {
            assert(count_kind(s, t as int) == 3);
            assert(spec_high_category(s) == High::ThreeKind);
        }
        return Ok(
            Hand {
                cards: copy_cards(cards),
                value: v,
                kicker: kick,
                rank: Rank::High(High::ThreeKind),
                ranking: AceRanking::High,
            },
        );
    }
    if let Some(a) = pair_hi {
        let second = find_count_below(&counts, 2, a);
        if let Some(b) = second {
            let mut v = collect_kind(cards, a as u8);
            let mut vb = collect_kind(cards, b as u8);
            v.append(&mut vb);
            let others = collect_other(cards, a as u8);
            let kick = collect_other(&others, b as u8);
            proof {
                assert(count_kind(s, a as int) == 2 && count_kind(s, b as int) == 2);
                assert(spec_high_category(s) == High::TwoPair);
            }
            return Ok(
                Hand {
                    cards: copy_cards(cards),
                    value: v,
                    kicker: kick,
                    rank: Rank::High(High::TwoPair),
                    ranking: AceRanking::High,
                },
            );
        }
        let v = collect_kind(cards, a as u8);
        let others = collect_other(cards, a as u8);
        let kick = sort_desc(&others, AceRanking::High);
        proof {
            assert(count_kind(s, a as int) == 2);
            assert forall|x: int, y: int|
                0 <= x < 13 && 0 <= y < 13 && x != y && count_kind(s, x) == 2 implies count_kind(
                s,
                y,
            ) != 2 by {
                assert(counts@[x] as int == count_kind(s, x));
                assert(counts@[y] as int == count_kind(s, y));
            }
            assert(!spec_two_pair(s));
            assert(spec_high_category(s) == High::OnePair);
        }
        return Ok(
            Hand {
                cards: copy_cards(cards),
                value: v,
                kicker: kick,
                rank: Rank::High(High::OnePair),
                ranking: AceRanking::High,
            },
        );
    }
    proof {
        assert forall|p_: int| 0 <= p_ < 13 implies count_kind(s, p_) != 2 by {
            assert(counts@[p_] as int == count_kind(s, p_));
        }
        assert(!has_count(s, 2));
        assert(!spec_two_pair(s));
        assert(spec_high_category(s) == High::HighCard);
    }
    let sorted = sort_desc(cards, AceRanking::High);
    let mut v: Cards = Vec::new();
    v.push(sorted[0]);
    let mut kick: Cards = Vec::new();
    let mut i: usize = 1;
    while i < sorted.len()
        invariant
            1 <= i <= sorted@.len(),
            sorted@.len() == 5,
            v@ == seq![sorted@[0]],
            kick@ == sorted@.subrange(1, i as int),
        decreases sorted@.len() - i,
    {
        kick.push(sorted[i]);
        proof {
            assert(kick@ =~= sorted@.subrange(1, i + 1));
        }
        i += 1;
    }
    proof {
        assert(v@ + kick@ =~= sorted@);
        assert(high_value_ok(s, High::HighCard, v@, kick@));
    }
    Ok(
        Hand {
            cards: copy_cards(cards),
            value: v,
            kicker: kick,
            rank: Rank::High(High::HighCard),
            ranking: AceRanking::High,
        },
    )
}

/// The disciplines that rank hands from low to high.
pub open spec fn is_low_ranking(rk: AceRanking) -> bool {
    match rk {
        AceRanking::Low => true,
        AceRanking::AceToFive => true,
        AceRanking::AceToFive8 => true,
        AceRanking::AceToSix => true,
        AceRanking::DeuceToSeven => true,
        _ => false,
    }
}

/// Classify a five-card set under a lowball discipline: five distinct
/// face values make a complete low, anything paired is incomplete; the
/// value cards are the whole set ordered by the discipline's key,
/// strongest position first. Any set that is not exactly five cards is an
/// `InsufficientCards` non-match.
pub fn classify_low(cards: &Cards, ranking: AceRanking) -> (r: Result<Hand, EngineError>)
    requires
        is_low_ranking(ranking),
    ensures
        match r {
            Ok(h) => {
                &&& cards@.len() == 5
                &&& h.cards@ == cards@
                &&& h.ranking == ranking
                &&& h.rank == Rank::Low(
                    if spec_distinct_kinds(cards@) {
                        Low::CompleteLow
                    } else {
                        Low::IncompleteLow
                    },
                )
                &&& sorted_desc_by(h.value@, ranking)
                &&& h.value@.to_multiset() == cards@.to_multiset()
                &&& h.kicker@.len() == 0
            },
            Err(e) => e == EngineError::InsufficientCards && cards@.len() != 5,
        },
{
    if cards.len() != 5 {
        return Err(EngineError::InsufficientCards);
    }
    let complete = distinct_kinds(cards);
    let v = sort_desc(cards, ranking);
    Ok(
        Hand {
            cards: copy_cards(cards),
            value: v,
            kicker: Vec::new(),
            rank: Rank::Low(
                if complete {
                    Low::CompleteLow
                } else {
                    Low::IncompleteLow
                },
            ),
            ranking,
        },
    )
}

/// No two cards share a face value, and no two cards share a suit.
pub open spec fn rainbow(q: Seq<Card>) -> bool {
    forall|i: int, j: int|
        0 <= i < j < q.len() ==> q[i].kind != q[j].kind && q[i].suit != q[j].suit
}

/// The subset of a card set picked out by the low bits of a mask: bit `i`
/// selects the `i`-th card.
pub open spec fn mask_subset(s: Seq<Card>, m: int) -> Seq<Card>
    decreases s.len(),
{
    if s.len() == 0 {
        Seq::empty()
    } else {
        (if m % 2 == 1 {
            seq![s[0]]
        } else {
            Seq::empty()
        }) + mask_subset(s.drop_first(), m / 2)
    }
}

/// The zero mask selects nothing.
proof fn lemma_mask_subset_zero(s: Seq<Card>)
    ensures
        mask_subset(s, 0) == Seq::<Card>::empty(),
    decreases s.len(),
{
    if s.len() > 0 {
        lemma_mask_subset_zero(s.drop_first());
        assert(mask_subset(s, 0) =~= Seq::<Card>::empty());
    }
}

/// A mask never selects more cards than the set holds.
proof fn lemma_mask_subset_len(s: Seq<Card>, m: int)
    ensures
        mask_subset(s, m).len() <= s.len(),
    decreases s.len(),
{
    if s.len() > 0 {
        lemma_mask_subset_len(s.drop_first(), m / 2);
    }
}

/// Every card a mask selects is a card of the set.
proof fn lemma_mask_subset_contains(s: Seq<Card>, m: int)
    ensures
        forall|i: int|
            0 <= i < mask_subset(s, m).len() ==> s.contains(#[trigger] mask_subset(s, m)[i]),
    decreases s.len(),
{
    if s.len() > 0 {
        lemma_mask_subset_contains(s.drop_first(), m / 2);
        assert forall|i: int|
            0 <= i < mask_subset(s, m).len() implies s.contains(#[trigger] mask_subset(s, m)[i]) by {
            let head: Seq<Card> = if m % 2 == 1 {
                seq![s[0]]
            } else {
                Seq::empty()
            };
            if i < head.len() {
                assert(mask_subset(s, m)[i] == s[0]);
            } else {
                let x = mask_subset(s.drop_first(), m / 2)[i - head.len()];
                assert(s.drop_first().contains(x));
                let j = choose|j: int| 0 <= j < s.drop_first().len() && s.drop_first()[j] == x;
                assert(s[j + 1] == x);
            }
        }
    }
}

/// Two card lists with one multiset hold the same cards.
proof fn lemma_same_multiset_contains(a: Seq<Card>, b: Seq<Card>)
    requires
        a.to_multiset() == b.to_multiset(),
    ensures
        forall|i: int| 0 <= i < b.len() ==> a.contains(#[trigger] b[i]),
{
    assert forall|i: int| 0 <= i < b.len() implies a.contains(#[trigger] b[i]) by {
        assert(b.contains(b[i]));
        assert(b.to_multiset().count(b[i]) > 0);
    }
}

/// A permutation of a rainbow card list is itself rainbow.
proof fn lemma_rainbow_permutation(a: Seq<Card>, b: Seq<Card>)
    requires
        a.to_multiset() == b.to_multiset(),
        rainbow(a),
    ensures
        rainbow(b),
{
    assert forall|i: int, j: int| 0 <= i < j < b.len() implies b[i].kind != b[j].kind && b[i].suit
        != b[j].suit by {
        lemma_same_multiset_contains(a, b);
        if b[i] == b[j] {
            // The same card twice would mean a count of at least two,
            // which the rainbow source cannot supply.
            let x = b[i];
            assert(b.remove(j).to_multiset() == b.to_multiset().remove(x));
            assert(b.remove(j)[i] == x);
            assert(b.remove(j).contains(x));
            assert(b.remove(j).to_multiset().count(x) > 0);
            assert(b.to_multiset().count(x) >= 2);
            let i1 = choose|i1: int| 0 <= i1 < a.len() && a[i1] == x;
            assert(a.remove(i1).to_multiset() == a.to_multiset().remove(x));
            assert(a.remove(i1).to_multiset().count(x) > 0);
            assert(a.remove(i1).contains(x));
            let i2 = choose|i2: int| 0 <= i2 < a.remove(i1).len() && a.remove(i1)[i2] == x;
            if i2 < i1 {
                assert(a[i2] == x);
            } else {
                assert(a[i2 + 1] == x);
            }
            assert(false);
        } else {
            let i1 = choose|i1: int| 0 <= i1 < a.len() && a[i1] == b[i];
            let i2 = choose|i2: int| 0 <= i2 < a.len() && a[i2] == b[j];
            assert(i1 != i2);
        }
    }
}

/// The cards picked out of a four-card set by a mask, in input order.
fn mask_subset_exec(cards: &Cards, m: usize) -> (sub: Cards)
    requires
        cards@.len() == 4,
        m < 16,
    ensures
        sub@ == mask_subset(cards@, m as int),
{
    let ghost s = cards@;
    let mut sub: Cards = Vec::new();
    let mut mm: usize = m;
    let mut i: usize = 0;
    proof {
        assert(s.skip(0) =~= s);
        assert(Seq::<Card>::empty() + mask_subset(s, m as int) =~= mask_subset(s, m as int));
    }
    while i < 4
        invariant
            i <= 4,
            s.len() == 4,
            s == cards@,
            mask_subset(s, m as int) == sub@ + mask_subset(s.skip(i as int), mm as int),
        decreases 4 - i,
    {
        let ghost pre_sub = sub@;
        let ghost pre_mm = mm as int;
        if mm % 2 == 1 {
            sub.push(cards[i]);
        }
        mm = mm / 2;
        proof {
            let tail = s.skip(i as int);
            assert(tail.len() > 0);
            assert(tail[0] == s[i as int]);
            assert(tail.drop_first() =~= s.skip(i + 1));
            if pre_mm % 2 == 1 {
                assert(pre_sub + mask_subset(tail, pre_mm) =~= sub@ + mask_subset(
                    s.skip(i + 1),
                    mm as int,
                ));
            } else {
                assert(pre_sub + mask_subset(tail, pre_mm) =~= sub@ + mask_subset(
                    s.skip(i + 1),
                    mm as int,
                ));
            }
        }
        i += 1;
    }
    proof {
        assert(s.skip(4).len() == 0);
        assert(mask_subset(s.skip(4), mm as int) =~= Seq::<Card>::empty());
        assert(sub@ + mask_subset(s.skip(4), mm as int) =~= sub@);
    }
    sub
}

/// Whether no two cards share a face value and no two share a suit.
fn rainbow_check(q: &Cards) -> (b: bool)
    ensures
        b == rainbow(q@),
{
    let mut i: usize = 0;
    while i < q.len()
        invariant
            i <= q@.len(),
            forall|a: int, b_: int|
                0 <= a < b_ < q@.len() && a < i ==> q@[a].kind != q@[b_].kind && q@[a].suit
                    != q@[b_].suit,
        decreases q@.len() - i,
    {
        let mut j: usize = i + 1;
        while j < q.len()
            invariant
                i < j <= q@.len() || (i as int == q@.len() && j == i + 1),
                i < q@.len(),
                forall|a: int, b_: int|
                    0 <= a < b_ < q@.len() && a < i ==> q@[a].kind != q@[b_].kind && q@[a].suit
                        != q@[b_].suit,
                forall|b_: int|
                    i < b_ < j ==> q@[i as int].kind != q@[b_].kind && q@[i as int].suit
                        != q@[b_].suit,
            decreases q@.len() - j,
        {
            if q[i].kind == q[j].kind || q[i].suit == q[j].suit {
                return false;
            }
            j += 1;
        }
        i += 1;
    }
    true
}

/// The ace-low order keys of a card list, in order.
pub open spec fn badugi_keys(q: Seq<Card>) -> Seq<int> {
    q.map_values(|c: Card| spec_kind_key(c.kind, AceRanking::Badugi))
}

/// The ace-low key determines the face value.
proof fn lemma_badugi_key_injective(k1: crate::kind::Kind, k2: crate::kind::Kind)
    requires
        spec_kind_key(k1, AceRanking::Badugi) == spec_kind_key(k2, AceRanking::Badugi),
    ensures
        k1 == k2,
{
    crate::kind::lemma_kind_char_round_trip(k1);
    crate::kind::lemma_kind_char_round_trip(k2);
}

/// A rainbow card list has exactly one descending arrangement: two
/// key-sorted lists of the same cards coincide.
proof fn lemma_badugi_sorted_unique(a: Seq<Card>, b: Seq<Card>)
    requires
        a.to_multiset() == b.to_multiset(),
        sorted_desc_by(a, AceRanking::Badugi),
        sorted_desc_by(b, AceRanking::Badugi),
        rainbow(a),
    ensures
        a == b,
    decreases a.len(),
{
    assert(a.to_multiset().len() == a.len());
    assert(b.to_multiset().len() == b.len());
    if a.len() == 0 {
        assert(a =~= b);
    } else {
        assert(b.to_multiset().contains(b[0]));
        assert(a.to_multiset().contains(b[0]));
        assert(a.contains(b[0]));
        let i = choose|i: int| 0 <= i < a.len() && a[i] == b[0];
        assert(b.to_multiset().contains(a[0]));
        assert(b.contains(a[0]));
        let j = choose|j: int| 0 <= j < b.len() && b[j] == a[0];
        assert(spec_kind_key(a[0].kind, AceRanking::Badugi) >= spec_kind_key(
            a[i].kind,
            AceRanking::Badugi,
        ));
        assert(spec_kind_key(b[0].kind, AceRanking::Badugi) >= spec_kind_key(
            b[j].kind,
            AceRanking::Badugi,
        ));
        lemma_badugi_key_injective(a[0].kind, a[i].kind);
        if i != 0 {
            assert(a[0].kind != a[i].kind);
            assert(false);
        }
        assert(a[0] == b[0]);
        assert(a.remove(0).to_multiset() == a.to_multiset().remove(a[0]));
        assert(b.remove(0).to_multiset() == b.to_multiset().remove(b[0]));
        assert(a.remove(0) =~= a.drop_first());
        assert(b.remove(0) =~= b.drop_first());
        assert(rainbow(a.drop_first())) by {
            assert forall|x: int, y: int|
                0 <= x < y < a.drop_first().len() implies a.drop_first()[x].kind
                != a.drop_first()[y].kind && a.drop_first()[x].suit != a.drop_first()[y].suit by {
                assert(a.drop_first()[x] == a[x + 1] && a.drop_first()[y] == a[y + 1]);
            }
        }
        assert(sorted_desc_by(a.drop_first(), AceRanking::Badugi)) by {
            assert forall|x: int, y: int|
                0 <= x < y < a.drop_first().len() implies spec_kind_key(
                a.drop_first()[x].kind,
                AceRanking::Badugi,
            ) >= spec_kind_key(a.drop_first()[y].kind, AceRanking::Badugi) by {
                assert(a.drop_first()[x] == a[x + 1] && a.drop_first()[y] == a[y + 1]);
            }
        }
        assert(sorted_desc_by(b.drop_first(), AceRanking::Badugi)) by {
            assert forall|x: int, y: int|
                0 <= x < y < b.drop_first().len() implies spec_kind_key(
                b.drop_first()[x].kind,
                AceRanking::Badugi,
            ) >= spec_kind_key(b.drop_first()[y].kind, AceRanking::Badugi) by {
                assert(b.drop_first()[x] == b[x + 1] && b.drop_first()[y] == b[y + 1]);
            }
        }
        lemma_badugi_sorted_unique(a.drop_first(), b.drop_first());
        assert forall|x: int| 0 <= x < a.len() implies a[x] == b[x] by {
            if x > 0 {
                assert(a[x] == a.drop_first()[x - 1]);
                assert(b[x] == b.drop_first()[x - 1]);
            }
        }
        assert(a =~= b);
    }
}

/// The ace-low keys of a card list, as a key vector.
fn badugi_key_vec(cards: &Cards) -> (r: Vec<u8>)
    ensures
        key_ints(r@) == badugi_keys(cards@),
{
    let mut r: Vec<u8> = Vec::new();
    let mut i: usize = 0;
    while i < cards.len()
        invariant
            i <= cards@.len(),
            r@.len() == i,
            forall|j: int|
                0 <= j < i ==> r@[j] as int == spec_kind_key(
                    (#[trigger] cards@[j]).kind,
                    AceRanking::Badugi,
                ),
        decreases cards@.len() - i,
    {
        r.push(cards[i].order_key(AceRanking::Badugi));
        i += 1;
    }
    proof {
        assert(key_ints(r@) =~= badugi_keys(cards@));
    }
    r
}

/// Classify a four-card set under badugi: the hand is the largest subset
/// whose cards all differ in face value and all differ in suit; among
/// subsets of that size the lowest (ace-low) card-by-card sequence is
/// kept. The category encodes the subset size, which always dominates
/// card values. Any set that is not exactly four cards is an
/// `InsufficientCards` non-match.
pub fn classify_badugi(cards: &Cards) -> (r: Result<Hand, EngineError>)
    ensures
        match r {
            Ok(h) => {
                &&& cards@.len() == 4
                &&& h.cards@ == cards@
                &&& h.ranking == AceRanking::Badugi
                &&& h.kicker@.len() == 0
                &&& rainbow(h.value@)
                &&& sorted_desc_by(h.value@, AceRanking::Badugi)
                &&& 1 <= h.value@.len() <= 4
                &&& forall|i: int|
                    0 <= i < h.value@.len() ==> cards@.contains(#[trigger] h.value@[i])
                &&& (match h.rank {
                    Rank::Badugi(b) => crate::rank::badugi_index(b) == h.value@.len() - 1,
                    _ => false,
                })
                &&& forall|m: int|
                    0 <= m < 16 && rainbow(#[trigger] mask_subset(cards@, m)) ==> mask_subset(
                        cards@,
                        m,
                    ).len() <= h.value@.len()
                &&& forall|m: int, w: Seq<Card>|
                    #![trigger mask_subset(cards@, m), w.to_multiset()]
                    (0 <= m < 16 && rainbow(mask_subset(cards@, m)) && mask_subset(
                        cards@,
                        m,
                    ).len() == h.value@.len() && w.to_multiset() == mask_subset(
                        cards@,
                        m,
                    ).to_multiset() && sorted_desc_by(w, AceRanking::Badugi)) ==> lex_cmp(
                        badugi_keys(w),
                        badugi_keys(h.value@),
                    ) != Ordering::Less
            },
            Err(e) => e == EngineError::InsufficientCards && cards@.len() != 4,
        },
{
    let ghost s = cards@;
    if cards.len() != 4 {
        return Err(EngineError::InsufficientCards);
    }
    let mut best: Cards = Vec::new();
    let mut m: usize = 0;
    proof {
        lemma_mask_subset_zero(s);
    }
    while m < 16
        invariant
            m <= 16,
            s == cards@,
            s.len() == 4,
            best@.len() <= 4,
            rainbow(best@),
            sorted_desc_by(best@, AceRanking::Badugi),
            forall|i: int| 0 <= i < best@.len() ==> s.contains(#[trigger] best@[i]),
            forall|mm: int|
                0 <= mm < m && rainbow(#[trigger] mask_subset(s, mm)) ==> mask_subset(
                    s,
                    mm,
                ).len() <= best@.len(),
            forall|mm: int, w: Seq<Card>|
                #![trigger mask_subset(s, mm), w.to_multiset()]
                (0 <= mm < m && rainbow(mask_subset(s, mm)) && mask_subset(s, mm).len()
                    == best@.len() && w.to_multiset() == mask_subset(s, mm).to_multiset()
                    && sorted_desc_by(w, AceRanking::Badugi)) ==> lex_cmp(
                    badugi_keys(w),
                    badugi_keys(best@),
                ) != Ordering::Less,
        decreases 16 - m,
    {
        let sub = mask_subset_exec(cards, m);
        if rainbow_check(&sub) {
            let cand = sort_desc(&sub, AceRanking::Badugi);
            proof {
                lemma_rainbow_permutation(sub@, cand@);
                lemma_mask_subset_len(s, m as int);
                lemma_mask_subset_contains(s, m as int);
                lemma_same_multiset_contains(sub@, cand@);
                assert forall|i: int| 0 <= i < cand@.len() implies s.contains(
                    #[trigger] cand@[i],
                ) by {
                    let x = cand@[i];
                    assert(sub@.contains(x));
                    let j = choose|j: int| 0 <= j < sub@.len() && sub@[j] == x;
                    assert(mask_subset(s, m as int)[j] == x);
                }
            }
            let kc = badugi_key_vec(&cand);
            let kb = badugi_key_vec(&best);
            let ord = compare_keys(&kc, &kb);
            let ghost old_best = best@;
            let tie_lower = matches!(ord, Ordering::Less);
            if cand.len() > best.len() {
                best = cand;
            } else if cand.len() == best.len() && tie_lower {
                best = cand;
            }
            proof {
                let mi = m as int;
                assert forall|mm: int, w: Seq<Card>|
                    (0 <= mm < mi + 1 && rainbow(#[trigger] mask_subset(s, mm)) && mask_subset(
                        s,
                        mm,
                    ).len() == best@.len() && #[trigger] w.to_multiset() == mask_subset(
                        s,
                        mm,
                    ).to_multiset() && sorted_desc_by(w, AceRanking::Badugi)) implies lex_cmp(
                    badugi_keys(w),
                    badugi_keys(best@),
                ) != Ordering::Less by {
                    if mm == mi {
                        // The candidate is the one descending arrangement
                        // of this very subset.
                        lemma_badugi_sorted_unique(cand@, w);
                        if best@ == cand@ {
                            lemma_lex_cmp_equal(badugi_keys(w), badugi_keys(best@));
                        } else {
                            // The incumbent stayed because the candidate
                            // did not compare below it.
                            assert(cand@.len() == old_best.len());
                            assert(lex_cmp(badugi_keys(cand@), badugi_keys(old_best))
                                != Ordering::Less);
                        }
                    } else {
                        if best@ == old_best {
                        } else if old_best.len() < best@.len() {
                            // A longer subset took over: no earlier subset
                            // reaches the new size.
                            assert(mask_subset(s, mm).len() <= old_best.len());
                            assert(false);
                        } else {
                            // An equal-size candidate took over because it
                            // compares below the incumbent; anything that
                            // was no lower than the incumbent is no lower
                            // than the candidate either.
                            let wk = badugi_keys(w);
                            let ok = badugi_keys(old_best);
                            let ck = badugi_keys(best@);
                            assert(lex_cmp(ck, ok) == Ordering::Less);
                            assert(lex_cmp(wk, ok) != Ordering::Less);
                            lemma_lex_cmp_flip(ck, ok);
                            if lex_cmp(wk, ok) == Ordering::Equal {
                                lemma_lex_cmp_equal(wk, ok);
                                assert(lex_cmp(wk, ck) == lex_cmp(ok, ck));
                            } else {
                                lemma_lex_cmp_transitive(wk, ok, ck);
                            }
                        }
                    }
                }
            }
        }
        m += 1;
    }
    proof {
        // The singleton of the first card is always a rainbow subset, so
        // the best subset is never empty.
        assert(mask_subset(s, 1) =~= seq![s[0]] + mask_subset(s.drop_first(), 0)) by {
            lemma_mask_subset_zero(s.drop_first());
        }
        assert(mask_subset(s, 1) =~= seq![s[0]]);
        assert(rainbow(mask_subset(s, 1)));
        assert(best@.len() >= 1);
    }
    let b = Badugi::of_size(best.len());
    Ok(
        Hand {
            cards: copy_cards(cards),
            value: best,
            kicker: Vec::new(),
            rank: Rank::Badugi(b),
            ranking: AceRanking::Badugi,
        },
    )
}

} // verus!

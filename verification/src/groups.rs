//! Grouping cards by face value. The per-kind multiplicities that every
//! classifier works from are tallied in a `vec_map::VecMap` keyed by the
//! canonical kind index, and handed on as a plain 13-entry table.

use vstd::prelude::*;

use crate::card::Card;
use crate::kind::kind_index;

verus! {

broadcast use vstd::map::group_map_axioms;

/// `vec_map::VecMap`, declared so that values of it can flow through
/// verified signatures; its contents are visible only through
/// [`vm_view`].
#[verifier::external_type_specification]
#[verifier::external_body]
#[verifier::reject_recursive_types(V)]
pub struct ExVecMap<V>(vec_map::VecMap<V>);

/// The entries a `VecMap<u8>` holds, as a map from key to value.
pub uninterp spec fn vm_view(m: vec_map::VecMap<u8>) -> Map<int, u8>;

/// The empty key map.
pub open spec fn vm_empty_map() -> Map<int, u8> {
    Map::empty()
}

/// Relies on vec_map's `VecMap::new`: creates an empty map.
#[verifier::external_body]
fn vm_new() -> (m: vec_map::VecMap<u8>)
    ensures
        vm_view(m) == vm_empty_map(),
{
    vec_map::VecMap::new()
}

/// Relies on vec_map's `VecMap::get`: returns the value stored under the
/// key, if any.
#[verifier::external_body]
fn vm_get(m: &vec_map::VecMap<u8>, key: usize) -> (r: Option<u8>)
    ensures
        r == (if vm_view(*m).dom().contains(key as int) {
            Some(vm_view(*m)[key as int])
        } else {
            None::<u8>
        }),
{
    m.get(key).copied()
}

/// Relies on vec_map's `VecMap::insert`: stores the value under the key
/// and returns the value previously stored there, if any.
#[verifier::external_body]
fn vm_insert(m: &mut vec_map::VecMap<u8>, key: usize, value: u8) -> (prev: Option<u8>)
    ensures
        vm_view(*final(m)) == vm_view(*old(m)).insert(key as int, value),
        prev == (if vm_view(*old(m)).dom().contains(key as int) {
            Some(vm_view(*old(m))[key as int])
        } else {
            None::<u8>
        }),
{
    m.insert(key, value)
}

/// The count a key map records for a kind index: its stored value, or
/// zero when the key is absent.
pub open spec fn vm_count(mv: Map<int, u8>, k: int) -> int {
    if mv.dom().contains(k) {
        mv[k] as int
    } else {
        0
    }
}

/// The subsequence of cards satisfying a predicate, in input order.
pub open spec fn select(s: Seq<Card>, p: spec_fn(Card) -> bool) -> Seq<Card>
    decreases s.len(),
{
    if s.len() == 0 {
        Seq::empty()
    } else if p(s.last()) {
        select(s.drop_last(), p).push(s.last())
    } else {
        select(s.drop_last(), p)
    }
}

/// The cards whose kind has the given canonical index, in input order.
pub open spec fn select_kind(s: Seq<Card>, k: int) -> Seq<Card> {
    select(s, |c: Card| kind_index(c.kind) == k)
}

/// The cards whose kind does not have the given canonical index, in input
/// order.
pub open spec fn select_other(s: Seq<Card>, k: int) -> Seq<Card> {
    select(s, |c: Card| kind_index(c.kind) != k)
}

/// How many cards in the set have the kind with the given canonical
/// index.
pub open spec fn count_kind(s: Seq<Card>, k: int) -> int {
    select_kind(s, k).len() as int
}

/// Extending a card set by one card extends its per-kind selection by
/// that card exactly when the kinds match.
pub proof fn lemma_select_kind_step(s: Seq<Card>, i: int, k: int)
    requires
        0 <= i < s.len(),
    ensures
        select_kind(s.take(i + 1), k) == (if kind_index(s[i].kind) == k {
            select_kind(s.take(i), k).push(s[i])
        } else {
            select_kind(s.take(i), k)
        }),
        select_other(s.take(i + 1), k) == (if kind_index(s[i].kind) != k {
            select_other(s.take(i), k).push(s[i])
        } else {
            select_other(s.take(i), k)
        }),
{
    assert(s.take(i + 1).drop_last() =~= s.take(i));
    assert(s.take(i + 1).last() == s[i]);
}

/// Per-kind counts are non-negative and never exceed the set size.
pub proof fn lemma_count_kind_bound(s: Seq<Card>, k: int)
    ensures
        0 <= count_kind(s, k) <= s.len(),
    decreases s.len(),
{
    if s.len() > 0 {
        lemma_count_kind_bound(s.drop_last(), k);
    }
}

/// Tally how many cards of each face value a card set holds. The result
/// has one entry per canonical kind index.
pub fn kind_counts(cards: &Vec<Card>) -> (counts: Vec<u8>)
    requires
        cards@.len() <= 52,
    ensures
        counts@.len() == 13,
        forall|k: int| 0 <= k < 13 ==> #[trigger] counts@[k] as int == count_kind(cards@, k),
{
    let mut m = vm_new();
    let mut i: usize = 0;
    while i < cards.len()
        invariant
            i <= cards@.len(),
            cards@.len() <= 52,
            forall|k: int|
                0 <= k < 13 ==> #[trigger] vm_count(vm_view(m), k) == count_kind(
                    cards@.take(i as int),
                    k,
                ),
        decreases cards@.len() - i,
    {
        let kk = cards[i].kind.index() as usize;
        let ghost pre_view = vm_view(m);
        let cur = match vm_get(&m, kk) {
            Some(v) => v,
            None => 0,
        };
        proof {
            assert(vm_count(pre_view, kk as int) == count_kind(cards@.take(i as int), kk as int));
            lemma_count_kind_bound(cards@.take(i as int), kk as int);
            assert(cur as int <= i);
        }
        vm_insert(&mut m, kk, cur + 1);
        proof {
            let pre = cards@.take(i as int);
            let post = cards@.take(i + 1);
            assert(vm_view(m) == pre_view.insert(kk as int, (cur + 1) as u8));
            assert forall|k: int| 0 <= k < 13 implies #[trigger] vm_count(vm_view(m), k)
                == count_kind(post, k) by {
                assert(vm_count(pre_view, k) == count_kind(pre, k));
                lemma_select_kind_step(cards@, i as int, k);
                if k != kk as int {
                    assert(vm_count(vm_view(m), k) == vm_count(pre_view, k));
                }
            }
        }
        i += 1;
    }
    proof {
        assert(cards@.take(cards@.len() as int) =~= cards@);
    }
    let mut counts: Vec<u8> = Vec::new();
    let mut k: usize = 0;
    while k < 13
        invariant
            k <= 13,
            counts@.len() == k,
            forall|j: int|
                0 <= j < 13 ==> #[trigger] vm_count(vm_view(m), j) == count_kind(cards@, j),
            forall|j: int| 0 <= j < k ==> #[trigger] counts@[j] as int == count_kind(cards@, j),
        decreases 13 - k,
    {
        let c = match vm_get(&m, k) {
            Some(v) => v,
            None => 0,
        };
        proof {
            assert(vm_count(vm_view(m), k as int) == count_kind(cards@, k as int));
        }
        counts.push(c);
        k += 1;
    }
    counts
}

} // verus!

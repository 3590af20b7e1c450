//! Lexicographic comparison of key sequences, the order-theoretic lemmas
//! that make it a total order, and comparison of ranks and card lists.

use vstd::prelude::*;
use core::cmp::Ordering;

use crate::card::Card;
use crate::kind::kind_index;
use crate::rank::{Rank, cat_index, same_discipline};

verus! {

/// Lexicographic comparison of two integer sequences. A strict prefix
/// compares below the longer sequence; the first unequal position decides
/// otherwise.
pub open spec fn lex_cmp(a: Seq<int>, b: Seq<int>) -> Ordering
    decreases a.len(),
{
    if a.len() == 0 && b.len() == 0 {
        Ordering::Equal
    } else if a.len() == 0 {
        Ordering::Less
    } else if b.len() == 0 {
        Ordering::Greater
    } else if a[0] < b[0] {
        Ordering::Less
    } else if a[0] > b[0] {
        Ordering::Greater
    } else {
        lex_cmp(a.drop_first(), b.drop_first())
    }
}

/// Two sequences compare equal exactly when they are the same sequence.
pub proof fn lemma_lex_cmp_equal(a: Seq<int>, b: Seq<int>)
    ensures
        (lex_cmp(a, b) == Ordering::Equal) <==> a == b,
    decreases a.len(),
{
    if a.len() == 0 && b.len() == 0 {
        assert(a =~= b);
    } else if a.len() == 0 || b.len() == 0 {
        if a == b {
            assert(a.len() == b.len());
        }
    } else {
        lemma_lex_cmp_equal(a.drop_first(), b.drop_first());
        if lex_cmp(a, b) == Ordering::Equal {
            assert(a =~= b) by {
                assert(a[0] == b[0]);
                assert(forall|i: int|
                    1 <= i < a.len() ==> a[i] == a.drop_first()[i - 1] && b[i] == b.drop_first()[i
                        - 1]);
            }
        }
        if a == b {
            assert(a.drop_first() =~= b.drop_first());
        }
    }
}

/// Swapping the operands reverses the outcome.
pub proof fn lemma_lex_cmp_flip(a: Seq<int>, b: Seq<int>)
    ensures
        (lex_cmp(a, b) == Ordering::Less) <==> (lex_cmp(b, a) == Ordering::Greater),
        (lex_cmp(a, b) == Ordering::Equal) <==> (lex_cmp(b, a) == Ordering::Equal),
    decreases a.len(),
{
    if a.len() != 0 && b.len() != 0 && a[0] == b[0] {
        lemma_lex_cmp_flip(a.drop_first(), b.drop_first());
    }
}

/// The order is transitive in its strict part.
pub proof fn lemma_lex_cmp_transitive(a: Seq<int>, b: Seq<int>, c: Seq<int>)
    requires
        lex_cmp(a, b) == Ordering::Greater,
        lex_cmp(b, c) == Ordering::Greater,
    ensures
        lex_cmp(a, c) == Ordering::Greater,
    decreases a.len(),
{
    if c.len() == 0 {
        assert(a.len() != 0);
    } else {
        assert(a.len() != 0 && b.len() != 0);
        if a[0] == b[0] && b[0] == c[0] {
            lemma_lex_cmp_transitive(a.drop_first(), b.drop_first(), c.drop_first());
        }
    }
}

/// Skipping a common prefix does not change the outcome.
pub proof fn lemma_lex_cmp_skip(a: Seq<int>, b: Seq<int>, i: int)
    requires
        0 <= i <= a.len(),
        i <= b.len(),
        forall|j: int| 0 <= j < i ==> a[j] == b[j],
    ensures
        lex_cmp(a, b) == lex_cmp(a.skip(i), b.skip(i)),
    decreases i,
{
    if i > 0 {
        assert(a.len() != 0 && b.len() != 0 && a[0] == b[0]);
        lemma_lex_cmp_skip(a.drop_first(), b.drop_first(), i - 1);
        assert(a.drop_first().skip(i - 1) =~= a.skip(i));
        assert(b.drop_first().skip(i - 1) =~= b.skip(i));
    } else {
        assert(a.skip(0) =~= a);
        assert(b.skip(0) =~= b);
    }
}

/// The integer key sequence of a list of keys.
pub open spec fn key_ints(a: Seq<u8>) -> Seq<int> {
    a.map_values(|x: u8| x as int)
}

/// Lexicographic comparison of two key vectors.
pub fn compare_keys(a: &Vec<u8>, b: &Vec<u8>) -> (r: Ordering)
    ensures
        r == lex_cmp(key_ints(a@), key_ints(b@)),
{
    let ghost ka = key_ints(a@);
    let ghost kb = key_ints(b@);
    let mut i: usize = 0;
    let n = if a.len() < b.len() {
        a.len()
    } else {
        b.len()
    };
    while i < n
        invariant
            0 <= i <= n,
            n == if a@.len() < b@.len() {
                a@.len()
            } else {
                b@.len()
            },
            ka == key_ints(a@),
            kb == key_ints(b@),
            forall|j: int| 0 <= j < i ==> ka[j] == kb[j],
        decreases n - i,
    {
        let x = a[i];
        let y = b[i];
        if x < y {
            proof {
                lemma_lex_cmp_skip(ka, kb, i as int);
                assert(ka.skip(i as int)[0] == ka[i as int]);
                assert(kb.skip(i as int)[0] == kb[i as int]);
            }
            return Ordering::Less;
        }
        if x > y {
            proof {
                lemma_lex_cmp_skip(ka, kb, i as int);
                assert(ka.skip(i as int)[0] == ka[i as int]);
                assert(kb.skip(i as int)[0] == kb[i as int]);
            }
            return Ordering::Greater;
        }
        i += 1;
    }
    proof {
        lemma_lex_cmp_skip(ka, kb, n as int);
    }
    if a.len() < b.len() {
        Ordering::Less
    } else if a.len() > b.len() {
        proof {
            assert(ka.skip(n as int).len() != 0);
        }
        Ordering::Greater
    } else {
        proof {
            assert(ka.skip(n as int).len() == 0 && kb.skip(n as int).len() == 0);
        }
        Ordering::Equal
    }
}

/// The default key sequence of a card list: each card's canonical kind
/// index, with the suit ignored.
pub open spec fn kind_keys(s: Seq<Card>) -> Seq<int> {
    s.map_values(|c: Card| kind_index(c.kind))
}

/// Compare two card lists element-wise by kind under the default
/// (high-ace) convention, ignoring suits; a strict prefix compares below.
pub fn compare_cards(a: &Vec<Card>, b: &Vec<Card>) -> (r: Ordering)
    ensures
        r == lex_cmp(kind_keys(a@), kind_keys(b@)),
{
    let mut ka: Vec<u8> = Vec::new();
    let mut i: usize = 0;
    while i < a.len()
        invariant
            i <= a@.len(),
            ka@.len() == i,
            forall|j: int| 0 <= j < i ==> ka@[j] as int == kind_index(a@[j].kind),
        decreases a@.len() - i,
    {
        ka.push(a[i].kind.index());
        i += 1;
    }
    let mut kb: Vec<u8> = Vec::new();
    let mut i: usize = 0;
    while i < b.len()
        invariant
            i <= b@.len(),
            kb@.len() == i,
            forall|j: int| 0 <= j < i ==> kb@[j] as int == kind_index(b@[j].kind),
        decreases b@.len() - i,
    {
        kb.push(b[i].kind.index());
        i += 1;
    }
    proof {
        assert(key_ints(ka@) =~= kind_keys(a@));
        assert(key_ints(kb@) =~= kind_keys(b@));
    }
    compare_keys(&ka, &kb)
}

/// Compare two ranks of the same discipline by category strength.
pub fn compare_ranks(a: &Rank, b: &Rank) -> (r: Ordering)
    requires
        same_discipline(*a, *b),
    ensures
        r == Ordering::Less <==> cat_index(*a) < cat_index(*b),
        r == Ordering::Greater <==> cat_index(*a) > cat_index(*b),
        r == Ordering::Equal <==> cat_index(*a) == cat_index(*b),
{
    let ia = a.category_index();
    let ib = b.category_index();
    if ia < ib {
        Ordering::Less
    } else if ia > ib {
        Ordering::Greater
    } else {
        Ordering::Equal
    }
}

} // verus!

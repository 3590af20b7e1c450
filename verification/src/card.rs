//! Cards: an immutable (kind, suit) pair, its two-character text token,
//! and the parser for concatenated token strings.

use vstd::prelude::*;
use vstd::pervasive::unreached;

use crate::error::EngineError;
use crate::game::AceRanking;
use crate::kind;
use crate::kind::{Kind, kind_char, kind_index, kind_of_char, spec_kind_key};
use crate::suit;
use crate::suit::{Suit, suit_char, suit_index, suit_of_char};

verus! {

/// An immutable playing card: a face value and a suit. Equality requires
/// both fields equal; ordering is supplied externally by a ranking
/// discipline and by default considers the kind only.
#[derive(Clone, Copy, Debug, PartialEq, Eq, Structural, Hash)]
pub struct Card {
    pub kind: Kind,
    pub suit: Suit,
}

/// An ordered collection of cards.
pub type Cards = Vec<Card>;

/// Packed byte form of a card: the kind index shifted left by two plus the
/// suit index.
pub open spec fn card_byte(c: Card) -> u8 {
    (kind_index(c.kind) as u8) << ((2 + suit_index(c.suit)) as u8)
}

/// The card denoted by a rank character and a suit character, both
/// case-insensitive; `None` if either character is not part of the token
/// alphabet.
pub open spec fn card_of_chars(c0: char, c1: char) -> Option<Card> {
    match (kind_of_char(c0), suit_of_char(c1)) {
        (Some(k), Some(s)) => Some(Card { kind: k, suit: s }),
        _ => None,
    }
}

/// Whether a string is a concatenation of well-formed two-character card
/// tokens with no separators.
pub open spec fn tokens_valid(s: Seq<char>) -> bool {
    &&& s.len() % 2 == 0
    &&& forall|i: int|
        0 <= i < s.len() / 2 ==> (#[trigger] card_of_chars(s[2 * i], s[2 * i + 1])) is Some
}

/// The cards denoted by a concatenation of well-formed card tokens.
pub open spec fn parsed_cards(s: Seq<char>) -> Seq<Card> {
    Seq::new((s.len() / 2) as nat, |i: int| card_of_chars(s[2 * i], s[2 * i + 1])->Some_0)
}

impl Card {
    /// Numeric rank of this card's kind under the given discipline; the
    /// suit never contributes to the key.
    pub fn order_key(&self, r: AceRanking) -> (k: u8)
        ensures
            k as int == spec_kind_key(self.kind, r),
            k <= 12,
    {
        self.kind.order_key(r)
    }

    /// Packed byte form of the card.
    pub fn to_u8(&self) -> (r: u8)
        ensures
            r == card_byte(*self),
    {
        let shift: u8 = 2 + self.suit.index();
        self.kind.index() << shift
    }

    /// Two-character text token of the card: uppercase rank character then
    /// lowercase suit character.
    pub fn token(&self) -> (r: String)
        ensures
            r@ =~= seq![kind_char(self.kind), suit_char(self.suit)],
    {
        let mut out = String::from_str(self.kind.short_name());
        out.append(self.suit.short_name());
        out
    }
}

/// The card named by two one-character strings, a rank and a suit.
pub fn new(kind_s: &str, suit_s: &str) -> (r: Card)
    requires
        kind_s@.len() == 1,
        kind_of_char(kind_s@[0]) is Some,
        suit_s@.len() == 1,
        suit_of_char(suit_s@[0]) is Some,
    ensures
        Some(r) == card_of_chars(kind_s@[0], suit_s@[0]),
{
    match (kind::from_str(kind_s), suit::from_str(suit_s)) {
        (Some(k), Some(s)) => Card { kind: k, suit: s },
        _ => unreached(),
    }
}

/// The card denoted by a two-character token, case-insensitively; `None`
/// for any other string.
pub fn from_str(s: &str) -> (r: Option<Card>)
    ensures
        r == (if s@.len() == 2 {
            card_of_chars(s@[0], s@[1])
        } else {
            None::<Card>
        }),
{
    if s.unicode_len() != 2 {
        return None;
    }
    let c0 = s.get_char(0);
    let c1 = s.get_char(1);
    match (Kind::from_char(c0), Suit::from_char(c1)) {
        (Some(k), Some(st)) => Some(Card { kind: k, suit: st }),
        _ => None,
    }
}

/// The cards denoted by a concatenation of two-character tokens, e.g.
/// `"AhTd3s7c"`. A string of odd length or with a malformed token is
/// rejected whole.
pub fn parse(s: &str) -> (r: Result<Cards, EngineError>)
    ensures
        match r {
            Ok(cards) => tokens_valid(s@) && cards@ == parsed_cards(s@),
            Err(e) => e == EngineError::ParseError && !tokens_valid(s@),
        },
{
    let n = s.unicode_len();
    if n % 2 != 0 {
        return Err(EngineError::ParseError);
    }
    let count = n / 2;
    let mut cards: Cards = Vec::new();
    let mut i: usize = 0;
    while i < count
        invariant
            n == s@.len(),
            n % 2 == 0,
            count == n / 2,
            i <= count,
            cards@.len() == i,
            forall|j: int|
                0 <= j < i ==> (#[trigger] card_of_chars(s@[2 * j], s@[2 * j + 1]))
                    == Some(cards@[j]),
        decreases count - i,
    {
        let c0 = s.get_char(2 * i);
        let c1 = s.get_char(2 * i + 1);
        match (Kind::from_char(c0), Suit::from_char(c1)) {
            (Some(k), Some(st)) => {
                cards.push(Card { kind: k, suit: st });
            },
            _ => {
                proof {
                    assert(card_of_chars(s@[2 * (i as int)], s@[2 * (i as int) + 1]) is None);
                    assert(!tokens_valid(s@));
                }
                return Err(EngineError::ParseError);
            },
        }
        i += 1;
    }
    proof {
        assert(cards@ =~= parsed_cards(s@));
    }
    Ok(cards)
}

/// Round trip: parsing a card's own token gives the card back.
pub proof fn lemma_card_token_round_trip(c: Card)
    ensures
        card_of_chars(kind_char(c.kind), suit_char(c.suit)) == Some(c),
{
    kind::lemma_kind_char_round_trip(c.kind);
    suit::lemma_suit_char_round_trip(c.suit);
}

/// Lowercase variant of a kind's rank character.
pub open spec fn kind_char_lower(k: Kind) -> char {
    match k {
        Kind::Ten => 't',
        Kind::Jack => 'j',
        Kind::Queen => 'q',
        Kind::King => 'k',
        Kind::Ace => 'a',
        _ => kind_char(k),
    }
}

/// Uppercase variant of a suit's character.
pub open spec fn suit_char_upper(s: Suit) -> char {
    match s {
        Suit::Spade => 'S',
        Suit::Heart => 'H',
        Suit::Diamond => 'D',
        Suit::Club => 'C',
    }
}

/// Parsing is case-insensitive: over the whole token alphabet, a token in
/// either letter case denotes the same card.
pub proof fn lemma_parse_case_insensitive(c: Card)
    ensures
        card_of_chars(kind_char_lower(c.kind), suit_char_upper(c.suit)) == card_of_chars(
            kind_char(c.kind),
            suit_char(c.suit),
        ),
        card_of_chars(kind_char(c.kind), suit_char(c.suit)) == Some(c),
{
    lemma_card_token_round_trip(c);
}

} // verus!
